# specter_bin

The decision core of the specter daemon, a single-threaded driver that watches
files, runs programs when they change and answers operators over a Unix socket.

`src/` holds everything the daemon decides between two system calls, with
contracts that Verus proves:

- `driver` – signals, boot, the turn of the loop, the orders of one engine step
- `driver::reactor` – what a report of the poll means, and the drains behind it
- `driver::reload` – settle deadlines and configuration reloads
- `driver::forward`, `driver::log`, `driver::broker` – where diagnostics go
- `driver::ipc` – operator connections, their lines, their verbs and answers
- `driver::laws` – what holds across verbs, turns and reloads
- `channels`, `ipc`, `model`, `names`, `text`, `time`, `ids` – what these speak of

The engine, the sensor, the configuration parser and the actuator stay outside;
the core reads them as plain values. What it takes on faith of other crates
(`crossbeam`, `humantime`, `serde_json`, `signal-hook`) stands in functions
marked `#[verifier::external_body]`, each with a comment that says what is
believed.

`app/` is the program around the core: sockets, clocks, the poll and the log.
`tests/` runs the core on concrete values.
