//! The configuration as far as the driver decides by it.

use vstd::prelude::*;

verus! {

/// One static watch of the configuration.
#[derive(Debug)]
pub struct WatchSpec {
    pub name: String,
    pub enabled: bool,
}

/// One dynamic watch of the configuration.
#[derive(Debug)]
pub struct PromoterSpec {
    pub name: String,
    pub enabled: bool,
}

/// The configuration: its watches in the order of the file.
#[derive(Debug)]
pub struct Config {
    pub watches: Vec<WatchSpec>,
    pub promoters: Vec<PromoterSpec>,
}

/// Whether a watch of that name is declared, enabled or not.
pub open spec fn declared(watches: Seq<WatchSpec>, name: Seq<char>) -> bool {
    exists|i: int| 0 <= i < watches.len() && (#[trigger] watches[i]).name@ == name
}

/// Whether a watch of that name is declared and switched off.
pub open spec fn switched_off(watches: Seq<WatchSpec>, name: Seq<char>) -> bool {
    exists|i: int|
        0 <= i < watches.len() && (#[trigger] watches[i]).name@ == name && !watches[i].enabled
}

/// One more watch is declared under its own name and no other, enabled or not,
/// and under that name switched off unless it is enabled. Nothing that was
/// declared or switched off before stops being so.
pub proof fn law_each_watch_is_declared_under_its_name(
    watches: Seq<WatchSpec>,
    more: WatchSpec,
    name: Seq<char>,
)
    ensures
        declared(watches.push(more), name) <==> declared(watches, name) || more.name@ == name,
        switched_off(watches.push(more), name) <==> switched_off(watches, name) || (more.name@
            == name && !more.enabled),
        !declared(Seq::empty(), name),
        !switched_off(Seq::empty(), name),
{
    let longer = watches.push(more);
    assert(longer[watches.len() as int] == more);
    if declared(watches, name) {
        let i = choose|i: int| 0 <= i < watches.len() && (#[trigger] watches[i]).name@ == name;
        assert(longer[i].name@ == name);
    }
    if switched_off(watches, name) {
        let i = choose|i: int|
            0 <= i < watches.len() && (#[trigger] watches[i]).name@ == name && !watches[i].enabled;
        assert(longer[i].name@ == name && !longer[i].enabled);
    }
    if declared(longer, name) {
        let i = choose|i: int| 0 <= i < longer.len() && (#[trigger] longer[i]).name@ == name;
        if i < watches.len() {
            assert(watches[i].name@ == name);
        }
    }
    if switched_off(longer, name) {
        let i = choose|i: int|
            0 <= i < longer.len() && (#[trigger] longer[i]).name@ == name && !longer[i].enabled;
        if i < watches.len() {
            assert(watches[i].name@ == name && !watches[i].enabled);
        }
    }
}

/// How many watches are switched off.
pub open spec fn off_count(watches: Seq<WatchSpec>) -> nat
    decreases watches.len(),
{
    if watches.len() == 0 {
        0
    } else {
        off_count(watches.drop_last()) + if watches.last().enabled {
            0nat
        } else {
            1nat
        }
    }
}

/// Each watch that is switched off counts, and counts once: one more of them
/// is one more, one that is enabled makes no difference, and the number is
/// that of the watches left over when the enabled ones are taken out.
pub proof fn law_off_watches_are_counted_one_by_one(watches: Seq<WatchSpec>, more: WatchSpec)
    ensures
        off_count(watches) == watches.filter(|w: WatchSpec| !w.enabled).len(),
        off_count(watches.push(more)) == off_count(watches) + (if more.enabled {
            0int
        } else {
            1
        }),
    decreases watches.len(),
{
    reveal(Seq::filter);
    assert(watches.push(more).drop_last() =~= watches);
    if watches.len() > 0 {
        law_off_watches_are_counted_one_by_one(watches.drop_last(), more);
    }
}

impl Config {
    /// The place of the first enabled watch of that name.
    pub fn find_active_watch(&self, name: &str) -> (place: Option<usize>)
        ensures
            match place {
                Some(at) => {
                    &&& at < self.watches@.len()
                    &&& self.watches@[at as int].enabled
                    &&& self.watches@[at as int].name@ == name@
                    &&& forall|i: int|
                        0 <= i < at ==> !((#[trigger] self.watches@[i]).enabled
                            && self.watches@[i].name@ == name@)
                },
                None => forall|i: int|
                    0 <= i < self.watches@.len() ==> !((#[trigger] self.watches@[i]).enabled
                        && self.watches@[i].name@ == name@),
            },
    {
        let mut i: usize = 0;
        while i < self.watches.len()
            invariant
                i <= self.watches@.len(),
                forall|j: int|
                    0 <= j < i ==> !((#[trigger] self.watches@[j]).enabled && self.watches@[j].name@
                        == name@),
            decreases self.watches@.len() - i,
        {
            if self.watches[i].enabled && crate::text::same(self.watches[i].name.as_str(), name) {
                return Some(i);
            }
            i = i + 1;
        }
        None
    }

    /// Whether a watch of that name is declared, enabled or not.
    pub fn declares(&self, name: &str) -> (yes: bool)
        ensures
            yes == declared(self.watches@, name@),
    {
        let mut i: usize = 0;
        while i < self.watches.len()
            invariant
                i <= self.watches@.len(),
                forall|j: int| 0 <= j < i ==> (#[trigger] self.watches@[j]).name@ != name@,
            decreases self.watches@.len() - i,
        {
            if crate::text::same(self.watches[i].name.as_str(), name) {
                return true;
            }
            i = i + 1;
        }
        false
    }

    /// Whether a watch of that name is declared and switched off.
    pub fn switches_off(&self, name: &str) -> (yes: bool)
        ensures
            yes == switched_off(self.watches@, name@),
    {
        let mut i: usize = 0;
        while i < self.watches.len()
            invariant
                i <= self.watches@.len(),
                forall|j: int|
                    0 <= j < i ==> !((#[trigger] self.watches@[j]).name@ == name@
                        && !self.watches@[j].enabled),
            decreases self.watches@.len() - i,
        {
            if !self.watches[i].enabled && crate::text::same(self.watches[i].name.as_str(), name) {
                return true;
            }
            i = i + 1;
        }
        false
    }

    /// How many watches are switched off.
    pub fn count_off(&self) -> (count: usize)
        ensures
            count == off_count(self.watches@),
            count == self.watches@.filter(|w: WatchSpec| !w.enabled).len(),
    {
        let mut count: usize = 0;
        let mut i: usize = 0;
        assert(self.watches@.take(0) =~= Seq::empty());
        while i < self.watches.len()
            invariant
                i <= self.watches@.len(),
                count <= i,
                count == off_count(self.watches@.take(i as int)),
            decreases self.watches@.len() - i,
        {
            if !self.watches[i].enabled {
                count = count + 1;
            }
            i = i + 1;
            assert(self.watches@.take(i as int).drop_last() =~= self.watches@.take(i - 1));
        }
        assert(self.watches@.take(i as int) =~= self.watches@);
        proof {
            law_off_watches_are_counted_one_by_one(
                self.watches@,
                WatchSpec { name: arbitrary(), enabled: true },
            );
        }
        count
    }
}

/// How verbose the log is.
#[derive(Clone, Copy, Debug, PartialEq, Eq, Structural)]
pub enum LogLevel {
    Trace,
    Debug,
    Info,
    Warn,
    Error,
}

/// Where the log goes.
#[derive(Clone, Copy, Debug, PartialEq, Eq, Structural)]
pub enum LogDestination {
    Stderr,
    File,
}

/// How and where the daemon logs.
#[derive(Debug)]
pub struct LogConfig {
    pub level: LogLevel,
    pub destination: LogDestination,
    pub path: Option<String>,
}

/// What identifies one state of a file.
#[derive(Clone, Copy, Debug, PartialEq, Eq, Structural)]
pub struct FileMeta {
    pub inode: u64,
    pub device: u64,
    pub mtime_sec: i64,
    pub mtime_nsec: i64,
    pub size: u64,
    pub mode: u32,
    pub uid: u32,
    pub gid: u32,
}

/// The configuration that runs, how the daemon logs, and the state of the file
/// that was looked at last.
#[derive(Debug)]
pub struct Loader {
    pub current_config: Config,
    pub current_log: LogConfig,
    pub config_meta: FileMeta,
}

impl Loader {
    /// Takes on a new configuration.
    pub fn rotate_apply(&mut self, config: Config, log: LogConfig, meta: FileMeta)
        ensures
            final(self).current_config == config,
            final(self).current_log == log,
            final(self).config_meta == meta,
    {
        self.current_config = config;
        self.current_log = log;
        self.config_meta = meta;
    }

    /// Takes note of a state of the file and keeps the configuration.
    pub fn rotate_meta_only(&mut self, meta: FileMeta)
        ensures
            final(self).config_meta == meta,
            final(self).current_config == old(self).current_config,
            final(self).current_log == old(self).current_log,
    {
        self.config_meta = meta;
    }
}

/// A watch that a reload attaches or changes, by its name and its place in the
/// new configuration.
#[derive(Debug)]
pub struct SubChange {
    pub name: String,
    pub watch: usize,
}

/// What a reload changes of the dynamic watches.
#[derive(Debug)]
pub struct PromoterDiff {
    pub added: Vec<usize>,
    pub removed: Vec<String>,
    pub modified: Vec<usize>,
}

/// What a reload changes.
#[derive(Debug)]
pub struct WatchDiff {
    pub added: Vec<SubChange>,
    pub removed: Vec<String>,
    /// Watches to be taken down and attached anew.
    pub modified_identity: Vec<SubChange>,
    /// Watches to be changed in place.
    pub modified_params: Vec<SubChange>,
    pub promoters: PromoterDiff,
}

/// A change is empty exactly where it names no watch and no dynamic watch, in
/// none of its lists.
pub proof fn law_an_empty_change_names_nothing(diff: WatchDiff)
    ensures
        diff.spec_is_empty() <==> diff.added@.len() + diff.removed@.len()
            + diff.modified_identity@.len() + diff.modified_params@.len()
            + diff.promoters.added@.len() + diff.promoters.removed@.len()
            + diff.promoters.modified@.len() == 0,
{
}

impl WatchDiff {
    /// Whether nothing changes.
    pub open spec fn spec_is_empty(self) -> bool {
        &&& self.added@.len() == 0
        &&& self.removed@.len() == 0
        &&& self.modified_identity@.len() == 0
        &&& self.modified_params@.len() == 0
        &&& self.promoters.added@.len() == 0
        &&& self.promoters.removed@.len() == 0
        &&& self.promoters.modified@.len() == 0
    }

    /// Whether nothing changes.
    pub fn is_empty(&self) -> (empty: bool)
        ensures
            empty == self.spec_is_empty(),
            empty <==> self.added@.len() + self.removed@.len() + self.modified_identity@.len()
                + self.modified_params@.len() + self.promoters.added@.len()
                + self.promoters.removed@.len() + self.promoters.modified@.len() == 0,
    {
        self.added.len() == 0 && self.removed.len() == 0 && self.modified_identity.len() == 0
            && self.modified_params.len() == 0 && self.promoters.added.len() == 0
            && self.promoters.removed.len() == 0 && self.promoters.modified.len() == 0
    }
}

} // verus!
