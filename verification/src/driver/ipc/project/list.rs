//! The `list` verb: every watch the daemon knows of, one row each.

use vstd::prelude::*;
use crate::driver::ipc::project;
use crate::driver::state::DriverState;
use crate::ipc::protocol;
use crate::ipc::protocol::{DisabledSource, ListResponse, ListRow, ListRowView};
use crate::model::config;
use crate::model::config::{Config, WatchSpec};
use crate::model::engine;
use crate::model::engine::{EngineView, SubRecord};
use crate::names;
use crate::names::{NameOrder, NameSet};
use crate::text;

verus! {

/// The row of an attached watch.
pub open spec fn attached_row(sub: SubRecord, view: EngineView, ds: DriverState) -> ListRowView {
    let profile = engine::keyed(view.profiles@, sub.profile);
    ListRowView {
        name: sub.name@,
        state: match profile {
            Some(p) => Some(p.state@),
            None => None,
        },
        anchor: match profile {
            Some(p) => text::opt(p.anchor),
            None => None,
        },
        last_fired_at: project::fired_wall(sub, ds),
        fire_count: match sub.history {
            Some(h) => Some(h.fire_count),
            None => None,
        },
        dedup_suppressed_count: match sub.history {
            Some(h) => Some(h.dedup_suppressed_count),
            None => None,
        },
        settle_ms: Some(sub.settle_ms),
        reaction: Some(sub.reaction),
        disabled: None,
        sub: Some(sub.id),
        profile: Some(sub.profile),
        minted_by: sub.minted_by,
    }
}

/// The row of a watch that is not attached.
pub open spec fn detached_row(name: Seq<char>, source: DisabledSource) -> ListRowView {
    ListRowView {
        name,
        state: None,
        anchor: None,
        last_fired_at: None,
        fire_count: None,
        dedup_suppressed_count: None,
        settle_ms: None,
        reaction: None,
        disabled: Some(source),
        sub: None,
        profile: None,
        minted_by: None,
    }
}

/// The row of an attached watch tells what the record holds, column by column;
/// what the engine does not know is missing, and the watch is not off.
pub proof fn law_a_row_is_that_of_the_record(sub: SubRecord, view: EngineView, ds: DriverState)
    ensures
        ({
            let row = attached_row(sub, view, ds);
            let profile = engine::keyed(view.profiles@, sub.profile);
            &&& row.name == sub.name@
            &&& row.sub == Some(sub.id)
            &&& row.profile == Some(sub.profile)
            &&& row.settle_ms == Some(sub.settle_ms)
            &&& row.reaction == Some(sub.reaction)
            &&& row.minted_by == sub.minted_by
            &&& row.disabled is None
            &&& sub.history matches Some(h) ==> {
                &&& row.fire_count == Some(h.fire_count)
                &&& row.dedup_suppressed_count == Some(h.dedup_suppressed_count)
                &&& row.last_fired_at is Some <==> h.last_fired_at is Some
            }
            &&& sub.history is None ==> row.fire_count is None && row.dedup_suppressed_count is None
                && row.last_fired_at is None
            &&& profile matches Some(p) ==> row.state == Some(p.state@) && row.anchor == text::opt(
                p.anchor,
            )
            &&& profile is None ==> row.state is None && row.anchor is None
        }),
{
}

/// The row of a watch that is not attached tells its name and why, and nothing
/// that only the engine knows.
pub proof fn law_a_detached_row_tells_only_why(name: Seq<char>, source: DisabledSource)
    ensures
        ({
            let row = detached_row(name, source);
            &&& row.name == name
            &&& row.disabled == Some(source)
            &&& row.sub is None
            &&& row.profile is None
            &&& row.state is None
            &&& row.anchor is None
            &&& row.last_fired_at is None
            &&& row.fire_count is None
            &&& row.dedup_suppressed_count is None
            &&& row.settle_ms is None
            &&& row.reaction is None
            &&& row.minted_by is None
        }),
{
}

/// The rows of the attached watches, by name.
pub open spec fn attached_rows(
    subs: Seq<SubRecord>,
    view: EngineView,
    ds: DriverState,
) -> Map<Seq<char>, ListRowView> {
    Map::new(
        |name: Seq<char>| engine::named(subs, name) is Some,
        |name: Seq<char>| attached_row(engine::named(subs, name)->0, view, ds),
    )
}

/// The rows of the watches an operator switched off, by name.
pub open spec fn runtime_rows(disabled: Set<Seq<char>>) -> Map<Seq<char>, ListRowView> {
    Map::new(
        |name: Seq<char>| disabled.contains(name),
        |name: Seq<char>| detached_row(name, DisabledSource::Runtime),
    )
}

/// The rows of the watches the configuration switches off, by name.
pub open spec fn toml_rows(watches: Seq<WatchSpec>) -> Map<Seq<char>, ListRowView> {
    Map::new(
        |name: Seq<char>| config::switched_off(watches, name),
        |name: Seq<char>| detached_row(name, DisabledSource::Toml),
    )
}

/// All rows, by name. Where sources disagree on a name, the engine is right,
/// then the operator, then the configuration.
pub open spec fn all_rows(
    view: EngineView,
    ds: DriverState,
    disabled: Set<Seq<char>>,
    watches: Seq<WatchSpec>,
) -> Map<Seq<char>, ListRowView> {
    toml_rows(watches).union_prefer_right(runtime_rows(disabled)).union_prefer_right(
        attached_rows(view.subs@, view, ds),
    )
}

/// Whether the rows stand in strictly alphabetic order of their names.
pub open spec fn alphabetic(rows: Seq<ListRow>) -> bool {
    forall|i: int, j: int|
        0 <= i < j < rows.len() ==> names::name_lt(
            (#[trigger] rows[i]).name@,
            (#[trigger] rows[j]).name@,
        )
}

/// What the rows say, by name.
pub open spec fn rows_by_name(rows: Seq<ListRow>) -> Map<Seq<char>, ListRowView> {
    Map::new(
        |name: Seq<char>|
            exists|i: int| 0 <= i < rows.len() && (#[trigger] rows[i]).name@ == name,
        |name: Seq<char>|
            rows[choose|i: int| 0 <= i < rows.len() && (#[trigger] rows[i]).name@ == name]@,
    )
}

/// In alphabetic order, the place of a row determines its entry.
proof fn lemma_row_entry(rows: Seq<ListRow>, i: int)
    requires
        alphabetic(rows),
        0 <= i < rows.len(),
    ensures
        rows_by_name(rows).contains_key(rows[i].name@),
        rows_by_name(rows)[rows[i].name@] == rows[i]@,
{
    let name = rows[i].name@;
    let j = choose|j: int| 0 <= j < rows.len() && (#[trigger] rows[j]).name@ == name;
    assert(rows[i].name@ == name);
    assert(0 <= j < rows.len() && rows[j].name@ == name);
    names::lemma_name_lt_irreflexive(name);
    if i < j {
        assert(names::name_lt(rows[i].name@, rows[j].name@));
    } else if j < i {
        assert(names::name_lt(rows[j].name@, rows[i].name@));
    }
}

/// Replacing a row in place replaces its entry.
proof fn lemma_row_update(rows: Seq<ListRow>, i: int, row: ListRow)
    requires
        alphabetic(rows),
        0 <= i < rows.len(),
        row.name@ == rows[i].name@,
    ensures
        alphabetic(rows.update(i, row)),
        rows_by_name(rows.update(i, row)) == rows_by_name(rows).insert(row.name@, row@),
{
    let next = rows.update(i, row);
    assert(alphabetic(next));
    let left = rows_by_name(next);
    let right = rows_by_name(rows).insert(row.name@, row@);
    assert forall|name: Seq<char>| left.contains_key(name) <==> right.contains_key(name) by {
        if left.contains_key(name) {
            let j = choose|j: int| 0 <= j < next.len() && (#[trigger] next[j]).name@ == name;
            assert(rows[j].name@ == name);
        }
        if right.contains_key(name) {
            if name == row.name@ {
                assert(next[i].name@ == name);
            } else {
                let j = choose|j: int| 0 <= j < rows.len() && (#[trigger] rows[j]).name@ == name;
                assert(next[j].name@ == name);
            }
        }
    }
    assert forall|name: Seq<char>| left.contains_key(name) implies left[name] == right[name] by {
        let j = choose|j: int| 0 <= j < next.len() && (#[trigger] next[j]).name@ == name;
        lemma_row_entry(next, j);
        lemma_row_entry(rows, j);
        if j != i {
            names::lemma_name_lt_irreflexive(name);
            if j < i {
                assert(names::name_lt(next[j].name@, next[i].name@));
            } else {
                assert(names::name_lt(next[i].name@, next[j].name@));
            }
        }
    }
    assert(left =~= right);
}

/// Putting a row at its place adds its entry.
proof fn lemma_row_insert(rows: Seq<ListRow>, at: int, row: ListRow)
    requires
        alphabetic(rows),
        0 <= at <= rows.len(),
        forall|i: int| 0 <= i < at ==> names::name_lt((#[trigger] rows[i]).name@, row.name@),
        forall|i: int|
            at <= i < rows.len() ==> names::name_lt(row.name@, (#[trigger] rows[i]).name@),
    ensures
        alphabetic(rows.insert(at, row)),
        rows_by_name(rows.insert(at, row)) == rows_by_name(rows).insert(row.name@, row@),
{
    let next = rows.insert(at, row);
    assert forall|i: int, j: int| 0 <= i < j < next.len() implies names::name_lt(
        (#[trigger] next[i]).name@,
        (#[trigger] next[j]).name@,
    ) by {
        let i0 = if i < at { i } else { i - 1 };
        let j0 = if j < at { j } else { j - 1 };
        if i != at {
            assert(next[i] == rows[i0]);
        }
        if j != at {
            assert(next[j] == rows[j0]);
        }
    }
    let left = rows_by_name(next);
    let right = rows_by_name(rows).insert(row.name@, row@);
    assert forall|name: Seq<char>| left.contains_key(name) <==> right.contains_key(name) by {
        if left.contains_key(name) {
            let j = choose|j: int| 0 <= j < next.len() && (#[trigger] next[j]).name@ == name;
            if j != at {
                let j0 = if j < at { j } else { j - 1 };
                assert(rows[j0] == next[j]);
            }
        }
        if right.contains_key(name) {
            if name == row.name@ {
                assert(next[at].name@ == name);
            } else {
                let j = choose|j: int| 0 <= j < rows.len() && (#[trigger] rows[j]).name@ == name;
                let j0 = if j < at { j } else { j + 1 };
                assert(next[j0] == rows[j]);
            }
        }
    }
    assert forall|name: Seq<char>| left.contains_key(name) implies left[name] == right[name] by {
        let j = choose|j: int| 0 <= j < next.len() && (#[trigger] next[j]).name@ == name;
        lemma_row_entry(next, j);
        if j != at {
            let j0 = if j < at { j } else { j - 1 };
            assert(rows[j0] == next[j]);
            lemma_row_entry(rows, j0);
            names::lemma_name_lt_irreflexive(name);
        }
    }
    assert(left =~= right);
}

/// The place of the row of `name`, or the place where it would stand.
fn place(rows: &Vec<ListRow>, name: &str) -> (at: (usize, bool))
    requires
        alphabetic(rows@),
    ensures
        at.0 <= rows@.len(),
        at.1 == rows_by_name(rows@).contains_key(name@),
        at.1 ==> at.0 < rows@.len() && rows@[at.0 as int].name@ == name@,
        !at.1 ==> forall|i: int|
            0 <= i < at.0 ==> names::name_lt((#[trigger] rows@[i]).name@, name@),
        !at.1 ==> forall|i: int|
            at.0 <= i < rows@.len() ==> names::name_lt(name@, (#[trigger] rows@[i]).name@),
{
    let mut i: usize = 0;
    while i < rows.len()
        invariant
            i <= rows@.len(),
            alphabetic(rows@),
            forall|j: int| 0 <= j < i ==> names::name_lt((#[trigger] rows@[j]).name@, name@),
        decreases rows@.len() - i,
    {
        match names::order_names(rows[i].name.as_str(), name) {
            NameOrder::Before => {},
            NameOrder::Same => {
                return (i, true);
            },
            NameOrder::After => {
                assert forall|j: int| i <= j < rows@.len() implies names::name_lt(
                    name@,
                    (#[trigger] rows@[j]).name@,
                ) by {
                    if j > i {
                        names::lemma_name_lt_transitive(
                            name@,
                            rows@[i as int].name@,
                            rows@[j].name@,
                        );
                    }
                }
                proof {
                    names::lemma_name_lt_irreflexive(name@);
                }
                return (i, false);
            },
        }
        i = i + 1;
    }
    proof {
        names::lemma_name_lt_irreflexive(name@);
    }
    (i, false)
}

/// Puts a row in its place, over one of the same name.
fn put_row(rows: &mut Vec<ListRow>, row: ListRow)
    requires
        alphabetic(old(rows)@),
    ensures
        alphabetic(final(rows)@),
        rows_by_name(final(rows)@) == rows_by_name(old(rows)@).insert(row.name@, row@),
{
    let (at, found): (usize, bool) = place(rows, row.name.as_str());
    if found {
        proof {
            lemma_row_update(rows@, at as int, row);
        }
        rows[at] = row;
    } else {
        proof {
            lemma_row_insert(rows@, at as int, row);
        }
        rows.insert(at, row);
    }
}

/// Puts the row of a watch that is not attached in its place, unless its name
/// has a row already.
fn put_missing(rows: &mut Vec<ListRow>, name: &str, source: DisabledSource)
    requires
        alphabetic(old(rows)@),
    ensures
        alphabetic(final(rows)@),
        rows_by_name(final(rows)@) == (if rows_by_name(old(rows)@).contains_key(name@) {
            rows_by_name(old(rows)@)
        } else {
            rows_by_name(old(rows)@).insert(name@, detached_row(name@, source))
        }),
{
    let (at, found): (usize, bool) = place(rows, name);
    if !found {
        let row = disabled_row(name, source);
        proof {
            lemma_row_insert(rows@, at as int, row);
        }
        rows.insert(at, row);
    }
}

/// Whether `response` is the answer to `list`: the rows of every watch, in
/// alphabetic order, one per name.
pub open spec fn answers(
    response: ListResponse,
    view: EngineView,
    ds: DriverState,
    disabled: Set<Seq<char>>,
    config: Config,
) -> bool {
    &&& alphabetic(response.rows@)
    &&& rows_by_name(response.rows@) == all_rows(view, ds, disabled, config.watches@)
}

/// Every watch has one row and no other name has any: one that is attached
/// shows as attached, whatever else is said of its name; else one that an
/// operator switched off shows as that; else one that the configuration
/// switches off shows as that.
pub proof fn law_every_watch_has_one_row(
    response: ListResponse,
    view: EngineView,
    ds: DriverState,
    disabled: Set<Seq<char>>,
    config: Config,
    name: Seq<char>,
)
    requires
        answers(response, view, ds, disabled, config),
    ensures
        ({
            let rows = rows_by_name(response.rows@);
            let attached = exists|i: int|
                0 <= i < view.subs@.len() && (#[trigger] view.subs@[i]).name@ == name;
            let off = exists|i: int|
                0 <= i < config.watches@.len() && (#[trigger] config.watches@[i]).name@ == name
                    && !config.watches@[i].enabled;
            &&& rows.contains_key(name) <==> attached || disabled.contains(name) || off
            &&& attached ==> rows[name].sub is Some && rows[name].disabled is None
                && rows[name].name == name && (exists|i: int|
                0 <= i < view.subs@.len() && (#[trigger] view.subs@[i]).name@ == name
                    && rows[name].sub == Some(view.subs@[i].id) && forall|j: int|
                    i < j < view.subs@.len() ==> (#[trigger] view.subs@[j]).name@ != name)
            &&& !attached && disabled.contains(name) ==> rows[name].disabled == Some(
                DisabledSource::Runtime,
            ) && rows[name].sub is None && rows[name].name == name
            &&& !attached && !disabled.contains(name) && off ==> rows[name].disabled == Some(
                DisabledSource::Toml,
            ) && rows[name].sub is None && rows[name].name == name
        }),
        forall|i: int, j: int|
            0 <= i < j < response.rows@.len() ==> (#[trigger] response.rows@[i]).name@ != (
            #[trigger] response.rows@[j]).name@ && names::name_lt(
                response.rows@[i].name@,
                response.rows@[j].name@,
            ),
{
    engine::lemma_named_iff_present(view.subs@, name);
    let all = all_rows(view, ds, disabled, config.watches@);
    assert(all.contains_key(name) <==> engine::named(view.subs@, name) is Some
        || disabled.contains(name) || config::switched_off(config.watches@, name));
    if let Some(sub) = engine::named(view.subs@, name) {
        engine::law_the_last_of_a_name_is_found(view.subs@, sub, name);
        let i = choose|i: int|
            {
                &&& 0 <= i < view.subs@.len()
                &&& (#[trigger] view.subs@[i]) == sub
                &&& sub.name@ == name
                &&& forall|j: int|
                    i < j < view.subs@.len() ==> (#[trigger] view.subs@[j]).name@ != name
            };
        assert(view.subs@[i].name@ == name);
    }
    assert forall|i: int, j: int| 0 <= i < j < response.rows@.len() implies (
    #[trigger] response.rows@[i]).name@ != (#[trigger] response.rows@[j]).name@ && names::name_lt(
        response.rows@[i].name@,
        response.rows@[j].name@,
    ) by {
        names::lemma_name_lt_irreflexive(response.rows@[i].name@);
        assert(names::name_lt(response.rows@[i].name@, response.rows@[j].name@));
    }
}

/// Two lists in alphabetic order that have the same names have them at the
/// same places, as far as the first goes.
proof fn lemma_same_places(a: Seq<ListRow>, b: Seq<ListRow>, n: int)
    requires
        alphabetic(a),
        alphabetic(b),
        rows_by_name(a) == rows_by_name(b),
        0 <= n <= a.len(),
    ensures
        n <= b.len(),
        forall|i: int| 0 <= i < n ==> (#[trigger] a[i]).name@ == b[i].name@,
    decreases n,
{
    if n > 0 {
        let i = n - 1;
        lemma_same_places(a, b, i);
        lemma_row_entry(a, i);
        let name = a[i].name@;
        assert(rows_by_name(b).contains_key(name));
        let j = choose|j: int| 0 <= j < b.len() && (#[trigger] b[j]).name@ == name;
        names::lemma_name_lt_irreflexive(name);
        if j < i {
            assert(names::name_lt(a[j].name@, a[i].name@));
        }
        if j > i {
            let other = b[i].name@;
            assert(names::name_lt(b[i].name@, b[j].name@));
            names::lemma_name_lt_irreflexive(other);
            lemma_row_entry(b, i);
            assert(rows_by_name(a).contains_key(other));
            let k = choose|k: int| 0 <= k < a.len() && (#[trigger] a[k]).name@ == other;
            if k < i {
                assert(names::name_lt(b[k].name@, b[i].name@));
            }
            if k > i {
                assert(names::name_lt(a[i].name@, a[k].name@));
                names::lemma_name_lt_transitive(name, other, name);
            }
        }
    }
}

/// The state of the daemon determines the answer to `list`, the order of its
/// rows included.
pub proof fn law_list_is_determined(
    first: ListResponse,
    second: ListResponse,
    view: EngineView,
    ds: DriverState,
    disabled: Set<Seq<char>>,
    config: Config,
)
    requires
        answers(first, view, ds, disabled, config),
        answers(second, view, ds, disabled, config),
    ensures
        protocol::same_list(first, second),
{
    let a = first.rows@;
    let b = second.rows@;
    lemma_same_places(a, b, a.len() as int);
    lemma_same_places(b, a, b.len() as int);
    assert forall|i: int| 0 <= i < a.len() implies (#[trigger] a[i])@ == b[i]@ by {
        lemma_row_entry(a, i);
        lemma_row_entry(b, i);
    }
}

/// Answers `list`.
pub fn list(
    view: &EngineView,
    ds: &DriverState,
    disabled_runtime: &NameSet,
    config: &Config,
) -> (response: ListResponse)
    requires
        project::clock_fits(*view, *ds),
    ensures
        answers(response, *view, *ds, disabled_runtime@, *config),
{
    let mut rows: Vec<ListRow> = Vec::new();
    let mut i: usize = 0;
    assert(view.subs@.take(0) =~= Seq::empty());
    assert(rows_by_name(rows@) =~= attached_rows(view.subs@.take(0), *view, *ds));
    while i < view.subs.len()
        invariant
            i <= view.subs@.len(),
            project::clock_fits(*view, *ds),
            alphabetic(rows@),
            rows_by_name(rows@) == attached_rows(view.subs@.take(i as int), *view, *ds),
        decreases view.subs@.len() - i,
    {
        let row = project_attached(&view.subs[i], view, ds);
        let ghost said = row@;
        put_row(&mut rows, row);
        proof {
            let done = view.subs@.take(i as int);
            let next = view.subs@.take(i + 1);
            assert(next.drop_last() =~= done);
            assert(attached_rows(next, *view, *ds) =~= attached_rows(done, *view, *ds).insert(
                said.name,
                said,
            ));
        }
        i = i + 1;
    }
    assert(view.subs@.take(i as int) =~= view.subs@);
    let ghost attached = attached_rows(view.subs@, *view, *ds);
    let mut j: usize = 0;
    assert(rows_by_name(rows@) =~= runtime_rows(
        names::name_set(disabled_runtime.names@.take(0)),
    ).union_prefer_right(attached));
    while j < disabled_runtime.names.len()
        invariant
            j <= disabled_runtime.names@.len(),
            alphabetic(rows@),
            rows_by_name(rows@) == runtime_rows(
                names::name_set(disabled_runtime.names@.take(j as int)),
            ).union_prefer_right(attached),
        decreases disabled_runtime.names@.len() - j,
    {
        put_missing(&mut rows, disabled_runtime.names[j].as_str(), DisabledSource::Runtime);
        proof {
            let done = disabled_runtime.names@.take(j as int);
            let next = disabled_runtime.names@.take(j + 1);
            let name = disabled_runtime.names@[j as int]@;
            assert forall|n: Seq<char>| names::name_set(next).contains(n) <==> names::name_set(
                done,
            ).contains(n) || n == name by {
                if names::name_set(next).contains(n) {
                    let k = choose|k: int| 0 <= k < next.len() && (#[trigger] next[k])@ == n;
                    if k < done.len() {
                        assert(done[k] == next[k]);
                    }
                }
                if names::name_set(done).contains(n) {
                    let k = choose|k: int| 0 <= k < done.len() && (#[trigger] done[k])@ == n;
                    assert(next[k] == done[k]);
                }
                if n == name {
                    assert(next[j as int]@ == n);
                }
            }
            assert(rows_by_name(rows@) =~= runtime_rows(names::name_set(next)).union_prefer_right(
                attached,
            ));
        }
        j = j + 1;
    }
    assert(disabled_runtime.names@.take(j as int) =~= disabled_runtime.names@);
    let ghost known = runtime_rows(disabled_runtime@).union_prefer_right(attached);
    let mut k: usize = 0;
    assert(rows_by_name(rows@) =~= toml_rows(config.watches@.take(0)).union_prefer_right(known));
    while k < config.watches.len()
        invariant
            k <= config.watches@.len(),
            alphabetic(rows@),
            rows_by_name(rows@) == toml_rows(config.watches@.take(k as int)).union_prefer_right(
                known,
            ),
        decreases config.watches@.len() - k,
    {
        let off: bool = !config.watches[k].enabled;
        if off {
            put_missing(&mut rows, config.watches[k].name.as_str(), DisabledSource::Toml);
        }
        proof {
            let done = config.watches@.take(k as int);
            let next = config.watches@.take(k + 1);
            let name = config.watches@[k as int].name@;
            assert forall|n: Seq<char>| config::switched_off(next, n) <==> config::switched_off(
                done,
                n,
            ) || (off && n == name) by {
                if config::switched_off(next, n) {
                    let m = choose|m: int|
                        0 <= m < next.len() && (#[trigger] next[m]).name@ == n && !next[m].enabled;
                    if m < done.len() {
                        assert(done[m] == next[m]);
                    }
                }
                if config::switched_off(done, n) {
                    let m = choose|m: int|
                        0 <= m < done.len() && (#[trigger] done[m]).name@ == n && !done[m].enabled;
                    assert(next[m] == done[m]);
                }
                if off && n == name {
                    assert(next[k as int].name@ == n);
                }
            }
            assert(rows_by_name(rows@) =~= toml_rows(next).union_prefer_right(known));
        }
        k = k + 1;
    }
    proof {
        assert(config.watches@.take(k as int) =~= config.watches@);
        assert(toml_rows(config.watches@).union_prefer_right(known) =~= all_rows(
            *view,
            *ds,
            disabled_runtime@,
            config.watches@,
        ));
    }
    ListResponse { rows }
}

/// The row of an attached watch. A profile the engine lost shows as missing
/// state and anchor.
pub fn project_attached(sub: &SubRecord, view: &EngineView, ds: &DriverState) -> (row: ListRow)
    requires
        project::fired_fits(*sub, *ds),
    ensures
        row@ == attached_row(*sub, *view, *ds),
{
    let (state, anchor): (Option<String>, Option<String>) = match view.profile(sub.profile) {
        Some(p) => (Some(p.state.clone()), text::clone_opt(&p.anchor)),
        None => (None, None),
    };
    let (fire_count, dedup_suppressed_count): (Option<u64>, Option<u64>) = match sub.history {
        Some(h) => (Some(h.fire_count), Some(h.dedup_suppressed_count)),
        None => (None, None),
    };
    ListRow {
        name: sub.name.clone(),
        state,
        anchor,
        last_fired_at: project::last_fired_wall(sub, ds),
        fire_count,
        dedup_suppressed_count,
        settle_ms: Some(sub.settle_ms),
        reaction: Some(sub.reaction),
        disabled: None,
        sub: Some(sub.id),
        profile: Some(sub.profile),
        minted_by: sub.minted_by,
    }
}

/// The row of a watch that is not attached: only its name and why.
pub fn disabled_row(name: &str, source: DisabledSource) -> (row: ListRow)
    ensures
        row@ == detached_row(name@, source),
{
    ListRow {
        name: name.to_owned(),
        state: None,
        anchor: None,
        last_fired_at: None,
        fire_count: None,
        dedup_suppressed_count: None,
        settle_ms: None,
        reaction: None,
        disabled: Some(source),
        sub: None,
        profile: None,
        minted_by: None,
    }
}

} // verus!
