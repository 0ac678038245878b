//! What whole lookups do, stated over the entries of a process table.
//!
//! A lookup over a table sees the snapshot open, then each entry in turn, then
//! a failed fetch that ends the table ([`table_events`]). The lemmas here say
//! what such a lookup returns and that it leaves no snapshot open.
use vstd::prelude::*;

use crate::lookup::{phase_accepts, run, step_spec, Action, Event, Phase, ProcessEntry};
use crate::name::entry_name;

verus! {

/// The events of a lookup over a table that opens, yields `entries` in this
/// order, and then fails to yield more with the code `end`.
pub open spec fn table_events(entries: Seq<ProcessEntry>, end: i32) -> Seq<Event> {
    seq![Event::Opened] + fetched(entries) + seq![Event::FetchFailed(end)]
}

/// Each entry as the event of its fetch.
pub open spec fn fetched(entries: Seq<ProcessEntry>) -> Seq<Event> {
    entries.map_values(|e: ProcessEntry| Event::Fetched(e))
}

/// The identifier of the first of `entries` named `wanted`, if any is.
pub open spec fn first_match(entries: Seq<ProcessEntry>, wanted: Seq<char>) -> Option<u32>
    decreases entries.len(),
{
    if entries.len() == 0 {
        None
    } else if entry_name(entries[0].exe_file@) == wanted {
        Some(entries[0].pid)
    } else {
        first_match(entries.drop_first(), wanted)
    }
}

/// The actions of a lookup for `wanted` over `events`, from its start.
pub open spec fn lookup_actions(wanted: Seq<char>, events: Seq<Event>) -> Seq<Action> {
    run(Phase::Opening, wanted, events)
}

/// Whether `actions` end with a [`Action::Finish`].
pub open spec fn finished(actions: Seq<Action>) -> bool {
    actions.len() > 0 && actions.last() is Finish
}

/// How many of `actions` release the snapshot.
pub open spec fn releases(actions: Seq<Action>) -> nat
    decreases actions.len(),
{
    if actions.len() == 0 {
        0
    } else {
        (if actions[0] matches Action::Finish { release: true, .. } {
            1nat
        } else {
            0nat
        }) + releases(actions.drop_first())
    }
}

proof fn lemma_run_cons(phase: Phase, wanted: Seq<char>, events: Seq<Event>)
    requires
        events.len() > 0,
        phase_accepts(phase, events[0]),
    ensures
        ({
            let (next, action) = step_spec(phase, wanted, events[0]);
            &&& run(phase, wanted, events).len() > 0
            &&& run(phase, wanted, events)[0] == action
            &&& run(phase, wanted, events).drop_first() == run(next, wanted, events.drop_first())
        }),
{
    let (next, action) = step_spec(phase, wanted, events[0]);
    assert((seq![action] + run(next, wanted, events.drop_first())).drop_first()
        =~= run(next, wanted, events.drop_first()));
}

/// A lookup with its snapshot open, fed `entries` and then the end of the table.
proof fn lemma_scan(phase: Phase, wanted: Seq<char>, entries: Seq<ProcessEntry>, end: i32)
    requires
        phase is Scanning || (phase is AwaitingFirst && entries.len() > 0),
    ensures
        finished(run(phase, wanted, fetched(entries) + seq![Event::FetchFailed(end)])),
        run(phase, wanted, fetched(entries) + seq![Event::FetchFailed(end)]).last()
            == (Action::Finish { release: true, result: Ok(first_match(entries, wanted)) }),
    decreases entries.len(),
{
    let events = fetched(entries) + seq![Event::FetchFailed(end)];
    let acts = run(phase, wanted, events);
    lemma_run_cons(phase, wanted, events);
    if entries.len() == 0 {
        assert(events[0] == Event::FetchFailed(end));
        assert(events.drop_first() =~= Seq::<Event>::empty());
        assert(acts.drop_first() =~= Seq::<Action>::empty());
    } else {
        assert(events[0] == Event::Fetched(entries[0]));
        if entry_name(entries[0].exe_file@) != wanted {
            let rest = entries.drop_first();
            assert(events.drop_first() =~= fetched(rest) + seq![Event::FetchFailed(end)]);
            lemma_scan(Phase::Scanning, wanted, rest, end);
            assert(acts.last() == acts.drop_first().last());
        } else {
            assert(!phase_accepts(Phase::Done, events.drop_first()[0]));
            assert(acts.drop_first() =~= Seq::<Action>::empty());
        }
    }
}

/// A lookup over a table with at least one entry finishes, releases the
/// snapshot, and returns the identifier of the first entry named `wanted`, or
/// none when no entry is.
pub proof fn lemma_table_lookup(wanted: Seq<char>, entries: Seq<ProcessEntry>, end: i32)
    requires
        entries.len() > 0,
    ensures
        finished(lookup_actions(wanted, table_events(entries, end))),
        lookup_actions(wanted, table_events(entries, end)).last()
            == (Action::Finish { release: true, result: Ok(first_match(entries, wanted)) }),
{
    let events = table_events(entries, end);
    lemma_run_cons(Phase::Opening, wanted, events);
    assert(events.drop_first() =~= fetched(entries) + seq![Event::FetchFailed(end)]);
    lemma_scan(Phase::AwaitingFirst, wanted, entries, end);
}

proof fn lemma_first_match_none(entries: Seq<ProcessEntry>, wanted: Seq<char>)
    requires
        forall|i: int| 0 <= i < entries.len() ==> entry_name(#[trigger] entries[i].exe_file@) != wanted,
    ensures
        first_match(entries, wanted) is None,
    decreases entries.len(),
{
    if entries.len() > 0 {
        assert(entry_name(entries[0].exe_file@) != wanted);
        let rest = entries.drop_first();
        assert forall|i: int| 0 <= i < rest.len() implies entry_name(#[trigger] rest[i].exe_file@) != wanted by {
            assert(rest[i] == entries[i + 1]);
        }
        lemma_first_match_none(rest, wanted);
    }
}

proof fn lemma_first_match_at(entries: Seq<ProcessEntry>, wanted: Seq<char>, k: int)
    requires
        0 <= k < entries.len(),
        entry_name(entries[k].exe_file@) == wanted,
        forall|j: int| 0 <= j < k ==> entry_name(#[trigger] entries[j].exe_file@) != wanted,
    ensures
        first_match(entries, wanted) == Some(entries[k].pid),
    decreases k,
{
    if k > 0 {
        assert(entry_name(entries[0].exe_file@) != wanted);
        let rest = entries.drop_first();
        assert forall|j: int| 0 <= j < k - 1 implies entry_name(#[trigger] rest[j].exe_file@) != wanted by {
            assert(rest[j] == entries[j + 1]);
        }
        lemma_first_match_at(rest, wanted, k - 1);
    }
}

proof fn lemma_first_match_prefix(entries: Seq<ProcessEntry>, wanted: Seq<char>, k: int)
    requires
        0 <= k < entries.len(),
        entry_name(entries[k].exe_file@) == wanted,
    ensures
        first_match(entries, wanted) == first_match(entries.subrange(0, k + 1), wanted),
    decreases k,
{
    let pre = entries.subrange(0, k + 1);
    assert(pre[0] == entries[0]);
    if k > 0 && entry_name(entries[0].exe_file@) != wanted {
        let rest = entries.drop_first();
        assert(pre.drop_first() =~= rest.subrange(0, k));
        assert(rest[k - 1] == entries[k]);
        lemma_first_match_prefix(rest, wanted, k - 1);
    }
}

/// A lookup for a name that no entry of the table carries returns no
/// identifier.
pub proof fn lemma_unknown_name_not_found(wanted: Seq<char>, entries: Seq<ProcessEntry>, end: i32)
    requires
        entries.len() > 0,
        forall|i: int| 0 <= i < entries.len() ==> entry_name(#[trigger] entries[i].exe_file@) != wanted,
    ensures
        lookup_actions(wanted, table_events(entries, end)).last()
            == (Action::Finish { release: true, result: Ok(None::<u32>) }),
{
    lemma_first_match_none(entries, wanted);
    lemma_table_lookup(wanted, entries, end);
}

/// Where several entries carry the wanted name, a lookup returns the
/// identifier of the one that comes first in the table.
pub proof fn lemma_first_match_wins(wanted: Seq<char>, entries: Seq<ProcessEntry>, end: i32, k: int)
    requires
        0 <= k < entries.len(),
        entry_name(entries[k].exe_file@) == wanted,
        forall|j: int| 0 <= j < k ==> entry_name(#[trigger] entries[j].exe_file@) != wanted,
    ensures
        lookup_actions(wanted, table_events(entries, end)).last()
            == (Action::Finish { release: true, result: Ok(Some(entries[k].pid)) }),
{
    lemma_first_match_at(entries, wanted, k);
    lemma_table_lookup(wanted, entries, end);
}

/// Where a single entry carries the wanted name (as a running program's own
/// entry carries its executable's name), a lookup returns that entry's
/// identifier.
pub proof fn lemma_sole_holder_found(wanted: Seq<char>, entries: Seq<ProcessEntry>, end: i32, k: int)
    requires
        0 <= k < entries.len(),
        entry_name(entries[k].exe_file@) == wanted,
        forall|j: int| 0 <= j < entries.len() && j != k ==> entry_name(#[trigger] entries[j].exe_file@) != wanted,
    ensures
        lookup_actions(wanted, table_events(entries, end)).last()
            == (Action::Finish { release: true, result: Ok(Some(entries[k].pid)) }),
{
    lemma_first_match_wins(wanted, entries, end, k);
}

/// Two lookups over tables that agree up to and including an entry named
/// `wanted` return the same identifier, whatever either table holds after it
/// and however either ends: so repeated lookups return the same identifier
/// while that entry stays where it is.
pub proof fn lemma_result_fixed_by_prefix(
    wanted: Seq<char>,
    first: Seq<ProcessEntry>,
    first_end: i32,
    second: Seq<ProcessEntry>,
    second_end: i32,
    k: int,
)
    requires
        0 <= k < first.len(),
        k < second.len(),
        first.subrange(0, k + 1) == second.subrange(0, k + 1),
        entry_name(first[k].exe_file@) == wanted,
    ensures
        lookup_actions(wanted, table_events(first, first_end)).last()
            == lookup_actions(wanted, table_events(second, second_end)).last(),
{
    assert(second[k] == second.subrange(0, k + 1)[k]);
    lemma_first_match_prefix(first, wanted, k);
    lemma_first_match_prefix(second, wanted, k);
    lemma_table_lookup(wanted, first, first_end);
    lemma_table_lookup(wanted, second, second_end);
}

/// A name that stands inside an entry's name but is shorter than it does not
/// match that entry: a lookup that fetches the entry goes on to the next one.
pub proof fn lemma_partial_name_never_matches(
    wanted: Seq<char>,
    entry: ProcessEntry,
    start: int,
    phase: Phase,
)
    requires
        0 <= start,
        start + wanted.len() <= entry_name(entry.exe_file@).len(),
        entry_name(entry.exe_file@).subrange(start, start + wanted.len()) == wanted,
        wanted.len() < entry_name(entry.exe_file@).len(),
        phase is AwaitingFirst || phase is Scanning,
    ensures
        entry_name(entry.exe_file@) != wanted,
        step_spec(phase, wanted, Event::Fetched(entry)) == (Phase::Scanning, Action::FetchNext),
{
}

proof fn lemma_open_releases(phase: Phase, wanted: Seq<char>, events: Seq<Event>)
    requires
        phase is AwaitingFirst || phase is Scanning,
    ensures
        ({
            let acts = run(phase, wanted, events);
            &&& releases(acts) <= 1
            &&& finished(acts) ==> releases(acts) == 1
            &&& forall|i: int| 0 <= i < acts.len() - 1 ==> !(#[trigger] acts[i] is Finish)
        }),
    decreases events.len(),
{
    let acts = run(phase, wanted, events);
    if events.len() > 0 && phase_accepts(phase, events[0]) {
        lemma_run_cons(phase, wanted, events);
        let next = step_spec(phase, wanted, events[0]).0;
        let rest = run(next, wanted, events.drop_first());
        if next is Done {
            assert(rest =~= Seq::<Action>::empty());
            assert(acts.drop_first() =~= Seq::<Action>::empty());
            assert(releases(acts.drop_first()) == 0);
        } else {
            lemma_open_releases(next, wanted, events.drop_first());
            assert forall|i: int| 0 <= i < acts.len() - 1 implies !(#[trigger] acts[i] is Finish) by {
                if i > 0 {
                    assert(acts[i] == rest[i - 1]);
                }
            }
            if rest.len() > 0 {
                assert(acts.last() == rest.last());
            }
        }
    }
}

/// Every lookup releases the snapshot at most once, and nothing follows its
/// last action: once it has finished, it has released the snapshot exactly
/// when the snapshot was opened. No lookup leaves a snapshot open.
pub proof fn lemma_snapshot_released_once(wanted: Seq<char>, events: Seq<Event>)
    ensures
        ({
            let acts = lookup_actions(wanted, events);
            &&& releases(acts) <= 1
            &&& finished(acts) ==> releases(acts) == (if events[0] is Opened { 1nat } else { 0nat })
            &&& forall|i: int| 0 <= i < acts.len() - 1 ==> !(#[trigger] acts[i] is Finish)
        }),
{
    let acts = lookup_actions(wanted, events);
    if events.len() > 0 && phase_accepts(Phase::Opening, events[0]) {
        lemma_run_cons(Phase::Opening, wanted, events);
        let next = step_spec(Phase::Opening, wanted, events[0]).0;
        let rest = run(next, wanted, events.drop_first());
        if next is Done {
            assert(rest =~= Seq::<Action>::empty());
            assert(acts.drop_first() =~= Seq::<Action>::empty());
            assert(releases(acts.drop_first()) == 0);
        } else {
            lemma_open_releases(next, wanted, events.drop_first());
            assert forall|i: int| 0 <= i < acts.len() - 1 implies !(#[trigger] acts[i] is Finish) by {
                if i > 0 {
                    assert(acts[i] == rest[i - 1]);
                }
            }
            if rest.len() > 0 {
                assert(acts.last() == rest.last());
            }
        }
    }
}

} // verus!
