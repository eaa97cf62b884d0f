//! The life of folder loads, as a transition system: what the workers and
//! the drawing loop of one load can do to it, step by step and in any
//! order, and how a new load supersedes the old one.
//!
//! The steps are those of the executable code: a worker's step is
//! `worker_step`, a tick proceeds by `tick_begin` and `tick_absorb`. What
//! is proved here holds of every interleaving of them.

use vstd::prelude::*;
use vstd::seq_lib::{to_multiset_build, to_multiset_remove};
use crate::channel::PollView;
use crate::pipeline::{raises_flag, worker_step, WorkerStep};
use crate::sink::{
    entry_for, flow_of, tick_absorb, tick_begin, ControlFlow, TickModel, TickState, BATCH_SIZE,
};
use crate::thumbnail::{GridEntryView, PendingView, ThumbnailView};

verus! {

/// One folder load.
pub ghost struct LoadModel {
    /// The load's flag.
    pub cancelled: bool,
    /// The paths that no worker has taken up yet. The workers hold the
    /// sending end of the channel until none is left.
    pub waiting: Seq<Seq<char>>,
    /// What was sent and not yet polled, oldest first.
    pub channel: Seq<PendingView>,
    /// Whether the drawing loop still comes back for this load. When it
    /// does not, the receiving end of the channel is gone.
    pub sink_live: bool,
    /// The tick that is under way, if one is.
    pub tick: Option<TickModel>,
    /// What the drawing loop has rendered of this load.
    pub rendered: Seq<GridEntryView>,
    /// The results that workers have had ready, each with the path it
    /// belongs to, in the order in which they were found.
    pub found: Seq<PendingView>,
}

/// What can happen to a load.
pub ghost enum LoadEvent {
    /// A worker takes up the waiting path at `index`. It saw the flag as
    /// `saw_cancelled` at the start; if it asked, the cache or the decoder
    /// gave it `thumbnail`; and before sending it saw the flag as
    /// `saw_cancelled_later`.
    Worker {
        index: int,
        saw_cancelled: bool,
        thumbnail: Option<ThumbnailView>,
        saw_cancelled_later: bool,
    },
    /// The drawing loop starts a tick and reads the flag.
    TickBegins,
    /// The tick under way polls the channel once.
    Polls,
    /// The tick under way ends and its entries are rendered.
    TickEnds,
}

/// A load at its start, with the paths to decode.
pub open spec fn load_start(paths: Seq<Seq<char>>) -> LoadModel {
    LoadModel {
        cancelled: false,
        waiting: paths,
        channel: Seq::empty(),
        sink_live: true,
        tick: None,
        rendered: Seq::empty(),
        found: Seq::empty(),
    }
}

/// What a poll of the channel gives: the oldest message; or, with nothing
/// waiting, `Disconnected` once the workers are done, and `Empty` before.
pub open spec fn next_poll(load: LoadModel) -> PollView {
    if load.channel.len() > 0 {
        PollView::Item(load.channel[0])
    } else if load.waiting.len() == 0 {
        PollView::Disconnected
    } else {
        PollView::Empty
    }
}

/// Whether `event` can happen to `load`. A worker needs a path to take up
/// and cannot see a flag raised that is not, though it may miss one that
/// was raised a moment ago; a tick needs a drawing loop that still comes
/// back, polls only while it wants to, and ends only when it is over.
pub open spec fn load_enabled(load: LoadModel, event: LoadEvent) -> bool {
    match event {
        LoadEvent::Worker { index, saw_cancelled, thumbnail, saw_cancelled_later } => {
            &&& 0 <= index < load.waiting.len()
            &&& saw_cancelled ==> load.cancelled
            &&& saw_cancelled_later ==> load.cancelled
        },
        LoadEvent::TickBegins => load.sink_live && load.tick is None,
        LoadEvent::Polls => load.tick matches Some(tick) && tick.state == TickState::Polling,
        LoadEvent::TickEnds => load.tick matches Some(tick) && tick.state != TickState::Polling,
    }
}

/// Whether a step had a thumbnail in hand, sent or not.
pub open spec fn has_result(step: WorkerStep) -> bool {
    step == WorkerStep::Discarded || step == WorkerStep::Sent || step == WorkerStep::ReceiverGone
}

/// The load after `event`.
pub open spec fn load_step(load: LoadModel, event: LoadEvent) -> LoadModel {
    match event {
        LoadEvent::Worker { index, saw_cancelled, thumbnail, saw_cancelled_later } => {
            let step = worker_step(
                saw_cancelled,
                thumbnail is Some,
                saw_cancelled_later,
                load.sink_live,
            );
            let item = PendingView { thumbnail: thumbnail->0, path: load.waiting[index] };
            LoadModel {
                waiting: load.waiting.remove(index),
                channel: if step == WorkerStep::Sent {
                    load.channel.push(item)
                } else {
                    load.channel
                },
                cancelled: load.cancelled || raises_flag(step),
                found: if has_result(step) {
                    load.found.push(item)
                } else {
                    load.found
                },
                ..load
            }
        },
        LoadEvent::TickBegins => LoadModel { tick: Some(tick_begin(load.cancelled)), ..load },
        LoadEvent::Polls => {
            let polled = next_poll(load);
            LoadModel {
                tick: Some(tick_absorb(load.tick->0, polled)),
                channel: if polled is Item {
                    load.channel.drop_first()
                } else {
                    load.channel
                },
                ..load
            }
        },
        LoadEvent::TickEnds => {
            let tick = load.tick->0;
            LoadModel {
                tick: None,
                rendered: load.rendered + tick.entries,
                sink_live: flow_of(tick.state) == ControlFlow::Continue,
                cancelled: load.cancelled || tick.state == TickState::Disconnected,
                ..load
            }
        },
    }
}

/// The load after a history of events; one that cannot happen is passed over.
pub open spec fn load_run(start: LoadModel, events: Seq<LoadEvent>) -> LoadModel
    decreases events.len(),
{
    if events.len() == 0 {
        start
    } else {
        let before = load_run(start, events.drop_last());
        if load_enabled(before, events.last()) {
            load_step(before, events.last())
        } else {
            before
        }
    }
}

/// The entries of the tick under way.
pub open spec fn in_tick(load: LoadModel) -> Seq<GridEntryView> {
    match load.tick {
        Some(tick) => tick.entries,
        None => Seq::empty(),
    }
}

/// The grid entries that a list of results becomes, one for each, in order.
pub open spec fn entries_of(items: Seq<PendingView>) -> Seq<GridEntryView> {
    items.map_values(|item: PendingView| entry_for(item))
}

/// The paths of a list of results, in order.
pub open spec fn paths_of(items: Seq<PendingView>) -> Seq<Seq<char>> {
    items.map_values(|item: PendingView| item.path)
}

/// A load that nothing has cancelled is in one of two states. Either it
/// runs: the flag is down, the drawing loop comes back, and the results
/// found so far are, one entry for each and in the order in which they were
/// found, first those rendered, then those of the tick under way, then
/// those in the channel. Or it is complete.
pub open spec fn undisturbed(load: LoadModel) -> bool {
    ||| {
        &&& !load.cancelled
        &&& load.sink_live
        &&& load.rendered + in_tick(load) + entries_of(load.channel) == entries_of(load.found)
        &&& load.tick matches Some(tick) ==> {
            &&& tick.state != TickState::Cancelled
            &&& tick.entries.len() <= BATCH_SIZE
            &&& tick.state == TickState::Polling ==> tick.entries.len() < BATCH_SIZE
            &&& tick.state == TickState::Disconnected ==> load.waiting.len() == 0
                && load.channel.len() == 0
        }
    }
    ||| complete(load)
}

/// The load is over: nothing waits, nothing is under way, the drawing loop
/// has stopped, and what it has rendered is one entry for each result
/// found, in the order in which they were found.
pub open spec fn complete(load: LoadModel) -> bool {
    &&& load.waiting.len() == 0
    &&& load.channel.len() == 0
    &&& load.tick is None
    &&& !load.sink_live
    &&& load.rendered == entries_of(load.found)
}

/// The flag is only ever raised: no step of a load lowers it.
pub proof fn lemma_flag_stays_raised(load: LoadModel, event: LoadEvent)
    requires
        load.cancelled,
    ensures
        load_step(load, event).cancelled,
{
}

/// A worker that reads the flag raised, at the start or before the send,
/// sends nothing; one that reads it raised at the start does not ask the
/// cache either. A send that finds the drawing loop gone raises the flag.
pub proof fn lemma_worker_obeys_flag(load: LoadModel, event: LoadEvent)
    requires
        load_enabled(load, event),
        event is Worker,
    ensures
        event->saw_cancelled || event->saw_cancelled_later ==> load_step(load, event).channel
            == load.channel,
        event->saw_cancelled ==> load_step(load, event).found == load.found,
        !event->saw_cancelled && event->thumbnail is Some && !event->saw_cancelled_later
            && !load.sink_live ==> load_step(load, event).cancelled,
{
}

/// Every step of its workers and its drawing loop leaves a load undisturbed.
pub proof fn lemma_step_undisturbed(load: LoadModel, event: LoadEvent)
    requires
        undisturbed(load),
        load_enabled(load, event),
    ensures
        undisturbed(load_step(load, event)),
{
    let after = load_step(load, event);
    if !complete(load) {
        match event {
            LoadEvent::Worker { index, saw_cancelled, thumbnail, saw_cancelled_later } => {
                if thumbnail is Some {
                    let item = PendingView { thumbnail: thumbnail->0, path: load.waiting[index] };
                    assert(entries_of(load.channel.push(item)) =~= entries_of(load.channel).push(
                        entry_for(item),
                    ));
                    assert(entries_of(load.found.push(item)) =~= entries_of(load.found).push(
                        entry_for(item),
                    ));
                    assert(after.rendered + in_tick(after) + entries_of(after.channel) =~= (
                    load.rendered + in_tick(load) + entries_of(load.channel)).push(
                        entry_for(item),
                    ));
                }
            },
            LoadEvent::TickBegins => {
                assert(after.rendered + in_tick(after) + entries_of(after.channel)
                    =~= load.rendered + in_tick(load) + entries_of(load.channel));
            },
            LoadEvent::Polls => {
                if load.channel.len() > 0 {
                    assert(entries_of(load.channel) =~= seq![entry_for(load.channel[0])]
                        + entries_of(load.channel.drop_first()));
                }
                assert(after.rendered + in_tick(after) + entries_of(after.channel)
                    =~= load.rendered + in_tick(load) + entries_of(load.channel));
            },
            LoadEvent::TickEnds => {
                assert(after.rendered + in_tick(after) + entries_of(after.channel)
                    =~= load.rendered + in_tick(load) + entries_of(load.channel));
                if !after.sink_live {
                    assert(entries_of(load.channel) =~= Seq::<GridEntryView>::empty());
                    assert(after.rendered =~= entries_of(after.found));
                }
            },
        }
    }
}

/// However the steps of its workers and its drawing loop interleave, a load
/// that no newer load cancels stays undisturbed: no result that was found
/// is lost, rendered twice or rendered out of turn.
pub proof fn lemma_run_undisturbed(paths: Seq<Seq<char>>, events: Seq<LoadEvent>)
    ensures
        undisturbed(load_run(load_start(paths), events)),
    decreases events.len(),
{
    if events.len() > 0 {
        lemma_run_undisturbed(paths, events.drop_last());
        let before = load_run(load_start(paths), events.drop_last());
        if load_enabled(before, events.last()) {
            lemma_step_undisturbed(before, events.last());
        }
    } else {
        let start = load_start(paths);
        assert(start.rendered + in_tick(start) + entries_of(start.channel) =~= entries_of(
            start.found,
        ));
    }
}

/// An empty list of paths holds no path at all.
proof fn lemma_nothing_counts(paths: Seq<Seq<char>>)
    requires
        paths.len() == 0,
    ensures
        forall|path: Seq<char>| paths.to_multiset().count(path) == 0,
{
    assert forall|path: Seq<char>| paths.to_multiset().count(path) == 0 by {
        vstd::seq_lib::to_multiset_contains(paths, path);
    }
}

/// The paths of the results found, and the paths still waiting, are paths
/// of `batch`, none more often than the batch holds it.
pub open spec fn drawn_from(load: LoadModel, batch: Seq<Seq<char>>) -> bool {
    paths_of(load.found).to_multiset().add(load.waiting.to_multiset()).subset_of(
        batch.to_multiset(),
    )
}

/// Every result belongs to a path of the batch, and no path of the batch
/// gets more results than the batch holds it times: whatever the history,
/// the load stays drawn from its batch.
pub proof fn lemma_run_drawn_from(paths: Seq<Seq<char>>, events: Seq<LoadEvent>)
    ensures
        drawn_from(load_run(load_start(paths), events), paths),
    decreases events.len(),
{
    broadcast use vstd::multiset::group_multiset_axioms;

    if events.len() > 0 {
        lemma_run_drawn_from(paths, events.drop_last());
        let before = load_run(load_start(paths), events.drop_last());
        let event = events.last();
        if load_enabled(before, event) && event is Worker {
            let after = load_step(before, event);
            let index = event->index;
            let path = before.waiting[index];
            to_multiset_remove(before.waiting, index);
            let old_found = paths_of(before.found).to_multiset();
            let old_waiting = before.waiting.to_multiset();
            assert(old_waiting.count(path) > 0) by {
                vstd::seq_lib::to_multiset_contains(before.waiting, path);
                assert(before.waiting.contains(path));
            }
            if after.found != before.found {
                let item = PendingView { thumbnail: event->thumbnail->0, path };
                assert(paths_of(before.found.push(item)) =~= paths_of(before.found).push(path));
                to_multiset_build(paths_of(before.found), path);
                assert(old_found.insert(path).add(old_waiting.remove(path)) =~= old_found.add(
                    old_waiting,
                ));
            } else {
                assert(old_found.add(old_waiting.remove(path)).subset_of(
                    old_found.add(old_waiting),
                ));
            }
        }
    } else {
        assert(paths_of(load_start(paths).found) =~= Seq::<Seq<char>>::empty());
        lemma_nothing_counts(paths_of(load_start(paths).found));
        assert(paths_of(load_start(paths).found).to_multiset().add(paths.to_multiset())
            =~= paths.to_multiset());
    }
}

/// What the drawing loop does next, if it still comes back.
pub open spec fn sink_event(load: LoadModel) -> LoadEvent {
    match load.tick {
        None => LoadEvent::TickBegins,
        Some(tick) => if tick.state == TickState::Polling {
            LoadEvent::Polls
        } else {
            LoadEvent::TickEnds
        },
    }
}

/// The load after `n` more steps of a drawing loop that is left alone.
pub open spec fn drain(load: LoadModel, n: nat) -> LoadModel
    decreases n,
{
    if n == 0 || !load_enabled(load, sink_event(load)) {
        load
    } else {
        drain(load_step(load, sink_event(load)), (n - 1) as nat)
    }
}

/// How far a load whose workers are done is from completion.
pub open spec fn distance(load: LoadModel) -> nat {
    if !load.sink_live && load.tick is None {
        0
    } else {
        (4 * load.channel.len() + 1 + match load.tick {
            None => 2nat,
            Some(tick) => match tick.state {
                TickState::Polling => 1nat,
                TickState::Disconnected => 0nat,
                _ => 3nat,
            },
        }) as nat
    }
}

/// Once the workers of an undisturbed load are done, the drawing loop
/// reaches the end of the channel after finitely many steps and stops, and
/// by then it has rendered exactly one entry for each result found, in the
/// order in which they were found.
pub proof fn lemma_drain_terminates(load: LoadModel) -> (n: nat)
    requires
        undisturbed(load),
        load.waiting.len() == 0,
    ensures
        complete(drain(load, n)),
        drain(load, n).found == load.found,
        drain(load, n).rendered == entries_of(load.found),
    decreases distance(load),
{
    if complete(load) {
        0
    } else {
        let event = sink_event(load);
        let next = load_step(load, event);
        lemma_step_undisturbed(load, event);
        let rest = lemma_drain_terminates(next);
        rest + 1
    }
}

/// Whatever the order in which its workers and its drawing loop took their
/// steps: once the workers of a load that nothing cancelled are done, the
/// drawing loop stops after finitely many further steps. By then the grid
/// holds exactly one entry for each result that a worker found, in the
/// order in which they were found, with its path and its file name; every
/// entry belongs to a path of the batch, and no path has more entries than
/// the batch holds it times.
pub proof fn lemma_load_completes(paths: Seq<Seq<char>>, events: Seq<LoadEvent>) -> (n: nat)
    requires
        load_run(load_start(paths), events).waiting.len() == 0,
    ensures
        complete(drain(load_run(load_start(paths), events), n)),
        drain(load_run(load_start(paths), events), n).rendered == entries_of(
            load_run(load_start(paths), events).found,
        ),
        drain(load_run(load_start(paths), events), n).rendered.len() == load_run(
            load_start(paths),
            events,
        ).found.len(),
        paths_of(load_run(load_start(paths), events).found).to_multiset().subset_of(
            paths.to_multiset(),
        ),
{
    broadcast use vstd::multiset::group_multiset_axioms;

    let load = load_run(load_start(paths), events);
    lemma_run_undisturbed(paths, events);
    lemma_run_drawn_from(paths, events);
    lemma_nothing_counts(load.waiting);
    assert(paths_of(load.found).to_multiset().add(load.waiting.to_multiset()) =~= paths_of(
        load.found,
    ).to_multiset());
    lemma_drain_terminates(load)
}

/// Where the batch holds no path twice, as the scan of a directory does,
/// no path gets two results, however the workers and the drawing loop took
/// their steps: with `lemma_load_completes`, the grid of a load that
/// nothing cancelled ends with one entry for each path that a thumbnail was
/// found for, and none twice.
pub proof fn lemma_no_path_twice(paths: Seq<Seq<char>>, events: Seq<LoadEvent>)
    requires
        paths.no_duplicates(),
    ensures
        paths_of(load_run(load_start(paths), events).found).no_duplicates(),
{
    broadcast use vstd::multiset::group_multiset_axioms;

    let load = load_run(load_start(paths), events);
    let found = paths_of(load.found);
    lemma_run_drawn_from(paths, events);
    paths.lemma_multiset_has_no_duplicates();
    assert forall|path: Seq<char>| found.to_multiset().contains(path) implies found.to_multiset(
    ).count(path) == 1 by {
        assert(found.to_multiset().add(load.waiting.to_multiset()).count(path)
            <= paths.to_multiset().count(path));
        assert(paths.to_multiset().contains(path));
    }
    found.lemma_multiset_has_no_duplicates_conv();
}

/// All loads of a session, the newest last, and the grid with the load
/// that each entry came from.
pub ghost struct SessionModel {
    pub loads: Seq<LoadModel>,
    pub grid: Seq<(int, GridEntryView)>,
}

/// What can happen in a session.
pub ghost enum SessionEvent {
    /// A folder load starts, with the paths to decode.
    Start { paths: Seq<Seq<char>> },
    /// Something happens to the load at `index`.
    Load { index: int, event: LoadEvent },
}

/// A session before its first load.
pub open spec fn session_start() -> SessionModel {
    SessionModel { loads: Seq::empty(), grid: Seq::empty() }
}

/// The entries of a tick, marked with the load they belong to.
pub open spec fn marked(index: int, entries: Seq<GridEntryView>) -> Seq<(int, GridEntryView)> {
    entries.map_values(|e: GridEntryView| (index, e))
}

/// Whether `event` can happen. A load starts between ticks: the drawing
/// loop has one thread, which starts loads and runs ticks in turn.
pub open spec fn session_enabled(s: SessionModel, event: SessionEvent) -> bool {
    match event {
        SessionEvent::Start { paths } => forall|i: int|
            0 <= i < s.loads.len() ==> (#[trigger] s.loads[i]).tick is None,
        SessionEvent::Load { index, event } => 0 <= index < s.loads.len() && load_enabled(
            s.loads[index],
            event,
        ),
    }
}

/// The session after `event`. A new load raises the flag of the one before
/// it and clears the grid; the end of a tick appends the tick's entries.
pub open spec fn session_step(s: SessionModel, event: SessionEvent) -> SessionModel {
    match event {
        SessionEvent::Start { paths } => SessionModel {
            loads: (if s.loads.len() > 0 {
                s.loads.update(
                    s.loads.len() - 1,
                    LoadModel { cancelled: true, ..s.loads.last() },
                )
            } else {
                s.loads
            }).push(load_start(paths)),
            grid: Seq::empty(),
        },
        SessionEvent::Load { index, event } => SessionModel {
            loads: s.loads.update(index, load_step(s.loads[index], event)),
            grid: if event is TickEnds {
                s.grid + marked(index, s.loads[index].tick->0.entries)
            } else {
                s.grid
            },
        },
    }
}

/// The session after a history of events; one that cannot happen is passed over.
pub open spec fn session_run(events: Seq<SessionEvent>) -> SessionModel
    decreases events.len(),
{
    if events.len() == 0 {
        session_start()
    } else {
        let before = session_run(events.drop_last());
        if session_enabled(before, events.last()) {
            session_step(before, events.last())
        } else {
            before
        }
    }
}

/// Every load but the newest is cancelled and has no entries left to
/// render, and the grid holds entries of the newest load only.
pub open spec fn superseded_are_silent(s: SessionModel) -> bool {
    &&& forall|i: int|
        0 <= i < s.loads.len() - 1 ==> {
            &&& (#[trigger] s.loads[i]).cancelled
            &&& s.loads[i].tick matches Some(tick) ==> tick.entries.len() == 0 && tick.state
                != TickState::Polling
        }
    &&& forall|k: int| 0 <= k < s.grid.len() ==> (#[trigger] s.grid[k]).0 == s.loads.len() - 1
}

/// Whatever the timing of workers, ticks and new loads, the grid never
/// shows an entry of a load that a newer one has superseded.
pub proof fn lemma_no_stale_entries(events: Seq<SessionEvent>)
    ensures
        superseded_are_silent(session_run(events)),
        forall|k: int|
            0 <= k < session_run(events).grid.len() ==> (#[trigger] session_run(events).grid[k]).0
                == session_run(events).loads.len() - 1,
    decreases events.len(),
{
    if events.len() > 0 {
        lemma_no_stale_entries(events.drop_last());
        let before = session_run(events.drop_last());
        if session_enabled(before, events.last()) {
            let after = session_step(before, events.last());
            match events.last() {
                SessionEvent::Start { paths } => {
                    assert forall|i: int| 0 <= i < after.loads.len() - 1 implies (
                    #[trigger] after.loads[i]).cancelled && after.loads[i].tick is None by {
                        if i < before.loads.len() - 1 {
                            assert(after.loads[i] == before.loads[i]);
                        }
                    }
                },
                SessionEvent::Load { index, event } => {
                    let load = before.loads[index];
                    assert forall|i: int| 0 <= i < after.loads.len() - 1 implies {
                        &&& (#[trigger] after.loads[i]).cancelled
                        &&& after.loads[i].tick matches Some(tick) ==> tick.entries.len() == 0
                            && tick.state != TickState::Polling
                    } by {
                        assert(before.loads[i].cancelled);
                    }
                    if event is TickEnds {
                        let added = marked(index, load.tick->0.entries);
                        assert forall|k: int| 0 <= k < after.grid.len() implies (
                        #[trigger] after.grid[k]).0 == after.loads.len() - 1 by {
                            if k < before.grid.len() {
                                assert(after.grid[k] == before.grid[k]);
                            } else {
                                assert(after.grid[k] == added[k - before.grid.len()]);
                                if index < before.loads.len() - 1 {
                                    assert(before.loads[index].cancelled);
                                }
                            }
                        }
                    }
                },
            }
        }
    }
}

} // verus!
