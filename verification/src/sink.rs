//! The drawing loop's side of a folder load: in each tick it takes a small
//! batch of results from the channel without ever waiting, and stops for
//! good when the load was cancelled or the workers are done.

use vstd::prelude::*;
use crossbeam_channel::Receiver;
use crate::channel::{poll, Poll, PollView};
use crate::text::{display_name, display_name_of};
use crate::thumbnail::{GridEntry, GridEntryView, PendingResult, PendingView};
use crate::token::CancellationToken;

verus! {

/// The number of results a tick renders at most.
pub const BATCH_SIZE: usize = 10;

/// Whether the drawing loop is to be called again.
#[derive(Debug, Clone, Copy, PartialEq, Eq, Structural)]
pub enum ControlFlow {
    Continue,
    Break,
}

/// Where a tick stands.
#[derive(Debug, Clone, Copy, PartialEq, Eq, Structural)]
pub enum TickState {
    /// The tick goes on polling.
    Polling,
    /// The tick is over and the loop is to come back later: the channel
    /// was empty, or the batch is full.
    Yielded,
    /// The load was found cancelled before anything was polled.
    Cancelled,
    /// The channel reported that every worker is done.
    Disconnected,
}

/// A tick as a mathematical value: what it has rendered and where it stands.
pub ghost struct TickModel {
    pub entries: Seq<GridEntryView>,
    pub state: TickState,
}

/// The grid entry that a result becomes.
pub open spec fn entry_for(item: PendingView) -> GridEntryView {
    GridEntryView { thumbnail: item.thumbnail, tooltip: display_name(item.path), path: item.path }
}

/// A tick at its start: over at once if the load is cancelled.
pub open spec fn tick_begin(cancelled: bool) -> TickModel {
    TickModel {
        entries: Seq::empty(),
        state: if cancelled {
            TickState::Cancelled
        } else {
            TickState::Polling
        },
    }
}

/// A tick after one more poll. A result is rendered, and the tick yields
/// once the batch is full; an empty channel makes it yield, a disconnected
/// one ends the loop. A tick that is over takes nothing more.
pub open spec fn tick_absorb(tick: TickModel, polled: PollView) -> TickModel {
    if tick.state != TickState::Polling {
        tick
    } else {
        match polled {
            PollView::Item(item) => TickModel {
                entries: tick.entries.push(entry_for(item)),
                state: if tick.entries.len() + 1 >= BATCH_SIZE {
                    TickState::Yielded
                } else {
                    TickState::Polling
                },
            },
            PollView::Empty => TickModel { entries: tick.entries, state: TickState::Yielded },
            PollView::Disconnected => TickModel {
                entries: tick.entries,
                state: TickState::Disconnected,
            },
        }
    }
}

/// The tick that saw the flag as `cancelled` and then the polls `polls`, in
/// that order.
pub open spec fn tick_outcome(cancelled: bool, polls: Seq<PollView>) -> TickModel
    decreases polls.len(),
{
    if polls.len() == 0 {
        tick_begin(cancelled)
    } else {
        tick_absorb(tick_outcome(cancelled, polls.drop_last()), polls.last())
    }
}

/// What the loop is told when the tick is over.
pub open spec fn flow_of(state: TickState) -> ControlFlow {
    match state {
        TickState::Polling | TickState::Yielded => ControlFlow::Continue,
        TickState::Cancelled | TickState::Disconnected => ControlFlow::Break,
    }
}

/// One tick of the drawing loop, fed poll by poll.
pub struct Tick {
    entries: Vec<GridEntry>,
    state: TickState,
}

/// What a tick hands back to the drawing loop.
#[derive(Debug, PartialEq, Eq)]
pub struct TickReport {
    /// The entries to append to the grid, in order of arrival.
    pub entries: Vec<GridEntry>,
    /// Whether to schedule another tick.
    pub flow: ControlFlow,
    /// How the tick ended.
    pub state: TickState,
}

impl TickReport {
    /// The report as a mathematical value.
    pub open spec fn model(&self) -> TickModel {
        TickModel { entries: self.entries@.map_values(|e: GridEntry| e@), state: self.state }
    }
}

impl Tick {
    #[verifier::type_invariant]
    spec fn inv(&self) -> bool {
        &&& self.entries@.len() <= BATCH_SIZE
        &&& self.state == TickState::Polling ==> self.entries@.len() < BATCH_SIZE
    }

    /// The tick as a mathematical value.
    pub closed spec fn view(&self) -> TickModel {
        TickModel { entries: self.entries@.map_values(|e: GridEntry| e@), state: self.state }
    }

    /// Starts a tick, given whether the load's flag was seen raised.
    pub fn begin(cancelled: bool) -> (tick: Self)
        ensures
            tick@ == tick_begin(cancelled),
    {
        let tick = Tick {
            entries: Vec::new(),
            state: if cancelled {
                TickState::Cancelled
            } else {
                TickState::Polling
            },
        };
        assert(tick@.entries =~= Seq::empty());
        tick
    }

    /// Whether the tick is to poll once more.
    pub fn wants_poll(&self) -> (yes: bool)
        ensures
            yes == (self@.state == TickState::Polling),
            yes ==> self@.entries.len() < BATCH_SIZE,
    {
        proof {
            use_type_invariant(self);
        }
        self.state == TickState::Polling
    }

    /// Takes in what one poll gave.
    pub fn absorb(&mut self, polled: Poll)
        ensures
            final(self)@ == tick_absorb(old(self)@, polled@),
    {
        proof {
            use_type_invariant(&*self);
        }
        if self.state == TickState::Polling {
            match polled {
                Poll::Item(item) => {
                    let ghost before = self.entries@;
                    let entry = entry_of(item);
                    let mut entries: Vec<GridEntry> = Vec::new();
                    core::mem::swap(&mut self.entries, &mut entries);
                    entries.push(entry);
                    assert(entries@.map_values(|e: GridEntry| e@) =~= before.map_values(
                        |e: GridEntry| e@,
                    ).push(entry@));
                    let state = if entries.len() >= BATCH_SIZE {
                        TickState::Yielded
                    } else {
                        TickState::Polling
                    };
                    *self = Tick { entries, state };
                },
                Poll::Empty => {
                    self.state = TickState::Yielded;
                },
                Poll::Disconnected => {
                    self.state = TickState::Disconnected;
                },
            }
        }
    }

    /// Ends the tick.
    pub fn finish(self) -> (report: TickReport)
        ensures
            report.model() == self@,
            report.flow == flow_of(self@.state),
            report.entries@.len() <= BATCH_SIZE,
    {
        proof {
            use_type_invariant(&self);
        }
        let flow = match self.state {
            TickState::Polling | TickState::Yielded => ControlFlow::Continue,
            TickState::Cancelled | TickState::Disconnected => ControlFlow::Break,
        };
        TickReport { entries: self.entries, flow, state: self.state }
    }
}

/// Turns a result into the grid entry that shows it.
pub fn entry_of(item: PendingResult) -> (entry: GridEntry)
    ensures
        entry@ == entry_for(item@),
{
    let tooltip = display_name_of(item.path.as_str());
    GridEntry { thumbnail: item.thumbnail, tooltip, path: item.path }
}

/// The receiving end of one folder load.
pub struct UiSink {
    receiver: Receiver<PendingResult>,
    token: CancellationToken,
}

impl UiSink {
    /// The flag of the load that the sink belongs to.
    pub closed spec fn token(&self) -> CancellationToken {
        self.token
    }

    /// The end of the channel that the sink polls.
    pub closed spec fn receiver(&self) -> Receiver<PendingResult> {
        self.receiver
    }

    /// The sink of the load that `token` belongs to.
    pub fn new(receiver: Receiver<PendingResult>, token: CancellationToken) -> (sink: Self)
        ensures
            sink.token() == token,
            sink.receiver() == receiver,
    {
        UiSink { receiver, token }
    }

    /// One tick: nothing if the load is cancelled; otherwise up to
    /// `BATCH_SIZE` results, as far as they are waiting. The tick never
    /// waits. When the channel is disconnected the load's flag is raised, and
    /// the report tells the loop not to come back.
    ///
    /// Whatever the channel held, the report is the outcome of the polls that
    /// were made, and the tick is over.
    pub fn drain_tick(&self) -> (report: TickReport)
        ensures
            exists|cancelled: bool, polls: Seq<PollView>|
                report.model() == #[trigger] tick_outcome(cancelled, polls),
            report.model().state != TickState::Polling,
            report.flow == flow_of(report.state),
            report.entries@.len() <= BATCH_SIZE,
    {
        let cancelled = self.token.is_cancelled();
        let mut tick = Tick::begin(cancelled);
        let ghost mut polls: Seq<PollView> = Seq::empty();
        while tick.wants_poll()
            invariant
                tick@ == tick_outcome(cancelled, polls),
                tick@.entries.len() <= BATCH_SIZE,
            decreases
                    BATCH_SIZE - tick@.entries.len() + if tick@.state == TickState::Polling {
                        1int
                    } else {
                        0int
                    },
        {
            let polled = poll(&self.receiver);
            proof {
                assert(polls.push(polled@).drop_last() =~= polls);
                polls = polls.push(polled@);
            }
            tick.absorb(polled);
        }
        let report = tick.finish();
        if report.state == TickState::Disconnected {
            self.token.cancel();
        }
        report
    }
}

} // verus!
