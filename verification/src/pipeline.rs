//! The decode workers: what one worker does with one path, and how a batch
//! of paths is spread over the machine's processors.

use vstd::prelude::*;
use crossbeam_channel::Sender;
use rayon::iter::{IndexedParallelIterator, IntoParallelRefIterator, ParallelIterator};
use crate::channel::deliver;
use crate::shared::SharedCache;
use crate::thumbnail::{PendingResult, Thumbnail};
use crate::token::CancellationToken;

verus! {

/// The side length, in pixels, that thumbnails are decoded to fit in.
pub const THUMBNAIL_SIZE: i32 = 250;

/// What became of one path in a worker's hands.
#[derive(Debug, Clone, Copy, PartialEq, Eq, Structural)]
pub enum WorkerStep {
    /// The load was found cancelled at the start: the path was not looked
    /// at, the cache not touched, nothing sent.
    Skipped,
    /// The file could not be decoded.
    DecodeFailed,
    /// The load was found cancelled when the thumbnail was ready: it was
    /// not sent.
    Discarded,
    /// The thumbnail is on its way to the drawing loop.
    Sent,
    /// The drawing loop has gone; the load's flag was raised.
    ReceiverGone,
}

/// What a worker does with a path, given what it saw, in this order: the
/// flag at the start, whether a thumbnail could be had, the flag again
/// before the send, and whether the drawing loop took the thumbnail. Each
/// reading of a raised flag ends the step at once, and so does a failed
/// decode.
pub open spec fn worker_step(
    cancelled_at_start: bool,
    found: bool,
    cancelled_at_send: bool,
    delivered: bool,
) -> WorkerStep {
    if cancelled_at_start {
        WorkerStep::Skipped
    } else if !found {
        WorkerStep::DecodeFailed
    } else if cancelled_at_send {
        WorkerStep::Discarded
    } else if delivered {
        WorkerStep::Sent
    } else {
        WorkerStep::ReceiverGone
    }
}

/// Whether a step raises the load's flag: only a send that found the
/// drawing loop gone does.
pub open spec fn raises_flag(step: WorkerStep) -> bool {
    step == WorkerStep::ReceiverGone
}

/// Whether a step asked the cache, and through it perhaps the decoder:
/// every step does but one that found the load cancelled at the start.
pub open spec fn asks_cache(step: WorkerStep) -> bool {
    step != WorkerStep::Skipped
}

/// Whether a step handed a thumbnail to the channel: only a step that
/// found one and saw the flag down both times does.
pub open spec fn tries_send(step: WorkerStep) -> bool {
    step == WorkerStep::Sent || step == WorkerStep::ReceiverGone
}

/// The result that travels to the drawing loop.
pub fn pending(thumbnail: Thumbnail, path: &str) -> (item: PendingResult)
    ensures
        item@.thumbnail == thumbnail@,
        item@.path == path@,
{
    PendingResult { thumbnail, path: path.to_owned() }
}

/// The first decision of a step, on the flag as it was read at the start:
/// a raised flag ends the step before anything is looked at.
pub fn step_begun(cancelled: bool) -> (skip: Option<WorkerStep>)
    ensures
        skip == (if cancelled {
            Some(WorkerStep::Skipped)
        } else {
            None::<WorkerStep>
        }),
        forall|found: bool, later: bool, delivered: bool|
            cancelled ==> #[trigger] worker_step(cancelled, found, later, delivered)
                == WorkerStep::Skipped,
{
    if cancelled {
        Some(WorkerStep::Skipped)
    } else {
        None
    }
}

/// The second decision, on what the cache or the decoder gave for `path`:
/// a thumbnail becomes the result to send, a failure ends the step.
pub fn step_found(found: Option<Thumbnail>, path: &str) -> (next: Result<PendingResult, WorkerStep>)
    ensures
        match found {
            Some(thumbnail) => next matches Ok(item) && item@.thumbnail == thumbnail@
                && item@.path == path@,
            None => next matches Err(step) && step == WorkerStep::DecodeFailed,
        },
        forall|later: bool, delivered: bool|
            found is None ==> #[trigger] worker_step(false, false, later, delivered)
                == WorkerStep::DecodeFailed,
{
    match found {
        Some(thumbnail) => Ok(pending(thumbnail, path)),
        None => Err(WorkerStep::DecodeFailed),
    }
}

/// The third decision, on the flag as it was read when the result was
/// ready: a raised flag ends the step, and the result is not sent.
pub fn step_ready(cancelled: bool) -> (stop: Option<WorkerStep>)
    ensures
        stop == (if cancelled {
            Some(WorkerStep::Discarded)
        } else {
            None::<WorkerStep>
        }),
        forall|delivered: bool|
            cancelled ==> #[trigger] worker_step(false, true, cancelled, delivered)
                == WorkerStep::Discarded,
{
    if cancelled {
        Some(WorkerStep::Discarded)
    } else {
        None
    }
}

/// The last decision, on whether the channel took the result: if it did
/// not, the drawing loop has gone, and the load's flag is to be raised.
pub fn step_sent(delivered: bool) -> (step: WorkerStep)
    ensures
        step == worker_step(false, true, false, delivered),
        step == (if delivered {
            WorkerStep::Sent
        } else {
            WorkerStep::ReceiverGone
        }),
        raises_flag(step) == !delivered,
{
    if delivered {
        WorkerStep::Sent
    } else {
        WorkerStep::ReceiverGone
    }
}

/// Whether the load's flag is to be raised after `step`.
pub fn must_raise(step: WorkerStep) -> (raise: bool)
    ensures
        raise == raises_flag(step),
{
    step == WorkerStep::ReceiverGone
}

/// One path in a worker's hands. The flag is read; if it is raised nothing
/// is done. Otherwise the thumbnail is taken from the cache or decoded to
/// fit `THUMBNAIL_SIZE`; a file that cannot be decoded is passed over. The
/// flag is read again, and a thumbnail that is ready is sent to the drawing
/// loop only if the flag is still down. If that loop has gone, the load's
/// flag is raised so that the other workers stop too.
///
/// What the flag, the cache and the channel answer depends on the other
/// threads. The step is decided from their answers by `step_begun`,
/// `step_found`, `step_ready` and `step_sent`, and the flag is raised where
/// `must_raise` says so.
pub fn process_path<D: Fn(&str, i32) -> Option<Thumbnail>>(
    path: &str,
    token: &CancellationToken,
    cache: &SharedCache,
    sender: &Sender<PendingResult>,
    decode: &D,
) -> (step: WorkerStep)
    requires
        call_requires(*decode, (path, THUMBNAIL_SIZE)),
    ensures
        step == WorkerStep::DecodeFailed ==> call_ensures(
            *decode,
            (path, THUMBNAIL_SIZE),
            None::<Thumbnail>,
        ),
{
    match step_begun(token.is_cancelled()) {
        Some(step) => {
            return step;
        },
        None => {},
    }
    let ask = |p: &str, size: i32| -> (r: Option<Thumbnail>)
        requires
            call_requires(*decode, (p, size)),
        ensures
            call_ensures(*decode, (p, size), r),
        { decode(p, size) };
    let item = match step_found(cache.get_or_insert(path, THUMBNAIL_SIZE, ask), path) {
        Ok(item) => item,
        Err(step) => {
            return step;
        },
    };
    match step_ready(token.is_cancelled()) {
        Some(step) => {
            return step;
        },
        None => {},
    }
    let step = step_sent(deliver(sender, item));
    if must_raise(step) {
        token.cancel();
    }
    step
}

/// `num_cpus::get` gives the number of processors the program may use,
/// which is at least one.
pub assume_specification[ num_cpus::get ]() -> (n: usize)
    ensures
        n >= 1,
;

/// rayon's `par_iter`, `with_max_len` and `for_each_with`: `process_path` is
/// called on every path of `batch`, on rayon's threads and in no fixed
/// order, each job of at most `max_len` paths with its own copy of `sender`.
/// The call returns when all paths are done, and all copies of `sender` are
/// dropped by then.
#[verifier::external_body]
fn for_each_path<D: Fn(&str, i32) -> Option<Thumbnail> + Sync>(
    batch: &Vec<String>,
    max_len: usize,
    sender: Sender<PendingResult>,
    token: &CancellationToken,
    cache: &SharedCache,
    decode: &D,
)
    requires
        forall|path: &str| call_requires(*decode, (path, THUMBNAIL_SIZE)),
{
    batch.par_iter().with_max_len(max_len).for_each_with(
        sender,
        |s, path| {
            process_path(path, token, cache, s, decode);
        },
    );
}

/// Works a batch of paths off: they are spread over as many parallel jobs as
/// the machine has processors, and each path is handled by `process_path`.
/// When the call returns every path was handled or skipped, and the
/// channel's sending end is closed.
pub fn run_workers<D: Fn(&str, i32) -> Option<Thumbnail> + Sync>(
    batch: &Vec<String>,
    sender: Sender<PendingResult>,
    token: &CancellationToken,
    cache: &SharedCache,
    decode: &D,
)
    requires
        forall|path: &str| call_requires(*decode, (path, THUMBNAIL_SIZE)),
{
    let num_cores = num_cpus::get();
    for_each_path(batch, num_cores, sender, token, cache, decode);
}

} // verus!
