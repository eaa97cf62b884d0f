use crossbeam_channel::{SendError, TryRecvError};
use hyprwall::channel::{deliver, poll, poll_of, was_sent};
use hyprwall::pipeline::{must_raise, step_begun, step_found, step_ready, step_sent};
use hyprwall::text::display_name_of;
use hyprwall::{
    process_path, run_workers, CancellationToken, ControlFlow, GridEntry, ImageLoader,
    PendingResult, Poll, SharedCache, Thumbnail, Tick, TickState, UiSink, WorkerStep, BATCH_SIZE,
    CACHE_SIZE, THUMBNAIL_SIZE,
};
use hyprwall::DirEntry;

fn thumb(tag: u8) -> Thumbnail {
    Thumbnail { width: 1, height: 1, rowstride: 4, has_alpha: true, pixels: vec![tag, tag, tag, 255] }
}

fn item(tag: u8, path: &str) -> PendingResult {
    PendingResult { thumbnail: thumb(tag), path: path.to_string() }
}

fn entry(tag: u8, path: &str) -> GridEntry {
    GridEntry { thumbnail: thumb(tag), tooltip: display_name_of(path), path: path.to_string() }
}

fn decode_by_name(path: &str, size: i32) -> Option<Thumbnail> {
    assert_eq!(size, 250);
    if path.contains("corrupt") {
        None
    } else {
        Some(thumb(path.len() as u8))
    }
}

fn file(path: &str) -> DirEntry {
    DirEntry { path: path.to_string(), is_file: true }
}

#[test]
fn constants() {
    assert_eq!(BATCH_SIZE, 10);
    assert_eq!(THUMBNAIL_SIZE, 250);
}

#[test]
fn token_starts_lowered_and_stays_raised() {
    let token = CancellationToken::new();
    assert!(!token.is_cancelled());
    token.cancel();
    assert!(token.is_cancelled());
    token.cancel();
    assert!(token.is_cancelled());
}

#[test]
fn token_copies_share_the_flag() {
    let token = CancellationToken::new();
    let copy = token.clone();
    assert!(!copy.is_cancelled());
    token.cancel();
    assert!(copy.is_cancelled());
    assert!(!CancellationToken::new().is_cancelled());
}

#[test]
fn tick_of_a_cancelled_load_renders_nothing_and_stops() {
    let mut tick = Tick::begin(true);
    assert!(!tick.wants_poll());
    tick.absorb(Poll::Item(item(1, "/w/a.png")));
    let report = tick.finish();
    assert_eq!(report.entries, Vec::<GridEntry>::new());
    assert_eq!(report.flow, ControlFlow::Break);
    assert_eq!(report.state, TickState::Cancelled);
}

#[test]
fn tick_yields_on_an_empty_channel() {
    let mut tick = Tick::begin(false);
    assert!(tick.wants_poll());
    tick.absorb(Poll::Item(item(1, "/w/a.png")));
    assert!(tick.wants_poll());
    tick.absorb(Poll::Empty);
    assert!(!tick.wants_poll());
    let report = tick.finish();
    assert_eq!(report.entries, vec![entry(1, "/w/a.png")]);
    assert_eq!(report.flow, ControlFlow::Continue);
    assert_eq!(report.state, TickState::Yielded);
}

#[test]
fn tick_stops_on_a_disconnected_channel() {
    let mut tick = Tick::begin(false);
    tick.absorb(Poll::Item(item(1, "/w/a.png")));
    tick.absorb(Poll::Item(item(2, "/w/b.png")));
    tick.absorb(Poll::Disconnected);
    assert!(!tick.wants_poll());
    let report = tick.finish();
    assert_eq!(report.entries, vec![entry(1, "/w/a.png"), entry(2, "/w/b.png")]);
    assert_eq!(report.flow, ControlFlow::Break);
    assert_eq!(report.state, TickState::Disconnected);
}

#[test]
fn tick_yields_when_the_batch_is_full() {
    let mut tick = Tick::begin(false);
    for i in 0..9 {
        tick.absorb(Poll::Item(item(i, "/w/a.png")));
        assert!(tick.wants_poll());
    }
    tick.absorb(Poll::Item(item(9, "/w/a.png")));
    assert!(!tick.wants_poll());
    tick.absorb(Poll::Item(item(10, "/w/late.png")));
    tick.absorb(Poll::Disconnected);
    let report = tick.finish();
    assert_eq!(report.entries.len(), 10);
    assert_eq!(report.entries[9], entry(9, "/w/a.png"));
    assert_eq!(report.flow, ControlFlow::Continue);
    assert_eq!(report.state, TickState::Yielded);
}

#[test]
fn tick_that_is_over_takes_nothing_more() {
    let mut tick = Tick::begin(false);
    tick.absorb(Poll::Empty);
    tick.absorb(Poll::Item(item(1, "/w/a.png")));
    tick.absorb(Poll::Disconnected);
    let report = tick.finish();
    assert_eq!(report.entries, Vec::<GridEntry>::new());
    assert_eq!(report.flow, ControlFlow::Continue);
    assert_eq!(report.state, TickState::Yielded);
}

#[test]
fn tick_without_polls_continues() {
    let report = Tick::begin(false).finish();
    assert_eq!(report.entries, Vec::<GridEntry>::new());
    assert_eq!(report.flow, ControlFlow::Continue);
    assert_eq!(report.state, TickState::Polling);
}

#[test]
fn entry_shows_the_file_name_and_keeps_the_path() {
    let e = hyprwall::sink::entry_of(item(3, "/home/me/wall/sunset.png"));
    assert_eq!(e.tooltip, "sunset.png");
    assert_eq!(e.path, "/home/me/wall/sunset.png");
    assert_eq!(e.thumbnail, thumb(3));
}

#[test]
fn pending_carries_thumbnail_and_path() {
    let p = hyprwall::pipeline::pending(thumb(8), "/w/a.png");
    assert_eq!(p, item(8, "/w/a.png"));
}

#[test]
fn drain_tick_never_waits_on_an_empty_channel() {
    let (sender, receiver) = crossbeam_channel::unbounded::<PendingResult>();
    let token = CancellationToken::new();
    let sink = UiSink::new(receiver, token.clone());
    let report = sink.drain_tick();
    assert_eq!(report.entries, Vec::<GridEntry>::new());
    assert_eq!(report.flow, ControlFlow::Continue);
    assert_eq!(report.state, TickState::Yielded);
    assert!(!token.is_cancelled());
    drop(sender);
}

#[test]
fn drain_tick_takes_what_waits_in_order() {
    let (sender, receiver) = crossbeam_channel::unbounded::<PendingResult>();
    let token = CancellationToken::new();
    let sink = UiSink::new(receiver, token.clone());
    sender.send(item(1, "/w/a.png")).unwrap();
    sender.send(item(2, "/w/b.png")).unwrap();
    let report = sink.drain_tick();
    assert_eq!(report.entries, vec![entry(1, "/w/a.png"), entry(2, "/w/b.png")]);
    assert_eq!(report.flow, ControlFlow::Continue);
    assert!(!token.is_cancelled());
}

#[test]
fn drain_tick_takes_ten_at_most_and_then_the_rest() {
    let (sender, receiver) = crossbeam_channel::unbounded::<PendingResult>();
    let token = CancellationToken::new();
    let sink = UiSink::new(receiver, token.clone());
    for i in 0..23 {
        sender.send(item(i, "/w/a.png")).unwrap();
    }
    drop(sender);
    let first = sink.drain_tick();
    assert_eq!(first.entries.len(), 10);
    assert_eq!(first.flow, ControlFlow::Continue);
    assert_eq!(first.entries[0].thumbnail, thumb(0));
    let second = sink.drain_tick();
    assert_eq!(second.entries.len(), 10);
    assert_eq!(second.flow, ControlFlow::Continue);
    assert!(!token.is_cancelled());
    let third = sink.drain_tick();
    assert_eq!(third.entries.len(), 3);
    assert_eq!(third.entries[2].thumbnail, thumb(22));
    assert_eq!(third.flow, ControlFlow::Break);
    assert_eq!(third.state, TickState::Disconnected);
    assert!(token.is_cancelled());
}

#[test]
fn drain_tick_of_a_cancelled_load_discards_what_waits() {
    let (sender, receiver) = crossbeam_channel::unbounded::<PendingResult>();
    let token = CancellationToken::new();
    let sink = UiSink::new(receiver, token.clone());
    sender.send(item(1, "/w/a.png")).unwrap();
    token.cancel();
    let report = sink.drain_tick();
    assert_eq!(report.entries, Vec::<GridEntry>::new());
    assert_eq!(report.flow, ControlFlow::Break);
    assert_eq!(report.state, TickState::Cancelled);
}

#[test]
fn worker_skips_when_cancelled() {
    let (sender, receiver) = crossbeam_channel::unbounded::<PendingResult>();
    let token = CancellationToken::new();
    token.cancel();
    let cache = SharedCache::new();
    let step = process_path("/w/a.png", &token, &cache, &sender, &decode_by_name);
    assert_eq!(step, WorkerStep::Skipped);
    assert_eq!(cache.len(), 0);
    assert!(receiver.try_recv().is_err());
}

#[test]
fn worker_passes_over_a_corrupt_file() {
    let (sender, receiver) = crossbeam_channel::unbounded::<PendingResult>();
    let token = CancellationToken::new();
    let cache = SharedCache::new();
    let step = process_path("/w/corrupt.png", &token, &cache, &sender, &decode_by_name);
    assert_eq!(step, WorkerStep::DecodeFailed);
    assert_eq!(cache.len(), 0);
    assert!(!cache.contains("/w/corrupt.png"));
    assert!(!token.is_cancelled());
    assert!(receiver.try_recv().is_err());
}

#[test]
fn worker_sends_thumbnail_and_path() {
    let (sender, receiver) = crossbeam_channel::unbounded::<PendingResult>();
    let token = CancellationToken::new();
    let cache = SharedCache::new();
    let step = process_path("/w/a.png", &token, &cache, &sender, &decode_by_name);
    assert_eq!(step, WorkerStep::Sent);
    assert_eq!(receiver.try_recv(), Ok(item(8, "/w/a.png")));
    assert!(cache.contains("/w/a.png"));
    assert_eq!(cache.len(), 1);
}

#[test]
fn worker_serves_a_second_request_from_the_cache() {
    let (sender, receiver) = crossbeam_channel::unbounded::<PendingResult>();
    let token = CancellationToken::new();
    let cache = SharedCache::new();
    assert_eq!(process_path("/w/a.png", &token, &cache, &sender, &decode_by_name), WorkerStep::Sent);
    let never = |_: &str, _: i32| -> Option<Thumbnail> { panic!("decoded twice") };
    assert_eq!(process_path("/w/a.png", &token, &cache, &sender, &never), WorkerStep::Sent);
    assert_eq!(receiver.try_recv(), Ok(item(8, "/w/a.png")));
    assert_eq!(receiver.try_recv(), Ok(item(8, "/w/a.png")));
    assert_eq!(cache.len(), 1);
}

#[test]
fn worker_raises_the_flag_when_the_receiver_is_gone() {
    let (sender, receiver) = crossbeam_channel::unbounded::<PendingResult>();
    drop(receiver);
    let token = CancellationToken::new();
    let cache = SharedCache::new();
    let step = process_path("/w/a.png", &token, &cache, &sender, &decode_by_name);
    assert_eq!(step, WorkerStep::ReceiverGone);
    assert!(token.is_cancelled());
    let next = process_path("/w/b.png", &token, &cache, &sender, &decode_by_name);
    assert_eq!(next, WorkerStep::Skipped);
}

#[test]
fn shared_cache_copies_share_the_entries() {
    let cache = SharedCache::new();
    let copy = cache.clone();
    assert_eq!(cache.get_or_insert("/w/a.png", 250, decode_by_name), Some(thumb(8)));
    assert!(copy.contains("/w/a.png"));
    assert_eq!(copy.len(), 1);
    assert_eq!(copy.get_or_insert("/w/corrupt.png", 250, decode_by_name), None);
    assert_eq!(cache.len(), 1);
}

#[test]
fn shared_cache_is_bounded() {
    let cache = SharedCache::new();
    for i in 0..(CACHE_SIZE + 20) {
        let path = format!("/w/{}.png", i);
        assert!(cache.get_or_insert(&path, 250, decode_by_name).is_some());
    }
    assert_eq!(cache.len(), CACHE_SIZE);
    assert!(!cache.contains("/w/0.png"));
    assert!(cache.contains("/w/119.png"));
}

#[test]
fn twelve_valid_and_one_corrupt_image_give_twelve_entries() {
    let mut listing: Vec<DirEntry> = Vec::new();
    for i in 0..12 {
        listing.push(file(&format!("/w/img{:02}.png", i)));
    }
    listing.push(file("/w/corrupt.jpg"));
    let mut loader = ImageLoader::new();
    let generation = loader.load_images("/w", Some(&listing));
    assert_eq!(generation.batch.len(), 13);
    run_workers(
        &generation.batch,
        generation.sender,
        &generation.token,
        &generation.cache,
        &decode_by_name,
    );
    let mut grid: Vec<GridEntry> = Vec::new();
    let mut ticks = 0;
    loop {
        let report = generation.sink.drain_tick();
        ticks += 1;
        grid.extend(report.entries);
        if report.flow == ControlFlow::Break {
            break;
        }
        assert!(ticks < 10);
    }
    assert_eq!(ticks, 2);
    assert_eq!(grid.len(), 12);
    let mut shown: Vec<String> = grid.iter().map(|e| e.path.clone()).collect();
    shown.sort();
    let expected: Vec<String> = (0..12).map(|i| format!("/w/img{:02}.png", i)).collect();
    assert_eq!(shown, expected);
    for e in &grid {
        assert_eq!(e.tooltip, display_name_of(&e.path));
        assert_eq!(e.thumbnail, thumb(e.path.len() as u8));
    }
    assert_eq!(loader.cache().len(), 12);
    assert!(!loader.cache().contains("/w/corrupt.jpg"));
    assert!(generation.token.is_cancelled());
}

#[test]
fn a_new_load_silences_the_one_before() {
    let first_listing = vec![file("/one/a.png"), file("/one/b.png"), file("/one/c.png")];
    let second_listing = vec![file("/two/x.png")];
    let mut loader = ImageLoader::new();
    let first = loader.load_images("/one", Some(&first_listing));
    let cache = first.cache.clone();
    assert_eq!(
        process_path(&first.batch[0], &first.token, &cache, &first.sender, &decode_by_name),
        WorkerStep::Sent
    );
    let second = loader.load_images("/two", Some(&second_listing));
    assert!(first.token.is_cancelled());
    assert!(!second.token.is_cancelled());
    assert_eq!(
        process_path(&first.batch[1], &first.token, &cache, &first.sender, &decode_by_name),
        WorkerStep::Skipped
    );
    let stale = first.sink.drain_tick();
    assert_eq!(stale.entries, Vec::<GridEntry>::new());
    assert_eq!(stale.flow, ControlFlow::Break);
    run_workers(&second.batch, second.sender, &second.token, &second.cache, &decode_by_name);
    let fresh = second.sink.drain_tick();
    assert_eq!(fresh.entries, vec![entry(10, "/two/x.png")]);
    assert_eq!(fresh.flow, ControlFlow::Break);
}

#[test]
fn loads_share_one_cache() {
    let listing = vec![file("/one/a.png")];
    let mut loader = ImageLoader::new();
    let first = loader.load_images("/one", Some(&listing));
    run_workers(&first.batch, first.sender, &first.token, &first.cache, &decode_by_name);
    let second = loader.load_images("/one", Some(&listing));
    let never = |_: &str, _: i32| -> Option<Thumbnail> { panic!("decoded twice") };
    run_workers(&second.batch, second.sender, &second.token, &second.cache, &never);
    let report = second.sink.drain_tick();
    assert_eq!(report.entries, vec![entry(10, "/one/a.png")]);
    assert_eq!(loader.cache().len(), 1);
}

fn crosses_threads<T: Send + 'static>(_: &T) {}

fn shared_by_threads<T: Sync>(_: &T) {}

#[test]
fn parts_of_a_generation_can_cross_threads() {
    let mut loader = ImageLoader::new();
    let generation = loader.load_images("/w", None);
    crosses_threads(&generation.batch);
    crosses_threads(&generation.sender);
    crosses_threads(&generation.token);
    crosses_threads(&generation.cache);
    crosses_threads(&generation.sink);
    shared_by_threads(&generation.token);
    shared_by_threads(&generation.cache);
    shared_by_threads(&decode_by_name);
    let folder = std::path::Path::new("/w").to_string_lossy();
    let listing: Option<Vec<DirEntry>> = Some(vec![file("/w/a.png")]);
    let again = loader.load_images(&folder, listing.as_ref());
    assert_eq!(again.batch, vec!["/w/a.png".to_string()]);
    let current = loader.current_folder();
    assert_eq!(current, Some("/w".to_string()));
    let refreshed = loader.refresh_images(listing.as_ref());
    assert!(refreshed.is_some());
    let picked = loader.random_wallpaper(listing.as_ref());
    assert_eq!(picked, Some("/w/a.png".to_string()));
}

#[test]
fn poll_of_tells_the_answers_of_the_channel_apart() {
    assert_eq!(poll_of(Ok(item(1, "/w/a.png"))), Poll::Item(item(1, "/w/a.png")));
    assert_eq!(poll_of(Err(TryRecvError::Empty)), Poll::Empty);
    assert_eq!(poll_of(Err(TryRecvError::Disconnected)), Poll::Disconnected);
}

#[test]
fn was_sent_is_true_unless_the_channel_refused() {
    assert!(was_sent(Ok(())));
    assert!(!was_sent(Err(SendError(item(1, "/w/a.png")))));
}

#[test]
fn poll_and_deliver_go_through_the_channel() {
    let (sender, receiver) = crossbeam_channel::unbounded::<PendingResult>();
    assert_eq!(poll(&receiver), Poll::Empty);
    assert!(deliver(&sender, item(1, "/w/a.png")));
    assert!(deliver(&sender, item(2, "/w/b.png")));
    assert_eq!(poll(&receiver), Poll::Item(item(1, "/w/a.png")));
    drop(sender);
    assert_eq!(poll(&receiver), Poll::Item(item(2, "/w/b.png")));
    assert_eq!(poll(&receiver), Poll::Disconnected);
    let (sender, receiver) = crossbeam_channel::unbounded::<PendingResult>();
    drop(receiver);
    assert!(!deliver(&sender, item(3, "/w/c.png")));
}

#[test]
fn step_begun_skips_on_a_raised_flag() {
    assert_eq!(step_begun(true), Some(WorkerStep::Skipped));
    assert_eq!(step_begun(false), None);
}

#[test]
fn step_found_makes_the_result_or_gives_up() {
    assert_eq!(step_found(Some(thumb(4)), "/w/a.png"), Ok(item(4, "/w/a.png")));
    assert_eq!(step_found(None, "/w/a.png"), Err(WorkerStep::DecodeFailed));
}

#[test]
fn step_ready_discards_on_a_raised_flag() {
    assert_eq!(step_ready(true), Some(WorkerStep::Discarded));
    assert_eq!(step_ready(false), None);
}

#[test]
fn step_sent_tells_a_gone_receiver() {
    assert_eq!(step_sent(true), WorkerStep::Sent);
    assert_eq!(step_sent(false), WorkerStep::ReceiverGone);
}

#[test]
fn only_a_gone_receiver_raises_the_flag() {
    assert!(must_raise(WorkerStep::ReceiverGone));
    assert!(!must_raise(WorkerStep::Sent));
    assert!(!must_raise(WorkerStep::Skipped));
    assert!(!must_raise(WorkerStep::Discarded));
    assert!(!must_raise(WorkerStep::DecodeFailed));
}

#[test]
fn worker_does_not_send_what_it_decoded_after_the_flag_was_raised() {
    let (sender, receiver) = crossbeam_channel::unbounded::<PendingResult>();
    let token = CancellationToken::new();
    let cache = SharedCache::new();
    let raiser = token.clone();
    let decode_and_cancel = move |path: &str, size: i32| -> Option<Thumbnail> {
        raiser.cancel();
        decode_by_name(path, size)
    };
    let step = process_path("/w/a.png", &token, &cache, &sender, &decode_and_cancel);
    assert_eq!(step, WorkerStep::Discarded);
    assert!(receiver.try_recv().is_err());
    assert!(cache.contains("/w/a.png"));
    assert!(token.is_cancelled());
}

#[test]
fn worker_that_starts_cancelled_does_not_decode() {
    let (sender, receiver) = crossbeam_channel::unbounded::<PendingResult>();
    let token = CancellationToken::new();
    token.cancel();
    let cache = SharedCache::new();
    let never = |_: &str, _: i32| -> Option<Thumbnail> { panic!("decoded though cancelled") };
    assert_eq!(process_path("/w/a.png", &token, &cache, &sender, &never), WorkerStep::Skipped);
    assert_eq!(cache.len(), 0);
    assert!(receiver.try_recv().is_err());
}
