use bytes::Bytes;
use dss_now_playing::async_resource_manager::{AsyncResourceManager, DownloadRequest};
use dss_now_playing::download_loop::{
    handle_request, Dispatch, DownloadLoop, SLOW_REPLY_DELAY_MILLIS,
};
use std::sync::atomic::{AtomicUsize, Ordering};
use std::sync::{Arc, Mutex};
use tokio::sync::mpsc;
use tokio::sync::oneshot;
use tokio::sync::oneshot::error::TryRecvError;

/// What the workers of a download loop leave behind: the order of their
/// starts and ends, and the greatest number of them at work at once.
#[derive(Clone, Default)]
struct Trace {
    events: Arc<Mutex<Vec<String>>>,
    at_work: Arc<AtomicUsize>,
    most_at_work: Arc<AtomicUsize>,
}

/// A worker that fetches nothing: it answers with the URL itself, after
/// giving way to whatever else is ready to run.
async fn worker(request: DownloadRequest, slow: bool, trace: Trace) {
    let (url, fetching) = handle_request(request, slow);
    let at_work = trace.at_work.fetch_add(1, Ordering::SeqCst) + 1;
    trace.most_at_work.fetch_max(at_work, Ordering::SeqCst);
    trace.events.lock().unwrap().push(format!("start {}", url));
    for _ in 0..3 {
        tokio::task::yield_now().await;
    }
    trace.events.lock().unwrap().push(format!("end {}", url));
    trace.at_work.fetch_sub(1, Ordering::SeqCst);
    let held = fetching.fetched(Some(Bytes::from(url.into_bytes())));
    assert_eq!(held.delay_millis(), 0);
    assert!(held.deliver());
}

/// A download loop that takes its decisions from the library and does its
/// waiting on the runtime.
async fn run_loop(mut rx: mpsc::Receiver<DownloadRequest>, bounded: bool, trace: Trace) {
    let mut pipeline = DownloadLoop::new(false, bounded);
    let mut detached = Vec::new();
    while pipeline.can_receive() {
        let Some(request) = rx.recv().await else {
            pipeline.on_queue_closed();
            break;
        };
        match pipeline.on_request() {
            Dispatch::Inline => {
                worker(request, pipeline.slow(), trace.clone()).await;
                pipeline.on_finished();
            }
            Dispatch::Detached => {
                detached.push(tokio::spawn(worker(request, pipeline.slow(), trace.clone())));
            }
        }
    }
    assert!(!pipeline.can_receive());
    for task in detached {
        task.await.unwrap();
    }
}

/// Asks for "A" and "B", lets a download loop answer both, and returns what
/// the workers left behind.
fn two_requests(bounded: bool) -> Trace {
    let decode = |data: &[u8]| Some(data.to_vec());
    let render = |text: &str| (text.as_bytes().to_vec(), (0u32, 0u32));
    let (tx, rx) = mpsc::channel::<DownloadRequest>(16);
    let mut manager = AsyncResourceManager::new(decode, tx, render);
    assert!(matches!(manager.get_image_from_url("A"), Ok(None)));
    assert!(matches!(manager.get_image_from_url("B"), Ok(None)));
    assert_eq!(manager.in_flight_count(), 2);
    let trace = Trace::default();
    let runtime = tokio::runtime::Builder::new_current_thread().build().unwrap();
    let pipeline = runtime.spawn(run_loop(rx, bounded, trace.clone()));
    // Let the loop work until it waits for a third request, then harvest.
    runtime.block_on(async {
        while trace.events.lock().unwrap().len() < 4 {
            tokio::task::yield_now().await;
        }
    });
    manager.process_pending();
    assert_eq!(manager.in_flight_count(), 0);
    assert_eq!(*manager.get_image_from_url("A").unwrap().unwrap(), b"A".to_vec());
    assert_eq!(*manager.get_image_from_url("B").unwrap().unwrap(), b"B".to_vec());
    // Dropping the cache closes the queue, which ends the loop.
    drop(manager);
    runtime.block_on(pipeline).unwrap();
    trace
}

#[test]
fn bounded_pipeline_finishes_a_before_it_starts_b() {
    let trace = two_requests(true);
    assert_eq!(*trace.events.lock().unwrap(), ["start A", "end A", "start B", "end B"]);
    assert_eq!(trace.most_at_work.load(Ordering::SeqCst), 1);
}

#[test]
fn unbounded_pipeline_works_on_a_and_b_at_once() {
    let trace = two_requests(false);
    // Both have started before either has ended; in which order is open.
    let events = trace.events.lock().unwrap().clone();
    let mut starts = events[..2].to_vec();
    starts.sort();
    assert_eq!(starts, ["start A", "start B"]);
    let mut ends = events[2..].to_vec();
    ends.sort();
    assert_eq!(ends, ["end A", "end B"]);
    assert_eq!(trace.most_at_work.load(Ordering::SeqCst), 2);
}

#[test]
fn bounded_loop_handles_one_request_at_a_time() {
    let mut pipeline = DownloadLoop::new(false, true);
    assert!(pipeline.bounded());
    assert!(pipeline.can_receive());
    // "A" is received and handled to the end.
    assert_eq!(pipeline.on_request(), Dispatch::Inline);
    // "B" must not start before "A" is done.
    assert!(!pipeline.can_receive());
    pipeline.on_finished();
    assert!(pipeline.can_receive());
    assert_eq!(pipeline.on_request(), Dispatch::Inline);
    assert!(!pipeline.can_receive());
}

#[test]
fn unbounded_loop_lets_requests_overlap() {
    let mut pipeline = DownloadLoop::new(false, false);
    assert!(!pipeline.bounded());
    assert!(pipeline.can_receive());
    // "A" goes to a task of its own, and "B" right after it.
    assert_eq!(pipeline.on_request(), Dispatch::Detached);
    assert!(pipeline.can_receive());
    assert_eq!(pipeline.on_request(), Dispatch::Detached);
    assert!(pipeline.can_receive());
}

#[test]
fn closed_queue_ends_the_loop() {
    let mut pipeline = DownloadLoop::new(true, false);
    assert!(pipeline.slow());
    pipeline.on_queue_closed();
    assert!(!pipeline.can_receive());
    let mut busy = DownloadLoop::new(false, true);
    assert_eq!(busy.on_request(), Dispatch::Inline);
    busy.on_queue_closed();
    busy.on_finished();
    assert!(!busy.can_receive());
}

#[test]
fn request_is_answered_with_the_payload() {
    let (tx, mut rx) = oneshot::channel();
    let request = DownloadRequest {
        url: "https://example.org/a.jpg".to_string(),
        response_channel: tx,
    };
    let (url, fetching) = handle_request(request, false);
    assert_eq!(url, "https://example.org/a.jpg");
    assert_eq!(rx.try_recv().err(), Some(TryRecvError::Empty));
    let held = fetching.fetched(Some(Bytes::from(vec![1u8, 2, 3])));
    assert_eq!(held.delay_millis(), 0);
    assert!(!held.is_failure());
    assert_eq!(rx.try_recv().err(), Some(TryRecvError::Empty));
    assert!(held.deliver());
    let reply = rx.try_recv().unwrap();
    assert_eq!(reply.unwrap().bytes, Bytes::from(vec![1u8, 2, 3]));
}

#[test]
fn failed_fetch_is_answered_with_nothing() {
    let (tx, mut rx) = oneshot::channel();
    let request = DownloadRequest { url: "u".to_string(), response_channel: tx };
    let (_url, fetching) = handle_request(request, false);
    let held = fetching.fetched(None);
    assert!(held.is_failure());
    assert!(held.deliver());
    assert!(rx.try_recv().unwrap().is_none());
}

#[test]
fn slow_mode_holds_the_reply_for_two_seconds() {
    assert_eq!(SLOW_REPLY_DELAY_MILLIS, 2000);
    let (tx, mut rx) = oneshot::channel();
    let request = DownloadRequest { url: "u".to_string(), response_channel: tx };
    let (_url, fetching) = handle_request(request, true);
    let held = fetching.fetched(Some(Bytes::from(vec![7u8])));
    assert_eq!(held.delay_millis(), 2000);
    assert_eq!(rx.try_recv().err(), Some(TryRecvError::Empty));
    assert!(held.deliver());
    assert_eq!(rx.try_recv().unwrap().unwrap().bytes.as_ref(), &[7u8]);
    let (tx, _rx) = oneshot::channel();
    let request = DownloadRequest { url: "u".to_string(), response_channel: tx };
    assert_eq!(handle_request(request, true).1.fetched(None).delay_millis(), 2000);
}

#[test]
fn abandoned_requester_is_no_failure() {
    let (tx, rx) = oneshot::channel();
    let request = DownloadRequest { url: "u".to_string(), response_channel: tx };
    let (_url, fetching) = handle_request(request, false);
    drop(rx);
    let held = fetching.fetched(Some(Bytes::from(vec![1u8])));
    assert!(!held.deliver());
}
