use corrodedweb::logging::LogLevel;
use corrodedweb::logging::RFC3339_LIMIT;
use corrodedweb::logging::current_timestamp;
use corrodedweb::logging::log_line;
use corrodedweb::logging::render_timestamp;
use corrodedweb::pool::JobQueue;

#[test]
fn jobs_come_out_in_arrival_order() {
    let mut queue: JobQueue<u32> = JobQueue::new();
    queue.enqueue(1);
    queue.enqueue(2);
    queue.enqueue(3);
    assert_eq!(queue.take_next(), Some(1));
    assert_eq!(queue.take_next(), Some(2));
    assert_eq!(queue.take_next(), Some(3));
    assert_eq!(queue.take_next(), None);
}

#[test]
fn shutdown_hands_out_every_job_enqueued_before_the_close() {
    let mut queue: JobQueue<u32> = JobQueue::new();
    queue.enqueue(10);
    queue.enqueue(20);
    queue.enqueue(30);
    queue.close();
    assert!(queue.closed_for_shutdown());
    let drained = queue.drain();
    assert_eq!(drained, vec![10, 20, 30]);
    assert_eq!(queue.len(), 0);
    assert_eq!(queue.take_next(), None);
}

#[test]
fn a_job_waiting_behind_busy_workers_is_eventually_served() {
    let mut queue: JobQueue<u32> = JobQueue::new();
    for job in 0..8 {
        queue.enqueue(job);
    }
    // Submitted while everything ahead of it is still pending.
    queue.enqueue(99);
    for _ in 0..8 {
        assert!(queue.take_next().is_some());
    }
    assert_eq!(queue.take_next(), Some(99));
}

#[test]
fn an_empty_open_queue_hands_out_nothing() {
    let mut queue: JobQueue<String> = JobQueue::new();
    assert_eq!(queue.len(), 0);
    assert!(!queue.closed_for_shutdown());
    assert!(queue.take_next().is_none());
}

#[test]
fn log_lines_carry_level_timestamp_and_message() {
    assert_eq!(
        log_line(LogLevel::Debug, "2018-02-14T00:28:07Z", "hello"),
        "DEBUG (2018-02-14T00:28:07Z): hello"
    );
    assert_eq!(
        log_line(LogLevel::Info, "2018-02-14T00:28:07Z", "Opening file"),
        "INFO (2018-02-14T00:28:07Z): Opening file"
    );
    assert_eq!(
        log_line(LogLevel::Warning, "2018-02-14T00:28:07Z", "Something went wrong"),
        "WARNING (2018-02-14T00:28:07Z): Something went wrong"
    );
}

#[test]
fn rendering_is_the_rfc3339_seconds_form_of_the_given_time() {
    assert_eq!(render_timestamp(0), "1970-01-01T00:00:00Z");
    assert_eq!(render_timestamp(1518568087), "2018-02-14T00:28:07Z");
    assert_eq!(render_timestamp(RFC3339_LIMIT - 1), "9999-12-31T23:59:59Z");
    assert_eq!(render_timestamp(RFC3339_LIMIT), "");
}

#[test]
fn the_timestamp_is_rfc3339_with_seconds_precision() {
    let ts = current_timestamp();
    let bytes = ts.as_bytes();
    assert_eq!(bytes.len(), 20);
    assert_eq!(bytes[4], b'-');
    assert_eq!(bytes[7], b'-');
    assert_eq!(bytes[10], b'T');
    assert_eq!(bytes[13], b':');
    assert_eq!(bytes[16], b':');
    assert_eq!(bytes[19], b'Z');
    assert!(!ts.contains('\n'));
}

#[test]
fn a_full_log_line_is_a_single_line() {
    let line = log_line(LogLevel::Info, &current_timestamp(), "one message");
    assert!(!line.contains('\n'));
}
