use webserver::Endpoint;
use webserver::PoolConfigurationError;
use webserver::PoolState;

#[test]
fn zero_size_pool_is_refused() {
    let r = PoolState::new(0);
    assert!(matches!(r, Err(PoolConfigurationError)));
}

#[test]
fn fresh_pool_is_idle() {
    let p = PoolState::new(4).expect("size 4 is valid");
    assert_eq!(p.size, 4);
    assert_eq!(p.queue.len(), 0);
    assert_eq!(p.running, 0);
    assert_eq!(p.completed, 0);
    assert_eq!(p.next_job, 0);
    assert!(p.accepting);
}

#[test]
fn at_most_size_jobs_run_at_once_and_all_complete() {
    // Pool size 2, five jobs: drive the pool the way the worker loop
    // does, checking the concurrency bound at every step.
    let mut p = PoolState::new(2).expect("size 2 is valid");
    for expected in 0..5usize {
        let job = p.submit();
        assert_eq!(job, expected);
        assert!(p.running <= p.size);
    }
    assert_eq!(p.queue.len(), 5);
    p.shutdown();
    assert!(!p.accepting);
    let mut delivered = Vec::new();
    while p.queue.len() > 0 || p.running > 0 {
        if p.running < p.size && p.queue.len() > 0 {
            let job = p.begin_job().expect("queue was not empty");
            delivered.push(job);
        } else {
            p.finish_job();
        }
        assert!(p.running <= p.size);
    }
    // All five jobs were delivered once each, in submission order.
    assert_eq!(delivered, vec![0, 1, 2, 3, 4]);
    assert_eq!(p.completed, 5);
    assert_eq!(p.next_job, 5);
}

#[test]
fn begin_job_on_empty_queue_delivers_nothing() {
    let mut p = PoolState::new(1).expect("size 1 is valid");
    assert!(p.begin_job().is_none());
    assert_eq!(p.running, 0);
}

#[test]
fn delivery_is_fifo() {
    let mut p = PoolState::new(3).expect("size 3 is valid");
    for _ in 0..3 {
        p.submit();
    }
    assert_eq!(p.begin_job(), Some(0));
    assert_eq!(p.begin_job(), Some(1));
    p.finish_job();
    assert_eq!(p.begin_job(), Some(2));
}

#[test]
fn endpoint_new_keeps_path_and_handler() {
    let e = Endpoint::new(
        b"/home".to_vec(),
        webserver::html_response(b"welcome".to_vec()),
    );
    assert_eq!(e.path, b"/home".to_vec());
    assert_eq!(e.handler.body, b"welcome".to_vec());
}

#[test]
fn endpoint_default_is_root_with_fallback_contents() {
    let e = Endpoint::default(b"unknown page".to_vec());
    assert_eq!(e.path, b"/".to_vec());
    assert_eq!(e.handler.protocol, b"HTTP/1.1".to_vec());
    assert_eq!(e.handler.status_code.code(), 200);
    assert_eq!(e.handler.body, b"unknown page".to_vec());
}
