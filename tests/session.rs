use rscam::{Action, Config, Error, Event, FormatRequest, Phase, Session};

/// The device of these tests: it honours every request, except that it
/// answers the format request with `format_reply` where one is given.
fn drive(
    session: &mut Session,
    config: &Config,
    format_reply: Option<FormatRequest>,
    interval_reply: Option<(u32, u32)>,
) -> Action {
    let mut action = session.begin_start(config);
    loop {
        let event = match action {
            Action::SetFormat(req) => Event::FormatSet(format_reply.unwrap_or(req)),
            Action::SetInterval(n, d) => {
                let (n, d) = interval_reply.unwrap_or((n, d));
                Event::IntervalSet(n, d)
            }
            Action::RequestBuffers(_) => Event::BuffersGranted,
            Action::QueryBuffer(i) => Event::BufferFound { length: 614_400, offset: i * 614_400 },
            Action::MapBuffer { .. } => Event::BufferMapped,
            Action::QueueBuffer(_) => Event::BufferQueued,
            Action::StartStream => Event::StreamStarted,
            Action::Done | Action::Fail(_) => return action,
        };
        action = session.step(event);
    }
}

fn config(nbuffers: u32) -> Config<'static> {
    Config {
        interval: (1, 30),
        resolution: (1280, 720),
        format: b"MJPG",
        nbuffers,
        ..Default::default()
    }
}

#[test]
fn start_with_honoured_interval() {
    let mut s = Session::new();
    assert_eq!(s.phase(), Phase::Idle);
    let action = drive(&mut s, &config(2), None, None);
    assert_eq!(action, Action::Done);
    assert_eq!(s.phase(), Phase::Streaming);
    assert_eq!(s.resolution(), (1280, 720));
    assert_eq!(&s.format(), b"MJPG");
    assert_eq!(s.pool().len(), 2);
    assert!(s.pool().slot(0).queued && s.pool().slot(1).queued);
    assert!(s.needs_stop());
}

#[test]
fn start_steps_in_protocol_order() {
    let mut s = Session::new();
    let c = config(1);
    let req = FormatRequest { width: 1280, height: 720, fourcc: 0x4750_4a4d, field: 1 };
    assert_eq!(s.begin_start(&c), Action::SetFormat(req));
    assert_eq!(s.phase(), Phase::SettingFormat);
    assert_eq!(s.step(Event::FormatSet(req)), Action::SetInterval(1, 30));
    assert_eq!(s.step(Event::IntervalSet(2, 60)), Action::RequestBuffers(1));
    assert_eq!(s.step(Event::BuffersGranted), Action::QueryBuffer(0));
    assert_eq!(
        s.step(Event::BufferFound { length: 4096, offset: 8192 }),
        Action::MapBuffer { index: 0, length: 4096, offset: 8192 }
    );
    assert_eq!(s.step(Event::BufferMapped), Action::QueueBuffer(0));
    assert_eq!(s.pool().slot(0).capacity, 4096);
    assert!(!s.pool().slot(0).queued);
    assert_eq!(s.step(Event::BufferQueued), Action::StartStream);
    assert!(s.pool().slot(0).queued);
    assert_eq!(s.step(Event::StreamStarted), Action::Done);
    assert_eq!(s.phase(), Phase::Streaming);
}

#[test]
fn resolution_substituted_by_device() {
    let mut s = Session::new();
    let reply = FormatRequest { width: 1280, height: 960, fourcc: 0x4750_4a4d, field: 1 };
    let action = drive(&mut s, &config(4), Some(reply), None);
    assert_eq!(action, Action::Fail(Error::BadResolution));
    assert_eq!(s.phase(), Phase::Idle);
    assert_eq!(s.pool().len(), 0);
    assert_eq!(s.resolution(), (0, 0));
    assert_eq!(s.format(), [0, 0, 0, 0]);
}

#[test]
fn pixel_format_and_field_substituted() {
    let mut s = Session::new();
    let reply = FormatRequest { width: 1280, height: 720, fourcc: 0x5659_5559, field: 1 };
    assert_eq!(drive(&mut s, &config(4), Some(reply), None), Action::Fail(Error::BadFormat));
    let both = FormatRequest { width: 1280, height: 960, fourcc: 0x5659_5559, field: 1 };
    assert_eq!(drive(&mut s, &config(4), Some(both), None), Action::Fail(Error::BadFormat));
    let reply = FormatRequest { width: 1280, height: 720, fourcc: 0x4750_4a4d, field: 4 };
    assert_eq!(drive(&mut s, &config(4), Some(reply), None), Action::Fail(Error::BadField));
    assert_eq!(s.phase(), Phase::Idle);
}

#[test]
fn interval_not_honoured() {
    let mut s = Session::new();
    let action = drive(&mut s, &config(4), None, Some((1, 25)));
    assert_eq!(action, Action::Fail(Error::BadInterval));
    assert_eq!(s.phase(), Phase::Idle);
    assert_eq!(s.pool().len(), 0);
}

#[test]
fn short_format_code_refused_before_any_call() {
    let mut s = Session::new();
    let c = Config { format: b"MJP", ..Default::default() };
    assert_eq!(s.begin_start(&c), Action::Fail(Error::BadFormat));
    assert_eq!(s.phase(), Phase::Idle);
}

#[test]
fn failed_mapping_rolls_back() {
    let mut s = Session::new();
    s.begin_start(&config(4));
    let req = FormatRequest { width: 1280, height: 720, fourcc: 0x4750_4a4d, field: 1 };
    s.step(Event::FormatSet(req));
    s.step(Event::IntervalSet(1, 30));
    s.step(Event::BuffersGranted);
    s.step(Event::BufferFound { length: 100, offset: 0 });
    assert_eq!(s.step(Event::BufferMapped), Action::QueryBuffer(1));
    assert_eq!(s.pool().len(), 1);
    s.step(Event::BufferFound { length: 100, offset: 100 });
    assert_eq!(s.step(Event::Failed(12)), Action::Fail(Error::Io(12)));
    assert_eq!(s.pool().len(), 0);
    assert_eq!(s.phase(), Phase::Idle);
}

#[test]
fn failed_stream_on_rolls_back() {
    let mut s = Session::new();
    s.begin_start(&config(2));
    let req = FormatRequest { width: 1280, height: 720, fourcc: 0x4750_4a4d, field: 1 };
    s.step(Event::FormatSet(req));
    s.step(Event::IntervalSet(1, 30));
    s.step(Event::BuffersGranted);
    for _ in 0..2 {
        s.step(Event::BufferFound { length: 100, offset: 0 });
        s.step(Event::BufferMapped);
    }
    s.step(Event::BufferQueued);
    assert_eq!(s.step(Event::BufferQueued), Action::StartStream);
    assert_eq!(s.step(Event::Failed(5)), Action::Fail(Error::Io(5)));
    assert_eq!(s.pool().len(), 0);
    assert_eq!(s.phase(), Phase::Idle);
}

#[test]
fn lease_round_trip_of_buffer_two() {
    let mut s = Session::new();
    assert_eq!(drive(&mut s, &config(4), None, None), Action::Done);
    assert_eq!(s.pool().len(), 4);
    let lease = s.lease(2, 40_000);
    assert_eq!(lease.index(), 2);
    assert_eq!(lease.len(), 40_000);
    assert_eq!(lease.capacity(), 614_400);
    assert_eq!(lease.resolution(), (1280, 720));
    assert_eq!(&lease.format(), b"MJPG");
    assert!(!s.pool().slot(2).queued);
    assert_eq!(s.release(lease), 2);
    assert!(s.pool().slot(2).queued);
    let again = s.lease(2, 1_000);
    assert_eq!(again.index(), 2);
    assert_eq!(again.len(), 1_000);
}

#[test]
fn lease_never_reaches_past_region() {
    let mut s = Session::new();
    drive(&mut s, &config(2), None, None);
    let lease = s.lease(1, 700_000);
    assert_eq!(lease.len(), 614_400);
    assert!(lease.len() <= lease.capacity());
}

#[test]
fn stop_with_two_leases_outstanding() {
    let mut s = Session::new();
    drive(&mut s, &config(4), None, None);
    let a = s.lease(0, 10);
    let b = s.lease(3, 20);
    assert_eq!(s.stop(Ok(())), Ok(()));
    assert_eq!(s.phase(), Phase::Stopped);
    assert_eq!(s.pool().len(), 0);
    assert_eq!(a.len(), 10);
    assert_eq!(b.len(), 20);
    assert_eq!(s.release(a), 0);
    assert_eq!(s.release(b), 3);
    assert_eq!(s.pool().len(), 0);
    assert_eq!(s.phase(), Phase::Stopped);
}

#[test]
fn stop_releases_even_when_device_fails() {
    let mut s = Session::new();
    drive(&mut s, &config(3), None, None);
    assert_eq!(s.stop(Err(19)), Err(Error::Io(19)));
    assert_eq!(s.pool().len(), 0);
    assert!(!s.needs_stop());
}

#[test]
fn stop_then_drop_does_not_stop_again() {
    let mut s = Session::new();
    drive(&mut s, &config(2), None, None);
    assert!(s.needs_stop());
    s.stop(Ok(())).unwrap();
    assert!(!s.needs_stop());
}

#[test]
fn pool_release_twice() {
    let mut p = rscam::BufferPool::new();
    p.add_region(10);
    p.add_region(20);
    assert_eq!(p.len(), 2);
    p.set_queued(1, true);
    assert_eq!(p.slot(1).capacity, 20);
    assert!(p.slot(1).queued);
    p.release();
    assert_eq!(p.len(), 0);
    p.release();
    assert_eq!(p.len(), 0);
}

#[test]
fn zero_buffers_goes_straight_to_stream_on() {
    let mut s = Session::new();
    s.begin_start(&config(0));
    let req = FormatRequest { width: 1280, height: 720, fourcc: 0x4750_4a4d, field: 1 };
    s.step(Event::FormatSet(req));
    s.step(Event::IntervalSet(1, 30));
    assert_eq!(s.step(Event::BuffersGranted), Action::StartStream);
}

#[test]
fn expects_only_the_pending_answer() {
    let mut s = Session::new();
    assert!(!s.expects(&Event::Failed(1)));
    assert!(!s.expects(&Event::StreamStarted));
    let req = FormatRequest { width: 1280, height: 720, fourcc: 0x4750_4a4d, field: 1 };
    s.begin_start(&config(1));
    assert!(s.expects(&Event::FormatSet(req)));
    assert!(s.expects(&Event::Failed(1)));
    assert!(!s.expects(&Event::BufferQueued));
}
