use ratbagd::hal::error::DriverError;
use ratbagd::hal::transport::{
    Attempts, DriverKind, MAX_PENDING_EVENTS, PendingEvents, RequestEvent, RequestStep, Routing,
    driver_kind, hid_get_feature_req, hid_set_feature_req, route_report,
};

#[test]
fn pending_events_are_capped() {
    let mut pending = PendingEvents::new();
    for i in 0..(MAX_PENDING_EVENTS + 8) {
        pending.push_pending_event(vec![i as u8]);
    }
    let events = pending.drain_events();
    assert_eq!(events.len(), MAX_PENDING_EVENTS);
    assert_eq!(events[0], vec![8u8]);
    assert!(pending.drain_events().is_empty());
}

#[test]
fn request_routes_noise_and_unmatched_reports() {
    let mut pending = PendingEvents::new();
    let matches = |buf: &[u8]| buf.first() == Some(&0x10) && buf.get(2) == Some(&0x02);
    let noise = [0x02, 0xFF, 0xFF, 0x00, 0x00, 0x00, 0x00];
    let unmatched = [0x10, 0x01, 0x99, 0x00, 0x00, 0x00, 0x00];
    let reply = [0x10, 0x01, 0x02, 0x00, 0x00, 0x00, 0x00];
    assert_eq!(route_report(&noise, matches(&noise), &mut pending), Routing::Noise);
    assert_eq!(route_report(&unmatched, matches(&unmatched), &mut pending), Routing::Kept);
    assert_eq!(route_report(&reply, matches(&reply), &mut pending), Routing::Answer);
    assert_eq!(route_report(&[0x01, 0x02, 0x03], true, &mut pending), Routing::Noise);
    let events = pending.drain_events();
    assert_eq!(events.len(), 1, "only the unmatched HID++ report is buffered");
    assert_eq!(events[0][2], 0x99);
    assert_eq!(events[0], unmatched.to_vec());
    assert!(pending.drain_events().is_empty(), "drain clears the buffer");
}

#[test]
fn attempts_run_out() {
    let mut a = Attempts::new(20, 2).unwrap();
    assert!(a.next().is_ok());
    assert!(a.next().is_ok());
    assert!(matches!(a.next(), Err(DriverError::Timeout { attempts: 2 })));
    assert!(matches!(
        Attempts::new(65, 1),
        Err(DriverError::BufferTooSmall { expected: 64, actual: 65 })
    ));
}

#[test]
fn unanswered_requests_are_repeated() {
    let mut a = Attempts::new(20, 2).unwrap();
    a.next().unwrap();
    assert_eq!(a.after(RequestEvent::Report(Routing::Noise)), RequestStep::Listen);
    assert_eq!(a.after(RequestEvent::Report(Routing::Kept)), RequestStep::Listen);
    assert_eq!(a.after(RequestEvent::ReadFailed), RequestStep::Send);
    assert_eq!(a.after(RequestEvent::Report(Routing::Answer)), RequestStep::Answered);
    assert_eq!(a.after(RequestEvent::Elapsed), RequestStep::GiveUp { attempts: 2 });
}

#[test]
fn drivers_have_names() {
    assert_eq!(driver_kind("asus"), Some(DriverKind::Asus));
    assert_eq!(driver_kind("nothing"), None);
}

#[test]
fn feature_ioctls_carry_their_length() {
    assert_eq!(hid_set_feature_req(64), 0xC040_4806);
    assert_eq!(hid_get_feature_req(9), 0xC009_4807);
}
