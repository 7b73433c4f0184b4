use fgtw_fleet::pipe::{
    client_key, connect_target, enabled, fgtw_url, fleet_server_step, native_only, pump_url, seed_host, Pump, PumpAction, PumpEvent,
    ServerAction, KEEPALIVE_SECS,
};
use fgtw_fleet::transport::{is_enrolled, RdTransport};

#[test]
fn server_address_defaults() {
    assert_eq!(fgtw_url(""), "https://fgtw.org");
    assert_eq!(fgtw_url("http://dev.local:8787"), "http://dev.local:8787");
}

#[test]
fn seed_host_has_no_scheme_and_no_slash() {
    assert_eq!(seed_host("https://fgtw.org"), "fgtw.org");
    assert_eq!(seed_host("http://dev.local:8787//"), "dev.local:8787");
    assert_eq!(seed_host("https://https://http://x/"), "x");
    assert_eq!(seed_host("http://https://x"), "https://x");
    assert_eq!(seed_host(""), "");
    assert_eq!(seed_host("plain/path"), "plain/path");
}

#[test]
fn pipe_address_names_device_and_service() {
    let mut want = String::from("wss://fgtw.org/pipe?dev=");
    want.push_str(&"0a".repeat(32));
    want.push_str("&svc=rd");
    assert_eq!(pump_url("https://fgtw.org/", &[0x0A; 32]), want);
}

#[test]
fn waits_double_up_to_the_bound() {
    let mut pump = Pump::new();
    let mut waits = Vec::new();
    for _ in 0..7 {
        match pump.step(PumpEvent::ConnectFailed) {
            PumpAction::Wait(secs) => waits.push(secs),
            _ => panic!("expected a wait"),
        }
        assert!(matches!(pump.step(PumpEvent::Waited), PumpAction::Connect));
    }
    assert_eq!(waits, vec![1, 2, 4, 8, 16, 30, 30]);
    assert!(matches!(pump.step(PumpEvent::Connected), PumpAction::Listen));
    assert!(matches!(pump.step(PumpEvent::Disconnected), PumpAction::Wait(1)));
    assert!(matches!(pump.step(PumpEvent::SendFailed), PumpAction::Wait(2)));
}

#[test]
fn pump_moves_envelopes_both_ways() {
    let mut pump = Pump::new();
    assert!(matches!(pump.step(PumpEvent::Outgoing(vec![1, 2])), PumpAction::Send(b) if b == [1, 2]));
    assert!(matches!(pump.step(PumpEvent::SendDone), PumpAction::Listen));
    assert!(matches!(pump.step(PumpEvent::Binary(vec![3])), PumpAction::Route(b) if b == [3]));
    assert!(matches!(pump.step(PumpEvent::OtherMessage), PumpAction::Listen));
    assert!(matches!(pump.step(PumpEvent::Tick), PumpAction::Ping));
    assert!(matches!(pump.step(PumpEvent::ClientGone), PumpAction::Stop));
    assert_eq!(pump.backoff, 1);
    assert_eq!(KEEPALIVE_SECS, 20);
}

#[test]
fn native_path_follows_options() {
    assert!(enabled(true, ""));
    assert!(enabled(true, "Y"));
    assert!(!enabled(true, "N"));
    assert!(!enabled(false, "Y"));
    assert!(native_only("Y"));
    assert!(!native_only(""));
    assert!(!native_only("y"));
}

#[test]
fn unknown_peer_has_no_target() {
    assert_eq!(connect_target("123", Some([4; 32])), Ok([4; 32]));
    assert_eq!(connect_target("123", None), Err("123 is not a fleet peer with a published id".to_string()));
}

#[test]
fn server_waits_until_it_can_accept() {
    assert_eq!(fleet_server_step(false, true), ServerAction::Wait(5));
    assert_eq!(fleet_server_step(true, false), ServerAction::Wait(10));
    assert_eq!(fleet_server_step(true, true), ServerAction::Accept);
}

#[test]
fn transports_wait_as_long_as_they_may() {
    assert_eq!(RdTransport::auth().timeout(), 3);
    assert_eq!(RdTransport::enroll().timeout(), 15);
}

#[test]
fn session_or_cache_makes_enrolled() {
    assert!(is_enrolled(true, false));
    assert!(is_enrolled(false, true));
    assert!(is_enrolled(true, true));
    assert!(!is_enrolled(false, false));
}

#[test]
fn a_machine_that_is_not_enrolled_has_no_pipe() {
    let key = fgtw_fleet::keys::device_keypair(Some(&[1; 16])).unwrap();
    assert_eq!(client_key(true, Ok(key)), Ok(key));
    assert_eq!(client_key(true, Err("no key".to_string())), Err("no key".to_string()));
    assert_eq!(client_key(false, Ok(key)), Err("not enrolled".to_string()));
    assert_eq!(client_key(false, Err("no key".to_string())), Err("not enrolled".to_string()));
}
