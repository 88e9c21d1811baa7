use ktv_casting::dlna::TransportState;
use ktv_casting::error::EngineError;
use ktv_casting::engine::{
    playing_from_state, require_running, volume_answer,
    after_toggle, get_best_local_ip, ipv4_text, location_host, parse_ipv4, plan_start, proxy_url,
    reading_or_sentinel, select_local_ip, toggle_command, StartPlan, TransportCommand,
};

#[test]
fn ipv4_parsing() {
    assert_eq!(parse_ipv4("192.168.1.20"), Some(0xC0A8_0114));
    assert_eq!(parse_ipv4("0.0.0.0"), Some(0));
    assert_eq!(parse_ipv4("255.255.255.255"), Some(u32::MAX));
    assert_eq!(parse_ipv4("256.1.1.1"), None);
    assert_eq!(parse_ipv4("01.1.1.1"), None);
    assert_eq!(parse_ipv4("1.1.1"), None);
    assert_eq!(parse_ipv4("1.1.1.1.1"), None);
    assert_eq!(parse_ipv4("a.b.c.d"), None);
    assert_eq!(parse_ipv4(""), None);
}

#[test]
fn ipv4_writing() {
    assert_eq!(ipv4_text(0xC0A8_0114), "192.168.1.20");
    assert_eq!(ipv4_text(0), "0.0.0.0");
}

#[test]
fn host_of_location() {
    assert_eq!(location_host("http://192.168.1.20:49152/description.xml"), "192.168.1.20");
    assert_eq!(location_host("http://10.0.0.2/desc"), "10.0.0.2");
    assert_eq!(location_host("http://10.0.0.3"), "10.0.0.3");
    assert_eq!(location_host("nothing"), "127.0.0.1");
}

#[test]
fn longest_prefix_interface() {
    let ifs = vec![0x0A00_0001, 0xC0A8_0102, 0xC0A8_0203];
    assert_eq!(select_local_ip(0xC0A8_0114, &ifs), Some(1));
    assert_eq!(get_best_local_ip("192.168.1.20", &ifs), Some(0xC0A8_0102));
    assert_eq!(get_best_local_ip("10.9.9.9", &ifs), Some(0x0A00_0001));
}

#[test]
fn longest_prefix_tie_takes_last() {
    let ifs = vec![0xC0A8_0106, 0xC0A8_0107];
    // 192.168.1.4 shares 30 leading bits with both.
    assert_eq!(select_local_ip(0xC0A8_0104, &ifs), Some(1));
}

#[test]
fn no_interface_or_bad_target() {
    assert_eq!(select_local_ip(1, &vec![]), None);
    assert_eq!(get_best_local_ip("192.168.1.20", &vec![]), None);
    assert_eq!(get_best_local_ip("renderer.local", &vec![1]), None);
}

#[test]
fn proxy_address() {
    assert_eq!(proxy_url(0xC0A8_0105, 8080, "BV1xx-page2"), "http://192.168.1.5:8080/BV1xx-page2");
}

#[test]
fn restart_while_running() {
    assert_eq!(plan_start(true), StartPlan { reset_first: true, wait_ms: 300 });
    assert_eq!(plan_start(false), StartPlan { reset_first: false, wait_ms: 0 });
}

#[test]
fn toggling_pause() {
    assert_eq!(toggle_command(true), TransportCommand::Pause);
    assert_eq!(toggle_command(false), TransportCommand::Play);
    assert_eq!(after_toggle(true, true), (false, 0));
    assert_eq!(after_toggle(false, true), (true, 1));
    assert_eq!(after_toggle(true, false), (true, -1));
}

#[test]
fn sentinels() {
    assert_eq!(reading_or_sentinel(Some(42)), 42);
    assert_eq!(reading_or_sentinel(None), -1);
}

#[test]
fn initial_playback_and_volume_answers() {
    assert!(playing_from_state(Some(TransportState::Playing)));
    assert!(!playing_from_state(Some(TransportState::PausedPlayback)));
    assert!(!playing_from_state(None));
    assert_eq!(volume_answer(120, true), 100);
    assert_eq!(volume_answer(-3, true), 0);
    assert_eq!(volume_answer(55, true), 55);
    assert_eq!(volume_answer(55, false), -1);
}

#[test]
fn control_needs_running_engine() {
    assert_eq!(require_running(true), Ok(()));
    assert_eq!(require_running(false), Err(EngineError::NotInitialized));
}
