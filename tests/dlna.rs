use ktv_casting::dlna::{
    clamp_volume, format_hms, get_volume_args, instance_args, parse_hms, parse_transport_state,
    parse_volume, play_args, position_from_reply, seek_args, set_uri_args, set_volume_args,
    xml_escape, TransportState,
};

#[test]
fn times_written() {
    assert_eq!(format_hms(0), "00:00:00");
    assert_eq!(format_hms(3725), "01:02:05");
    assert_eq!(format_hms(360000), "100:00:00");
}

#[test]
fn times_read() {
    assert_eq!(parse_hms("00:03:20"), 200);
    assert_eq!(parse_hms("1:02:05.500"), 3725);
    assert_eq!(parse_hms("00:00:00"), 0);
    assert_eq!(parse_hms("NOT_IMPLEMENTED"), 0);
    assert_eq!(parse_hms("1:x:3"), 0);
    assert_eq!(parse_hms(""), 0);
}

#[test]
fn position_reply() {
    assert_eq!(position_from_reply(Some("0:03:19"), Some("0:03:20")), (199, 200));
    assert_eq!(position_from_reply(None, Some("NOT_IMPLEMENTED")), (0, 0));
}

#[test]
fn volume_is_clamped() {
    assert_eq!(clamp_volume(-5), 0);
    assert_eq!(clamp_volume(42), 42);
    assert_eq!(clamp_volume(150), 100);
    assert_eq!(
        set_volume_args(150),
        "<InstanceID>0</InstanceID><Channel>Master</Channel><DesiredVolume>100</DesiredVolume>"
    );
    assert_eq!(
        set_volume_args(-1),
        "<InstanceID>0</InstanceID><Channel>Master</Channel><DesiredVolume>0</DesiredVolume>"
    );
}

#[test]
fn action_arguments() {
    assert_eq!(instance_args(), "<InstanceID>0</InstanceID>");
    assert_eq!(play_args(), "<InstanceID>0</InstanceID><Speed>1</Speed>");
    assert_eq!(get_volume_args(), "<InstanceID>0</InstanceID><Channel>Master</Channel>");
    assert_eq!(
        seek_args(90),
        "<InstanceID>0</InstanceID><Unit>REL_TIME</Unit><Target>00:01:30</Target>"
    );
    assert_eq!(
        set_uri_args("http://10.0.0.1:8080/a?b&c", ""),
        "<InstanceID>0</InstanceID><CurrentURI>http://10.0.0.1:8080/a?b&amp;c</CurrentURI><CurrentURIMetaData></CurrentURIMetaData>"
    );
}

#[test]
fn escaping() {
    assert_eq!(xml_escape("<a href=\"x\">'&'</a>"), "&lt;a href=&quot;x&quot;&gt;&apos;&amp;&apos;&lt;/a&gt;");
}

#[test]
fn transport_states() {
    assert_eq!(parse_transport_state("PLAYING"), Some(TransportState::Playing));
    assert_eq!(parse_transport_state("PAUSED_PLAYBACK"), Some(TransportState::PausedPlayback));
    assert_eq!(parse_transport_state("NO_MEDIA_PRESENT"), Some(TransportState::NoMediaPresent));
    assert_eq!(parse_transport_state("playing"), None);
}

#[test]
fn volume_reply() {
    assert_eq!(parse_volume("35"), Some(35));
    assert_eq!(parse_volume("+7"), Some(7));
    assert_eq!(parse_volume("-1"), None);
    assert_eq!(parse_volume("99999999999999999999"), None);
}
