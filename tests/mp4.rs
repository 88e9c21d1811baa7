use ktv_casting::mp4::mp4_duration_secs;
use ktv_casting::status_poller::DurationCache;

fn boxed(kind: &[u8; 4], content: &[u8]) -> Vec<u8> {
    let mut v = ((content.len() + 8) as u32).to_be_bytes().to_vec();
    v.extend_from_slice(kind);
    v.extend_from_slice(content);
    v
}

fn mvhd_v0(timescale: u32, duration: u32) -> Vec<u8> {
    let mut c = vec![0u8; 4];
    c.extend_from_slice(&[0; 8]);
    c.extend_from_slice(&timescale.to_be_bytes());
    c.extend_from_slice(&duration.to_be_bytes());
    c.extend_from_slice(&[0; 80]);
    boxed(b"mvhd", &c)
}

fn mvhd_v1(timescale: u32, duration: u64) -> Vec<u8> {
    let mut c = vec![1u8, 0, 0, 0];
    c.extend_from_slice(&[0; 16]);
    c.extend_from_slice(&timescale.to_be_bytes());
    c.extend_from_slice(&duration.to_be_bytes());
    boxed(b"mvhd", &c)
}

#[test]
fn duration_from_version0_header() {
    let mut file = boxed(b"ftyp", b"isom\0\0\0\0");
    let mut moov_content = boxed(b"trak", &[0; 12]);
    moov_content.extend(mvhd_v0(1000, 200_500));
    file.extend(boxed(b"moov", &moov_content));
    assert_eq!(mp4_duration_secs(&file), Some(200));
}

#[test]
fn duration_from_version1_header() {
    let mut file = boxed(b"ftyp", b"isom");
    file.extend(boxed(b"moov", &mvhd_v1(90_000, 90_000 * 321)));
    assert_eq!(mp4_duration_secs(&file), Some(321));
}

#[test]
fn no_duration_without_moov_or_scale() {
    assert_eq!(mp4_duration_secs(&vec![]), None);
    assert_eq!(mp4_duration_secs(&boxed(b"mdat", &[1, 2, 3])), None);
    assert_eq!(mp4_duration_secs(&boxed(b"moov", &mvhd_v0(0, 10))), None);
}

#[test]
fn duration_recorded_in_cache() {
    let mut file = boxed(b"ftyp", b"isom");
    file.extend(boxed(b"moov", &mvhd_v0(600, 600 * 200)));
    let mut cache = DurationCache::new();
    assert!(cache.should_probe("BVa", false));
    assert!(!cache.should_probe("BVa", true));
    assert_eq!(cache.record_from_mp4("BVa", &file), Some(200));
    assert_eq!(cache.get("BVa"), Some(200));
    assert!(!cache.should_probe("BVa", false));
    assert_eq!(cache.record_from_mp4("BVb", &vec![0, 0]), None);
    assert_eq!(cache.get("BVb"), None);
}
