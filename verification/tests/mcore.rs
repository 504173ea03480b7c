use mgba::mcore::{
    cstring_to_string, is_valid_config_name, new_video_buffer, range_byte_address, rtc_fixed_seconds,
    video_buffer_len, Options,
};

#[test]
fn default_options() {
    let o = Options::default();
    assert_eq!(o.sample_rate, 48000);
    assert!(!o.video_sync);
    assert!(!o.audio_sync);
}

#[test]
fn cstring_stops_at_first_nul() {
    assert_eq!(cstring_to_string(b"MEGAMAN6_GXX\0\0\0\0"), "MEGAMAN6_GXX");
    assert_eq!(cstring_to_string(b"BR6E\0XY"), "BR6E");
}

#[test]
fn cstring_without_nul_takes_whole_field() {
    assert_eq!(cstring_to_string(b"ABCD"), "ABCD");
}

#[test]
fn cstring_empty_field() {
    assert_eq!(cstring_to_string(b"\0ABC"), "");
    assert_eq!(cstring_to_string(b""), "");
}

#[test]
fn cstring_replaces_invalid_utf8() {
    assert_eq!(cstring_to_string(&[0xff, b'a', 0, b'b']), "\u{fffd}a");
}

#[test]
fn cstring_decodes_utf8() {
    assert_eq!(cstring_to_string("ロックマン\0".as_bytes()), "ロックマン");
}

#[test]
fn rtc_before_epoch_clamps_to_epoch() {
    assert_eq!(rtc_fixed_seconds(None), 0);
}

#[test]
fn rtc_keeps_seconds_since_epoch() {
    assert_eq!(rtc_fixed_seconds(Some(0)), 0);
    assert_eq!(rtc_fixed_seconds(Some(1_700_000_000)), 1_700_000_000);
}

#[test]
fn rtc_seconds_wrap_as_signed() {
    assert_eq!(rtc_fixed_seconds(Some(u64::MAX)), -1);
}

#[test]
fn video_buffer_size_of_gba_screen() {
    assert_eq!(video_buffer_len(240, 160, 4), 153_600);
    assert_eq!(video_buffer_len(240, 160, 2), 76_800);
    assert_eq!(video_buffer_len(0, 160, 4), 0);
}

#[test]
fn new_video_buffer_is_zeroed() {
    let b = new_video_buffer(240, 160, 4);
    assert_eq!(b.len(), 153_600);
    assert!(b.iter().all(|&x| x == 0));
}

#[test]
fn cstring_holds_no_nul() {
    let s = cstring_to_string(&[b'A', 0xc0, 0x80, b'B', 0, b'C']);
    assert!(!s.contains('\0'));
    assert!(s.starts_with('A'));
    assert!(s.ends_with('B'));
}

#[test]
fn range_byte_address_offsets_start() {
    assert_eq!(range_byte_address(0x0200_0000, 0), 0x0200_0000);
    assert_eq!(range_byte_address(0x0200_0000, 0x10), 0x0200_0010);
    assert_eq!(range_byte_address(0xffff_fff0, 0xf), 0xffff_ffff);
}

#[test]
fn config_name_without_nul_is_valid() {
    assert!(is_valid_config_name("tango"));
    assert!(is_valid_config_name(""));
}

#[test]
fn config_name_with_nul_is_invalid() {
    assert!(!is_valid_config_name("tan\0go"));
    assert!(!is_valid_config_name("\0"));
}
