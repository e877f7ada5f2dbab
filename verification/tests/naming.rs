//! Object naming and the platform helpers: section and event names, slot
//! and dispatch channel names, number formatting, and NT path translation.

use xshm::{
    dispatch_channel_name, duration_to_nt_timeout, event_name, event_prefix, is_timeout,
    mapping_name, nt_success, slot_channel_name, to_nt_path, u32_to_decimal, u64_to_hex,
    Direction, EVENT_CONNECT_REQ_SUFFIX, EVENT_DATA_SUFFIX,
};

#[test]
fn mapping_name_uses_segment_prefix() {
    assert_eq!(mapping_name("X"), "Local\\XSHM_SEG_X".to_string());
    assert_eq!(mapping_name("M_0"), "Local\\XSHM_SEG_M_0".to_string());
}

#[test]
fn event_names_carry_direction_and_suffix() {
    assert_eq!(event_prefix("X"), "Local\\XSHM_X_".to_string());
    assert_eq!(
        event_name("X", Direction::ServerToClient, EVENT_DATA_SUFFIX),
        "Local\\XSHM_X_S2C_DATA".to_string()
    );
    assert_eq!(
        event_name("X", Direction::ClientToServer, EVENT_CONNECT_REQ_SUFFIX),
        "Local\\XSHM_X_C2S_CONNECT_REQ".to_string()
    );
}

#[test]
fn decimal_formatting_matches() {
    assert_eq!(u32_to_decimal(0), "0".to_string());
    assert_eq!(u32_to_decimal(7), "7".to_string());
    assert_eq!(u32_to_decimal(19), "19".to_string());
    assert_eq!(u32_to_decimal(4_294_967_295), "4294967295".to_string());
}

#[test]
fn hex_formatting_is_zero_padded() {
    assert_eq!(u64_to_hex(0, 16), "0000000000000000".to_string());
    assert_eq!(u64_to_hex(0xa7f3_b2c1, 16), "00000000a7f3b2c1".to_string());
    assert_eq!(u64_to_hex(0x1234_5678_9abc_def0, 16), "123456789abcdef0".to_string());
    assert_eq!(u64_to_hex(0xff, 2), "ff".to_string());
}

#[test]
fn slot_and_dispatch_channel_names() {
    assert_eq!(slot_channel_name("M", 2), "M_2".to_string());
    assert_eq!(slot_channel_name("BaseName", 11), "BaseName_11".to_string());
    assert_eq!(
        dispatch_channel_name("NxT", 0xa7f3_b2c1),
        "NxT_00000000a7f3b2c1".to_string()
    );
}

#[test]
fn nt_path_translation_cases() {
    assert_eq!(to_nt_path("Local\\MyChannel"), "\\BaseNamedObjects\\MyChannel".to_string());
    assert_eq!(to_nt_path("Global\\MyChannel"), "\\BaseNamedObjects\\MyChannel".to_string());
    assert_eq!(to_nt_path("\\Device\\Thing"), "\\Device\\Thing".to_string());
    assert_eq!(to_nt_path("MyChannel"), "\\BaseNamedObjects\\MyChannel".to_string());
}

#[test]
fn status_word_tests() {
    assert!(nt_success(0));
    assert!(nt_success(1));
    assert!(!nt_success(-1));
    assert!(is_timeout(0x102));
    assert!(!is_timeout(0));
}

#[test]
fn nt_timeout_is_negative_hundreds_of_nanoseconds() {
    assert_eq!(duration_to_nt_timeout(0), 0);
    assert_eq!(duration_to_nt_timeout(1_000_000), -10_000);
    assert_eq!(duration_to_nt_timeout(50_000_000), -500_000);
}

#[test]
fn test_architecture_supported() {
    assert!(matches!(std::mem::size_of::<usize>(), 4 | 8));
}
