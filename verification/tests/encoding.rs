use clock_display::display::{encode_digit, DisplayMessage};
use clock_display::handler::clock_text;
use clock_display::time::{get_time, time_frame};

#[test]
fn encode_digit_matches_canonical_table() {
    let table: [u8; 10] = [
        0x3f, 0x06, 0x5b, 0x4f, 0x66, 0x6d, 0x7d, 0x07, 0x7f, 0x6f,
    ];
    for d in 0..10u8 {
        assert_eq!(encode_digit(d), table[d as usize]);
    }
}

#[test]
fn digit_patterns_are_pairwise_distinct() {
    for a in 0..10u8 {
        for b in 0..10u8 {
            if a != b {
                assert_ne!(encode_digit(a), encode_digit(b));
            }
        }
    }
}

#[test]
fn message_frames_spell_init_and_sync() {
    assert_eq!(DisplayMessage::Init.as_bytes(), [0x06, 0x54, 0x04, 0x78]);
    assert_eq!(DisplayMessage::Sync.as_bytes(), [0x6d, 0x6e, 0x37, 0x39]);
}

#[test]
fn format_nine_oh_five() {
    assert_eq!(clock_display::time::format(9, 5), [0, 9, 0, 5]);
}

#[test]
fn format_end_of_day() {
    assert_eq!(clock_display::time::format(23, 59), [2, 3, 5, 9]);
}

#[test]
fn format_midnight() {
    assert_eq!(clock_display::time::format(0, 0), [0, 0, 0, 0]);
}

#[test]
fn time_frame_sets_separator_on_hour_units() {
    let f = time_frame(&[0, 9, 0, 5]);
    assert_eq!(f, [0x3f, 0x6f | 0x80, 0x3f, 0x6d]);
    assert_eq!(f[1] & 0x80, 0x80);
    assert_eq!(f[0] & 0x80, 0);
}

#[test]
fn get_time_returns_four_valid_digits() {
    let t = get_time();
    assert_eq!(t.len(), 4);
    for d in &t {
        assert!(*d < 10);
    }
    let hour = t[0] * 10 + t[1];
    let minute = t[2] * 10 + t[3];
    assert!(hour < 24);
    assert!(minute < 60);
}

#[test]
fn clock_text_renders_hh_mm() {
    let digits = vec![0u8, 9, 0, 5];
    assert_eq!(clock_text(&digits), b"09:05".to_vec());
    let digits = vec![2u8, 3, 5, 9];
    assert_eq!(clock_text(&digits), b"23:59".to_vec());
}
