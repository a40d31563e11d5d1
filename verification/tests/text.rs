use rex::text::{char_from_u32, push_char, push_int, push_nat};

#[test]
fn integers_are_written_in_decimal() {
    let mut out = String::new();
    push_int(&mut out, 0);
    push_char(&mut out, ' ');
    push_int(&mut out, -2147483648);
    push_char(&mut out, ' ');
    push_int(&mut out, 90210);
    push_char(&mut out, ' ');
    push_nat(&mut out, 18446744073709551615);
    assert_eq!(out, "0 -2147483648 90210 18446744073709551615");
}

#[test]
fn code_points_become_chars_only_when_scalar() {
    assert_eq!(char_from_u32(0x78), Some('x'));
    assert_eq!(char_from_u32(0xD800), None);
    assert_eq!(char_from_u32(0x110000), None);
    assert_eq!(char_from_u32(0x10FFFF), Some('\u{10FFFF}'));
}

#[test]
fn decimal_text_reads_back() {
    for n in [0u32, 9, 10, 4095, 65536, 4294967295] {
        let mut out = String::new();
        push_nat(&mut out, n as u64);
        assert_eq!(rex::static_map::parse_u32(&out), Ok(n));
    }
}
