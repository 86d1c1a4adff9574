use cdrom::text::{append_decimal, append_hex_byte, append_unsigned};

fn decimal(n: i64) -> String {
    let mut out = String::new();
    append_decimal(&mut out, n);
    out
}

fn unsigned(n: u64) -> String {
    let mut out = String::new();
    append_unsigned(&mut out, n);
    out
}

fn hex(b: u8) -> String {
    let mut out = String::new();
    append_hex_byte(&mut out, b);
    out
}

#[test]
fn decimal_text_of_numbers() {
    assert_eq!(decimal(0), "0");
    assert_eq!(decimal(7), "7");
    assert_eq!(decimal(10), "10");
    assert_eq!(decimal(4350), "4350");
    assert_eq!(decimal(1_000_000_007), "1000000007");
    assert_eq!(decimal(i64::MAX), "9223372036854775807");
}

#[test]
fn decimal_text_of_negative_numbers() {
    assert_eq!(decimal(-1), "-1");
    assert_eq!(decimal(-150), "-150");
    assert_eq!(decimal(-9_000_000_000), "-9000000000");
    assert_eq!(decimal(i64::MIN), "-9223372036854775808");
}

#[test]
fn decimal_text_agrees_with_the_standard_formatter() {
    for n in -2000..2000i64 {
        assert_eq!(decimal(n), format!("{}", n));
    }
    for n in [0u64, 9, 10, 99, 100, 12_345_678_901_234_567_890, u64::MAX] {
        assert_eq!(unsigned(n), format!("{}", n));
    }
}

#[test]
fn decimal_text_goes_after_what_is_there() {
    let mut out = String::from("PLBA=");
    append_decimal(&mut out, -150);
    out.push('\n');
    append_unsigned(&mut out, 42);
    append_hex_byte(&mut out, 0xA2);
    assert_eq!(out, "PLBA=-150\n42a2");
}

#[test]
fn hexadecimal_text_of_bytes() {
    assert_eq!(hex(0x00), "00");
    assert_eq!(hex(0x04), "04");
    assert_eq!(hex(0x0a), "0a");
    assert_eq!(hex(0x63), "63");
    assert_eq!(hex(0xA0), "a0");
    assert_eq!(hex(0xFF), "ff");
    for b in 0..=255u8 {
        assert_eq!(hex(b), format!("{:02x}", b));
    }
}
