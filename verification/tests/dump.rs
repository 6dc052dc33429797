use e1000_driver::hexdump::hex_digit;
use e1000_driver::hexdump::hexdump;
use e1000_driver::hexdump::shown;

fn text(data: &[u8]) -> String {
    match String::from_utf8(hexdump(data)) {
        Ok(text) => text,
        Err(e) => panic!("not text: {:?}", e),
    }
}

const ABOVE: &str = "------------------------------ hexdump -------------------------------\n";
const BELOW: &str = "---------------------------- hexdump end -----------------------------\n";

#[test]
fn digits_and_characters() {
    assert_eq!(hex_digit(0), b'0');
    assert_eq!(hex_digit(9), b'9');
    assert_eq!(hex_digit(10), b'a');
    assert_eq!(hex_digit(15), b'f');
    assert_eq!(shown(b' '), b' ');
    assert_eq!(shown(b'~'), b'~');
    assert_eq!(shown(0x1f), b'.');
    assert_eq!(shown(0x7f), b'.');
    assert_eq!(shown(0xff), b'.');
}

#[test]
fn dump_of_nothing_is_two_lines() {
    assert_eq!(ABOVE.len(), 71);
    assert_eq!(BELOW.len(), 71);
    assert_eq!(text(&[]), format!("{}{}", ABOVE, BELOW));
}

#[test]
fn dump_of_a_udp_frame() {
    let frame: [u8; 54] = [
        0xff, 0xff, 0xff, 0xff, 0xff, 0xff, 0x52, 0x54, 0x00, 0x12, 0x34, 0x56, 0x08, 0x00, 0x45, 0x00,
        0x28, 0x00, 0x00, 0x00, 0x00, 0x00, 0x20, 0x11, 0x61, 0xff, 0x0a, 0x00, 0x02, 0x0f, 0x0a, 0x00,
        0x02, 0x02, 0x38, 0x18, 0x39, 0x18, 0x14, 0x00, 0x5e, 0xff, 0x48, 0x65, 0x6c, 0x6c, 0x6f, 0x20,
        0x57, 0x6f, 0x72, 0x6c, 0x64, 0x21,
    ];
    let lines = [
        "ff ff ff ff ff ff 52 54 00 12 34 56 08 00 45 00       ......RT..4V..E.\n".to_string(),
        "28 00 00 00 00 00 20 11 61 ff 0a 00 02 0f 0a 00       (..... .a.......\n".to_string(),
        "02 02 38 18 39 18 14 00 5e ff 48 65 6c 6c 6f 20       ..8.9...^.Hello \n".to_string(),
        format!("57 6f 72 6c 64 21 {}      World!{}\n", " ".repeat(30), " ".repeat(30)),
    ];
    assert_eq!(text(&frame), format!("{}{}{}", ABOVE, lines.concat(), BELOW));
}

#[test]
fn dump_of_a_full_line() {
    let data: Vec<u8> = (0x41..0x51).collect();
    assert_eq!(
        text(&data),
        format!(
            "{}41 42 43 44 45 46 47 48 49 4a 4b 4c 4d 4e 4f 50       ABCDEFGHIJKLMNOP\n{}",
            ABOVE, BELOW
        )
    );
}

#[test]
fn dump_of_one_byte_more_than_a_line() {
    let data = [0u8; 17];
    let got = text(&data);
    let lines: Vec<&str> = got.lines().collect();
    assert_eq!(lines.len(), 4);
    assert_eq!(lines[1], format!("{}      {}", "00 ".repeat(16), ".".repeat(16)));
    assert_eq!(lines[2], format!("00 {}      .{}", " ".repeat(45), " ".repeat(45)));
}
