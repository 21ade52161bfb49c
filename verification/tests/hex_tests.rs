use yapper::hex::format_hex_lines;

#[test]
fn test_format_full_line() {
    let data = b"Hello, World!!!!"; // exactly 16 bytes
    let lines = format_hex_lines(data, 0);
    assert_eq!(lines.len(), 1);
    let line = &lines[0];
    assert_eq!(line.offset, 0);
    assert_eq!(line.ascii, "Hello, World!!!!");
    assert_eq!(line.byte_count, 16);
}

#[test]
fn test_format_partial_line() {
    let data = b"Hi";
    let lines = format_hex_lines(data, 0);
    assert_eq!(lines.len(), 1);
    let line = &lines[0];
    assert_eq!(line.ascii, "Hi");
    assert_eq!(line.byte_count, 2);
}

#[test]
fn test_format_multiple_lines() {
    let data = vec![0u8; 33]; // 2 full lines + 1 byte
    let lines = format_hex_lines(&data, 0);
    assert_eq!(lines.len(), 3);
    assert_eq!(lines[0].offset, 0);
    assert_eq!(lines[1].offset, 16);
    assert_eq!(lines[2].offset, 32);
}

#[test]
fn test_offset() {
    let data = b"test";
    let lines = format_hex_lines(data, 0x100);
    assert_eq!(lines[0].offset, 0x100);
}

#[test]
fn test_non_printable_chars() {
    let data = &[0x00, 0x01, 0x41, 0x0a, 0x0d, 0x7f];
    let lines = format_hex_lines(data, 0);
    assert_eq!(lines[0].ascii, "..A...");
}

#[test]
fn test_display_format() {
    let data = b"AB";
    let lines = format_hex_lines(data, 0);
    let display = lines[0].to_string();
    assert!(display.starts_with("00000000  41 42"));
    assert!(display.contains("|AB|"));
}

#[test]
fn hex_columns_split_at_eight_bytes() {
    let data: Vec<u8> = (0u8..10).collect();
    let lines = format_hex_lines(&data, 0);
    assert_eq!(lines[0].hex_left, "00 01 02 03 04 05 06 07");
    assert_eq!(lines[0].hex_right, "08 09");
    assert!(format_hex_lines(&[], 0).is_empty());
}

#[test]
fn hex_line_matches_the_documented_layout() {
    let lines = format_hex_lines(b"Hello World\r\n", 0);
    assert_eq!(
        lines[0].to_string(),
        "00000000  48 65 6c 6c 6f 20 57 6f  72 6c 64 0d 0a           |Hello World..|"
    );
    let full = format_hex_lines(b"Hello, World!!!!", 16);
    assert_eq!(
        full[0].to_string(),
        "00000010  48 65 6c 6c 6f 2c 20 57  6f 72 6c 64 21 21 21 21  |Hello, World!!!!|"
    );
}
