use yapper::editor::{ghost_suggestion, parse_hex_bytes, parse_hex_input, plan_send, InputLine, SendPlan};
use yapper::history::CommandHistory;

fn line(text: &str, cursor: usize) -> InputLine {
    InputLine { text: text.to_string(), cursor }
}

#[test]
fn typing_and_deleting_by_characters() {
    let mut l = InputLine::new();
    l.insert_char('a');
    l.insert_char('界');
    l.insert_char('c');
    assert_eq!(l.text, "a界c");
    assert_eq!(l.cursor, 3);
    l.cursor_left();
    l.backspace();
    assert_eq!(l.text, "ac");
    assert_eq!(l.cursor, 1);
    l.delete();
    assert_eq!(l.text, "a");
    l.delete();
    assert_eq!(l.text, "a");
    l.cursor_home();
    l.insert_char('>');
    assert_eq!(l.text, ">a");
    l.cursor_end();
    assert_eq!(l.cursor, 2);
    l.cursor_right();
    assert_eq!(l.cursor, 2);
    l.kill_line();
    assert_eq!(l.text, "");
    assert_eq!(l.cursor, 0);
}

#[test]
fn cursor_past_the_end_inserts_at_the_end() {
    let mut l = line("é", 2);
    l.insert_char('x');
    assert_eq!(l.text, "éx");
    assert_eq!(l.cursor, 3);
    let mut l = line("é", 3);
    l.backspace();
    assert_eq!(l.text, "é");
    assert_eq!(l.cursor, 2);
}

#[test]
fn word_motions() {
    let mut l = line("AT+CWJAP ssid", 13);
    l.word_left();
    assert_eq!(l.cursor, 9);
    l.word_left();
    assert_eq!(l.cursor, 3);
    l.word_right();
    assert_eq!(l.cursor, 9);
    l.cursor_end();
    l.delete_word_back();
    assert_eq!(l.text, "AT+CWJAP ");
    assert_eq!(l.cursor, 9);
}

#[test]
fn mouse_click_clamps_to_the_byte_length() {
    let mut l = line("aé", 0);
    l.click_to(10);
    assert_eq!(l.cursor, 3);
    l.click_to(1);
    assert_eq!(l.cursor, 1);
}

#[test]
fn suggestion_only_at_the_end_of_typed_text() {
    let mut h = CommandHistory::new_in_memory(10);
    h.push("AT+GMR".to_string());
    assert_eq!(ghost_suggestion(&h, &line("AT", 2)).as_deref(), Some("AT+GMR"));
    assert_eq!(ghost_suggestion(&h, &line("AT", 1)), None);
    assert_eq!(ghost_suggestion(&h, &line("", 0)), None);
}

#[test]
fn hex_input_is_read_in_pairs() {
    assert_eq!(parse_hex_bytes("01 FF a0"), Ok(vec![0x01, 0xff, 0xa0]));
    assert_eq!(parse_hex_bytes("01FFA0"), Ok(vec![0x01, 0xff, 0xa0]));
    assert_eq!(parse_hex_bytes("  "), Err("Empty hex input".to_string()));
    assert_eq!(parse_hex_bytes("ABC"), Err("Odd number of hex digits".to_string()));
    assert_eq!(parse_hex_bytes("0G"), Err("Invalid hex byte: 0G".to_string()));
    assert_eq!(parse_hex_bytes("+F"), Ok(vec![0x0f]));
    assert_eq!(parse_hex_bytes("éé"), Err("Invalid hex byte: é".to_string()));
}

#[test]
fn hex_input_that_would_split_a_character() {
    assert_eq!(parse_hex_input("aé1"), None);
    assert_eq!(parse_hex_input("zz aé1"), Some(Err("Invalid hex byte: zz".to_string())));
    assert_eq!(parse_hex_input("10"), Some(Ok(vec![0x10])));
}

#[test]
fn submitting_plain_text_appends_the_line_ending() {
    match plan_send("AT+GMR", false, true, "\r\n") {
        Some(SendPlan::Send { echo, bytes }) => {
            assert_eq!(echo, Some("AT+GMR".to_string()));
            assert_eq!(bytes, b"AT+GMR\r\n".to_vec());
        }
        _ => panic!("expected a send"),
    }
    match plan_send("é", false, false, "\n") {
        Some(SendPlan::Send { echo, bytes }) => {
            assert_eq!(echo, None);
            assert_eq!(bytes, vec![0xC3, 0xA9, b'\n']);
        }
        _ => panic!("expected a send"),
    }
}

#[test]
fn submitting_hex_input_sends_raw_bytes() {
    match plan_send("01 ff A0", true, true, "\r\n") {
        Some(SendPlan::Send { echo, bytes }) => {
            assert_eq!(echo, Some("HEX: 01 ff A0".to_string()));
            assert_eq!(bytes, vec![0x01, 0xFF, 0xA0]);
        }
        _ => panic!("expected a send"),
    }
    match plan_send("abc", true, true, "\n") {
        Some(SendPlan::HexError(e)) => assert_eq!(e, "Odd number of hex digits"),
        _ => panic!("expected a hex error"),
    }
    assert!(matches!(plan_send("", true, true, "\n"), Some(SendPlan::Nothing)));
    assert!(matches!(plan_send("", false, true, "\n"), Some(SendPlan::Nothing)));
}
