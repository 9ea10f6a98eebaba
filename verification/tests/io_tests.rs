use lib::io::{_print, delete_last_char, get_char, get_char_request, put_char, read_line_key, KeyAction, KEY_DELETE};
use lib::sbicall::{SBIRet, SbiCall, EID_CONSOLE_GETCHAR, EID_CONSOLE_PUTCHAR};

fn putchar(a0: i32) -> SbiCall {
    SbiCall { a0, a1: 0, a2: 0, a3: 0, a4: 0, a5: 0, fid: 0, eid: EID_CONSOLE_PUTCHAR }
}

#[test]
fn put_char_passes_code_point() {
    assert_eq!(put_char('A'), putchar(65));
    assert_eq!(put_char('\u{e9}'), putchar(0xe9));
    assert_eq!(put_char('\u{1F600}'), putchar(0x1F600));
}

#[test]
fn get_char_request_uses_getchar_extension() {
    let c = get_char_request();
    assert_eq!(c, SbiCall { a0: 1, a1: 2, a2: 0, a3: 0, a4: 0, a5: 0, fid: 0, eid: EID_CONSOLE_GETCHAR });
}

#[test]
fn get_char_decodes_character() {
    assert_eq!(get_char(&SBIRet { error: 0x61, value: 0 }), Some('a'));
    assert_eq!(get_char(&SBIRet { error: 0x0d, value: 7 }), Some('\r'));
    assert_eq!(get_char(&SBIRet { error: 0x10FFFF, value: 0 }), Some('\u{10FFFF}'));
}

#[test]
fn get_char_without_input_is_none() {
    assert_eq!(get_char(&SBIRet { error: -1, value: 0 }), None);
    assert_eq!(get_char(&SBIRet { error: 0xD800, value: 0 }), None);
    assert_eq!(get_char(&SBIRet { error: 0x110000, value: 0 }), None);
}

#[test]
fn delete_last_char_bytes() {
    assert_eq!(delete_last_char(), vec![0x08u8, 0x20, 0x08]);
}

#[test]
fn print_sends_each_byte() {
    assert_eq!(_print("hi\n"), vec![putchar(104), putchar(105), putchar(10)]);
    assert_eq!(_print(""), vec![]);
}

#[test]
fn print_splits_multibyte_characters() {
    assert_eq!(_print("\u{e9}"), vec![putchar(0xC3), putchar(0xA9)]);
}

#[test]
fn read_line_key_echoes_and_appends() {
    let mut line = Vec::new();
    assert_eq!(read_line_key(&mut line, 'a'), KeyAction::Echo('a'));
    assert_eq!(read_line_key(&mut line, 'b'), KeyAction::Echo('b'));
    assert_eq!(line, vec!['a', 'b']);
}

#[test]
fn read_line_key_finishes_on_line_end() {
    let mut line = vec!['x'];
    assert_eq!(read_line_key(&mut line, '\n'), KeyAction::Finish);
    assert_eq!(read_line_key(&mut line, '\r'), KeyAction::Finish);
    assert_eq!(line, vec!['x']);
}

#[test]
fn erase_undoes_echo() {
    let mut line = vec!['o', 'k'];
    read_line_key(&mut line, 'z');
    assert_eq!(read_line_key(&mut line, KEY_DELETE), KeyAction::Erase);
    assert_eq!(line, vec!['o', 'k']);
}

#[test]
fn erase_on_empty_line_keeps_it_empty() {
    let mut line: Vec<char> = Vec::new();
    assert_eq!(read_line_key(&mut line, KEY_DELETE), KeyAction::Erase);
    assert!(line.is_empty());
}

#[test]
fn typed_sequence_gives_edited_line() {
    let mut line = Vec::new();
    for c in "helo\u{7f}\u{7f}llo".chars() {
        read_line_key(&mut line, c);
    }
    assert_eq!(line.iter().collect::<String>(), "hello");
}
