use vstd::prelude::*;
use vstd::string::StringSliceAdditionalSpecFns;
use crate::sbicall::{SBIRet, SbiCall, EID_CONSOLE_GETCHAR, EID_CONSOLE_PUTCHAR};

verus! {

/// The key that erases the last character typed (ASCII DEL).
pub const KEY_DELETE: char = '\u{7f}';

/// The console call that prints `ch`: its code point in `a0`, every other
/// argument zero, the console-putchar extension in `a7`.
pub open spec fn putchar_call(ch: char) -> SbiCall {
    SbiCall {
        a0: ch as i32,
        a1: 0,
        a2: 0,
        a3: 0,
        a4: 0,
        a5: 0,
        fid: 0,
        eid: EID_CONSOLE_PUTCHAR,
    }
}

/// The console call that reads one character.
pub open spec fn getchar_call() -> SbiCall {
    SbiCall { a0: 1, a1: 2, a2: 0, a3: 0, a4: 0, a5: 0, fid: 0, eid: EID_CONSOLE_GETCHAR }
}

/// The values that are Unicode scalar values, the values of `char`.
pub open spec fn is_char_value(v: u32) -> bool {
    v < 0xD800 || (0xE000 <= v && v <= 0x10FFFF)
}

/// `char::from_u32`: the character with code point `i` when `i` is a Unicode
/// scalar value, `None` otherwise, as std documents it.
pub assume_specification[ char::from_u32 ](i: u32) -> (r: Option<char>)
    ensures
        r == (if is_char_value(i) {
            Some(i as char)
        } else {
            None
        }),
;

/// The console-putchar call carries the character's code point unchanged in
/// `a0`, zeros in the other argument registers, and extension 1.
pub proof fn law_putchar_carries_code_point(ch: char)
    ensures
        putchar_call(ch).a0 == ch as u32,
        putchar_call(ch).a1 == 0 && putchar_call(ch).a2 == 0 && putchar_call(ch).a3 == 0,
        putchar_call(ch).a4 == 0 && putchar_call(ch).a5 == 0 && putchar_call(ch).fid == 0,
        putchar_call(ch).eid == 1,
{
    vstd::utf8::char_is_scalar(ch);
}

/// A byte sent through the console as a character keeps its value.
pub proof fn law_putchar_byte(b: u8)
    ensures
        putchar_call(b as char).a0 == b,
{
    vstd::utf8::char_u32_cast(b as char, b as u32);
}

/// The values that decode to a character are exactly the Unicode scalar
/// values, the code points that UTF-8 can encode.
pub proof fn law_char_values_are_scalars(v: u32)
    ensures
        is_char_value(v) <==> vstd::utf8::is_scalar(v),
{
}

/// The SBI call that prints one character on the console.
pub fn put_char(ch: char) -> (c: SbiCall)
    ensures
        c == putchar_call(ch),
        c.a0 == ch as u32,
        c.a1 == 0 && c.a2 == 0 && c.a3 == 0 && c.a4 == 0 && c.a5 == 0,
        c.fid == 0,
        c.eid == 1,
{
    SbiCall {
        a0: ch as u32 as i32,
        a1: 0,
        a2: 0,
        a3: 0,
        a4: 0,
        a5: 0,
        fid: 0,
        eid: EID_CONSOLE_PUTCHAR,
    }
}

/// The SBI call that reads one character from the console.
pub fn get_char_request() -> (c: SbiCall)
    ensures
        c == getchar_call(),
{
    SbiCall { a0: 1, a1: 2, a2: 0, a3: 0, a4: 0, a5: 0, fid: 0, eid: EID_CONSOLE_GETCHAR }
}

/// The character that the console-getchar call returned in `a0`, if that
/// register, read as an unsigned word, holds a character. A negative value
/// (`-1`: no input) reads as a word above every code point and gives `None`.
pub fn get_char(ret: &SBIRet) -> (c: Option<char>)
    ensures
        c == (if 0 <= ret.error && is_char_value(ret.error as u32) {
            Some((ret.error as u32) as char)
        } else {
            None
        }),
{
    let e = ret.error;
    assert(e < 0 ==> (e as u32) >= 0x8000_0000u32) by (bit_vector);
    char::from_u32(e as u32)
}

/// The bytes that erase the last character on a serial terminal:
/// backspace, space, backspace.
pub fn delete_last_char() -> (bytes: Vec<u8>)
    ensures
        bytes@ == seq![0x08u8, 0x20u8, 0x08u8],
{
    let mut bytes: Vec<u8> = Vec::new();
    bytes.push(0x08);
    bytes.push(0x20);
    bytes.push(0x08);
    bytes
}

/// The console calls that print `text`: one console-putchar call per byte of
/// its UTF-8 encoding, in order.
pub fn _print(text: &str) -> (calls: Vec<SbiCall>)
    ensures
        calls@.len() == text.spec_bytes().len(),
        forall|i: int|
            0 <= i < calls@.len() ==> #[trigger] calls@[i] == putchar_call(
                text.spec_bytes()[i] as char,
            ),
        forall|i: int|
            0 <= i < calls@.len() ==> (#[trigger] calls@[i]).a0 == text.spec_bytes()[i] && calls@[i].eid
                == 1,
{
    let bytes = text.as_bytes();
    let mut calls: Vec<SbiCall> = Vec::new();
    let mut i: usize = 0;
    while i < bytes.len()
        invariant
            bytes@ == text.spec_bytes(),
            i <= bytes@.len(),
            calls@.len() == i,
            forall|k: int| 0 <= k < i ==> #[trigger] calls@[k] == putchar_call(bytes@[k] as char),
        decreases bytes@.len() - i,
    {
        calls.push(put_char(bytes[i] as char));
        i = i + 1;
    }
    calls
}

/// What the line reader does with one key.
#[derive(Clone, Copy, PartialEq, Eq, Structural, Debug)]
pub enum KeyAction {
    /// A line end (`\n` or `\r`): the line is complete.
    Finish,
    /// DEL: erase the last character on the terminal.
    Erase,
    /// Any other character: echo it.
    Echo(char),
}

/// Keys that end a line.
pub open spec fn is_line_end(c: char) -> bool {
    c == '\n' || c == '\r'
}

/// The reader's reaction to key `c`.
pub open spec fn key_action(c: char) -> KeyAction {
    if is_line_end(c) {
        KeyAction::Finish
    } else if c == KEY_DELETE {
        KeyAction::Erase
    } else {
        KeyAction::Echo(c)
    }
}

/// The line buffer after key `c`: a line end leaves it as it is, DEL drops
/// its last character (if any), any other key is appended.
pub open spec fn edited(line: Seq<char>, c: char) -> Seq<char> {
    if is_line_end(c) {
        line
    } else if c == KEY_DELETE {
        if line.len() > 0 {
            line.drop_last()
        } else {
            line
        }
    } else {
        line.push(c)
    }
}

/// A line buffer holds neither line ends nor DEL.
pub open spec fn is_clean_line(line: Seq<char>) -> bool {
    forall|i: int| 0 <= i < line.len() ==> !is_line_end(#[trigger] line[i]) && line[i] != KEY_DELETE
}

/// One step of reading a line: applies key `c` to `line` and says what to
/// show on the terminal, or that the line is complete.
pub fn read_line_key(line: &mut Vec<char>, c: char) -> (a: KeyAction)
    ensures
        a == key_action(c),
        final(line)@ == edited(old(line)@, c),
        (a == KeyAction::Finish) <==> (c == '\n' || c == '\r'),
        (c == '\n' || c == '\r') ==> final(line)@ == old(line)@,
        c == '\u{7f}' ==> a == KeyAction::Erase && final(line)@ == old(line)@.take(
            if old(line)@.len() > 0 { old(line)@.len() - 1 } else { 0 },
        ),
        (c != '\n' && c != '\r' && c != '\u{7f}') ==> a == KeyAction::Echo(c) && final(line)@
            == old(line)@.push(c),
{
    if c == '\n' || c == '\r' {
        KeyAction::Finish
    } else if c == KEY_DELETE {
        line.pop();
        KeyAction::Erase
    } else {
        line.push(c);
        KeyAction::Echo(c)
    }
}

/// Only `\n` and `\r` end a line.
pub proof fn law_line_ends(c: char)
    ensures
        is_line_end(c) <==> (c == '\n' || c == '\r'),
        (key_action(c) == KeyAction::Finish) <==> (c == '\n' || c == '\r'),
{
}

/// Every key other than a line end and DEL is echoed and appended, and DEL
/// drops the last character if there is one.
pub proof fn law_keys_edit_line(line: Seq<char>, c: char)
    ensures
        (c != '\n' && c != '\r' && c != '\u{7f}') ==> key_action(c) == KeyAction::Echo(c)
            && edited(line, c) == line.push(c),
        c == '\u{7f}' ==> key_action(c) == KeyAction::Erase && edited(line, c).len() == (if line.len()
            > 0 { line.len() - 1 } else { 0 }) && edited(line, c) == line.take(edited(line, c).len() as int),
        (c == '\n' || c == '\r') ==> edited(line, c) == line,
{
    if c == '\u{7f}' && line.len() > 0 {
        assert(line.drop_last() =~= line.take(line.len() - 1));
    }
    if c == '\u{7f}' && line.len() == 0 {
        assert(line =~= line.take(0));
    }
}

/// Erasing right after typing a character gives the line back as it was.
pub proof fn law_erase_undoes_echo(line: Seq<char>, c: char)
    requires
        !is_line_end(c),
        c != KEY_DELETE,
    ensures
        edited(edited(line, c), KEY_DELETE) == line,
{
    assert(line.push(c).drop_last() =~= line);
}

/// Erasing on an empty line leaves it empty.
pub proof fn law_erase_on_empty_line()
    ensures
        edited(Seq::<char>::empty(), KEY_DELETE) == Seq::<char>::empty(),
{
}

/// A line end completes the line and leaves it as it is.
pub proof fn law_line_end_keeps_line(line: Seq<char>, c: char)
    requires
        is_line_end(c),
    ensures
        key_action(c) == KeyAction::Finish,
        edited(line, c) == line,
{
}

/// Editing keeps a line free of line ends and DEL.
pub proof fn law_line_stays_clean(line: Seq<char>, c: char)
    requires
        is_clean_line(line),
    ensures
        is_clean_line(edited(line, c)),
{
    let e = edited(line, c);
    assert forall|i: int| 0 <= i < e.len() implies !is_line_end(#[trigger] e[i]) && e[i]
        != KEY_DELETE by {
        if !is_line_end(c) && c != KEY_DELETE && i == line.len() {
        } else {
            assert(e[i] == line[i]);
        }
    }
}

} // verus!
