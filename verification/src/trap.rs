use vstd::prelude::*;
use vstd::string::StrSliceExecFns;
use vstd::arithmetic::power::pow;

verus! {

/// Number of registers that the trap entry saves.
pub const TRAP_FRAME_REGS: usize = 31;

/// The registers that the trap entry saves on the stack, in the order in
/// which it stores them.
#[derive(Clone, Copy, PartialEq, Eq, Structural, Debug)]
pub struct TrapFrame {
    pub ra: u32,
    pub gp: u32,
    pub tp: u32,
    pub t0: u32,
    pub t1: u32,
    pub t2: u32,
    pub t3: u32,
    pub t4: u32,
    pub t5: u32,
    pub t6: u32,
    pub a0: u32,
    pub a1: u32,
    pub a2: u32,
    pub a3: u32,
    pub a4: u32,
    pub a5: u32,
    pub a6: u32,
    pub a7: u32,
    pub s0: u32,
    pub s1: u32,
    pub s2: u32,
    pub s3: u32,
    pub s4: u32,
    pub s5: u32,
    pub s6: u32,
    pub s7: u32,
    pub s8: u32,
    pub s9: u32,
    pub s10: u32,
    pub s11: u32,
    pub sp: u32,
}

/// Name of saved register `i`, as the frame prints it.
pub open spec fn reg_name(i: int) -> Seq<char> {
    if i == 0 {
        "ra"@
    } else if i == 1 {
        "gp"@
    } else if i == 2 {
        "tp"@
    } else if i == 3 {
        "t0"@
    } else if i == 4 {
        "t1"@
    } else if i == 5 {
        "t2"@
    } else if i == 6 {
        "t3"@
    } else if i == 7 {
        "t4"@
    } else if i == 8 {
        "t5"@
    } else if i == 9 {
        "t6"@
    } else if i == 10 {
        "a0"@
    } else if i == 11 {
        "a1"@
    } else if i == 12 {
        "a2"@
    } else if i == 13 {
        "a3"@
    } else if i == 14 {
        "a4"@
    } else if i == 15 {
        "a5"@
    } else if i == 16 {
        "a6"@
    } else if i == 17 {
        "a7"@
    } else if i == 18 {
        "s0"@
    } else if i == 19 {
        "s1"@
    } else if i == 20 {
        "s2"@
    } else if i == 21 {
        "s3"@
    } else if i == 22 {
        "s4"@
    } else if i == 23 {
        "s5"@
    } else if i == 24 {
        "s6"@
    } else if i == 25 {
        "s7"@
    } else if i == 26 {
        "s8"@
    } else if i == 27 {
        "s9"@
    } else if i == 28 {
        "s10"@
    } else if i == 29 {
        "s11"@
    } else {
        "sp"@
    }
}

/// Value of saved register `i`.
pub open spec fn reg_value(f: TrapFrame, i: int) -> u32 {
    if i == 0 {
        f.ra
    } else if i == 1 {
        f.gp
    } else if i == 2 {
        f.tp
    } else if i == 3 {
        f.t0
    } else if i == 4 {
        f.t1
    } else if i == 5 {
        f.t2
    } else if i == 6 {
        f.t3
    } else if i == 7 {
        f.t4
    } else if i == 8 {
        f.t5
    } else if i == 9 {
        f.t6
    } else if i == 10 {
        f.a0
    } else if i == 11 {
        f.a1
    } else if i == 12 {
        f.a2
    } else if i == 13 {
        f.a3
    } else if i == 14 {
        f.a4
    } else if i == 15 {
        f.a5
    } else if i == 16 {
        f.a6
    } else if i == 17 {
        f.a7
    } else if i == 18 {
        f.s0
    } else if i == 19 {
        f.s1
    } else if i == 20 {
        f.s2
    } else if i == 21 {
        f.s3
    } else if i == 22 {
        f.s4
    } else if i == 23 {
        f.s5
    } else if i == 24 {
        f.s6
    } else if i == 25 {
        f.s7
    } else if i == 26 {
        f.s8
    } else if i == 27 {
        f.s9
    } else if i == 28 {
        f.s10
    } else if i == 29 {
        f.s11
    } else {
        f.sp
    }
}

/// Lower-case hexadecimal digit for `d` in `0..16`.
pub open spec fn hex_digit(d: int) -> char {
    if d < 10 {
        (48 + d) as char
    } else {
        (87 + d) as char
    }
}

/// The `n` lowest hexadecimal digits of `v`, most significant first.
pub open spec fn hex_digits(v: nat, n: nat) -> Seq<char>
    decreases n,
{
    if n == 0 {
        Seq::empty()
    } else {
        hex_digits(v / 16, (n - 1) as nat).push(hex_digit((v % 16) as int))
    }
}

/// A 32-bit word as `0x` and eight lower-case hexadecimal digits.
pub open spec fn hex_word(v: u32) -> Seq<char> {
    seq!['0', 'x'] + hex_digits(v as nat, 8)
}

/// One register line of the frame: four spaces, name, `: `, value, `,`, newline.
pub open spec fn frame_line(f: TrapFrame, i: int) -> Seq<char> {
    "    "@ + reg_name(i) + ": "@ + hex_word(reg_value(f, i)) + ",\n"@
}

/// The first `n` register lines.
pub open spec fn frame_lines(f: TrapFrame, n: nat) -> Seq<char>
    decreases n,
{
    if n == 0 {
        Seq::empty()
    } else {
        frame_lines(f, (n - 1) as nat) + frame_line(f, n - 1)
    }
}

/// The frame as a pretty-printed structure with every register in hexadecimal.
pub open spec fn frame_text(f: TrapFrame) -> Seq<char> {
    "TrapFrame {\n"@ + frame_lines(f, TRAP_FRAME_REGS as nat) + "}"@
}

/// The report of a trap that the kernel cannot handle: cause, trap value,
/// faulting pc and the saved registers.
pub open spec fn trap_report(f: TrapFrame, scause: u32, stval: u32, sepc: u32) -> Seq<char> {
    "Unexpected Trap: scause="@ + hex_word(scause) + ", stval="@ + hex_word(stval) + ", sepc="@
        + hex_word(sepc) + ", frame="@ + frame_text(f)
}

/// Numeric value of a lower-case hexadecimal digit.
pub open spec fn hex_digit_value(c: char) -> int {
    if c as int <= 57 {
        c as int - 48
    } else {
        c as int - 87
    }
}

/// Numeric value of a string of hexadecimal digits, most significant first.
pub open spec fn hex_value(s: Seq<char>) -> int
    decreases s.len(),
{
    if s.len() == 0 {
        0
    } else {
        16 * hex_value(s.drop_last()) + hex_digit_value(s.last())
    }
}

fn text_of(s: &str) -> (out: Vec<char>)
    ensures
        out@ == s@,
{
    let mut out: Vec<char> = Vec::new();
    let n = s.unicode_len();
    let mut i: usize = 0;
    while i < n
        invariant
            n == s@.len(),
            i <= n,
            out@ == s@.subrange(0, i as int),
        decreases n - i,
    {
        out.push(s.get_char(i));
        i = i + 1;
    }
    assert(out@ =~= s@);
    out
}

fn push_text(out: &mut Vec<char>, s: &str)
    ensures
        final(out)@ == old(out)@ + s@,
{
    let mut t = text_of(s);
    out.append(&mut t);
}

fn hex_char(d: u32) -> (c: char)
    requires
        d < 16,
    ensures
        c == hex_digit(d as int),
{
    let b: u8 = d as u8;
    if b < 10 {
        (48u8 + b) as char
    } else {
        (87u8 + b) as char
    }
}

fn push_hex_digits(out: &mut Vec<char>, v: u32, n: usize)
    requires
        n <= 8,
    ensures
        final(out)@ == old(out)@ + hex_digits(v as nat, n as nat),
    decreases n,
{
    if n == 0 {
        assert(old(out)@ + hex_digits(v as nat, 0) =~= old(out)@);
    } else {
        push_hex_digits(out, v / 16, n - 1);
        out.push(hex_char(v % 16));
        proof {
            vstd::seq_lib::lemma_concat_associative(
                old(out)@,
                hex_digits((v / 16) as nat, (n - 1) as nat),
                seq![hex_digit((v % 16) as int)],
            );
            assert(hex_digits((v / 16) as nat, (n - 1) as nat).push(hex_digit((v % 16) as int))
                =~= hex_digits((v / 16) as nat, (n - 1) as nat) + seq![hex_digit((v % 16) as int)]);
            assert((old(out)@ + hex_digits((v / 16) as nat, (n - 1) as nat)).push(hex_digit((v % 16) as int))
                =~= old(out)@ + hex_digits((v / 16) as nat, (n - 1) as nat) + seq![hex_digit((v % 16) as int)]);
        }
    }
}

fn push_hex_word(out: &mut Vec<char>, v: u32)
    ensures
        final(out)@ == old(out)@ + hex_word(v),
{
    let mut w: Vec<char> = Vec::new();
    w.push('0');
    w.push('x');
    push_hex_digits(&mut w, v, 8);
    assert(w@ =~= hex_word(v));
    out.append(&mut w);
}

fn register_name(i: usize) -> (s: &'static str)
    ensures
        s@ == reg_name(i as int),
{
    match i {
        0 => "ra",
        1 => "gp",
        2 => "tp",
        3 => "t0",
        4 => "t1",
        5 => "t2",
        6 => "t3",
        7 => "t4",
        8 => "t5",
        9 => "t6",
        10 => "a0",
        11 => "a1",
        12 => "a2",
        13 => "a3",
        14 => "a4",
        15 => "a5",
        16 => "a6",
        17 => "a7",
        18 => "s0",
        19 => "s1",
        20 => "s2",
        21 => "s3",
        22 => "s4",
        23 => "s5",
        24 => "s6",
        25 => "s7",
        26 => "s8",
        27 => "s9",
        28 => "s10",
        29 => "s11",
        _ => "sp",
    }
}

fn register_value(f: &TrapFrame, i: usize) -> (v: u32)
    ensures
        v == reg_value(*f, i as int),
{
    match i {
        0 => f.ra,
        1 => f.gp,
        2 => f.tp,
        3 => f.t0,
        4 => f.t1,
        5 => f.t2,
        6 => f.t3,
        7 => f.t4,
        8 => f.t5,
        9 => f.t6,
        10 => f.a0,
        11 => f.a1,
        12 => f.a2,
        13 => f.a3,
        14 => f.a4,
        15 => f.a5,
        16 => f.a6,
        17 => f.a7,
        18 => f.s0,
        19 => f.s1,
        20 => f.s2,
        21 => f.s3,
        22 => f.s4,
        23 => f.s5,
        24 => f.s6,
        25 => f.s7,
        26 => f.s8,
        27 => f.s9,
        28 => f.s10,
        29 => f.s11,
        _ => f.sp,
    }
}

fn frame_to_text(f: &TrapFrame) -> (out: Vec<char>)
    ensures
        out@ == frame_text(*f),
{
    let mut lines: Vec<char> = Vec::new();
    let mut i: usize = 0;
    while i < TRAP_FRAME_REGS
        invariant
            i <= TRAP_FRAME_REGS,
            lines@ == frame_lines(*f, i as nat),
        decreases TRAP_FRAME_REGS - i,
    {
        let mut line = text_of("    ");
        push_text(&mut line, register_name(i));
        push_text(&mut line, ": ");
        push_hex_word(&mut line, register_value(f, i));
        push_text(&mut line, ",\n");
        assert(line@ == frame_line(*f, i as int));
        lines.append(&mut line);
        i = i + 1;
    }
    let mut out = text_of("TrapFrame {\n");
    out.append(&mut lines);
    push_text(&mut out, "}");
    out
}

/// Handling of a trap: every trap is fatal, and this is the report that the
/// kernel panics with, given the saved registers and the `scause`, `stval`
/// and `sepc` CSRs.
pub fn handle_trap(frame: &TrapFrame, scause: u32, stval: u32, sepc: u32) -> (report: Vec<char>)
    ensures
        report@ == trap_report(*frame, scause, stval, sepc),
{
    let mut out = text_of("Unexpected Trap: scause=");
    push_hex_word(&mut out, scause);
    push_text(&mut out, ", stval=");
    push_hex_word(&mut out, stval);
    push_text(&mut out, ", sepc=");
    push_hex_word(&mut out, sepc);
    push_text(&mut out, ", frame=");
    let mut frame_part = frame_to_text(frame);
    out.append(&mut frame_part);
    out
}

/// Reading the hexadecimal digits back gives the number they were written
/// from, up to the digits kept.
pub proof fn law_hex_digits_read_back(v: nat, n: nat)
    ensures
        pow(16, n) > 0,
        hex_value(hex_digits(v, n)) == (v as int) % pow(16, n),
    decreases n,
{
    vstd::arithmetic::power::lemma_pow_positive(16, n);
    reveal(pow);
    if n == 0 {
        assert(pow(16, 0) == 1);
    } else {
        let m = (n - 1) as nat;
        law_hex_digits_read_back(v / 16, m);
        let d = (v % 16) as int;
        assert(hex_digits(v, n).drop_last() =~= hex_digits(v / 16, m));
        assert(hex_digit_value(hex_digit(d)) == d);
        vstd::arithmetic::div_mod::lemma_mod_breakdown(v as int, 16, pow(16, m));
        assert(pow(16, n) == 16 * pow(16, m));
    }
}

/// A word printed in hexadecimal is `0x` and eight digits that read back as
/// the word itself.
pub proof fn law_hex_word_read_back(v: u32)
    ensures
        hex_word(v).len() == 10,
        hex_word(v).subrange(0, 2) == seq!['0', 'x'],
        hex_value(hex_word(v).subrange(2, 10)) == v,
{
    law_hex_digits_read_back(v as nat, 8);
    law_hex_digits_length(v as nat, 8);
    assert(hex_word(v).subrange(2, 10) =~= hex_digits(v as nat, 8));
    assert(hex_word(v).subrange(0, 2) =~= seq!['0', 'x']);
    reveal_with_fuel(pow, 9);
    assert(pow(16, 8) == 0x1_0000_0000);
}

proof fn law_hex_digits_length(v: nat, n: nat)
    ensures
        hex_digits(v, n).len() == n,
    decreases n,
{
    if n > 0 {
        law_hex_digits_length(v / 16, (n - 1) as nat);
    }
}

proof fn lemma_frame_line_length(f: TrapFrame, g: TrapFrame, i: int)
    ensures
        frame_line(f, i).len() == frame_line(g, i).len(),
{
    law_hex_word_read_back(reg_value(f, i));
    law_hex_word_read_back(reg_value(g, i));
}

proof fn lemma_frame_lines_length(f: TrapFrame, g: TrapFrame, n: nat)
    ensures
        frame_lines(f, n).len() == frame_lines(g, n).len(),
    decreases n,
{
    if n > 0 {
        lemma_frame_lines_length(f, g, (n - 1) as nat);
        lemma_frame_line_length(f, g, n - 1);
    }
}

proof fn lemma_frame_lines_prefix(f: TrapFrame, n: nat, m: nat)
    requires
        n <= m,
    ensures
        frame_lines(f, n).len() <= frame_lines(f, m).len(),
        frame_lines(f, m).subrange(0, frame_lines(f, n).len() as int) == frame_lines(f, n),
    decreases m,
{
    if n < m {
        lemma_frame_lines_prefix(f, n, (m - 1) as nat);
        let a = frame_lines(f, (m - 1) as nat);
        let b = frame_line(f, m - 1);
        assert((a + b).subrange(0, frame_lines(f, n).len() as int) =~= a.subrange(
            0,
            frame_lines(f, n).len() as int,
        ));
    } else {
        assert(frame_lines(f, m).subrange(0, frame_lines(f, m).len() as int) =~= frame_lines(f, m));
    }
}

/// The frame text has the same length whatever the register values: every
/// register gets its line, and every value is printed with eight digits.
pub proof fn law_frame_text_length_fixed(f: TrapFrame, g: TrapFrame)
    ensures
        frame_text(f).len() == frame_text(g).len(),
{
    lemma_frame_lines_length(f, g, TRAP_FRAME_REGS as nat);
}

/// The frame text holds, for every saved register, the line with its name and
/// its value as `0x` and eight hexadecimal digits, whatever that value.
pub proof fn law_frame_lists_every_register(f: TrapFrame, i: int)
    requires
        0 <= i < TRAP_FRAME_REGS,
    ensures
        exists|k: int|
            0 <= k && k + 18 + reg_name(i).len() <= frame_text(f).len() && #[trigger] frame_text(
                f,
            ).subrange(k, k + 18 + reg_name(i).len()) == "    "@ + reg_name(i) + ": "@ + seq![
                '0',
                'x',
            ] + hex_digits(reg_value(f, i) as nat, 8) + ",\n"@,
{
    let line = "    "@ + reg_name(i) + ": "@ + seq!['0', 'x'] + hex_digits(reg_value(f, i) as nat, 8)
        + ",\n"@;
    reveal_strlit("    ");
    reveal_strlit(": ");
    reveal_strlit(",\n");
    law_hex_digits_length(reg_value(f, i) as nat, 8);
    assert(line.len() == 18 + reg_name(i).len());
    assert(line =~= frame_line(f, i)) by {
        vstd::seq_lib::lemma_concat_associative(
            "    "@ + reg_name(i) + ": "@,
            seq!['0', 'x'],
            hex_digits(reg_value(f, i) as nat, 8),
        );
    }
    let head = "TrapFrame {\n"@;
    let before = frame_lines(f, i as nat);
    let upto = frame_lines(f, (i + 1) as nat);
    let all = frame_lines(f, TRAP_FRAME_REGS as nat);
    lemma_frame_lines_prefix(f, (i + 1) as nat, TRAP_FRAME_REGS as nat);
    assert(upto == before + frame_line(f, i));
    let k: int = head.len() as int + before.len() as int;
    assert(frame_text(f) == head + all + "}"@);
    assert(frame_text(f).subrange(k, k + line.len()) =~= upto.subrange(
        before.len() as int,
        upto.len() as int,
    )) by {
        assert forall|x: int| 0 <= x < line.len() implies frame_text(f).subrange(
            k,
            k + line.len(),
        )[x] == upto.subrange(before.len() as int, upto.len() as int)[x] by {
            assert(frame_text(f)[k + x] == all[before.len() + x]);
            assert(all[before.len() + x] == all.subrange(0, upto.len() as int)[before.len() + x]);
        }
    }
    assert(upto.subrange(before.len() as int, upto.len() as int) =~= frame_line(f, i));
    assert(frame_text(f).subrange(k, k + line.len()) == line);
    assert(k + line.len() <= frame_text(f).len());
    assert(frame_text(f).subrange(k, k + 18 + reg_name(i).len()) == line);
}

/// The report gives `scause`, `stval` and `sepc` in that order, each as `0x`
/// and eight digits that read back as the CSR's value, followed by the frame.
pub proof fn law_report_reads_back(f: TrapFrame, scause: u32, stval: u32, sepc: u32)
    ensures
        trap_report(f, scause, stval, sepc).len() == 77 + frame_text(f).len(),
        trap_report(f, scause, stval, sepc).subrange(24, 26) == seq!['0', 'x'],
        hex_value(trap_report(f, scause, stval, sepc).subrange(26, 34)) == scause,
        trap_report(f, scause, stval, sepc).subrange(42, 44) == seq!['0', 'x'],
        hex_value(trap_report(f, scause, stval, sepc).subrange(44, 52)) == stval,
        trap_report(f, scause, stval, sepc).subrange(59, 61) == seq!['0', 'x'],
        hex_value(trap_report(f, scause, stval, sepc).subrange(61, 69)) == sepc,
        trap_report(f, scause, stval, sepc).subrange(
            77,
            trap_report(f, scause, stval, sepc).len() as int,
        ) == frame_text(f),
{
    reveal_strlit("Unexpected Trap: scause=");
    reveal_strlit(", stval=");
    reveal_strlit(", sepc=");
    reveal_strlit(", frame=");
    law_hex_word_read_back(scause);
    law_hex_word_read_back(stval);
    law_hex_word_read_back(sepc);
    let r = trap_report(f, scause, stval, sepc);
    let a = "Unexpected Trap: scause="@;
    let b = ", stval="@;
    let c = ", sepc="@;
    let d = ", frame="@;
    assert(a.len() == 24);
    assert(b.len() == 8);
    assert(c.len() == 7);
    assert(d.len() == 8);
    assert(r.subrange(24, 34) =~= hex_word(scause));
    assert(r.subrange(24, 26) =~= hex_word(scause).subrange(0, 2));
    assert(r.subrange(26, 34) =~= hex_word(scause).subrange(2, 10));
    assert(r.subrange(42, 44) =~= hex_word(stval).subrange(0, 2));
    assert(r.subrange(44, 52) =~= hex_word(stval).subrange(2, 10));
    assert(r.subrange(59, 61) =~= hex_word(sepc).subrange(0, 2));
    assert(r.subrange(61, 69) =~= hex_word(sepc).subrange(2, 10));
    assert(r.subrange(77, r.len() as int) =~= frame_text(f));
}

} // verus!
