use lib::trap::{handle_trap, TrapFrame};

fn frame() -> TrapFrame {
    TrapFrame {
        ra: 0x8020_0010, gp: 1, tp: 2, t0: 3, t1: 4, t2: 5, t3: 6, t4: 7, t5: 8, t6: 9,
        a0: 0xdead_beef, a1: 11, a2: 12, a3: 13, a4: 14, a5: 15, a6: 16, a7: 17,
        s0: 18, s1: 19, s2: 20, s3: 21, s4: 22, s5: 23, s6: 24, s7: 25, s8: 26, s9: 27,
        s10: 28, s11: 29, sp: 0xffff_fff0,
    }
}

fn text(v: Vec<char>) -> String {
    v.into_iter().collect()
}

#[test]
fn trap_report_matches_debug_format() {
    let f = frame();
    let expected = format!(
        "Unexpected Trap: scause={:#010x}, stval={:#010x}, sepc={:#010x}, frame={:#010x?}",
        0x0000_000du32, 0x1234u32, 0x8020_0abcu32, f
    );
    assert_eq!(text(handle_trap(&f, 0xd, 0x1234, 0x8020_0abc)), expected);
}

#[test]
fn trap_report_prefix() {
    let report = text(handle_trap(&frame(), 2, 0, 0x8020_0000));
    assert!(report.starts_with("Unexpected Trap: scause=0x00000002, stval=0x00000000, sepc=0x80200000, frame=TrapFrame {\n"));
    assert!(report.contains("    a0: 0xdeadbeef,\n"));
    assert!(report.ends_with("    sp: 0xfffffff0,\n}"));
}

#[test]
fn hex_words_read_back() {
    let report = text(handle_trap(&frame(), 0xffff_ffff, 0x0abc_def0, 0));
    let after = &report["Unexpected Trap: scause=".len()..];
    let word = &after[2..10];
    assert_eq!(u32::from_str_radix(word, 16).unwrap(), 0xffff_ffff);
    assert!(report.contains("stval=0x0abcdef0"));
}
