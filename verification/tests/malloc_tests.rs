use lib::malloc::BumpPointerAlloc;

#[test]
fn allocate_from_aligned_head() {
    let mut a = BumpPointerAlloc { head: 0x8022_7000, end: 0x8422_7000 };
    assert_eq!(a.allocate(16, 8), Some(0x8022_7000));
    assert_eq!(a.head, 0x8022_7010);
    assert_eq!(a.end, 0x8422_7000);
}

#[test]
fn allocate_rounds_head_up() {
    let mut a = BumpPointerAlloc { head: 5, end: 100 };
    assert_eq!(a.allocate(4, 8), Some(8));
    assert_eq!(a.head, 12);
    assert_eq!(a.allocate(1, 16), Some(16));
    assert_eq!(a.head, 17);
}

#[test]
fn consecutive_blocks_do_not_overlap() {
    let mut a = BumpPointerAlloc { head: 3, end: 1000 };
    let p1 = a.allocate(10, 4).unwrap();
    let p2 = a.allocate(7, 8).unwrap();
    assert_eq!(p1, 4);
    assert!(p1 + 10 <= p2);
    assert_eq!(p2 % 8, 0);
}

#[test]
fn allocate_refuses_when_alignment_passes_end() {
    let mut a = BumpPointerAlloc { head: 10, end: 16 };
    assert_eq!(a.allocate(1, 8), None);
    assert_eq!(a.head, 10);
    assert_eq!(a.allocate(1, 8), None);
}

#[test]
fn allocate_checks_only_one_alignment_unit() {
    // The bound is start + align, so a block may reach past the end.
    let mut a = BumpPointerAlloc { head: 0, end: 8 };
    assert_eq!(a.allocate(64, 8), Some(0));
    assert_eq!(a.head, 64);
}

#[test]
fn allocate_at_exact_end() {
    let mut a = BumpPointerAlloc { head: 8, end: 16 };
    assert_eq!(a.allocate(8, 8), Some(8));
    assert_eq!(a.head, 16);
    assert_eq!(a.allocate(1, 1), None);
}
