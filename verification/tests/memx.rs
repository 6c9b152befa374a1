use propolis_server::codec::Message;
use propolis_server::memx::{make_mem_fetch, make_mem_offer, make_mem_xfer, validate_bitmap, PageIter};

#[test]
fn bitmap_validation() {
    assert!(validate_bitmap(0, 8 * 4096, &[0xff]));
    assert!(validate_bitmap(4096, 4096 * 4, &[0b0000_0111]));
    assert!(!validate_bitmap(4096, 4096 * 4, &[0b0000_1111]));
    assert!(!validate_bitmap(1, 4096, &[1]));
    assert!(!validate_bitmap(0, 4095, &[1]));
    assert!(!validate_bitmap(4096, 4096, &[]));
    assert!(!validate_bitmap(8192, 4096, &[1]));
    assert!(!validate_bitmap(0, 16 * 4096, &[0xff]));
    assert!(!validate_bitmap(0, 4096, &[1, 0]));
    assert!(validate_bitmap(0, 9 * 4096, &[0xff, 0x01]));
    assert!(!validate_bitmap(0, 9 * 4096, &[0xff, 0x02]));
}

#[test]
fn make_messages_carry_the_range() {
    assert!(matches!(make_mem_offer(0, 4096, &[1]), Message::MemOffer(0, 4096, b) if b == vec![1]));
    assert!(matches!(make_mem_fetch(0, 4096, &[1]), Message::MemFetch(0, 4096, b) if b == vec![1]));
    assert!(matches!(make_mem_xfer(0, 4096, &[0]), Message::MemXfer(0, 4096, b) if b == vec![0]));
}

#[test]
fn page_iter_yields_marked_pages_in_order() {
    let bits = [0b1000_0101u8, 0b0000_0010];
    let mut it = PageIter::new(0x10000, 0x10000 + 10 * 4096, &bits);
    let mut got = Vec::new();
    while let Some(a) = it.next() {
        got.push(a);
    }
    assert_eq!(got, vec![0x10000, 0x10000 + 2 * 4096, 0x10000 + 7 * 4096, 0x10000 + 9 * 4096]);
    assert_eq!(it.next(), None);
}

#[test]
fn page_iter_on_empty_range() {
    let mut it = PageIter::new(4096, 4096, &[]);
    assert_eq!(it.next(), None);
}

#[test]
fn bitmap_validity_moves_with_the_range() {
    for (start, end, bits) in [(0u64, 8 * 4096u64, vec![0xffu8]), (4096, 4096 * 4, vec![0b1111])] {
        let k = 5 * 4096;
        assert_eq!(validate_bitmap(start + k, end + k, &bits), validate_bitmap(start, end, &bits));
    }
}
