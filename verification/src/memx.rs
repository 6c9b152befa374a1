//! Bitmaps that describe sets of guest pages in the memory-transfer phases of
//! live migration.  Bit `i` (least significant bit first within each byte)
//! stands for the page at `start + i * PAGE_SIZE`.

use crate::codec::{Message, MessageView};
use bit_field::BitField;
use vstd::prelude::*;
use vstd::slice::slice_to_vec;

verus! {

/// Size of a guest page in bytes.
pub const PAGE_SIZE: u64 = 4096;

/// Bit `j` (0 is the least significant) of a byte.
pub open spec fn byte_bit(b: u8, j: int) -> bool {
    (b >> (j as u8)) & 1u8 == 1u8
}

/// Bit `i` of a bitmap, least significant bit first within each byte.
pub open spec fn bit_at(bits: Seq<u8>, i: int) -> bool {
    byte_bit(bits[i / 8], i % 8)
}

/// Number of pages in `[start, end)`.
pub open spec fn page_count(start: u64, end: u64) -> int {
    (end - start) / (PAGE_SIZE as int)
}

/// A bitmap is valid for `[start, end)` when both ends are page aligned, the
/// range is non-empty, the bitmap has exactly the bytes needed for its pages,
/// and every bit past the last page is clear.
pub open spec fn bitmap_valid(start: u64, end: u64, bits: Seq<u8>) -> bool {
    &&& start % PAGE_SIZE == 0
    &&& end % PAGE_SIZE == 0
    &&& start < end
    &&& page_count(start, end) <= bits.len() * 8
    &&& bits.len() * 8 < page_count(start, end) + 8
    &&& forall|i: int| page_count(start, end) <= i < bits.len() * 8 ==> !#[trigger] bit_at(bits, i)
}

/// A byte whose bits from position `lo` upwards are all clear.
pub open spec fn high_bits_clear(b: u8, lo: int) -> bool {
    forall|j: int| lo <= j < 8 ==> !#[trigger] byte_bit(b, j)
}

proof fn lemma_mask_clear(b: u8, k: u8)
    requires
        1 <= k < 8,
    ensures
        (b & (!0u8 << ((8 - k) as u8)) == 0u8) <==> high_bits_clear(b, 8 - k),
{
    assert((b >> 0u8) & 1u8 == b & 1u8) by (bit_vector);
    let m = !0u8 << ((8 - k) as u8);
    if k == 1 {
        assert(m == 0x80u8) by (bit_vector) requires m == !0u8 << ((8 - k) as u8), k == 1u8;
        assert((b & 0x80u8 == 0u8) <==> (b >> 7u8) & 1u8 != 1u8) by (bit_vector);
    } else if k == 2 {
        assert(m == 0xc0u8) by (bit_vector) requires m == !0u8 << ((8 - k) as u8), k == 2u8;
        assert((b & 0xc0u8 == 0u8) <==> ((b >> 7u8) & 1u8 != 1u8 && (b >> 6u8) & 1u8 != 1u8)) by (bit_vector);
    } else if k == 3 {
        assert(m == 0xe0u8) by (bit_vector) requires m == !0u8 << ((8 - k) as u8), k == 3u8;
        assert((b & 0xe0u8 == 0u8) <==> ((b >> 7u8) & 1u8 != 1u8 && (b >> 6u8) & 1u8 != 1u8
            && (b >> 5u8) & 1u8 != 1u8)) by (bit_vector);
    } else if k == 4 {
        assert(m == 0xf0u8) by (bit_vector) requires m == !0u8 << ((8 - k) as u8), k == 4u8;
        assert((b & 0xf0u8 == 0u8) <==> ((b >> 7u8) & 1u8 != 1u8 && (b >> 6u8) & 1u8 != 1u8
            && (b >> 5u8) & 1u8 != 1u8 && (b >> 4u8) & 1u8 != 1u8)) by (bit_vector);
    } else if k == 5 {
        assert(m == 0xf8u8) by (bit_vector) requires m == !0u8 << ((8 - k) as u8), k == 5u8;
        assert((b & 0xf8u8 == 0u8) <==> ((b >> 7u8) & 1u8 != 1u8 && (b >> 6u8) & 1u8 != 1u8
            && (b >> 5u8) & 1u8 != 1u8 && (b >> 4u8) & 1u8 != 1u8 && (b >> 3u8) & 1u8 != 1u8))
            by (bit_vector);
    } else if k == 6 {
        assert(m == 0xfcu8) by (bit_vector) requires m == !0u8 << ((8 - k) as u8), k == 6u8;
        assert((b & 0xfcu8 == 0u8) <==> ((b >> 7u8) & 1u8 != 1u8 && (b >> 6u8) & 1u8 != 1u8
            && (b >> 5u8) & 1u8 != 1u8 && (b >> 4u8) & 1u8 != 1u8 && (b >> 3u8) & 1u8 != 1u8
            && (b >> 2u8) & 1u8 != 1u8)) by (bit_vector);
    } else {
        assert(m == 0xfeu8) by (bit_vector) requires m == !0u8 << ((8 - k) as u8), k == 7u8;
        assert((b & 0xfeu8 == 0u8) <==> ((b >> 7u8) & 1u8 != 1u8 && (b >> 6u8) & 1u8 != 1u8
            && (b >> 5u8) & 1u8 != 1u8 && (b >> 4u8) & 1u8 != 1u8 && (b >> 3u8) & 1u8 != 1u8
            && (b >> 2u8) & 1u8 != 1u8 && (b >> 1u8) & 1u8 != 1u8)) by (bit_vector);
    }
    assert(high_bits_clear(b, 8 - k) ==> (b & m == 0u8)) by {
        if high_bits_clear(b, 8 - k) {
            assert(!byte_bit(b, 7));
            assert(!byte_bit(b, 6) || k < 2);
            assert(!byte_bit(b, 5) || k < 3);
            assert(!byte_bit(b, 4) || k < 4);
            assert(!byte_bit(b, 3) || k < 5);
            assert(!byte_bit(b, 2) || k < 6);
            assert(!byte_bit(b, 1) || k < 7);
        }
    }
}

/// Checks that `bits` is a valid page bitmap for the range `[start, end)`
/// (see [`bitmap_valid`]).
pub fn validate_bitmap(start: u64, end: u64, bits: &[u8]) -> (ok: bool)
    requires
        bits@.len() * 8 <= usize::MAX,
    ensures
        ok == bitmap_valid(start, end, bits@),
{
    if start % 4096 != 0 || end % 4096 != 0 {
        return false;
    }
    if end <= start {
        return false;
    }
    let npages: u64 = (end - start) / 4096;
    let npages_bitmap: u64 = (bits.len() * 8) as u64;
    if npages_bitmap < npages || (npages_bitmap - npages) >= 8 {
        return false;
    }
    if npages_bitmap != npages {
        let last_bits: u64 = npages_bitmap - npages;
        let mask: u8 = !0u8 << ((8 - last_bits) as u8);
        let last_byte: u8 = bits[bits.len() - 1];
        proof {
            lemma_mask_clear(last_byte, last_bits as u8);
        }
        if last_byte & mask != 0 {
            proof {
                let n = bits@.len() as int;
                let j = choose|j: int| 8 - last_bits <= j < 8 && byte_bit(last_byte, j);
                assert(bit_at(bits@, (n - 1) * 8 + j));
            }
            return false;
        }
        proof {
            let n = bits@.len() as int;
            assert forall|i: int| npages <= i < n * 8 implies !#[trigger] bit_at(bits@, i) by {
                assert(i / 8 == n - 1);
                assert(i % 8 >= 8 - last_bits);
            }
        }
    }
    true
}

/// Creates an offer message for a range of guest physical addresses and the
/// bitmap of its pages.
pub fn make_mem_offer(start_gpa: u64, end_gpa: u64, bitmap: &[u8]) -> (m: Message)
    requires
        bitmap_valid(start_gpa, end_gpa, bitmap@),
    ensures
        m@ == MessageView::MemOffer(start_gpa, end_gpa, bitmap@),
{
    Message::MemOffer(start_gpa, end_gpa, slice_to_vec(bitmap))
}

/// Creates a fetch message for a range of guest physical addresses and the
/// bitmap of its pages.
pub fn make_mem_fetch(start_gpa: u64, end_gpa: u64, bitmap: &[u8]) -> (m: Message)
    requires
        bitmap_valid(start_gpa, end_gpa, bitmap@),
    ensures
        m@ == MessageView::MemFetch(start_gpa, end_gpa, bitmap@),
{
    Message::MemFetch(start_gpa, end_gpa, slice_to_vec(bitmap))
}

/// Creates a transfer message for a range of guest physical addresses and
/// the bitmap of its pages.
pub fn make_mem_xfer(start_gpa: u64, end_gpa: u64, bitmap: &[u8]) -> (m: Message)
    requires
        bitmap_valid(start_gpa, end_gpa, bitmap@),
    ensures
        m@ == MessageView::MemXfer(start_gpa, end_gpa, bitmap@),
{
    Message::MemXfer(start_gpa, end_gpa, slice_to_vec(bitmap))
}

/// `BitField::get_bit` on a byte: whether bit `bit` (0 is the least
/// significant) is set.
#[verifier::external_body]
fn get_bit(b: u8, bit: usize) -> (r: bool)
    requires
        bit < 8,
    ensures
        r == (b & (1u8 << (bit as u8)) != 0u8),
{
    b.get_bit(bit)
}

proof fn lemma_get_bit(b: u8, j: u8)
    requires
        j < 8,
    ensures
        (b & (1u8 << j) != 0u8) == byte_bit(b, j as int),
{
    assert((b & (1u8 << j) != 0u8) == ((b >> j) & 1u8 == 1u8)) by (bit_vector)
        requires
            j < 8u8,
    ;
}

/// The state of a walk over the pages of `[start, end)` whose bits are set.
pub struct PageIterView {
    pub start: u64,
    pub current: u64,
    pub end: u64,
    pub bits: Seq<u8>,
}

/// Whether the page at `addr` is marked in the walk's bitmap.
pub open spec fn page_marked(v: PageIterView, addr: int) -> bool {
    bit_at(v.bits, (addr - v.start) / (PAGE_SIZE as int))
}

/// `addr` is a page of the walk: page aligned relative to its start.
pub open spec fn on_page(v: PageIterView, addr: int) -> bool {
    v.start <= addr && (addr - v.start) % (PAGE_SIZE as int) == 0
}

/// One step of a walk from `v` to `w` that yields `r`: the walk keeps its
/// range and bitmap; it yields the first marked page at or after its
/// position and moves past it, or, when there is none, yields nothing and
/// moves to the end.
pub open spec fn next_post(v: PageIterView, r: Option<u64>, w: PageIterView) -> bool {
    &&& w.start == v.start
    &&& w.end == v.end
    &&& w.bits == v.bits
    &&& match r {
        Some(a) => {
            &&& v.current <= a < v.end
            &&& on_page(v, a as int)
            &&& page_marked(v, a as int)
            &&& forall|b: int| v.current <= b < a && on_page(v, b) ==> !page_marked(v, b)
            &&& w.current == a + PAGE_SIZE
        },
        None => {
            &&& forall|b: int| v.current <= b < v.end && on_page(v, b) ==> !page_marked(v, b)
            &&& w.current >= v.end
        },
    }
}

/// Iterates over the addresses of the pages in `[start, end)` whose bits are
/// set in a bitmap.
pub struct PageIter<'a> {
    start: u64,
    current: u64,
    end: u64,
    bits: &'a [u8],
}

impl<'a> View for PageIter<'a> {
    type V = PageIterView;

    closed spec fn view(&self) -> PageIterView {
        PageIterView { start: self.start, current: self.current, end: self.end, bits: self.bits@ }
    }
}

/// A walk that can run to its end: its position is on a page, and while it
/// has pages left, the bitmap covers the range and no address overflows.
pub open spec fn walk_ok(v: PageIterView) -> bool {
    &&& on_page(v, v.current as int)
    &&& v.current < v.end ==> {
        &&& v.end - v.start <= v.bits.len() * 8 * (PAGE_SIZE as int)
        &&& v.end <= u64::MAX - (PAGE_SIZE - 1)
    }
}

impl<'a> PageIter<'a> {
    pub fn new(start: u64, end: u64, bits: &'a [u8]) -> (it: PageIter<'a>)
        ensures
            it@ == (PageIterView { start, current: start, end, bits: bits@ }),
    {
        let current = start;
        PageIter { start, current, end, bits }
    }

    /// The next page address whose bit is set, if any.
    pub fn next(&mut self) -> (r: Option<u64>)
        requires
            walk_ok(old(self)@),
        ensures
            walk_ok(final(self)@),
            next_post(old(self)@, r, final(self)@),
    {
        let ghost v0 = self@;
        while self.current < self.end
            invariant
                self@ == (PageIterView {
                    start: v0.start,
                    current: self.current,
                    end: v0.end,
                    bits: v0.bits,
                }),
                v0 == old(self)@,
                v0.current <= self.current,
                walk_ok(self@),
                walk_ok(v0),
                forall|b: int|
                    v0.current <= b < self.current && on_page(v0, b) ==> !page_marked(v0, b),
            decreases u64::MAX - self.current,
        {
            let addr = self.current;
            proof {
                assert((addr - self.start) / 4096 < self.bits@.len() * 8) by (nonlinear_arith)
                    requires
                        addr < self.end,
                        self.end - self.start <= self.bits@.len() * 8 * 4096,
                        self.start <= addr,
                ;
            }
            self.current += 4096;
            let page_offset: u64 = (addr - self.start) / 4096;
            let b = self.bits[(page_offset / 8) as usize];
            let set = get_bit(b, (page_offset % 8) as usize);
            proof {
                lemma_get_bit(b, (page_offset % 8) as u8);
                assert(on_page(v0, addr as int));
                assert(set == page_marked(v0, addr as int));
                assert forall|c: int|
                    v0.current <= c < self.current && on_page(v0, c) && c != addr implies !page_marked(
                        v0,
                        c,
                    ) by {
                    assert(c < addr);
                }
            }
            if set {
                return Some(addr);
            }
        }
        None
    }
}

/// The indices below `n` of the bits set in `bits`, in increasing order.
pub open spec fn marked_indices(bits: Seq<u8>, n: nat) -> Seq<int>
    decreases n,
{
    if n == 0 {
        Seq::empty()
    } else if bit_at(bits, n - 1) {
        marked_indices(bits, (n - 1) as nat).push(n - 1)
    } else {
        marked_indices(bits, (n - 1) as nat)
    }
}

/// The pages of `[start, end)` marked in `bits`, in increasing order.
pub open spec fn marked_pages(start: u64, end: u64, bits: Seq<u8>) -> Seq<int> {
    marked_indices(bits, page_count(start, end) as nat).map_values(
        |i: int| start + i * (PAGE_SIZE as int),
    )
}

/// The first index of the `k`-th gap between marked indices.
pub open spec fn gap_lo(m: Seq<int>, k: int) -> int {
    if k == 0 {
        0
    } else {
        m[k - 1] + 1
    }
}

/// The index past the `k`-th gap between marked indices (below `n`).
pub open spec fn gap_hi(m: Seq<int>, k: int, n: int) -> int {
    if k < m.len() {
        m[k]
    } else {
        n
    }
}

/// `m` lists, in increasing order, the set bits below `n`, with no set bit
/// in the gaps between them.
pub open spec fn indices_ok(bits: Seq<u8>, m: Seq<int>, n: int) -> bool {
    &&& forall|k: int| 0 <= k < m.len() ==> 0 <= #[trigger] m[k] < n && bit_at(bits, m[k])
    &&& forall|k: int, l: int| 0 <= k < l < m.len() ==> #[trigger] m[k] < #[trigger] m[l]
    &&& forall|k: int, j: int|
        #![trigger gap_lo(m, k), bit_at(bits, j)]
        0 <= k <= m.len() && gap_lo(m, k) <= j < gap_hi(m, k, n) ==> !bit_at(bits, j)
}

proof fn lemma_marked_indices(bits: Seq<u8>, n: nat)
    ensures
        indices_ok(bits, marked_indices(bits, n), n as int),
    decreases n,
{
    if n > 0 {
        let p = marked_indices(bits, (n - 1) as nat);
        lemma_marked_indices(bits, (n - 1) as nat);
        let m = marked_indices(bits, n);
        if bit_at(bits, n - 1) {
            assert(m == p.push(n - 1));
            assert forall|k: int, j: int|
                #![trigger gap_lo(m, k), bit_at(bits, j)]
                0 <= k <= m.len() && gap_lo(m, k) <= j < gap_hi(m, k, n as int) implies !bit_at(
                bits,
                j,
            ) by {
                if k < p.len() {
                    assert(gap_lo(m, k) == gap_lo(p, k));
                    assert(gap_hi(m, k, n as int) == gap_hi(p, k, n - 1));
                } else if k == p.len() {
                    assert(gap_lo(m, k) == gap_lo(p, k));
                }
            }
        } else {
            assert(m == p);
            assert forall|k: int, j: int|
                #![trigger gap_lo(m, k), bit_at(bits, j)]
                0 <= k <= m.len() && gap_lo(m, k) <= j < gap_hi(m, k, n as int) implies !bit_at(
                bits,
                j,
            ) by {
                if j < n - 1 {
                    assert(gap_lo(m, k) == gap_lo(p, k));
                    if k < p.len() {
                        assert(gap_hi(m, k, n as int) == gap_hi(p, k, n - 1));
                    }
                }
            }
        }
    }
}

/// Where a walk stands after yielding its first `k` marked pages.
pub open spec fn walk_position(start: u64, m: Seq<int>, k: int) -> int {
    start + gap_lo(m, k) * (PAGE_SIZE as int)
}

proof fn lemma_walk_step(
    start: u64,
    end: u64,
    bits: Seq<u8>,
    v: PageIterView,
    r: Option<u64>,
    w: PageIterView,
    k: int,
)
    requires
        bitmap_valid(start, end, bits),
        v.start == start,
        v.end == end,
        v.bits == bits,
        next_post(v, r, w),
        0 <= k,
        k <= marked_indices(bits, page_count(start, end) as nat).len() ==> v.current
            == walk_position(start, marked_indices(bits, page_count(start, end) as nat), k),
        k > marked_indices(bits, page_count(start, end) as nat).len() ==> v.current >= end,
    ensures
        ({
            let m = marked_indices(bits, page_count(start, end) as nat);
            &&& k < m.len() ==> r == Some((start + m[k] * (PAGE_SIZE as int)) as u64) && w.current
                == walk_position(start, m, k + 1)
            &&& k >= m.len() ==> r is None && w.current >= end
        }),
{
    let n = page_count(start, end);
    let m = marked_indices(bits, n as nat);
    lemma_marked_indices(bits, n as nat);
    assert(end == start + n * 4096);
    if k < m.len() {
        let q = start + m[k] * 4096;
        assert(m[k] < n);
        assert(gap_lo(m, k) <= m[k]) by {
            if k > 0 {
                assert(m[k - 1] < m[k]);
            }
        }
        assert(on_page(v, q)) by {
            assert((q - start) % 4096 == 0);
        }
        assert((q - start) / 4096 == m[k]);
        assert(page_marked(v, q));
        match r {
            Some(a) => {
                let ja = (a - start) / 4096;
                assert(a == start + ja * 4096);
                assert(page_marked(v, a as int));
                assert(bit_at(bits, ja));
                assert(ja >= gap_lo(m, k));
                if ja < m[k] {
                    assert(!bit_at(bits, ja));
                }
                if q < a {
                    assert(!page_marked(v, q));
                }
                assert(a == q);
            },
            None => {
                assert(!page_marked(v, q));
            },
        }
    } else if k == m.len() {
        match r {
            Some(a) => {
                let ja = (a - start) / 4096;
                assert(a == start + ja * 4096);
                assert(page_marked(v, a as int));
                assert(bit_at(bits, ja));
                assert(gap_lo(m, k) <= ja < gap_hi(m, k, n));
            },
            None => {},
        }
    }
}

/// The walk over a valid bitmap yields exactly the marked pages, in
/// increasing order, each once, and nothing after them: for any run of
/// steps from a new walk, the `i`-th step yields the `i`-th marked page
/// while there is one, and nothing from then on.
pub proof fn lemma_page_walk(
    start: u64,
    end: u64,
    bits: Seq<u8>,
    views: Seq<PageIterView>,
    rs: Seq<Option<u64>>,
)
    requires
        bitmap_valid(start, end, bits),
        views.len() == rs.len() + 1,
        views[0] == (PageIterView { start, current: start, end, bits }),
        forall|i: int| 0 <= i < rs.len() ==> next_post(#[trigger] views[i], rs[i], views[i + 1]),
    ensures
        forall|i: int|
            0 <= i < rs.len() ==> #[trigger] rs[i] == (if i < marked_pages(start, end, bits).len() {
                Some(marked_pages(start, end, bits)[i] as u64)
            } else {
                None::<u64>
            }),
        forall|i: int, j: int|
            0 <= i < j < marked_pages(start, end, bits).len() ==> #[trigger] marked_pages(
                start,
                end,
                bits,
            )[i] < #[trigger] marked_pages(start, end, bits)[j],
{
    let n = page_count(start, end);
    let m = marked_indices(bits, n as nat);
    lemma_marked_indices(bits, n as nat);
    let mp = marked_pages(start, end, bits);
    assert forall|i: int, j: int| 0 <= i < j < mp.len() implies #[trigger] mp[i] < #[trigger] mp[j] by {
        assert(m[i] < m[j]);
        assert(m[i] * 4096 < m[j] * 4096);
    }
    lemma_page_walk_prefix(start, end, bits, views, rs, rs.len() as int);
}

proof fn lemma_page_walk_prefix(
    start: u64,
    end: u64,
    bits: Seq<u8>,
    views: Seq<PageIterView>,
    rs: Seq<Option<u64>>,
    t: int,
)
    requires
        bitmap_valid(start, end, bits),
        views.len() == rs.len() + 1,
        views[0] == (PageIterView { start, current: start, end, bits }),
        forall|i: int| 0 <= i < rs.len() ==> next_post(#[trigger] views[i], rs[i], views[i + 1]),
        0 <= t <= rs.len(),
    ensures
        views[t].start == start && views[t].end == end && views[t].bits == bits,
        t <= marked_indices(bits, page_count(start, end) as nat).len() ==> views[t].current
            == walk_position(start, marked_indices(bits, page_count(start, end) as nat), t),
        t > marked_indices(bits, page_count(start, end) as nat).len() ==> views[t].current >= end,
        forall|i: int|
            0 <= i < t ==> #[trigger] rs[i] == (if i < marked_pages(start, end, bits).len() {
                Some(marked_pages(start, end, bits)[i] as u64)
            } else {
                None::<u64>
            }),
    decreases t,
{
    if t > 0 {
        lemma_page_walk_prefix(start, end, bits, views, rs, t - 1);
        assert(next_post(views[t - 1], rs[t - 1], views[t]));
        lemma_walk_step(start, end, bits, views[t - 1], rs[t - 1], views[t], t - 1);
    }
}

/// Whether a bitmap is valid depends only on the alignment of the range
/// and its number of pages: moving the range by whole pages keeps it.
pub proof fn lemma_bitmap_valid_shift(start: u64, end: u64, bits: Seq<u8>, k: u64)
    requires
        start + PAGE_SIZE * k <= u64::MAX,
        end + PAGE_SIZE * k <= u64::MAX,
    ensures
        bitmap_valid((start + PAGE_SIZE * k) as u64, (end + PAGE_SIZE * k) as u64, bits)
            == bitmap_valid(start, end, bits),
{
    let s2 = (start + PAGE_SIZE * k) as u64;
    let e2 = (end + PAGE_SIZE * k) as u64;
    assert(s2 % PAGE_SIZE == start % PAGE_SIZE) by (nonlinear_arith)
        requires
            s2 == start + 4096 * k,
    ;
    assert(e2 % PAGE_SIZE == end % PAGE_SIZE) by (nonlinear_arith)
        requires
            e2 == end + 4096 * k,
    ;
    assert(page_count(s2, e2) == page_count(start, end));
}

/// The walk over a valid bitmap can run to its end.
pub proof fn lemma_valid_bitmap_walk(start: u64, end: u64, bits: Seq<u8>)
    requires
        bitmap_valid(start, end, bits),
    ensures
        walk_ok(PageIterView { start, current: start, end, bits }),
{
    assert(end <= u64::MAX - (PAGE_SIZE - 1)) by {
        assert(end % 4096 == 0);
    }
    assert(end - start <= bits.len() * 8 * 4096) by (nonlinear_arith)
        requires
            (end - start) / 4096 <= bits.len() * 8,
            (end - start) % 4096 == 0,
            start < end,
    ;
}

} // verus!
