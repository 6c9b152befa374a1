//! The destination's record of which guest pages the source reported dirty,
//! kept in a `bitvec` bit vector (one bit per page, least significant bit
//! first), and the fetch requests that follow from it.

use crate::codec::{Message, MessageView};
use crate::memx::{bit_at, bitmap_valid, byte_bit, validate_bitmap};
use crate::migrate::MigrateError;
use bitvec::prelude as bv;
use vstd::prelude::*;

verus! {

broadcast use vstd::seq_lib::group_seq_properties;

/// A growable bit vector over bytes, least significant bit first.
#[verifier::external_body]
pub struct DirtyBitmap {
    inner: bv::BitVec<u8, bv::Lsb0>,
}

/// The bits a [`DirtyBitmap`] holds, in order.
pub uninterp spec fn dirty_bits(d: DirtyBitmap) -> Seq<bool>;

/// The bits that a byte slice holds, least significant bit first.
pub open spec fn raw_bits(bytes: Seq<u8>) -> Seq<bool> {
    Seq::new(bytes.len() * 8, |i: int| bit_at(bytes, i))
}

/// The longest bit vector the calls below are used for: well within what
/// `bitvec` can encode over bytes.
pub open spec fn bits_fit(n: int) -> bool {
    n <= usize::MAX / 8
}

impl DirtyBitmap {
    /// `BitVec::new`: an empty bit vector.
    #[verifier::external_body]
    pub(crate) fn new() -> (d: DirtyBitmap)
        ensures
            dirty_bits(d) == Seq::<bool>::empty(),
    {
        DirtyBitmap { inner: bv::BitVec::new() }
    }

    /// `BitVec::len`: the number of bits.
    #[verifier::external_body]
    pub(crate) fn len(&self) -> (n: usize)
        ensures
            n == dirty_bits(*self).len(),
    {
        self.inner.len()
    }

    /// `BitVec::resize`: grows with copies of `value`, or truncates.
    #[verifier::external_body]
    fn resize(&mut self, new_len: usize, value: bool)
        requires
            bits_fit(new_len as int),
        ensures
            new_len > dirty_bits(*old(self)).len() ==> dirty_bits(*final(self)) == dirty_bits(
                *old(self),
            ) + Seq::new((new_len - dirty_bits(*old(self)).len()) as nat, |i: int| value),
            new_len <= dirty_bits(*old(self)).len() ==> dirty_bits(*final(self)) == dirty_bits(
                *old(self),
            ).take(new_len as int),
    {
        self.inner.resize(new_len, value)
    }

    /// `BitVec::extend_from_raw_slice`: appends the bits of the bytes.
    #[verifier::external_body]
    fn extend_from_raw_slice(&mut self, bytes: &[u8])
        requires
            bits_fit((dirty_bits(*old(self)).len() + bytes@.len() * 8) as int),
        ensures
            dirty_bits(*final(self)) == dirty_bits(*old(self)) + raw_bits(bytes@),
    {
        self.inner.extend_from_raw_slice(bytes)
    }

    /// `BitVec::as_raw_slice`: the bytes that hold the bits.  The bits past
    /// the last one, in the last byte, have no specified value.
    #[verifier::external_body]
    pub(crate) fn as_raw_slice(&self) -> (s: &[u8])
        ensures
            s@.len() == (dirty_bits(*self).len() + 7) / 8,
            forall|i: int| 0 <= i < dirty_bits(*self).len() ==> bit_at(s@, i) == dirty_bits(*self)[i],
    {
        self.inner.as_raw_slice()
    }
}

/// The destination's answer to the source's memory offers: the dirty pages
/// and the highest address offered so far.
pub struct RamQuery {
    dirty: DirtyBitmap,
    highest: u64,
}

/// The state of a [`RamQuery`].
pub struct RamQueryView {
    pub dirty: Seq<bool>,
    pub highest: u64,
}

impl View for RamQuery {
    type V = RamQueryView;

    closed spec fn view(&self) -> RamQueryView {
        RamQueryView { dirty: dirty_bits(self.dirty), highest: self.highest }
    }
}

/// The page index at which an offer's bits start.
pub open spec fn offer_index(start: u64) -> int {
    (start / 4096) as int
}

/// The dirty bits after an offer for the range starting at `start`: padded
/// with clear bits up to the range's first page, then the offer's bits.
pub open spec fn record_offer(dirty: Seq<bool>, start: u64, bits: Seq<u8>) -> Seq<bool> {
    let idx = offer_index(start);
    if dirty.len() < idx {
        dirty + Seq::new((idx - dirty.len()) as nat, |i: int| false) + raw_bits(bits)
    } else {
        dirty + raw_bits(bits)
    }
}

/// An offer that the bit vector can take in.
pub open spec fn offer_fits(dirty_len: nat, start: u64, bits_len: nat) -> bool {
    &&& bits_fit(offer_index(start))
    &&& bits_fit((dirty_len + bits_len * 8) as int)
    &&& bits_fit(offer_index(start) + bits_len * 8)
}

/// What a message does to a memory query: `Ok(true)` when it ends the
/// query, `Ok(false)` with the offer taken in, or the error.
pub open spec fn query_step(v: RamQueryView, m: MessageView) -> (RamQueryView, Result<bool, MigrateError>) {
    match m {
        MessageView::MemEnd(s, e) => if s != 0 || e != u64::MAX {
            (v, Err(MigrateError::Phase))
        } else {
            (v, Ok(true))
        },
        MessageView::MemOffer(s, e, b) => if !bitmap_valid(s, e, b) {
            (v, Err(MigrateError::Phase))
        } else {
            (
                RamQueryView {
                    dirty: record_offer(v.dirty, s, b),
                    highest: if e > v.highest {
                        e
                    } else {
                        v.highest
                    },
                },
                Ok(false),
            )
        },
        _ => (v, Err(MigrateError::UnexpectedMessage)),
    }
}

impl RamQuery {
    pub fn new() -> (q: RamQuery)
        ensures
            q@ == (RamQueryView { dirty: Seq::empty(), highest: 0 }),
    {
        RamQuery { dirty: DirtyBitmap::new(), highest: 0 }
    }

    /// Takes a message of the source's answer to the memory query (see
    /// [`query_step`]).
    pub fn on_message(&mut self, m: &Message) -> (r: Result<bool, MigrateError>)
        requires
            m@ matches MessageView::MemOffer(s, e, b) ==> b.len() * 8 <= usize::MAX && offer_fits(
                old(self)@.dirty.len(),
                s,
                b.len(),
            ),
        ensures
            (final(self)@, r) == query_step(old(self)@, m@),
    {
        match m {
            Message::MemEnd(start, end) => {
                if *start != 0 || *end != u64::MAX {
                    return Err(MigrateError::Phase);
                }
                Ok(true)
            },
            Message::MemOffer(start, end, bits) => {
                if !validate_bitmap(*start, *end, bits.as_slice()) {
                    return Err(MigrateError::Phase);
                }
                if *end > self.highest {
                    self.highest = *end;
                }
                let start_bit_index = (*start / 4096) as usize;
                if self.dirty.len() < start_bit_index {
                    self.dirty.resize(start_bit_index, false);
                }
                self.dirty.extend_from_raw_slice(bits.as_slice());
                Ok(false)
            },
            _ => Err(MigrateError::UnexpectedMessage),
        }
    }

    /// The highest address offered.
    pub fn highest(&self) -> (h: u64)
        ensures
            h == self@.highest,
    {
        self.highest
    }

    /// The number of dirty bits recorded.
    pub fn dirty_len(&self) -> (n: usize)
        ensures
            n == self@.dirty.len(),
    {
        self.dirty.len()
    }

    /// The bytes that hold the dirty bits.
    pub fn dirty_bytes(&self) -> (s: &[u8])
        ensures
            s@.len() == (self@.dirty.len() + 7) / 8,
            forall|i: int| 0 <= i < self@.dirty.len() ==> bit_at(s@, i) == self@.dirty[i],
    {
        self.dirty.as_raw_slice()
    }
}

/// Where an accepted offer `MemOffer(s, e, b)` puts its bits.  The bits
/// recorded before stay as they were; the vector is padded with clear bits
/// up to page `s / 4096` when it is shorter; and bit `k` of `b` becomes the
/// dirty bit of page `s / 4096 + k`.  Only where earlier offers already
/// reach past page `s / 4096` do the bits follow on at the end instead.
/// The highest address offered becomes the larger of `e` and the old one.
pub proof fn lemma_offer_recorded(v: RamQueryView, s: u64, e: u64, b: Seq<u8>)
    requires
        bitmap_valid(s, e, b),
    ensures
        ({
            let (w, r) = query_step(v, MessageView::MemOffer(s, e, b));
            let first = (s / 4096) as int;
            let at = if v.dirty.len() < first {
                first
            } else {
                v.dirty.len() as int
            };
            &&& r == Ok::<bool, MigrateError>(false)
            &&& w.dirty.len() == at + 8 * b.len()
            &&& forall|i: int| 0 <= i < v.dirty.len() ==> w.dirty[i] == v.dirty[i]
            &&& forall|i: int| v.dirty.len() <= i < at ==> !w.dirty[i]
            &&& forall|k: int| 0 <= k < 8 * b.len() ==> w.dirty[at + k] == bit_at(b, k)
            &&& v.dirty.len() <= first ==> forall|k: int|
                0 <= k < 8 * b.len() ==> w.dirty[first + k] == bit_at(b, k)
            &&& w.highest == if e > v.highest {
                e
            } else {
                v.highest
            }
        }),
{
    let first = (s / 4096) as int;
    let w = query_step(v, MessageView::MemOffer(s, e, b)).0;
    if v.dirty.len() < first {
        let pad = Seq::new((first - v.dirty.len()) as nat, |i: int| false);
        assert(w.dirty == v.dirty + pad + raw_bits(b));
        assert forall|i: int| v.dirty.len() <= i < first implies !w.dirty[i] by {
            assert(w.dirty[i] == pad[i - v.dirty.len()]);
        }
        assert forall|k: int| 0 <= k < 8 * b.len() implies w.dirty[first + k] == bit_at(b, k) by {
            assert(w.dirty[first + k] == raw_bits(b)[k]);
        }
    } else {
        assert(w.dirty == v.dirty + raw_bits(b));
        assert forall|k: int| 0 <= k < 8 * b.len() implies w.dirty[v.dirty.len() + k] == bit_at(
            b,
            k,
        ) by {
            assert(w.dirty[v.dirty.len() + k] == raw_bits(b)[k]);
        }
    }
}

/// A memory query ends only on `MemEnd(0, u64::MAX)`; every message that
/// ends neither the query nor is an accepted offer is refused, a malformed
/// end or offer as out of phase and anything else as unexpected, and a
/// refused message leaves the record as it was.
pub proof fn lemma_query_ends_and_refusals(v: RamQueryView, m: MessageView)
    ensures
        ({
            let (w, r) = query_step(v, m);
            &&& r == Ok::<bool, MigrateError>(true) <==> m == MessageView::MemEnd(0, u64::MAX)
            &&& r is Err ==> w == v
            &&& (m matches MessageView::MemEnd(s, e) && (s != 0 || e != u64::MAX)) ==> r
                == Err::<bool, MigrateError>(MigrateError::Phase)
            &&& (m matches MessageView::MemOffer(s, e, b) && !bitmap_valid(s, e, b)) ==> r
                == Err::<bool, MigrateError>(MigrateError::Phase)
            &&& !(m is MemEnd || m is MemOffer) ==> r == Err::<bool, MigrateError>(
                MigrateError::UnexpectedMessage,
            )
        }),
{
}

/// Bytes of the dirty bitmap per fetch request: 4096, for 32768 pages.
pub const FETCH_CHUNK: usize = 4096;

/// Whether every byte is zero.
pub open spec fn all_zero(s: Seq<u8>) -> bool {
    forall|i: int| 0 <= i < s.len() ==> s[i] == 0
}

/// The `k`-th 4096-byte chunk of the dirty bytes (the last may be shorter).
pub open spec fn chunk(raw: Seq<u8>, k: int) -> Seq<u8> {
    raw.subrange(
        4096 * k,
        if 4096 * (k + 1) < raw.len() {
            4096 * (k + 1)
        } else {
            raw.len() as int
        },
    )
}

/// A request for the pages marked in a chunk of the dirty bitmap.
pub struct FetchRequest {
    pub start: u64,
    pub end: u64,
    pub bitmap: Vec<u8>,
}

/// The fields of a [`FetchRequest`].
pub struct FetchView {
    pub start: u64,
    pub end: u64,
    pub bitmap: Seq<u8>,
}

impl View for FetchRequest {
    type V = FetchView;

    open spec fn view(&self) -> FetchView {
        FetchView { start: self.start, end: self.end, bitmap: self.bitmap@ }
    }
}

/// The request for chunk `k`: from its first page to its last, but not
/// past the highest address offered.
pub open spec fn chunk_request(raw: Seq<u8>, highest: u64, k: int) -> FetchView {
    let start = k * 4096 * 8 * 4096;
    let end = start + chunk(raw, k).len() * 8 * 4096;
    FetchView {
        start: start as u64,
        end: if (highest as int) < end {
            highest
        } else {
            end as u64
        },
        bitmap: chunk(raw, k),
    }
}

/// The requests for the first `k` chunks that have a page marked, in order.
pub open spec fn fetch_plan(raw: Seq<u8>, highest: u64, k: int) -> Seq<FetchView>
    decreases k,
{
    if k <= 0 {
        Seq::empty()
    } else if all_zero(chunk(raw, k - 1)) {
        fetch_plan(raw, highest, k - 1)
    } else {
        fetch_plan(raw, highest, k - 1).push(chunk_request(raw, highest, k - 1))
    }
}

/// The number of chunks of the dirty bytes.
pub open spec fn chunk_count(raw: Seq<u8>) -> int {
    ((raw.len() + 4095) / 4096) as int
}

/// The plan for the first `k` chunks is a prefix of the plan for the first
/// `n`.
proof fn lemma_fetch_plan_prefix(raw: Seq<u8>, highest: u64, k: int, n: int)
    requires
        0 <= k <= n,
    ensures
        fetch_plan(raw, highest, k).len() <= fetch_plan(raw, highest, n).len(),
        forall|j: int|
            0 <= j < fetch_plan(raw, highest, k).len() ==> #[trigger] fetch_plan(raw, highest, n)[j]
                == fetch_plan(raw, highest, k)[j],
    decreases n - k,
{
    if k < n {
        lemma_fetch_plan_prefix(raw, highest, k, n - 1);
    }
}

/// A byte with a bit set is not zero.
proof fn lemma_set_bit_nonzero(b: u8, j: int)
    requires
        0 <= j < 8,
        byte_bit(b, j),
    ensures
        b != 0,
{
    let s = j as u8;
    assert(b == 0u8 ==> (b >> s) & 1u8 == 0u8) by (bit_vector);
}

/// Every page marked dirty is asked for: the request for its chunk starts
/// at the chunk's first page and marks the page at its place.
pub proof fn lemma_fetch_covers_dirty(raw: Seq<u8>, highest: u64, i: int)
    requires
        raw.len() * 8 * 4096 <= u64::MAX,
        0 <= i < raw.len() * 8,
        bit_at(raw, i),
    ensures
        exists|j: int|
            0 <= j < fetch_plan(raw, highest, chunk_count(raw)).len() && #[trigger] fetch_plan(
                raw,
                highest,
                chunk_count(raw),
            )[j].start == (i / 32768) * (4096 * 8 * 4096) && bit_at(
                fetch_plan(raw, highest, chunk_count(raw))[j].bitmap,
                i % 32768,
            ),
{
    let k = i / 32768;
    let c = chunk(raw, k);
    let byte = i / 8;
    assert(byte / 4096 == k);
    assert(4096 * k <= byte < raw.len());
    assert(c[byte - 4096 * k] == raw[byte]);
    assert((i % 32768) / 8 == byte - 4096 * k);
    assert((i % 32768) % 8 == i % 8);
    assert(bit_at(c, i % 32768));
    lemma_set_bit_nonzero(raw[byte], i % 8);
    assert(!all_zero(c));
    let n = chunk_count(raw);
    assert(k < n);
    let prefix = fetch_plan(raw, highest, k);
    assert(fetch_plan(raw, highest, k + 1) == prefix.push(chunk_request(raw, highest, k)));
    lemma_fetch_plan_prefix(raw, highest, k + 1, n);
    let j = prefix.len() as int;
    assert(fetch_plan(raw, highest, n)[j] == chunk_request(raw, highest, k));
    assert(k * 4096 * 8 * 4096 <= raw.len() * 8 * 4096) by (nonlinear_arith)
        requires
            4096 * k < raw.len(),
    ;
    assert(k * 4096 * 8 * 4096 == k * (4096 * 8 * 4096)) by (nonlinear_arith);
    let plan = fetch_plan(raw, highest, n);
    assert(plan[j].start == k * (4096 * 8 * 4096));
    assert(plan[j].bitmap == c);
    assert(0 <= j < plan.len() && plan[j].start == (i / 32768) * (4096 * 8 * 4096) && bit_at(
        plan[j].bitmap,
        i % 32768,
    ));
}

/// Whether every byte of `s` is zero.
pub fn is_clear(s: &[u8]) -> (r: bool)
    ensures
        r == all_zero(s@),
{
    let mut i: usize = 0;
    while i < s.len()
        invariant
            i <= s@.len(),
            forall|j: int| 0 <= j < i ==> s@[j] == 0,
        decreases s@.len() - i,
    {
        if s[i] != 0 {
            return false;
        }
        i += 1;
    }
    true
}

/// The fetch requests the destination sends for the dirty bytes `raw`, one
/// per 4096-byte chunk that has a page marked.
pub fn fetch_requests(raw: &[u8], highest: u64) -> (r: Vec<FetchRequest>)
    requires
        raw@.len() * 8 * 4096 <= u64::MAX,
        raw@.len() * 8 * 4096 <= usize::MAX,
    ensures
        r@.map_values(|f: FetchRequest| f@) == fetch_plan(raw@, highest, chunk_count(raw@)),
{
    let mut out: Vec<FetchRequest> = Vec::new();
    let nchunks = (raw.len() + 4095) / 4096;
    let mut k: usize = 0;
    while k < nchunks
        invariant
            raw@.len() * 8 * 4096 <= u64::MAX,
            raw@.len() * 8 * 4096 <= usize::MAX,
            nchunks == chunk_count(raw@),
            k <= nchunks,
            out@.map_values(|f: FetchRequest| f@) == fetch_plan(raw@, highest, k as int),
        decreases nchunks - k,
    {
        let offset = 4096 * k;
        let stop = if raw.len() - offset > FETCH_CHUNK {
            offset + FETCH_CHUNK
        } else {
            raw.len()
        };
        let region = vstd::slice::slice_subrange(raw, offset, stop);
        assert(region@ == chunk(raw@, k as int));
        let ghost prev = out@.map_values(|f: FetchRequest| f@);
        if !is_clear(region) {
            proof {
                assert(k * 4096 * 8 * 4096 <= raw@.len() * 8 * 4096) by (nonlinear_arith)
                    requires
                        4096 * k < raw@.len(),
                ;
            }
            let start = (k * 4096 * 8 * 4096) as u64;
            proof {
                assert(start + region@.len() * 8 * 4096 <= raw@.len() * 8 * 4096) by (nonlinear_arith)
                    requires
                        start == k * 4096 * 8 * 4096,
                        4096 * k + region@.len() <= raw@.len(),
                ;
            }
            let end = start + (region.len() * 8 * 4096) as u64;
            let end = if highest < end {
                highest
            } else {
                end
            };
            let req = FetchRequest { start, end, bitmap: vstd::slice::slice_to_vec(region) };
            proof {
                let cr = chunk_request(raw@, highest, k as int);
                assert(req@.start == cr.start);
                assert(req@.bitmap == cr.bitmap);
                assert(req@.end == cr.end);
            }
            out.push(req);
            assert(out@.map_values(|f: FetchRequest| f@) =~= prev.push(
                chunk_request(raw@, highest, k as int),
            ));
        }
        k += 1;
    }
    out
}

} // verus!
