//! The chunked accumulator: it frames serialized records into one document
//! and decides, on each report of the row producer, whether to keep pulling,
//! hand out a chunk, report not-ready, or end.
//!
//! A pull of the consumer is driven as: `begin_pull`, then one of `on_record`,
//! `on_not_ready`, `on_end` or `on_failure` for each report of the producer,
//! until one of them settles the pull.

use crate::buffer::{bytes_view, BytesWriter};
use crate::framing::{framed, joined, lead, lemma_joined_push};
use crate::sizing::{
    estimate_for, lemma_estimate_covers, lemma_estimate_step, lemma_max_len_push,
    lemma_next_pow2, max_len, next_pow2, next_power_of_two,
};
use bytes::Bytes;
use vstd::arithmetic::power2::is_pow2;
use vstd::prelude::*;
use vstd::slice::slice_to_vec;
use vstd::string::StringSliceAdditionalSpecFns;

verus! {

/// The per-record size estimate that a stream starts from, in bytes.
pub const DEFAULT_ITEM_SIZE: usize = 2048;

/// `[`, which opens a JSON array.
pub const LEFT_BRACKET: u8 = 0x5b;

/// `,`, which separates the elements of a JSON array.
pub const COMMA: u8 = 0x2c;

/// `]`, which closes a JSON array.
pub const RIGHT_BRACKET: u8 = 0x5d;

/// Where a stream stands.
#[derive(Debug, Clone, Copy, PartialEq, Eq, Structural)]
pub enum State {
    /// Never pulled.
    Unused,
    /// Pulled at least once; no record yet.
    Empty,
    /// At least one record taken; a separator goes before each further one.
    NonEmpty,
    /// The producer ended and the suffix was handed out; every later pull
    /// ends at once.
    Done,
    /// The producer or the serializer failed; every later pull ends at once.
    Failed,
}

/// Frames serialized records as `prefix`, records separated by `delimiter`,
/// `suffix`, and hands the text out in chunks.
pub struct ByteStream {
    state: State,
    item_size: usize,
    prefix: Vec<u8>,
    delimiter: Vec<u8>,
    suffix: Vec<u8>,
    buf: BytesWriter,
    item_count: usize,
    hint: Ghost<nat>,
    records: Ghost<Seq<Seq<u8>>>,
    emitted: Ghost<Seq<u8>>,
}

/// Whether a chunk is due after a record, for a buffer that holds `len`
/// bytes and has room for `capacity`: something is buffered and the room
/// left (`capacity - len`) no longer exceeds the per-record estimate.
pub fn chunk_full(capacity: usize, len: usize, estimate: usize) -> (r: bool)
    ensures
        r == (len > 0 && capacity - len <= estimate),
{
    len > 0 && (capacity < len || capacity - len <= estimate)
}

impl ByteStream {
    /// Where the stream stands.
    pub closed spec fn phase(&self) -> State {
        self.state
    }

    /// The serialized records taken so far, in order.
    pub closed spec fn records(&self) -> Seq<Seq<u8>> {
        self.records@
    }

    /// Every chunk handed out so far, concatenated.
    pub closed spec fn emitted(&self) -> Seq<u8> {
        self.emitted@
    }

    /// The bytes written and not yet handed out.
    pub closed spec fn buffered(&self) -> Seq<u8> {
        self.buf@
    }

    /// The bytes that open the document.
    pub closed spec fn opening(&self) -> Seq<u8> {
        self.prefix@
    }

    /// The bytes between two records.
    pub closed spec fn separator_view(&self) -> Seq<u8> {
        self.delimiter@
    }

    /// The bytes that close the document.
    pub closed spec fn closing(&self) -> Seq<u8> {
        self.suffix@
    }

    /// The current per-record size estimate.
    pub closed spec fn estimate(&self) -> nat {
        self.item_size as nat
    }

    /// The estimate the stream started from.
    pub closed spec fn hint(&self) -> nat {
        self.hint@
    }

    /// The number of records taken, saturated at `usize::MAX`.
    pub closed spec fn count(&self) -> nat {
        self.item_count as nat
    }

    /// The stream's invariant.
    pub closed spec fn wf(&self) -> bool {
        &&& self.item_size as nat == estimate_for(self.hint@, max_len(self.records@))
        &&& self.buf@.len() <= isize::MAX
        &&& self.prefix@.len() <= isize::MAX
        &&& self.delimiter@.len() <= isize::MAX
        &&& self.suffix@.len() <= isize::MAX
        &&& self.item_count as nat == if self.records@.len() > usize::MAX {
            usize::MAX as nat
        } else {
            self.records@.len()
        }
        &&& match self.state {
            State::Unused => {
                &&& self.records@.len() == 0
                &&& self.emitted@.len() == 0
                &&& self.buf@.len() == 0
            },
            State::Empty | State::NonEmpty => {
                &&& (self.state == State::Empty) == (self.records@.len() == 0)
                &&& self.emitted@ + self.buf@ == self.prefix@ + joined(
                    self.records@,
                    self.delimiter@,
                )
            },
            State::Done => {
                &&& self.buf@.len() == 0
                &&& self.emitted@ == framed(
                    self.prefix@,
                    self.delimiter@,
                    self.suffix@,
                    self.records@,
                )
            },
            State::Failed => {
                self.emitted@ + self.buf@ == self.prefix@ + joined(self.records@, self.delimiter@)
            },
        }
    }

    /// A stream that was never pulled: nothing taken, nothing written, the
    /// estimate at its starting value.
    pub open spec fn is_fresh(&self) -> bool {
        &&& self.phase() == State::Unused
        &&& self.records().len() == 0
        &&& self.emitted().len() == 0
        &&& self.buffered().len() == 0
        &&& self.estimate() == self.hint()
    }

    /// In the middle of a pull: records may come.
    pub open spec fn is_pulling(&self) -> bool {
        self.phase() == State::Empty || self.phase() == State::NonEmpty
    }

    /// Ended or failed: every further pull ends at once.
    pub open spec fn is_finished(&self) -> bool {
        self.phase() == State::Done || self.phase() == State::Failed
    }

    /// The framing and the starting estimate are those of `other`.
    pub open spec fn same_setup(&self, other: &ByteStream) -> bool {
        &&& self.opening() == other.opening()
        &&& self.separator_view() == other.separator_view()
        &&& self.closing() == other.closing()
        &&& self.hint() == other.hint()
    }

    /// Room to take `record`: its length fits the estimate's arithmetic and
    /// the buffer can grow by the separator and the record.
    pub open spec fn can_take(&self, record: Seq<u8>) -> bool {
        &&& record.len() <= isize::MAX
        &&& self.buffered().len() + lead(self.records(), self.separator_view()).len()
            + record.len() <= isize::MAX
    }

    /// Room to close: the buffer can grow by the suffix.
    pub open spec fn can_close(&self) -> bool {
        self.buffered().len() + self.closing().len() <= isize::MAX
    }

    /// A stream framed as a JSON array (`[`, `,`, `]`), with the default
    /// per-record estimate.
    pub fn new() -> (r: ByteStream)
        ensures
            r.wf(),
            r.is_fresh(),
            r.hint() == DEFAULT_ITEM_SIZE,
            r.opening() == seq![LEFT_BRACKET],
            r.separator_view() == seq![COMMA],
            r.closing() == seq![RIGHT_BRACKET],
    {
        Self::with_size(DEFAULT_ITEM_SIZE)
    }

    /// A stream framed as a JSON array, with `size` as the per-record
    /// estimate to start from.
    pub fn with_size(size: usize) -> (r: ByteStream)
        ensures
            r.wf(),
            r.is_fresh(),
            r.hint() == size,
            r.opening() == seq![LEFT_BRACKET],
            r.separator_view() == seq![COMMA],
            r.closing() == seq![RIGHT_BRACKET],
    {
        ByteStream {
            state: State::Unused,
            item_size: size,
            prefix: vec![LEFT_BRACKET],
            delimiter: vec![COMMA],
            suffix: vec![RIGHT_BRACKET],
            buf: BytesWriter::new(),
            item_count: 0,
            hint: Ghost(size as nat),
            records: Ghost(Seq::empty()),
            emitted: Ghost(Seq::empty()),
        }
    }

    /// Sets the text that opens the document (`[` by default).
    pub fn prefix(self, s: &str) -> (r: ByteStream)
        requires
            self.wf(),
            self.is_fresh(),
            s.spec_bytes().len() <= isize::MAX,
        ensures
            r.wf(),
            r.is_fresh(),
            r.opening() == s.spec_bytes(),
            r.separator_view() == self.separator_view(),
            r.closing() == self.closing(),
            r.hint() == self.hint(),
    {
        let mut r = self;
        r.prefix = slice_to_vec(s.as_bytes());
        r
    }

    /// Sets the text between two records (`,` by default).
    pub fn delimiter(self, s: &str) -> (r: ByteStream)
        requires
            self.wf(),
            self.is_fresh(),
            s.spec_bytes().len() <= isize::MAX,
        ensures
            r.wf(),
            r.is_fresh(),
            r.opening() == self.opening(),
            r.separator_view() == s.spec_bytes(),
            r.closing() == self.closing(),
            r.hint() == self.hint(),
    {
        let mut r = self;
        r.delimiter = slice_to_vec(s.as_bytes());
        r
    }

    /// Sets the text that closes the document (`]` by default).
    pub fn suffix(self, s: &str) -> (r: ByteStream)
        requires
            self.wf(),
            self.is_fresh(),
            s.spec_bytes().len() <= isize::MAX,
        ensures
            r.wf(),
            r.is_fresh(),
            r.opening() == self.opening(),
            r.separator_view() == self.separator_view(),
            r.closing() == s.spec_bytes(),
            r.hint() == self.hint(),
    {
        let mut r = self;
        r.suffix = slice_to_vec(s.as_bytes());
        r
    }

    /// Sets the per-record estimate to start from.
    pub fn size(self, size: usize) -> (r: ByteStream)
        requires
            self.wf(),
            self.is_fresh(),
        ensures
            r.wf(),
            r.is_fresh(),
            r.opening() == self.opening(),
            r.separator_view() == self.separator_view(),
            r.closing() == self.closing(),
            r.hint() == size,
    {
        let mut r = self;
        r.item_size = size;
        r.hint = Ghost(size as nat);
        r
    }

    /// Where the stream stands.
    pub fn state(&self) -> (r: State)
        ensures
            r == self.phase(),
    {
        self.state
    }

    /// The current per-record size estimate.
    pub fn item_size(&self) -> (r: usize)
        ensures
            r == self.estimate(),
    {
        self.item_size
    }

    /// The number of records taken, saturated at `usize::MAX`.
    pub fn item_count(&self) -> (r: usize)
        ensures
            r == self.count(),
    {
        self.item_count
    }

    /// Whether `record` can be taken now without the buffer's length
    /// overflowing.
    pub fn has_room_for(&self, record: &[u8]) -> (r: bool)
        requires
            self.wf(),
            self.is_pulling(),
        ensures
            r == self.can_take(record@),
    {
        let sep: usize = match self.state {
            State::NonEmpty => self.delimiter.len(),
            _ => 0,
        };
        proof {
            assert(lead(self.records(), self.separator_view()).len() == sep) by {
                if self.state == State::NonEmpty {
                    assert(self.records@.len() > 0);
                } else {
                    assert(self.records@.len() == 0);
                }
            }
        }
        let len = self.buf.len();
        let max = isize::MAX as usize;
        record.len() <= max && sep <= max && len <= max - sep && len + sep <= max - record.len()
    }
    /// Whether the suffix can be written now without the buffer's length
    /// overflowing.
    pub fn has_room_to_close(&self) -> (r: bool)
        ensures
            r == self.can_close(),
    {
        self.suffix.len() <= isize::MAX as usize && self.buf.len() <= isize::MAX as usize
            - self.suffix.len()
    }

    // Everything but the buffer and the bytes handed out is as in `other`.
    spec fn keeps_all_but_output(&self, other: &ByteStream) -> bool {
        &&& self.state == other.state
        &&& self.item_size == other.item_size
        &&& self.item_count == other.item_count
        &&& self.prefix@ == other.prefix@
        &&& self.delimiter@ == other.delimiter@
        &&& self.suffix@ == other.suffix@
        &&& self.hint == other.hint
        &&& self.records == other.records
    }

    // Appends the prefix to the buffer.
    fn put_prefix(&mut self)
        requires
            old(self).buf@.len() + old(self).prefix@.len() <= isize::MAX,
        ensures
            final(self).buf@ == old(self).buf@ + old(self).prefix@,
            final(self).emitted == old(self).emitted,
            final(self).keeps_all_but_output(old(self)),
    {
        self.buf.write(self.prefix.as_slice());
    }

    // Appends the delimiter to the buffer.
    fn put_delimiter(&mut self)
        requires
            old(self).buf@.len() + old(self).delimiter@.len() <= isize::MAX,
        ensures
            final(self).buf@ == old(self).buf@ + old(self).delimiter@,
            final(self).emitted == old(self).emitted,
            final(self).keeps_all_but_output(old(self)),
    {
        self.buf.write(self.delimiter.as_slice());
    }

    // Appends the suffix to the buffer.
    fn put_suffix(&mut self)
        requires
            old(self).buf@.len() + old(self).suffix@.len() <= isize::MAX,
        ensures
            final(self).buf@ == old(self).buf@ + old(self).suffix@,
            final(self).emitted == old(self).emitted,
            final(self).keeps_all_but_output(old(self)),
    {
        self.buf.write(self.suffix.as_slice());
    }

    // Hands out the buffered bytes as one chunk and records them as emitted.
    fn emit(&mut self) -> (r: Bytes)
        ensures
            bytes_view(r) == old(self).buf@,
            final(self).buf@.len() == 0,
            final(self).emitted@ == old(self).emitted@ + old(self).buf@,
            final(self).keeps_all_but_output(old(self)),
    {
        let ghost taken = self.buf@;
        let chunk = self.buf.take();
        self.emitted = Ghost(self.emitted@ + taken);
        chunk
    }

    /// Starts a pull of the consumer. Returns `false` when the stream has
    /// ended or failed: the pull reports the end, and the stream is left as
    /// it was, so every later pull ends alike. Otherwise it makes room for
    /// one record of the estimated size and, on the first pull, writes the
    /// prefix; the caller then pulls the producer.
    pub fn begin_pull(&mut self) -> (r: bool)
        requires
            old(self).wf(),
        ensures
            final(self).wf(),
            r == !old(self).is_finished(),
            !r ==> *final(self) == *old(self),
            r ==> final(self).is_pulling(),
            r ==> final(self).phase() == if old(self).phase() == State::Unused {
                State::Empty
            } else {
                old(self).phase()
            },
            r ==> final(self).buffered() == if old(self).phase() == State::Unused {
                old(self).opening()
            } else {
                old(self).buffered()
            },
            final(self).records() == old(self).records(),
            final(self).emitted() == old(self).emitted(),
            final(self).estimate() == old(self).estimate(),
            final(self).same_setup(old(self)),
    {
        match self.state {
            State::Done | State::Failed => {
                return false;
            },
            _ => {},
        }
        let room = isize::MAX as usize - self.buf.len();
        let additional = if self.item_size <= room {
            self.item_size
        } else {
            room
        };
        self.buf.reserve(additional);
        match self.state {
            State::Unused => {
                self.state = State::Empty;
                proof {
                    assert(self.prefix.len() == self.prefix@.len());
                }
                self.put_prefix();
                proof {
                    assert(self.emitted@ + self.buf@ == self.prefix@ + joined(
                        self.records@,
                        self.delimiter@,
                    ));
                }
            },
            _ => {},
        }
        true
    }

    /// The producer yielded a record, serialized as `record`. Writes the
    /// separator (unless it is the first record) and the record, raises the
    /// estimate to the next power of two of the record's length when the
    /// record outgrows it, and hands out the buffer as a chunk when the room
    /// left in it no longer exceeds the (updated) estimate (see
    /// `flush_if_full`). `None` means: pull the producer again.
    pub fn on_record(&mut self, record: &[u8]) -> (r: Option<Bytes>)
        requires
            old(self).wf(),
            old(self).is_pulling(),
            old(self).can_take(record@),
        ensures
            final(self).wf(),
            final(self).phase() == State::NonEmpty,
            final(self).records() == old(self).records().push(record@),
            final(self).estimate() == if record@.len() > old(self).estimate() {
                next_pow2(record@.len())
            } else {
                old(self).estimate()
            },
            final(self).estimate() >= old(self).estimate(),
            final(self).same_setup(old(self)),
            match r {
                None => {
                    &&& final(self).buffered() == old(self).buffered() + lead(
                        old(self).records(),
                        old(self).separator_view(),
                    ) + record@
                    &&& final(self).emitted() == old(self).emitted()
                },
                Some(c) => {
                    &&& bytes_view(c) == old(self).buffered() + lead(
                        old(self).records(),
                        old(self).separator_view(),
                    ) + record@
                    &&& bytes_view(c).len() > 0
                    &&& final(self).buffered().len() == 0
                    &&& final(self).emitted() == old(self).emitted() + bytes_view(c)
                },
            },
    {
        let ghost old_records = self.records@;
        let ghost e0 = self.emitted@;
        let ghost b0 = self.buf@;
        let ghost sep = lead(old_records, self.delimiter@);
        match self.state {
            State::Empty => {
                self.state = State::NonEmpty;
            },
            _ => {
                self.put_delimiter();
            },
        }
        self.buf.write(record);
        proof {
            assert(self.buf@ =~= b0 + sep + record@);
            assert(e0 + self.buf@ =~= (e0 + b0) + sep + record@);
            assert(self.prefix@ + joined(old_records, self.delimiter@) + sep + record@ =~= self.prefix@
                + (joined(old_records, self.delimiter@) + sep + record@));
            lemma_joined_push(old_records, self.delimiter@, record@);
            lemma_max_len_push(old_records, record@);
            lemma_estimate_step(self.hint@, max_len(old_records), record@.len());
            lemma_estimate_covers(self.hint@, max_len(old_records));
            lemma_next_pow2(record@.len());
            assert(old_records.push(record@).len() > 0);
        }
        self.records = Ghost(old_records.push(record@));
        let item_size = record.len();
        if self.item_size < item_size {
            self.item_size = next_power_of_two(item_size);
        }
        self.item_count = self.item_count.saturating_add(1);
        let capacity = self.buf.capacity();
        self.flush_if_full(capacity)
    }

    /// Settles a pull after a record, for a buffer with room for `capacity`
    /// bytes: when a chunk is due (see `chunk_full`, with the current
    /// estimate) the buffer is handed out; otherwise the stream is left as it
    /// is and `None` means: pull the producer again. `on_record` calls it
    /// with the buffer's own capacity.
    pub fn flush_if_full(&mut self, capacity: usize) -> (r: Option<Bytes>)
        requires
            old(self).wf(),
            old(self).is_pulling(),
        ensures
            final(self).wf(),
            r is Some == (old(self).buffered().len() > 0 && capacity - old(self).buffered().len()
                <= old(self).estimate()),
            r is None ==> *final(self) == *old(self),
            r matches Some(c) ==> {
                &&& bytes_view(c) == old(self).buffered()
                &&& final(self).buffered().len() == 0
                &&& final(self).emitted() == old(self).emitted() + bytes_view(c)
            },
            final(self).phase() == old(self).phase(),
            final(self).records() == old(self).records(),
            final(self).estimate() == old(self).estimate(),
            final(self).same_setup(old(self)),
    {
        if chunk_full(capacity, self.buf.len(), self.item_size) {
            Some(self.emit())
        } else {
            None
        }
    }

    /// The producer is not ready. With nothing buffered the pull reports
    /// not-ready (`None`) and the stream is unchanged; otherwise the buffer
    /// is handed out at once rather than held back.
    pub fn on_not_ready(&mut self) -> (r: Option<Bytes>)
        requires
            old(self).wf(),
            old(self).is_pulling(),
        ensures
            final(self).wf(),
            old(self).buffered().len() == 0 ==> r is None && *final(self) == *old(self),
            old(self).buffered().len() > 0 ==> (r matches Some(c) && bytes_view(c) == old(
                self,
            ).buffered()),
            final(self).buffered().len() == 0,
            final(self).emitted() == old(self).emitted() + old(self).buffered(),
            final(self).phase() == old(self).phase(),
            final(self).records() == old(self).records(),
            final(self).estimate() == old(self).estimate(),
            final(self).same_setup(old(self)),
    {
        if self.buf.len() == 0 {
            proof {
                assert(self.emitted@ + self.buf@ == self.emitted@);
            }
            None
        } else {
            Some(self.emit())
        }
    }

    /// The producer ended. Writes the suffix and hands out the buffer as the
    /// last chunk; the stream is done, and what it handed out in all is the
    /// whole document.
    pub fn on_end(&mut self) -> (r: Bytes)
        requires
            old(self).wf(),
            old(self).is_pulling(),
            old(self).can_close(),
        ensures
            final(self).wf(),
            final(self).phase() == State::Done,
            bytes_view(r) == old(self).buffered() + old(self).closing(),
            final(self).buffered().len() == 0,
            final(self).emitted() == old(self).emitted() + bytes_view(r),
            final(self).emitted() == framed(
                old(self).opening(),
                old(self).separator_view(),
                old(self).closing(),
                old(self).records(),
            ),
            final(self).records() == old(self).records(),
            final(self).estimate() == old(self).estimate(),
            final(self).same_setup(old(self)),
    {
        let ghost e0 = self.emitted@;
        let ghost b0 = self.buf@;
        self.put_suffix();
        proof {
            assert(self.buf@ == b0 + self.suffix@);
            assert(self.emitted@ == e0);
        }
        self.state = State::Done;
        let chunk = self.emit();
        proof {
            assert(self.emitted@ == e0 + (b0 + self.suffix@));
            assert(self.emitted@ =~= (e0 + b0) + self.suffix@);
        }
        chunk
    }

    /// The producer or the serializer failed. The stream fails for good:
    /// every later pull ends at once.
    pub fn on_failure(&mut self)
        requires
            old(self).wf(),
            old(self).is_pulling(),
        ensures
            final(self).wf(),
            final(self).phase() == State::Failed,
            final(self).buffered() == old(self).buffered(),
            final(self).emitted() == old(self).emitted(),
            final(self).records() == old(self).records(),
            final(self).estimate() == old(self).estimate(),
            final(self).same_setup(old(self)),
    {
        self.state = State::Failed;
    }
}


/// A stream that ended without a record handed out exactly the prefix
/// followed by the suffix.
pub proof fn lemma_zero_rows(s: &ByteStream)
    requires
        s.wf(),
        s.phase() == State::Done,
        s.records().len() == 0,
    ensures
        s.emitted() == s.opening() + s.closing(),
{
    assert(s.opening() + joined(s.records(), s.separator_view()) =~= s.opening());
}

/// A stream that ended handed out, over all its chunks, exactly the prefix,
/// the records in the order taken with the separator between each two, and
/// the suffix.
pub proof fn lemma_complete_output(s: &ByteStream)
    requires
        s.wf(),
        s.phase() == State::Done,
    ensures
        s.emitted() == s.opening() + joined(s.records(), s.separator_view()) + s.closing(),
{
}

/// While a stream is being pulled, and after it failed, what it handed out
/// followed by what it holds is the prefix and the records taken so far,
/// with the separator between each two.
pub proof fn lemma_output_so_far(s: &ByteStream)
    requires
        s.wf(),
        s.is_pulling() || s.phase() == State::Failed,
    ensures
        s.emitted() + s.buffered() == s.opening() + joined(s.records(), s.separator_view()),
{
}

/// Where the chunks were cut does not change the document: two streams with
/// the same framing that took the same records and ended handed out the same
/// bytes, whatever estimate they started from and whatever room their
/// buffers had.
pub proof fn lemma_chunking_invisible(a: &ByteStream, b: &ByteStream)
    requires
        a.wf(),
        b.wf(),
        a.phase() == State::Done,
        b.phase() == State::Done,
        a.opening() == b.opening(),
        a.separator_view() == b.separator_view(),
        a.closing() == b.closing(),
        a.records() == b.records(),
    ensures
        a.emitted() == b.emitted(),
{
}

/// The estimate is the starting hint until a record outgrows it, and from
/// then on the smallest power of two that is at least the largest record
/// length seen so far.
pub proof fn lemma_size_estimate(s: &ByteStream)
    requires
        s.wf(),
    ensures
        s.estimate() == estimate_for(s.hint(), max_len(s.records())),
        s.estimate() >= s.hint(),
        max_len(s.records()) > s.hint() ==> {
            &&& is_pow2(s.estimate() as int)
            &&& max_len(s.records()) <= s.estimate()
            &&& forall|q: int| is_pow2(q) && max_len(s.records()) <= q ==> s.estimate() <= q
        },
{
    lemma_next_pow2(max_len(s.records()));
    lemma_estimate_covers(s.hint(), max_len(s.records()));
}

} // verus!
