//! The data phase of a transfer: the data port drained or filled one 32-bit
//! word at a time, each word gated by a buffer ready flag.
use vstd::prelude::*;

use crate::registers::{added, extends, lemma_added_chain, Event, Reg, Registers};
use crate::status::{Status, TransportError, STATUS_ALL};
use crate::usdhc::{is_read_of, value_of, Usdhc};
use crate::wait::is_wait;

verus! {

/// The bytes of `w`, least significant first.
pub open spec fn le_bytes(w: u32) -> Seq<u8> {
    seq![(w & 0xFF) as u8, ((w >> 8u32) & 0xFF) as u8, ((w >> 16u32) & 0xFF) as u8, ((w >> 24u32) & 0xFF) as u8]
}

/// The word whose bytes, least significant first, are `b[s..s + 4]`.
pub open spec fn le_word(b: Seq<u8>, s: int) -> u32 {
    (b[s] as u32) | ((b[s + 1] as u32) << 8u32) | ((b[s + 2] as u32) << 16u32) | ((b[s + 3] as u32) << 24u32)
}

/// Where chunk `k` of a data phase begins: where chunk `k - 1` ended.
pub open spec fn chunk_start(ends: Seq<int>, k: int) -> int {
    if k == 0 {
        0
    } else {
        ends[k - 1]
    }
}

/// `t` begins with `ends.len()` chunks, chunk `k` ending before `ends[k]`:
/// each is a successful wait on `flags` and one access of the data port, the
/// event at `ends[k] - 1`.
#[verifier::opaque]
pub open spec fn is_chunks(t: Seq<Event>, ends: Seq<int>, flags: u32, limit: u64) -> bool {
    forall|k: int|
        0 <= k < ends.len() ==> {
            &&& 0 <= chunk_start(ends, k)
            &&& chunk_start(ends, k) + 2 < #[trigger] ends[k] <= t.len()
            &&& is_wait(t.subrange(chunk_start(ends, k), ends[k] - 1), flags, limit, Ok(()))
        }
}

/// `t` is a data phase of `words` words on `flags` that ended with `r`: all
/// of them on success; else fewer, and then a wait that failed with `r`.
pub open spec fn is_data_phase(
    t: Seq<Event>,
    ends: Seq<int>,
    flags: u32,
    limit: u64,
    words: int,
    r: Result<(), TransportError>,
) -> bool {
    &&& is_chunks(t, ends, flags, limit)
    &&& r is Ok ==> ends.len() == words && chunk_start(ends, ends.len() as int) == t.len()
    &&& r is Err ==> ends.len() < words && chunk_start(ends, ends.len() as int) <= t.len()
        && is_wait(t.skip(chunk_start(ends, ends.len() as int)), flags, limit, r)
}

/// Each chunk of `t` that ends at `ends` reads the data port, and `buf` holds
/// the bytes of the word that chunk `k` read at `4 * k`, least significant
/// first.
#[verifier::opaque]
pub open spec fn words_read(t: Seq<Event>, ends: Seq<int>, buf: Seq<u8>) -> bool {
    forall|k: int|
        0 <= k < ends.len() ==> {
            &&& is_read_of(t[#[trigger] ends[k] - 1], Reg::DataBuffAccPort)
            &&& buf.subrange(4 * k, 4 * k + 4) == le_bytes(value_of(t[ends[k] - 1]))
        }
}

/// `t` reads `before.len() / 4` words into a buffer that held `before` and
/// holds `after`, chunks ending at `ends`: each word is read after the buffer
/// read ready flag, and its bytes land least significant first in the next
/// four bytes of the buffer; bytes past the words read stay as they were.
pub open spec fn read_data_with(
    t: Seq<Event>,
    ends: Seq<int>,
    limit: u64,
    before: Seq<u8>,
    after: Seq<u8>,
    r: Result<(), TransportError>,
) -> bool {
    &&& is_data_phase(t, ends, Status::BRR, limit, (before.len() / 4) as int, r)
    &&& after.len() == before.len()
    &&& words_read(t, ends, after)
    &&& forall|i: int| 4 * ends.len() <= i < after.len() ==> after[i] == before[i]
}

/// `t` is a read of the data phase into a buffer from `before` to `after`.
pub open spec fn is_read_data(t: Seq<Event>, limit: u64, before: Seq<u8>, after: Seq<u8>, r: Result<(), TransportError>) -> bool {
    exists|ends: Seq<int>| #[trigger] read_data_with(t, ends, limit, before, after, r)
}

/// `t` writes `data.len() / 4` words from `data`, chunks ending at `ends`:
/// each word, made of the next four bytes least significant first, is
/// written after the buffer write ready flag.
pub open spec fn write_data_with(t: Seq<Event>, ends: Seq<int>, limit: u64, data: Seq<u8>, r: Result<(), TransportError>) -> bool {
    &&& is_data_phase(t, ends, Status::BWR, limit, (data.len() / 4) as int, r)
    &&& words_written(t, ends, data)
}

/// Each chunk `k` of `t` that ends at `ends` writes to the data port the word
/// made of the bytes of `data` at `4 * k`, least significant first.
#[verifier::opaque]
pub open spec fn words_written(t: Seq<Event>, ends: Seq<int>, data: Seq<u8>) -> bool {
    forall|k: int|
        0 <= k < ends.len() ==> t[#[trigger] ends[k] - 1] == Event::Write(
            Reg::DataBuffAccPort,
            le_word(data, 4 * k),
        )
}

/// `t` is a write of the data phase from `data`.
pub open spec fn is_write_data(t: Seq<Event>, limit: u64, data: Seq<u8>, r: Result<(), TransportError>) -> bool {
    exists|ends: Seq<int>| #[trigger] write_data_with(t, ends, limit, data, r)
}

/// Chunks stay chunks as the history grows.
proof fn lemma_chunks_extend(t: Seq<Event>, u: Seq<Event>, ends: Seq<int>, flags: u32, limit: u64)
    requires
        t.is_prefix_of(u),
        is_chunks(t, ends, flags, limit),
    ensures
        is_chunks(u, ends, flags, limit),
        forall|k: int| 0 <= k < ends.len() ==> u[#[trigger] ends[k] - 1] == t[ends[k] - 1],
{
    reveal(is_chunks);
    assert forall|i: int| 0 <= i < t.len() implies u[i] == t[i] by {
        assert(u.subrange(0, t.len() as int)[i] == u[i]);
    }
    assert forall|k: int| 0 <= k < ends.len() implies {
        &&& 0 <= chunk_start(ends, k)
        &&& chunk_start(ends, k) + 2 < #[trigger] ends[k] <= u.len()
        &&& is_wait(u.subrange(chunk_start(ends, k), ends[k] - 1), flags, limit, Ok(()))
    } by {
        assert(u.subrange(chunk_start(ends, k), ends[k] - 1) =~= t.subrange(chunk_start(ends, k), ends[k] - 1));
    }
}

/// A completed chunk extends the chunks.
proof fn lemma_chunks_push(t: Seq<Event>, ends: Seq<int>, w: Seq<Event>, e: Event, flags: u32, limit: u64)
    requires
        is_chunks(t, ends, flags, limit),
        chunk_start(ends, ends.len() as int) == t.len(),
        is_wait(w, flags, limit, Ok(())),
        w.len() >= 2,
    ensures
        is_chunks(t + w.push(e), ends.push((t.len() + w.len() + 1) as int), flags, limit),
        chunk_start(ends.push((t.len() + w.len() + 1) as int), ends.len() + 1 as int) == (t + w.push(e)).len(),
        (t + w.push(e))[(t.len() + w.len()) as int] == e,
        forall|k: int| 0 <= k < ends.len() ==> (t + w.push(e))[#[trigger] ends[k] - 1] == t[ends[k] - 1],
{
    reveal(is_chunks);
    reveal(is_wait);
    let u = t + w.push(e);
    let ends2 = ends.push((t.len() + w.len() + 1) as int);
    assert(t.is_prefix_of(u)) by {
        assert(u.subrange(0, t.len() as int) =~= t);
    }
    lemma_chunks_extend(t, u, ends, flags, limit);
    assert forall|k: int| 0 <= k < ends2.len() implies {
        &&& 0 <= chunk_start(ends2, k)
        &&& chunk_start(ends2, k) + 2 < #[trigger] ends2[k] <= u.len()
        &&& is_wait(u.subrange(chunk_start(ends2, k), ends2[k] - 1), flags, limit, Ok(()))
    } by {
        if k < ends.len() {
            assert(ends2[k] == ends[k]);
            assert(chunk_start(ends2, k) == chunk_start(ends, k));
        } else {
            assert(u.subrange(chunk_start(ends2, k), ends2[k] - 1) =~= w);
        }
    }
}

/// A failed wait ends a read of the data phase.
proof fn lemma_read_fail(
    t: Seq<Event>,
    w: Seq<Event>,
    ends: Seq<int>,
    limit: u64,
    before: Seq<u8>,
    buf: Seq<u8>,
    r: Result<(), TransportError>,
)
    requires
        is_chunks(t, ends, Status::BRR, limit),
        chunk_start(ends, ends.len() as int) == t.len(),
        words_read(t, ends, buf),
        is_wait(w, Status::BRR, limit, r),
        r is Err,
        ends.len() < before.len() / 4,
        buf.len() == before.len(),
        forall|i: int| 4 * ends.len() <= i < buf.len() ==> buf[i] == before[i],
    ensures
        read_data_with(t + w, ends, limit, before, buf, r),
{
    reveal(words_read);
    let u = t + w;
    assert(t.is_prefix_of(u)) by {
        assert(u.subrange(0, t.len() as int) =~= t);
    }
    lemma_chunks_extend(t, u, ends, Status::BRR, limit);
    assert(u.skip(t.len() as int) =~= w);
}

/// A failed wait ends a write of the data phase.
proof fn lemma_write_fail(
    t: Seq<Event>,
    w: Seq<Event>,
    ends: Seq<int>,
    limit: u64,
    data: Seq<u8>,
    r: Result<(), TransportError>,
)
    requires
        is_chunks(t, ends, Status::BWR, limit),
        chunk_start(ends, ends.len() as int) == t.len(),
        words_written(t, ends, data),
        is_wait(w, Status::BWR, limit, r),
        r is Err,
        ends.len() < data.len() / 4,
    ensures
        write_data_with(t + w, ends, limit, data, r),
{
    reveal(words_written);
    let u = t + w;
    assert(t.is_prefix_of(u)) by {
        assert(u.subrange(0, t.len() as int) =~= t);
    }
    lemma_chunks_extend(t, u, ends, Status::BWR, limit);
    assert(u.skip(t.len() as int) =~= w);
}

/// One more word written keeps the chunks and the words in step.
proof fn lemma_write_step(t: Seq<Event>, ends: Seq<int>, w: Seq<Event>, limit: u64, data: Seq<u8>)
    requires
        is_chunks(t, ends, Status::BWR, limit),
        chunk_start(ends, ends.len() as int) == t.len(),
        words_written(t, ends, data),
        is_wait(w, Status::BWR, limit, Ok(())),
    ensures
        is_chunks(
            t + w.push(Event::Write(Reg::DataBuffAccPort, le_word(data, 4 * ends.len() as int))),
            ends.push((t.len() + w.len() + 1) as int),
            Status::BWR,
            limit,
        ),
        chunk_start(ends.push((t.len() + w.len() + 1) as int), ends.len() + 1 as int) == (t + w.push(
            Event::Write(Reg::DataBuffAccPort, le_word(data, 4 * ends.len() as int)),
        )).len(),
        words_written(
            t + w.push(Event::Write(Reg::DataBuffAccPort, le_word(data, 4 * ends.len() as int))),
            ends.push((t.len() + w.len() + 1) as int),
            data,
        ),
{
    reveal(words_written);
    reveal(is_wait);
    let e = Event::Write(Reg::DataBuffAccPort, le_word(data, 4 * ends.len() as int));
    let t1 = t + w.push(e);
    let ends1 = ends.push((t.len() + w.len() + 1) as int);
    assert(w.len() >= 2);
    lemma_chunks_push(t, ends, w, e, Status::BWR, limit);
    assert forall|j: int| 0 <= j < ends1.len() implies t1[#[trigger] ends1[j] - 1] == Event::Write(
        Reg::DataBuffAccPort,
        le_word(data, 4 * j),
    ) by {
        if j < ends.len() {
            assert(ends1[j] == ends[j]);
        }
    }
}

/// One more word read keeps the chunks and the bytes in step.
proof fn lemma_read_step(
    t: Seq<Event>,
    ends: Seq<int>,
    w: Seq<Event>,
    word: u32,
    limit: u64,
    buf: Seq<u8>,
    buf1: Seq<u8>,
)
    requires
        is_chunks(t, ends, Status::BRR, limit),
        chunk_start(ends, ends.len() as int) == t.len(),
        words_read(t, ends, buf),
        is_wait(w, Status::BRR, limit, Ok(())),
        4 * ends.len() + 4 <= buf.len(),
        buf1.len() == buf.len(),
        buf1.subrange(4 * ends.len() as int, 4 * ends.len() + 4 as int) == le_bytes(word),
        forall|i: int| 0 <= i < 4 * ends.len() ==> buf1[i] == buf[i],
    ensures
        is_chunks(
            t + w.push(Event::Read(Reg::DataBuffAccPort, word)),
            ends.push((t.len() + w.len() + 1) as int),
            Status::BRR,
            limit,
        ),
        chunk_start(ends.push((t.len() + w.len() + 1) as int), ends.len() + 1 as int) == (t + w.push(
            Event::Read(Reg::DataBuffAccPort, word),
        )).len(),
        words_read(
            t + w.push(Event::Read(Reg::DataBuffAccPort, word)),
            ends.push((t.len() + w.len() + 1) as int),
            buf1,
        ),
{
    reveal(words_read);
    reveal(is_wait);
    let e = Event::Read(Reg::DataBuffAccPort, word);
    let t1 = t + w.push(e);
    let ends1 = ends.push((t.len() + w.len() + 1) as int);
    assert(w.len() >= 2);
    lemma_chunks_push(t, ends, w, e, Status::BRR, limit);
    assert forall|j: int| 0 <= j < ends1.len() implies {
        &&& is_read_of(t1[#[trigger] ends1[j] - 1], Reg::DataBuffAccPort)
        &&& buf1.subrange(4 * j, 4 * j + 4) == le_bytes(value_of(t1[ends1[j] - 1]))
    } by {
        if j < ends.len() {
            assert(ends1[j] == ends[j]);
            assert(buf1.subrange(4 * j, 4 * j + 4) =~= buf.subrange(4 * j, 4 * j + 4));
        }
    }
}

/// Store the bytes of `word`, least significant first, at `at` in `buffer`.
fn store_le(buffer: &mut Vec<u8>, at: usize, word: u32)
    requires
        at + 4 <= old(buffer).len(),
    ensures
        final(buffer)@.len() == old(buffer)@.len(),
        final(buffer)@.subrange(at as int, at + 4) == le_bytes(word),
        forall|i: int|
            0 <= i < old(buffer)@.len() && !(at <= i < at + 4) ==> final(buffer)@[i] == old(buffer)@[i],
{
    buffer[at] = (word & 0xFF) as u8;
    buffer[at + 1] = ((word >> 8u32) & 0xFF) as u8;
    buffer[at + 2] = ((word >> 16u32) & 0xFF) as u8;
    buffer[at + 3] = ((word >> 24u32) & 0xFF) as u8;
    assert(buffer@.subrange(at as int, at + 4) =~= le_bytes(word));
}

impl<R: Registers> Usdhc<R> {
    /// Fill `buffer` from the data port, one word per buffer read ready
    /// flag, each word's bytes least significant first.
    ///
    /// Correct execution depends on the read watermark level being one word.
    pub fn read_into(&mut self, buffer: &mut Vec<u8>) -> (r: Result<(), TransportError>)
        requires
            old(buffer).len() % 4 == 0,
        ensures
            extends(old(self).history(), final(self).history()),
            is_read_data(added(old(self).history(), final(self).history()), old(self).poll_limit(),
                old(buffer)@, final(buffer)@, r),
            final(self).poll_limit() == old(self).poll_limit(),
    {
        let ghost h0 = self.history();
        let ghost limit = self.poll_limit();
        let ghost mut ends: Seq<int> = Seq::empty();
        let n: usize = buffer.len() / 4;
        let mut k: usize = 0;
        proof {
            assert(added(h0, self.history()) =~= Seq::<Event>::empty());
            reveal(is_chunks);
            reveal(words_read);
        }
        while k < n
            invariant
                k <= n,
                n == old(buffer)@.len() / 4,
                buffer@.len() == old(buffer)@.len(),
                old(buffer)@.len() % 4 == 0,
                h0 == old(self).history(),
                limit == old(self).poll_limit(),
                self.poll_limit() == limit,
                extends(h0, self.history()),
                ends.len() == k,
                is_chunks(added(h0, self.history()), ends, Status::BRR, limit),
                chunk_start(ends, k as int) == added(h0, self.history()).len(),
                words_read(added(h0, self.history()), ends, buffer@),
                forall|i: int| 4 * k <= i < buffer@.len() ==> buffer@[i] == old(buffer)@[i],
            decreases n - k,
        {
            let ghost hk = self.history();
            let brr = Status::from_bits_truncate(Status::BRR);
            proof {
                assert(Status::BRR & STATUS_ALL == Status::BRR) by (bit_vector);
            }
            assert(brr@ == Status::BRR);
            let w = self.wait_for(brr);
            let ghost hw = self.history();
            proof {
                lemma_added_chain(h0, hk, hw);
            }
            if w.is_err() {
                proof {
                    lemma_read_fail(added(h0, hk), added(hk, hw), ends, limit, old(buffer)@, buffer@, w);
                }
                return w;
            }
            let word = self.read_data_buffer();
            let ghost old_buf = buffer@;
            let len = buffer.len();
            assert(4 * k + 4 <= len) by (nonlinear_arith)
                requires
                    k < n,
                    n == len / 4,
            ;
            store_le(buffer, 4 * k, word);
            proof {
                assert(Status::BRR & STATUS_ALL == Status::BRR) by (bit_vector);
                let t0 = added(h0, hk);
                let wseg = added(hk, hw);
                assert(w == Ok::<(), TransportError>(())) by {
                    reveal(is_wait);
                }
                let e = Event::Read(Reg::DataBuffAccPort, word);
                lemma_added_chain(h0, hw, self.history());
                assert(added(hw, self.history()) =~= seq![e]);
                assert(added(h0, self.history()) =~= t0 + wseg.push(e));
                lemma_read_step(t0, ends, wseg, word, limit, old_buf, buffer@);
                ends = ends.push((t0.len() + wseg.len() + 1) as int);
            }
            k = k + 1;
        }
        proof {
            assert(read_data_with(added(h0, self.history()), ends, limit, old(buffer)@, buffer@, Ok(())));
        }
        Ok(())
    }

    /// Send `buffer` through the data port, one word per buffer write ready
    /// flag, each word made of four bytes least significant first.
    ///
    /// Correct execution depends on the write watermark level.
    pub fn write_from(&mut self, buffer: &Vec<u8>) -> (r: Result<(), TransportError>)
        requires
            buffer.len() % 4 == 0,
        ensures
            extends(old(self).history(), final(self).history()),
            is_write_data(added(old(self).history(), final(self).history()), old(self).poll_limit(),
                buffer@, r),
            final(self).poll_limit() == old(self).poll_limit(),
    {
        let ghost h0 = self.history();
        let ghost limit = self.poll_limit();
        let ghost mut ends: Seq<int> = Seq::empty();
        let len = buffer.len();
        let n: usize = len / 4;
        let mut k: usize = 0;
        proof {
            assert(added(h0, self.history()) =~= Seq::<Event>::empty());
            reveal(is_chunks);
            reveal(words_written);
        }
        while k < n
            invariant
                k <= n,
                n == len / 4,
                len == buffer@.len(),
                len % 4 == 0,
                h0 == old(self).history(),
                limit == old(self).poll_limit(),
                self.poll_limit() == limit,
                extends(h0, self.history()),
                ends.len() == k,
                is_chunks(added(h0, self.history()), ends, Status::BWR, limit),
                chunk_start(ends, k as int) == added(h0, self.history()).len(),
                words_written(added(h0, self.history()), ends, buffer@),
            decreases n - k,
        {
            let ghost hk = self.history();
            let bwr = Status::from_bits_truncate(Status::BWR);
            proof {
                assert(Status::BWR & STATUS_ALL == Status::BWR) by (bit_vector);
            }
            let w = self.wait_for(bwr);
            let ghost hw = self.history();
            proof {
                lemma_added_chain(h0, hk, hw);
            }
            if w.is_err() {
                proof {
                    lemma_write_fail(added(h0, hk), added(hk, hw), ends, limit, buffer@, w);
                }
                return w;
            }
            assert(4 * k + 4 <= len) by (nonlinear_arith)
                requires
                    k < n,
                    n == len / 4,
            ;
            let at = 4 * k;
            let word = (buffer[at] as u32) | ((buffer[at + 1] as u32) << 8u32) | ((buffer[at + 2] as u32) << 16u32)
                | ((buffer[at + 3] as u32) << 24u32);
            assert(word == le_word(buffer@, 4 * k));
            self.write_data_buffer(word);
            proof {
                let t0 = added(h0, hk);
                let wseg = added(hk, hw);
                assert(w == Ok::<(), TransportError>(())) by {
                    reveal(is_wait);
                }
                let e = Event::Write(Reg::DataBuffAccPort, word);
                lemma_added_chain(h0, hw, self.history());
                assert(added(hw, self.history()) =~= seq![e]);
                assert(added(h0, self.history()) =~= t0 + wseg.push(e));
                lemma_write_step(t0, ends, wseg, limit, buffer@);
                ends = ends.push((t0.len() + wseg.len() + 1) as int);
            }
            k = k + 1;
        }
        proof {
            assert(write_data_with(added(h0, self.history()), ends, limit, buffer@, Ok(())));
        }
        Ok(())
    }
}

} // verus!
