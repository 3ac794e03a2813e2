//! Counting accesses in a history, and how many of them a data phase makes.
use vstd::prelude::*;

use crate::registers::{Event, Reg};
use crate::status::Status;
use crate::data::{
    chunk_start, is_chunks, is_read_data, is_write_data, read_data_with, words_read, words_written,
    write_data_with,
};
use crate::wait::is_wait;
use crate::usdhc::is_read_of;

verus! {

/// Whether `e` is a write to `reg`.
pub open spec fn is_write_to(e: Event, reg: Reg) -> bool {
    match e {
        Event::Write(r, _) => r == reg,
        _ => false,
    }
}

/// How many reads of `reg` the history `t` holds.
pub open spec fn reads_of(t: Seq<Event>, reg: Reg) -> nat
    decreases t.len(),
{
    if t.len() == 0 {
        0
    } else {
        reads_of(t.drop_last(), reg) + if is_read_of(t.last(), reg) { 1nat } else { 0nat }
    }
}

/// How many writes to `reg` the history `t` holds.
pub open spec fn writes_to(t: Seq<Event>, reg: Reg) -> nat
    decreases t.len(),
{
    if t.len() == 0 {
        0
    } else {
        writes_to(t.drop_last(), reg) + if is_write_to(t.last(), reg) { 1nat } else { 0nat }
    }
}

/// How many times the event `e` occurs in the history `t`.
pub open spec fn occurrences(t: Seq<Event>, e: Event) -> nat
    decreases t.len(),
{
    if t.len() == 0 {
        0
    } else {
        occurrences(t.drop_last(), e) + if t.last() == e { 1nat } else { 0nat }
    }
}

/// The counts of two histories one after the other add up.
proof fn lemma_counts_concat(a: Seq<Event>, b: Seq<Event>, reg: Reg, e: Event)
    ensures
        reads_of(a + b, reg) == reads_of(a, reg) + reads_of(b, reg),
        writes_to(a + b, reg) == writes_to(a, reg) + writes_to(b, reg),
        occurrences(a + b, e) == occurrences(a, e) + occurrences(b, e),
    decreases b.len(),
{
    if b.len() == 0 {
        assert(a + b =~= a);
    } else {
        lemma_counts_concat(a, b.drop_last(), reg, e);
        assert((a + b).drop_last() =~= a + b.drop_last());
    }
}

/// A run of status reads holds no access of another register, and no write.
proof fn lemma_counts_status_reads(t: Seq<Event>, reg: Reg, e: Event)
    requires
        reg != Reg::IntStatus,
        e is Write,
        forall|i: int| 0 <= i < t.len() ==> is_read_of(#[trigger] t[i], Reg::IntStatus),
    ensures
        reads_of(t, reg) == 0,
        writes_to(t, reg) == 0,
        occurrences(t, e) == 0,
    decreases t.len(),
{
    if t.len() > 0 {
        lemma_counts_status_reads(t.drop_last(), reg, e);
        assert(is_read_of(t[t.len() - 1], Reg::IntStatus));
    }
}

/// A successful wait on `flags` accesses no other register than the status,
/// and clears the flags once.
proof fn lemma_wait_counts(w: Seq<Event>, flags: u32, limit: u64)
    requires
        is_wait(w, flags, limit, Ok(())),
    ensures
        reads_of(w, Reg::DataBuffAccPort) == 0,
        writes_to(w, Reg::DataBuffAccPort) == 0,
        occurrences(w, Event::Write(Reg::IntStatus, flags)) == 1,
{
    reveal(is_wait);
    let e = Event::Write(Reg::IntStatus, flags);
    let p = w.drop_last();
    assert forall|i: int| 0 <= i < p.len() implies is_read_of(#[trigger] p[i], Reg::IntStatus) by {
        assert(p[i] == w[i]);
    }
    lemma_counts_status_reads(p, Reg::DataBuffAccPort, e);
}

/// The first `k` chunks of a data phase read (or write) the data port once
/// each and clear the flags once each.
proof fn lemma_chunk_counts(t: Seq<Event>, ends: Seq<int>, flags: u32, limit: u64, reading: bool, k: int)
    requires
        is_chunks(t, ends, flags, limit),
        0 <= k <= ends.len(),
        forall|j: int|
            0 <= j < ends.len() ==> if reading {
                is_read_of(t[#[trigger] ends[j] - 1], Reg::DataBuffAccPort)
            } else {
                is_write_to(t[#[trigger] ends[j] - 1], Reg::DataBuffAccPort)
            },
    ensures
        0 <= chunk_start(ends, k) <= t.len(),
        reads_of(t.take(chunk_start(ends, k)), Reg::DataBuffAccPort) == if reading { k } else { 0 },
        writes_to(t.take(chunk_start(ends, k)), Reg::DataBuffAccPort) == if reading { 0 } else { k },
        occurrences(t.take(chunk_start(ends, k)), Event::Write(Reg::IntStatus, flags)) == k,
    decreases k,
{
    reveal(is_chunks);
    let e = Event::Write(Reg::IntStatus, flags);
    if k == 0 {
        assert(t.take(0) =~= Seq::<Event>::empty());
    } else {
        lemma_chunk_counts(t, ends, flags, limit, reading, k - 1);
        let s = chunk_start(ends, k - 1);
        let end = ends[k - 1];
        let w = t.subrange(s, end - 1);
        let last = seq![t[end - 1]];
        assert(t.take(end) =~= t.take(s) + w + last);
        lemma_wait_counts(w, flags, limit);
        lemma_counts_concat(t.take(s), w, Reg::DataBuffAccPort, e);
        lemma_counts_concat(t.take(s) + w, last, Reg::DataBuffAccPort, e);
        assert(last.drop_last() =~= Seq::<Event>::empty());
        assert(reads_of(last.drop_last(), Reg::DataBuffAccPort) == 0);
        assert(writes_to(last.drop_last(), Reg::DataBuffAccPort) == 0);
        assert(occurrences(last.drop_last(), e) == 0);
        if reading {
            assert(is_read_of(t[ends[k - 1] - 1], Reg::DataBuffAccPort));
        } else {
            assert(is_write_to(t[ends[k - 1] - 1], Reg::DataBuffAccPort));
        }
    }
}

/// A read of the data phase that succeeds waits for the buffer read ready
/// flag and clears it once per word, reads the data port once per word, and
/// writes the data port never.
pub proof fn lemma_read_data_counts(t: Seq<Event>, limit: u64, before: Seq<u8>, after: Seq<u8>)
    requires
        is_read_data(t, limit, before, after, Ok(())),
    ensures
        reads_of(t, Reg::DataBuffAccPort) == before.len() / 4,
        writes_to(t, Reg::DataBuffAccPort) == 0,
        occurrences(t, Event::Write(Reg::IntStatus, Status::BRR)) == before.len() / 4,
{
    let ends = choose|ends: Seq<int>| read_data_with(t, ends, limit, before, after, Ok(()));
    reveal(words_read);
    lemma_chunk_counts(t, ends, Status::BRR, limit, true, ends.len() as int);
    assert(t.take(t.len() as int) =~= t);
}

/// A write of the data phase that succeeds waits for the buffer write ready
/// flag and clears it once per word, writes the data port once per word, and
/// reads the data port never.
pub proof fn lemma_write_data_counts(t: Seq<Event>, limit: u64, data: Seq<u8>)
    requires
        is_write_data(t, limit, data, Ok(())),
    ensures
        writes_to(t, Reg::DataBuffAccPort) == data.len() / 4,
        reads_of(t, Reg::DataBuffAccPort) == 0,
        occurrences(t, Event::Write(Reg::IntStatus, Status::BWR)) == data.len() / 4,
{
    let ends = choose|ends: Seq<int>| write_data_with(t, ends, limit, data, Ok(()));
    reveal(words_written);
    lemma_chunk_counts(t, ends, Status::BWR, limit, false, ends.len() as int);
    assert(t.take(t.len() as int) =~= t);
}

} // verus!
