//! Interrupt-status and present-state flags, and the classification of
//! error conditions into transport errors.
use vstd::prelude::*;

verus! {

/// Every flag that the interrupt-status register can report.
pub const STATUS_ALL: u32 = 0x157F_51FF;

/// The flags of the interrupt-status register that signal an error.
pub const STATUS_ERRORS: u32 = 0x157F_0000;

/// Every flag that the present-state register can report.
pub const PRESENT_STATE_ALL: u32 = 0x008D_9C8F;

/// Status and interrupt flags.
///
/// A set of flags over the interrupt-status register; only the flags in
/// [`STATUS_ALL`] can be members.
#[derive(Clone, Copy, Debug, PartialEq, Eq, Structural)]
pub struct Status {
    bits: u32,
}

impl View for Status {
    type V = u32;

    /// The raw bits of the set; never outside [`STATUS_ALL`].
    closed spec fn view(&self) -> u32 {
        self.bits
    }
}

/// Whether any of the error flags is present in `bits`.
pub open spec fn status_is_error(bits: u32) -> bool {
    bits & STATUS_ERRORS != 0
}

impl Status {
    /// An internal DMA transfer has failed.
    pub const DMAE: u32 = 0x10000000;
    /// A tuning error occurred.
    pub const TNE: u32 = 0x4000000;
    /// Auto CMD12 error.
    pub const AC12E: u32 = 0x1000000;
    /// Data end bit error.
    pub const DEBE: u32 = 0x400000;
    /// Data CRC error.
    pub const DCE: u32 = 0x200000;
    /// Data timeout error.
    pub const DTOE: u32 = 0x100000;
    /// Command index error.
    pub const CIE: u32 = 0x80000;
    /// Command end bit error.
    pub const CEBE: u32 = 0x40000;
    /// Command CRC error.
    pub const CCE: u32 = 0x20000;
    /// Command timeout error.
    pub const CTOE: u32 = 0x10000;
    /// Tuning pass.
    pub const TP: u32 = 0x4000;
    /// Re-tuning event.
    pub const RTE: u32 = 0x1000;
    /// Card interrupt.
    pub const CINT: u32 = 0x100;
    /// Card removal.
    pub const CRM: u32 = 0x80;
    /// Card insertion.
    pub const CINS: u32 = 0x40;
    /// Buffer read ready.
    pub const BRR: u32 = 0x20;
    /// Buffer write ready.
    pub const BWR: u32 = 0x10;
    /// DMA interrupt.
    pub const DINT: u32 = 0x8;
    /// Block gap event.
    pub const BGE: u32 = 0x4;
    /// Transfer complete.
    pub const TC: u32 = 0x2;
    /// Command complete.
    pub const CC: u32 = 0x1;

    /// The set that holds the known flags of `bits` and drops the others.
    pub fn from_bits_truncate(bits: u32) -> (r: Status)
        ensures
            r@ == bits & STATUS_ALL,
    {
        Status { bits: bits & STATUS_ALL }
    }

    /// The empty set.
    pub fn empty() -> (r: Status)
        ensures
            r@ == 0,
    {
        Status { bits: 0 }
    }

    /// The set of every known flag.
    pub fn all() -> (r: Status)
        ensures
            r@ == STATUS_ALL,
    {
        Status { bits: STATUS_ALL }
    }

    /// The set of the error flags.
    pub fn errors() -> (r: Status)
        ensures
            r@ == STATUS_ERRORS,
    {
        Status { bits: STATUS_ERRORS }
    }

    /// The raw bits of the set.
    pub fn bits(&self) -> (r: u32)
        ensures
            r == self@,
    {
        self.bits
    }

    /// Whether the two sets share a flag.
    pub fn intersects(&self, other: Status) -> (r: bool)
        ensures
            r == (self@ & other@ != 0),
    {
        self.bits & other.bits != 0
    }

    /// Whether every flag of `other` is in this set.
    pub fn contains(&self, other: Status) -> (r: bool)
        ensures
            r == (self@ & other@ == other@),
    {
        self.bits & other.bits == other.bits
    }

    /// The flags that are in either set.
    pub fn union(&self, other: Status) -> (r: Status)
        ensures
            r@ == self@ | other@,
    {
        Status { bits: self.bits | other.bits }
    }

    /// Indicates if any error bit is set.
    pub fn is_error(&self) -> (r: bool)
        ensures
            r == status_is_error(self@),
    {
        self.bits & STATUS_ERRORS != 0
    }
}

/// The error that ends a transport operation.
#[derive(Clone, Copy, Debug, PartialEq, Eq, Structural)]
pub enum TransportError {
    /// The card did not answer the command in time.
    CommandTimeout,
    /// The response carried the wrong command index.
    CommandIndex,
    /// The card did not send or accept data in time.
    DataTimeout,
    /// A CRC check failed on the command or the data line.
    Crc,
    /// An end bit was wrong on the command or the data line.
    Bit,
    /// An error that none of the other kinds describes.
    Uncategorized,
    /// The request asks for something that this host does not do.
    NotSupported,
    /// A flag that the host waited for did not come within the poll limit.
    TimedOut,
}

/// The transport error that a status word with at least one error flag
/// stands for: timeout, then index error, then data timeout, then CRC, then
/// end bit, and anything else is uncategorized.
pub open spec fn classify(bits: u32) -> TransportError {
    if bits & Status::CTOE != 0 {
        TransportError::CommandTimeout
    } else if bits & Status::CIE != 0 {
        TransportError::CommandIndex
    } else if bits & Status::DTOE != 0 {
        TransportError::DataTimeout
    } else if bits & (Status::CCE | Status::DCE) != 0 {
        TransportError::Crc
    } else if bits & (Status::CEBE | Status::DEBE) != 0 {
        TransportError::Bit
    } else {
        TransportError::Uncategorized
    }
}

/// The place of an error kind in the classification order; lower comes
/// first.
pub open spec fn rank(e: TransportError) -> int {
    match e {
        TransportError::CommandTimeout => 0,
        TransportError::CommandIndex => 1,
        TransportError::DataTimeout => 2,
        TransportError::Crc => 3,
        TransportError::Bit => 4,
        _ => 5,
    }
}

/// With the flags of two statuses set together, the classification is
/// whichever of the two statuses' errors comes first in the fixed order:
/// more error flags never demote a higher-priority error.
pub proof fn lemma_classify_union(a: u32, b: u32)
    ensures
        classify(a | b) == if rank(classify(a)) <= rank(classify(b)) {
            classify(a)
        } else {
            classify(b)
        },
{
    assert(((a | b) & 0x10000 != 0) == ((a & 0x10000 != 0) || (b & 0x10000 != 0))) by (bit_vector);
    assert(((a | b) & 0x80000 != 0) == ((a & 0x80000 != 0) || (b & 0x80000 != 0))) by (bit_vector);
    assert(((a | b) & 0x100000 != 0) == ((a & 0x100000 != 0) || (b & 0x100000 != 0))) by (bit_vector);
    assert(((a | b) & 0x220000 != 0) == ((a & 0x220000 != 0) || (b & 0x220000 != 0))) by (bit_vector);
    assert(((a | b) & 0x440000 != 0) == ((a & 0x440000 != 0) || (b & 0x440000 != 0))) by (bit_vector);
    assert(Status::CCE | Status::DCE == 0x220000) by (bit_vector);
    assert(Status::CEBE | Status::DEBE == 0x440000) by (bit_vector);
}

/// The transport error for the error flags of `status`, by fixed priority.
pub fn transport_error(status: Status) -> (r: TransportError)
    ensures
        r == classify(status@),
{
    if status.bits & Status::CTOE != 0 {
        TransportError::CommandTimeout
    } else if status.bits & Status::CIE != 0 {
        TransportError::CommandIndex
    } else if status.bits & Status::DTOE != 0 {
        TransportError::DataTimeout
    } else if status.bits & (Status::CCE | Status::DCE) != 0 {
        TransportError::Crc
    } else if status.bits & (Status::CEBE | Status::DEBE) != 0 {
        TransportError::Bit
    } else {
        TransportError::Uncategorized
    }
}

/// Status flags of the present-state register.
#[derive(Clone, Copy, Debug, PartialEq, Eq, Structural)]
pub struct PresentState {
    bits: u32,
}

impl View for PresentState {
    type V = u32;

    /// The raw bits of the set; never outside [`PRESENT_STATE_ALL`].
    closed spec fn view(&self) -> u32 {
        self.bits
    }
}

impl PresentState {
    /// CMD line signal level.
    pub const CLSL: u32 = 0x800000;
    /// Write protect switch pin level.
    pub const WPSPL: u32 = 0x80000;
    /// Card detect pin level.
    pub const CDPL: u32 = 0x40000;
    /// Card inserted.
    pub const CINST: u32 = 0x10000;
    /// Tap select change done.
    pub const TSCD: u32 = 0x8000;
    /// Re-tuning request.
    pub const RTR: u32 = 0x1000;
    /// Buffer read enable.
    pub const BREN: u32 = 0x800;
    /// Buffer write enable.
    pub const BWEN: u32 = 0x400;
    /// SD clock gated off internally.
    pub const SDOFF: u32 = 0x80;
    /// SD clock stable.
    pub const SDSTB: u32 = 0x8;
    /// Data line active.
    pub const DLA: u32 = 0x4;
    /// Command inhibit data.
    pub const CDIHB: u32 = 0x2;
    /// Command inhibit.
    pub const CIHB: u32 = 0x1;

    /// The set that holds the known flags of `bits` and drops the others.
    pub fn from_bits_truncate(bits: u32) -> (r: PresentState)
        ensures
            r@ == bits & PRESENT_STATE_ALL,
    {
        PresentState { bits: bits & PRESENT_STATE_ALL }
    }

    /// The raw bits of the set.
    pub fn bits(&self) -> (r: u32)
        ensures
            r == self@,
    {
        self.bits
    }

    /// Whether any of the flags in `mask` is present.
    pub fn intersects(&self, mask: u32) -> (r: bool)
        ensures
            r == (self@ & mask != 0),
    {
        self.bits & mask != 0
    }
}

} // verus!
