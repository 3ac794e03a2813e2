//! Configuration values of the host controller and their register encodings.
use vstd::prelude::*;

verus! {

/// The size, in bits, for a data transfer.
///
/// This informs how many data pins are used in transfers.
#[derive(Clone, Copy, Debug, PartialEq, Eq, Structural)]
pub enum DataTransferWidth {
    /// 1-bit mode.
    Bit1,
    /// 4-bit mode.
    Bit4,
    /// 8-bit mode.
    Bit8,
}

impl DataTransferWidth {
    /// The encoding in the protocol control register.
    pub open spec fn spec_code(self) -> u32 {
        match self {
            DataTransferWidth::Bit1 => 0,
            DataTransferWidth::Bit4 => 1,
            DataTransferWidth::Bit8 => 2,
        }
    }

    /// The encoding in the protocol control register.
    pub fn code(self) -> (r: u32)
        ensures
            r == self.spec_code(),
    {
        match self {
            DataTransferWidth::Bit1 => 0,
            DataTransferWidth::Bit4 => 1,
            DataTransferWidth::Bit8 => 2,
        }
    }
}

/// The DMA selection, if any.
#[derive(Clone, Copy, Debug, PartialEq, Eq, Structural)]
#[non_exhaustive]
pub enum DmaSelect {
    /// Simple DMA support.
    Simple,
}

impl DmaSelect {
    /// The encoding in the protocol control register.
    pub open spec fn spec_code(self) -> u32 {
        match self {
            DmaSelect::Simple => 0,
        }
    }

    /// The encoding in the protocol control register.
    pub fn code(self) -> (r: u32)
        ensures
            r == self.spec_code(),
    {
        match self {
            DmaSelect::Simple => 0,
        }
    }
}

/// Endianness for the data transfer.
///
/// Describes the types of byte swaps that occur when interfacing the internal
/// data buffer. A "word" is 32 bits.
#[derive(Clone, Copy, Debug, PartialEq, Eq, Structural)]
pub enum EndianMode {
    /// Big endian: swap all bytes in the data word.
    BigEndian,
    /// Swap the half words of a big endian word.
    HalwordBigEndian,
    /// Little endian, the default behavior: no swapping.
    LittleEndian,
}

impl Default for EndianMode {
    fn default() -> (r: EndianMode)
        ensures
            r == EndianMode::LittleEndian,
    {
        EndianMode::LittleEndian
    }
}

impl EndianMode {
    /// The encoding in the protocol control register.
    pub open spec fn spec_code(self) -> u32 {
        match self {
            EndianMode::BigEndian => 0,
            EndianMode::HalwordBigEndian => 1,
            EndianMode::LittleEndian => 2,
        }
    }

    /// The encoding in the protocol control register.
    pub fn code(self) -> (r: u32)
        ensures
            r == self.spec_code(),
    {
        match self {
            EndianMode::BigEndian => 0,
            EndianMode::HalwordBigEndian => 1,
            EndianMode::LittleEndian => 2,
        }
    }
}

/// Read and write watermark levels.
///
/// "Levels" represent the number of words for DMA operations. The
/// implementation clamps each level to at most 128.
#[derive(Clone, Copy, Debug, PartialEq, Eq, Structural)]
pub struct Watermark {
    /// Number of watermark words for a DMA write.
    pub write_level: u8,
    /// Number of watermark words for a DMA read.
    pub read_level: u8,
}

/// Prescaler selections for single data rate mode.
#[derive(Clone, Copy, Debug, PartialEq, Eq, Structural)]
#[non_exhaustive]
pub enum SDRPrescaler {
    /// Divide by 1: the prescaler is bypassed.
    Divide1,
}

/// Prescaler selections for dual data rate mode.
#[derive(Clone, Copy, Debug, PartialEq, Eq, Structural)]
#[non_exhaustive]
pub enum DDRPrescaler {
    /// Divide by 2.
    Divide2,
}

/// Data rate and prescaler selection.
#[derive(Clone, Copy, Debug, PartialEq, Eq, Structural)]
pub enum DataRate {
    /// Single data rate mode.
    SingleDataRate(SDRPrescaler),
    /// Dual data rate mode.
    DualDataRate(DDRPrescaler),
}

impl DataRate {
    /// The prescaler encoding in the system control register.
    pub open spec fn spec_prescaler(self) -> u32 {
        match self {
            DataRate::SingleDataRate(SDRPrescaler::Divide1) => 0,
            DataRate::DualDataRate(DDRPrescaler::Divide2) => 0,
        }
    }

    /// Whether the mode is dual data rate.
    pub open spec fn spec_is_dual(self) -> bool {
        self is DualDataRate
    }
}

/// Timing parameters.
///
/// Controls the frequency of the CLK line as a function of the input clock
/// frequency, and the data rate.
#[derive(Clone, Copy, Debug, PartialEq, Eq, Structural)]
pub struct Timing {
    /// Internal divisor; the implementation clamps it between 1 and 16.
    pub divisor: u8,
    /// Data rate selection, which also determines the prescaler.
    pub data_rate: DataRate,
}

/// Indicates the direction of the next data transfer.
#[derive(Clone, Copy, Debug, PartialEq, Eq, Structural)]
pub enum DataTransferDirection {
    /// Write data (host to card).
    Write,
    /// Read data (card to host).
    Read,
}

impl DataTransferDirection {
    /// The encoding of the direction bit in the mixer control register.
    pub open spec fn spec_code(self) -> u32 {
        match self {
            DataTransferDirection::Write => 0,
            DataTransferDirection::Read => 1,
        }
    }

    /// The encoding of the direction bit in the mixer control register.
    pub fn code(self) -> (r: u32)
        ensures
            r == self.spec_code(),
    {
        match self {
            DataTransferDirection::Write => 0,
            DataTransferDirection::Read => 1,
        }
    }
}

} // verus!
