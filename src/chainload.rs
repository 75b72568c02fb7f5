//! Framing of a kernel image sent over the serial line for chain-loading: a 4-byte
//! little-endian size, then that many raw bytes, placed from the load address on.

use vstd::prelude::*;

verus! {

/// Where the board's firmware loads a kernel, and where a chain-loaded one is placed.
pub const BOARD_DEFAULT_LOAD_ADDRESS: usize = 0x8_0000;

/// The value of four bytes read as a little-endian 32-bit integer.
pub open spec fn le_u32(b0: u8, b1: u8, b2: u8, b3: u8) -> int {
    b0 as int + b1 as int * 0x100 + b2 as int * 0x1_0000 + b3 as int * 0x100_0000
}

/// The size announced by the first four bytes of `input`.
pub open spec fn announced_size(input: Seq<u8>) -> int {
    le_u32(input[0], input[1], input[2], input[3])
}

/// Reads the size prefix from the first four bytes of `header`.
pub fn decode_size(header: &[u8]) -> (r: u32)
    requires
        header@.len() >= 4,
    ensures
        r == announced_size(header@),
{
    let b0 = header[0] as u32;
    let b1 = header[1] as u32;
    let b2 = header[2] as u32;
    let b3 = header[3] as u32;
    b0 + b1 * 0x100 + b2 * 0x1_0000 + b3 * 0x100_0000
}

/// A received image: its bytes, to be placed from `load_addr` on.
pub struct LoadImage {
    pub load_addr: usize,
    pub payload: Vec<u8>,
}

impl LoadImage {
    /// The address at which byte `k` of the payload is placed.
    pub fn byte_address(&self, k: usize) -> (r: usize)
        requires
            k < self.payload@.len(),
            self.load_addr + self.payload@.len() <= usize::MAX,
        ensures
            r == self.load_addr + k,
    {
        self.load_addr + k
    }
}

/// Why a received stream does not frame an image.
#[derive(Clone, Copy, Debug, PartialEq, Eq, Structural)]
pub enum FramingError {
    /// Fewer than four bytes: the size prefix is incomplete.
    MissingSize,
    /// Fewer payload bytes than the prefix announces.
    TruncatedPayload,
    /// The image would run past the end of the address space.
    ImageTooLarge,
}

/// Splits a received stream into its size prefix and payload, the payload to be placed from
/// `load_addr` on. Bytes after the announced payload are not part of the image.
pub fn parse_chainload_image(input: &[u8], load_addr: usize) -> (r: Result<LoadImage, FramingError>)
    ensures
        input@.len() < 4 ==> r matches Err(FramingError::MissingSize),
        input@.len() >= 4 && input@.len() < 4 + announced_size(input@) ==> r matches Err(
            FramingError::TruncatedPayload,
        ),
        input@.len() >= 4 + announced_size(input@) && load_addr + announced_size(input@)
            > usize::MAX ==> r matches Err(FramingError::ImageTooLarge),
        input@.len() >= 4 + announced_size(input@) && load_addr + announced_size(input@)
            <= usize::MAX ==> (r matches Ok(img) && img.load_addr == load_addr && img.payload@
            == input@.subrange(4, 4 + announced_size(input@))),
{
    if input.len() < 4 {
        return Err(FramingError::MissingSize);
    }
    let size = decode_size(input) as usize;
    if input.len() - 4 < size {
        return Err(FramingError::TruncatedPayload);
    }
    if load_addr > usize::MAX - size {
        return Err(FramingError::ImageTooLarge);
    }
    let mut payload: Vec<u8> = Vec::new();
    let mut k: usize = 0;
    while k < size
        invariant
            size == announced_size(input@),
            4 + size <= input.len(),
            input@.len() == input.len(),
            k <= size,
            payload@ == input@.subrange(4, 4 + k),
        decreases size - k,
    {
        payload.push(input[4 + k]);
        k += 1;
        assert(payload@ =~= input@.subrange(4, 4 + k));
    }
    Ok(LoadImage { load_addr, payload })
}

} // verus!
