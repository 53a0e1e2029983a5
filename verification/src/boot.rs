//! The header of a boot image as the service processor holds it.

use vstd::prelude::*;

verus! {

/// Image boot header
#[derive(Copy, Clone, Debug)]
pub struct BootSpHeader {
    pub magic: u32,
    pub version: u32,
    pub flags: u64,
    pub data_size: u64,
    pub image_size: u64,
    pub target_size: u64,
    pub sha256: [u8; 32],
    pub dataset: [u8; 128],
    pub imagename: [u8; 128],
}

impl BootSpHeader {
    /// The value of `magic` in a valid header.
    pub const MAGIC: u32 = 0x1DEB0075;

    /// The version of the header that is described here.
    pub const VERSION: u32 = 2;

    /// The size of the header: the image data follows at this offset.
    pub const HEADER_SIZE: usize = 0x1000;

    /// The flag that marks the image data as compressed.
    pub const FLAG_COMPRESSED: u32 = 0x1;
}

} // verus!
