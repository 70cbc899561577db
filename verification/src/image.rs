//! Image source: a byte-addressable view over an application image,
//! addressed relative to the start of the app flash area. Bytes beyond
//! the image length read as the erased-flash fill 0xFF.

use vstd::prelude::*;

use crate::msg::spec_word_from_bytes;

verus! {

/// Byte value of erased flash; pages beyond the image are treated as this
/// fill.
pub const FLASH_FILL: u8 = 0xFF;

/// A contiguous application image with a known length in bytes. Byte `i`
/// of the image maps to byte `i` of the app flash area; reads past the
/// end give the erased-flash fill.
pub struct AppImage {
    bytes: Vec<u8>,
}

impl AppImage {
    /// Length of the image in bytes.
    pub closed spec fn spec_len(self) -> nat {
        self.bytes@.len()
    }

    /// Byte `i` of the image, with fill past the end.
    pub closed spec fn spec_byte(self, i: int) -> u8 {
        if 0 <= i < self.bytes@.len() {
            self.bytes@[i]
        } else {
            FLASH_FILL
        }
    }

    /// The first `total` bytes the image maps onto the app area: the image
    /// itself, then fill.
    pub open spec fn spec_padded(self, total: nat) -> Seq<u8> {
        Seq::new(total, |i: int| self.spec_byte(i))
    }

    /// Wrap a byte vector as an application image.
    pub fn from_bytes(bytes: Vec<u8>) -> (r: AppImage)
        ensures
            r.spec_len() == bytes@.len(),
            forall|i: int| 0 <= i < bytes@.len() ==> r.spec_byte(i) == bytes@[i],
    {
        AppImage { bytes }
    }

    /// Total image length in bytes.
    pub fn len_bytes(&self) -> (r: usize)
        ensures
            r == self.spec_len(),
    {
        self.bytes.len()
    }

    /// Byte at offset `i`, with fill past the end.
    pub fn byte_at(&self, i: usize) -> (r: u8)
        ensures
            r == self.spec_byte(i as int),
    {
        if i < self.bytes.len() {
            self.bytes[i]
        } else {
            FLASH_FILL
        }
    }

    /// 32-bit word at a 4-aligned byte offset, read LSB-first, with fill
    /// past the end of the image.
    pub fn word_at(&self, offset: usize) -> (r: u32)
        requires
            offset % 4 == 0,
            offset + 3 <= usize::MAX,
        ensures
            r == spec_word_from_bytes(
                self.spec_byte(offset as int),
                self.spec_byte(offset + 1),
                self.spec_byte(offset + 2),
                self.spec_byte(offset + 3),
            ),
    {
        let b0 = self.byte_at(offset);
        let b1 = self.byte_at(offset + 1);
        let b2 = self.byte_at(offset + 2);
        let b3 = self.byte_at(offset + 3);
        (b0 as u32) | ((b1 as u32) << 8) | ((b2 as u32) << 16) | ((b3 as u32) << 24)
    }

    /// The `page_size` bytes the image maps onto the page starting at app
    /// area offset `base`, with fill past the end of the image.
    pub fn page_bytes(&self, base: usize, page_size: usize) -> (r: Vec<u8>)
        requires
            base + page_size <= usize::MAX,
        ensures
            r@.len() == page_size,
            forall|i: int| 0 <= i < page_size ==> r@[i] == self.spec_byte(base + i),
    {
        let mut v: Vec<u8> = Vec::new();
        let mut i: usize = 0;
        while i < page_size
            invariant
                base + page_size <= usize::MAX,
                i <= page_size,
                v@.len() == i,
                forall|j: int| 0 <= j < i ==> v@[j] == self.spec_byte(base + j),
            decreases page_size - i,
        {
            v.push(self.byte_at(base + i));
            i = i + 1;
        }
        v
    }

    /// The whole padded app area of `total` bytes: the image, then fill.
    pub fn padded_bytes(&self, total: usize) -> (r: Vec<u8>)
        ensures
            r@ =~= self.spec_padded(total as nat),
    {
        let mut v: Vec<u8> = Vec::new();
        let mut i: usize = 0;
        while i < total
            invariant
                i <= total,
                v@.len() == i,
                forall|j: int| 0 <= j < i ==> v@[j] == self.spec_byte(j),
            decreases total - i,
        {
            v.push(self.byte_at(i));
            i = i + 1;
        }
        v
    }
}

/// Whether any byte of `v` differs from the erased-flash fill.
pub fn has_non_fill(v: &Vec<u8>) -> (r: bool)
    ensures
        r == exists|i: int| 0 <= i < v@.len() && v@[i] != FLASH_FILL,
{
    let mut i: usize = 0;
    while i < v.len()
        invariant
            i <= v@.len(),
            forall|j: int| 0 <= j < i ==> v@[j] == FLASH_FILL,
        decreases v@.len() - i,
    {
        if v[i] != FLASH_FILL {
            return true;
        }
        i = i + 1;
    }
    false
}

/// Every byte the image maps past its own length is the erased-flash
/// fill: a shorter image is padded with 0xFF up to the area it is written
/// into.
pub proof fn lemma_padding_beyond_image(img: AppImage, total: nat, i: int)
    requires
        img.spec_len() <= i < total,
    ensures
        img.spec_padded(total)[i] == FLASH_FILL,
{
}

} // verus!
