//! Where the parts of an executable image lie.
//!
//! An image starts with a header of 64 bytes: its first field is the mark
//! `MZ`, its last gives the place of the main headers. These hold the
//! number of sections, the size of the optional header, and in the optional
//! header the address of the resource directory. After the optional header
//! stands the section table: 40 bytes per section, with the section's
//! address and size in the loaded image and the place and size of its bytes
//! in the file. All fields stand least significant byte first.
//!
//! The sections and the resource directory are read in place, as records of
//! four-byte fields, by a reader that takes each field as the machine reads
//! its own integers. That is sound only where the records start at a
//! multiple of four: this module tells whether they do. It reads the fields
//! least significant byte first. A reader on a machine of the other byte
//! order sees other fields, but it accepts no image that bears the mark as
//! this module asks for it.

use crate::wire::{le_value, read_u32_le};
use vstd::prelude::*;

verus! {

/// The two-byte field of `image` at `at`.
pub open spec fn u16_at(image: Seq<u8>, at: int) -> int {
    image[at] as int + 0x100 * (image[at + 1] as int)
}

/// The four-byte field of `image` at `at`.
pub open spec fn u32_at(image: Seq<u8>, at: int) -> int {
    le_value(image.subrange(at, at + 4))
}

/// The mark at the head of an image: `MZ`, least significant byte first.
pub const IMAGE_MARK: u16 = 0x5A4D;

/// The place of the main headers.
pub open spec fn headers_at(image: Seq<u8>) -> int {
    u32_at(image, 60)
}

/// The number of sections.
pub open spec fn section_count(image: Seq<u8>) -> int {
    u16_at(image, headers_at(image) + 6)
}

/// The size of the optional header.
pub open spec fn optional_header_size(image: Seq<u8>) -> int {
    u16_at(image, headers_at(image) + 20)
}

/// The address of the resource directory in the loaded image: the third
/// entry of the data directory of a 32-bit optional header.
pub open spec fn directory_address(image: Seq<u8>) -> int {
    u32_at(image, headers_at(image) + 136)
}

/// The place of the section table: after the optional header.
pub open spec fn section_table_at(image: Seq<u8>) -> int {
    headers_at(image) + 24 + optional_header_size(image)
}

/// The place of the entry of section `i` in the section table.
pub open spec fn section_at(image: Seq<u8>, i: int) -> int {
    section_table_at(image) + 40 * i
}

/// Whether the section whose entry stands at `at` holds `address`: the
/// section starts at or before it and ends after it, where the end is the
/// start plus the larger of the section's two sizes, cut to four bytes.
pub open spec fn section_holds(image: Seq<u8>, at: int, address: int) -> bool {
    let start = u32_at(image, at + 12);
    let loaded_size = u32_at(image, at + 8);
    let file_size = u32_at(image, at + 16);
    let size = if loaded_size > file_size {
        loaded_size
    } else {
        file_size
    };
    start <= address && address < (start + size) % 0x1_0000_0000
}

/// The place in the file of `address`, taken as lying in the section whose
/// entry stands at `at`.
pub open spec fn file_offset_in(image: Seq<u8>, at: int, address: int) -> int {
    u32_at(image, at + 20) + (address - u32_at(image, at + 12))
}

/// Whether `address` starts at a multiple of four in the file, should the
/// section whose entry stands at `at` hold it.
pub open spec fn aligned_in(image: Seq<u8>, at: int, address: int) -> bool {
    section_holds(image, at, address) ==> file_offset_in(image, at, address) % 4 == 0
}

/// Whether the section table and the resource directory of `image` can be
/// read in place: the image bears the mark, the fields that tell where the
/// two lie are there, the section table lies in the image and starts at a
/// multiple of four after the optional header, and in every section that
/// holds the resource directory's address the directory starts at a
/// multiple of four.
pub open spec fn sound_layout(image: Seq<u8>) -> bool {
    &&& image.len() >= 64
    &&& u16_at(image, 0) == IMAGE_MARK
    &&& headers_at(image) + 144 <= image.len()
    &&& optional_header_size(image) % 4 == 0
    &&& section_table_at(image) + 40 * section_count(image) <= image.len()
    &&& forall|i: int|
        0 <= i < section_count(image) ==> aligned_in(
            image,
            #[trigger] section_at(image, i),
            directory_address(image),
        )
}

/// Reads the two bytes of `buf` from `at` on, least significant byte first.
pub fn read_u16_le(buf: &[u8], at: usize) -> (r: u16)
    requires
        at + 2 <= buf@.len(),
    ensures
        r == u16_at(buf@, at as int),
{
    let b0: u16 = buf[at] as u16;
    let b1: u16 = buf[at + 1] as u16;
    b0 + 0x100 * b1
}

/// Tells whether `address` starts at a multiple of four in the file, should
/// the section whose entry stands at `at` hold it.
pub fn is_aligned_in(image: &[u8], at: usize, address: u32) -> (r: bool)
    requires
        at + 40 <= image@.len(),
    ensures
        r == aligned_in(image@, at as int, address as int),
{
    assert(image@.len() == image.len());
    let loaded_size: u32 = read_u32_le(image, at + 8);
    let start: u32 = read_u32_le(image, at + 12);
    let file_size: u32 = read_u32_le(image, at + 16);
    let place: u32 = read_u32_le(image, at + 20);
    let size: u32 = if loaded_size > file_size {
        loaded_size
    } else {
        file_size
    };
    if start <= address && address < start.wrapping_add(size) {
        let offset: u64 = place as u64 + (address - start) as u64;
        offset % 4 == 0
    } else {
        true
    }
}

/// Tells whether the section table and the resource directory of `image`
/// can be read in place.
pub fn has_sound_layout(image: &[u8]) -> (r: bool)
    ensures
        r == sound_layout(image@),
{
    let len: usize = image.len();
    if len < 64 || read_u16_le(image, 0) != IMAGE_MARK {
        return false;
    }
    let headers: u64 = read_u32_le(image, 60) as u64;
    if headers + 144 > len as u64 {
        return false;
    }
    let headers: usize = headers as usize;
    let size: u16 = read_u16_le(image, headers + 20);
    if size % 4 != 0 {
        return false;
    }
    let count: u16 = read_u16_le(image, headers + 6);
    let table: u64 = headers as u64 + 24 + size as u64;
    if table + 40 * (count as u64) > len as u64 {
        return false;
    }
    let table: usize = table as usize;
    let address: u32 = read_u32_le(image, headers + 136);
    let mut i: usize = 0;
    while i < count as usize
        invariant
            i <= count,
            len == image@.len(),
            count == section_count(image@),
            table == section_table_at(image@),
            address == directory_address(image@),
            table + 40 * count <= len,
            forall|j: int|
                0 <= j < i ==> aligned_in(
                    image@,
                    #[trigger] section_at(image@, j),
                    address as int,
                ),
        decreases count - i,
    {
        if !is_aligned_in(image, table + 40 * i, address) {
            assert(!aligned_in(image@, section_at(image@, i as int), address as int));
            return false;
        }
        i = i + 1;
    }
    true
}

} // verus!
