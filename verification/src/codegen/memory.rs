//! Pages of memory for generated code, from the `memmap` crate.
//!
//! A page is mapped writable, written once, and then made executable; it is
//! not written again after that. The maps are outside types: what they hold
//! is spoken of through [`mapped_bytes`] and [`image_bytes`].

use std::io::Write;
use vstd::prelude::*;

use memmap::{Mmap, MmapMut};

verus! {

#[verifier::external_type_specification]
#[verifier::external_body]
pub struct ExMmapMut(memmap::MmapMut);

#[verifier::external_type_specification]
#[verifier::external_body]
pub struct ExMmap(memmap::Mmap);

#[verifier::external_type_specification]
#[verifier::external_body]
pub struct ExIoError(std::io::Error);

/// The bytes of a writable map.
pub uninterp spec fn mapped_bytes(map: MmapMut) -> Seq<u8>;

/// The bytes of a read-only or executable map.
pub uninterp spec fn image_bytes(map: Mmap) -> Seq<u8>;

/// `MmapMut::map_anon`: an anonymous writable map of `length` bytes.
#[verifier::external_body]
pub(crate) fn map_page(length: usize) -> (page: Result<MmapMut, std::io::Error>)
    ensures
        page matches Ok(map) ==> mapped_bytes(map).len() == length,
{
    MmapMut::map_anon(length)
}

/// The address at which a writable map starts, from `as_ptr` on its bytes.
/// Nothing is known of it beforehand.
#[verifier::external_body]
pub(crate) fn page_address(page: &MmapMut) -> u64 {
    page.as_ptr() as u64
}

/// `write_all` on the bytes of a map: where it succeeds, `bytes` fitted and
/// now stand at the start of the map, and the rest of the map is as it was.
#[verifier::external_body]
pub(crate) fn write_page(page: &mut MmapMut, bytes: &[u8]) -> (outcome: Result<(), std::io::Error>)
    ensures
        mapped_bytes(*final(page)).len() == mapped_bytes(*old(page)).len(),
        outcome is Ok ==> bytes@.len() <= mapped_bytes(*old(page)).len() && mapped_bytes(
            *final(page),
        ) == bytes@ + mapped_bytes(*old(page)).skip(bytes@.len() as int),
{
    (&mut page[..]).write_all(bytes)
}

/// `MmapMut::make_exec`: the map becomes readable and executable, with the
/// bytes it had.
#[verifier::external_body]
pub(crate) fn make_executable(page: MmapMut) -> (image: Result<Mmap, std::io::Error>)
    ensures
        image matches Ok(map) ==> image_bytes(map) == mapped_bytes(page),
{
    page.make_exec()
}

/// The address at which an image starts, from `as_ptr` on its bytes.
/// Nothing is known of it beforehand.
#[verifier::external_body]
pub(crate) fn image_address(image: &Mmap) -> u64 {
    image.as_ptr() as u64
}

/// `len` on the bytes of an image.
#[verifier::external_body]
pub(crate) fn image_length(image: &Mmap) -> (length: usize)
    ensures
        length == image_bytes(*image).len(),
{
    image.len()
}

/// The bytes of an image, by dereferencing the map.
#[verifier::external_body]
pub(crate) fn image_slice(image: &Mmap) -> (bytes: &[u8])
    ensures
        bytes@ == image_bytes(*image),
{
    &image[..]
}

} // verus!
