//! From the resources of an image to the trainer definition.
//!
//! The archive resource either is the obfuscated payload (direct mode) or
//! holds a container with the payload among its files (container mode);
//! which of the two, the presence of a second resource tells. The payload is
//! deobfuscated, its signature is checked, the rest is expanded, and a
//! header in front of the expanded definition is dropped.

use crate::cearchive::{
    archive_result, container_with_count, count_read, first_named_from, CEArchive,
    CountFieldEndianness, FileModel,
};
use crate::codec::{deobfuscate, deobfuscated};
use crate::decompress::{bytes_result, decompress, decompressed};
use crate::errors::UnpackError;
use crate::image::sound_layout;
use crate::resources::{
    image_directory, looked_up, NameModel, ResourceLocator, ResourceName, RT_RCDATA,
};
use crate::wire::{le_value, lemma_le_value_fits};
use vstd::prelude::*;
use vstd::slice::{slice_subrange, slice_to_vec};
use vstd::string::StringExecFns;

verus! {

/// Name of the resource that holds the payload or the container.
pub const ARCHIVE_NAME: &'static str = "ARCHIVE";

/// Name of the resource whose presence tells that the archive resource is a
/// container.
pub const DECOMPRESSOR_NAME: &'static str = "DECOMPRESSOR";

/// What the name of the input file is followed by in the name of the output.
pub const OUTPUT_SUFFIX: &'static str = ".xml";

/// Name of the container's file that holds the trainer definition.
pub const TRAINER_FILE: &'static str = "CET_TRAINER.CETRAINER";

/// The signature at the head of a deobfuscated payload: `CHEAT` in ASCII.
pub const TRAINER_MAGIC: [u8; 5] = [0x43, 0x48, 0x45, 0x41, 0x54];

/// Number of bytes that were seen in front of the expanded definition of
/// the one known producer. Why they are there is not known.
pub const OBSERVED_HEADER_SKIP: usize = 4;

/// How the archive resource holds the payload.
#[derive(Debug, Clone, Copy, PartialEq, Eq, Structural)]
pub enum Mode {
    /// The archive resource is the payload.
    Direct,
    /// The archive resource is a container; one of its files is the payload.
    Container,
}

/// What an extraction leaves open: the byte order of the container's file
/// count, and the number of bytes to drop in front of the expanded
/// definition.
#[derive(Debug, Clone, Copy)]
pub struct ExtractOptions {
    pub count_order: CountFieldEndianness,
    pub header_skip: usize,
}

/// The mode that goes with the presence of the second resource.
pub open spec fn mode_for(decompressor_present: bool) -> Mode {
    if decompressor_present {
        Mode::Container
    } else {
        Mode::Direct
    }
}

/// The payload among `files`: the bytes of the first file called
/// `TRAINER_FILE`.
pub open spec fn trainer_payload(files: Seq<FileModel>) -> Result<Seq<u8>, UnpackError> {
    match first_named_from(files, TRAINER_FILE@, 0) {
        Some(i) => Ok(files[i].data),
        None => Err(UnpackError::InvalidArchive),
    }
}

/// The payload that the archive resource `archive` holds in mode `mode`,
/// where the head of a container gives `count` files.
pub open spec fn payload_of(mode: Mode, archive: Seq<u8>, count: u32) -> Result<
    Seq<u8>,
    UnpackError,
> {
    match mode {
        Mode::Direct => Ok(archive),
        Mode::Container => match container_with_count(archive, count) {
            Ok(container) => trainer_payload(container.files),
            Err(e) => Err(e),
        },
    }
}

/// Whether `plain` starts with the signature.
pub open spec fn has_magic(plain: Seq<u8>) -> bool {
    plain.len() >= 5 && plain.take(5) == TRAINER_MAGIC@
}

/// `raw` without its first `skip` bytes. It must have that many.
pub open spec fn without_header(raw: Seq<u8>, skip: int) -> Result<Seq<u8>, UnpackError> {
    if skip <= raw.len() {
        Ok(raw.skip(skip))
    } else {
        Err(UnpackError::MalformedArchive)
    }
}

/// What follows the signature in the obfuscated payload `payload` once it
/// is deobfuscated.
pub open spec fn verified(payload: Seq<u8>) -> Result<Seq<u8>, UnpackError> {
    if has_magic(deobfuscated(payload)) {
        Ok(deobfuscated(payload).skip(5))
    } else {
        Err(UnpackError::BadMagic)
    }
}

/// The definition that the stream `compressed` expands to, with `skip`
/// bytes dropped in front.
pub open spec fn expanded(compressed: Seq<u8>, skip: int) -> Result<Seq<u8>, UnpackError> {
    match decompressed(compressed) {
        Ok(raw) => without_header(raw, skip),
        Err(e) => Err(e),
    }
}

/// The definition that the obfuscated payload `payload` holds, with `skip`
/// bytes dropped in front.
pub open spec fn definition_of(payload: Seq<u8>, skip: int) -> Result<Seq<u8>, UnpackError> {
    match verified(payload) {
        Ok(compressed) => expanded(compressed, skip),
        Err(e) => Err(e),
    }
}

/// The definition that the archive resource `archive` leads to, where the
/// head of a container gives `count` files.
pub open spec fn extraction(
    archive: Seq<u8>,
    decompressor_present: bool,
    skip: int,
    count: u32,
) -> Result<Seq<u8>, UnpackError> {
    match payload_of(mode_for(decompressor_present), archive, count) {
        Ok(payload) => definition_of(payload, skip),
        Err(e) => Err(e),
    }
}

/// The archive resource among what a resource directory holds: the raw
/// data called `ARCHIVE_NAME`.
pub open spec fn located_archive(entries: Map<(u32, NameModel), Seq<u8>>) -> Result<
    Seq<u8>,
    UnpackError,
> {
    looked_up(entries, RT_RCDATA, NameModel::Text(ARCHIVE_NAME@))
}

/// Whether a resource directory holds the second resource: raw data called
/// `DECOMPRESSOR_NAME`.
pub open spec fn decompressor_located(entries: Map<(u32, NameModel), Seq<u8>>) -> bool {
    entries.contains_key((RT_RCDATA, NameModel::Text(DECOMPRESSOR_NAME@)))
}

/// Whether `count` is the number of files that the head of the archive
/// resource among `entries` gives in the byte order `order`.
pub open spec fn located_count_read(
    order: CountFieldEndianness,
    entries: Map<(u32, NameModel), Seq<u8>>,
    count: u32,
) -> bool {
    match located_archive(entries) {
        Ok(archive) => count_read(order, archive, count),
        Err(_) => true,
    }
}

/// The payload that the resources among `entries` hold, where the head of a
/// container gives `count` files: that of the archive resource, in
/// container mode where the second resource is there and in direct mode
/// where it is not. Without the archive resource there is none.
pub open spec fn located_payload(entries: Map<(u32, NameModel), Seq<u8>>, count: u32) -> Result<
    Seq<u8>,
    UnpackError,
> {
    match located_archive(entries) {
        Ok(archive) => payload_of(mode_for(decompressor_located(entries)), archive, count),
        Err(e) => Err(e),
    }
}

/// The definition that the resources among `entries` lead to.
pub open spec fn located_extraction(
    entries: Map<(u32, NameModel), Seq<u8>>,
    skip: int,
    count: u32,
) -> Result<Seq<u8>, UnpackError> {
    match located_payload(entries, count) {
        Ok(payload) => definition_of(payload, skip),
        Err(e) => Err(e),
    }
}

/// Which resource is the payload: without the second resource the archive
/// resource as it is, with it the trainer's file of the container that the
/// archive resource holds.
pub proof fn lemma_mode_selection(archive: Seq<u8>, skip: int, count: u32)
    ensures
        extraction(archive, false, skip, count) == definition_of(archive, skip),
        extraction(archive, true, skip, count) == match container_with_count(archive, count) {
            Ok(container) => match trainer_payload(container.files) {
                Ok(payload) => definition_of(payload, skip),
                Err(e) => Err(e),
            },
            Err(e) => Err(e),
        },
{
}

/// A payload that does not start with the signature once deobfuscated
/// gives `BadMagic`, whatever expanding the rest would give.
pub proof fn lemma_bad_magic(payload: Seq<u8>, skip: int)
    requires
        !has_magic(deobfuscated(payload)),
    ensures
        definition_of(payload, skip) == Err::<Seq<u8>, UnpackError>(UnpackError::BadMagic),
{
}

/// The number of files at the head of `data`, read least significant byte
/// first.
pub open spec fn le_count(data: Seq<u8>) -> u32 {
    le_value(data.take(4)) as u32
}

impl ExtractOptions {
    /// The options that fit the one known producer: the file count least
    /// significant byte first, and `OBSERVED_HEADER_SKIP` bytes dropped.
    pub fn observed() -> (r: ExtractOptions)
        ensures
            r.count_order is LittleEndian,
            r.header_skip == OBSERVED_HEADER_SKIP,
    {
        ExtractOptions {
            count_order: CountFieldEndianness::LittleEndian,
            header_skip: OBSERVED_HEADER_SKIP,
        }
    }
}

/// Container mode where the second resource is present, direct mode where
/// it is not.
pub fn select_mode(decompressor_present: bool) -> (r: Mode)
    ensures
        r == mode_for(decompressor_present),
{
    if decompressor_present {
        Mode::Container
    } else {
        Mode::Direct
    }
}

/// The payload among the files of `archive`. Fails with `InvalidArchive`
/// where no file is called `TRAINER_FILE`.
pub fn select_trainer(archive: &CEArchive) -> (r: Result<Vec<u8>, UnpackError>)
    ensures
        bytes_result(r) == trainer_payload(archive@.files),
{
    match archive.find(TRAINER_FILE) {
        Some(file) => Ok(slice_to_vec(file.data.as_slice())),
        None => Err(UnpackError::InvalidArchive),
    }
}

/// The payload that the archive resource holds: its own bytes in direct
/// mode, the trainer's file of the container in container mode.
pub fn assemble_payload(mode: Mode, archive: &[u8], order: CountFieldEndianness) -> (r: Result<
    Vec<u8>,
    UnpackError,
>)
    ensures
        exists|count: u32|
            count_read(order, archive@, count) && bytes_result(r) == #[trigger] payload_of(
                mode,
                archive@,
                count,
            ),
        order is LittleEndian ==> bytes_result(r) == payload_of(mode, archive@, le_count(archive@)),
{
    match mode {
        Mode::Direct => {
            proof {
                lemma_le_value_fits(archive@.take(4));
            }
            Ok(slice_to_vec(archive))
        },
        Mode::Container => {
            let parsed = CEArchive::parse(archive, order);
            let r = match parsed {
                Ok(container) => select_trainer(&container),
                Err(e) => Err(e),
            };
            proof {
                let count = choose|count: u32|
                    count_read(order, archive@, count) && archive_result(parsed)
                        == #[trigger] container_with_count(archive@, count);
                assert(bytes_result(r) == payload_of(mode, archive@, count));
            }
            r
        },
    }
}

/// Checks the signature at the head of the deobfuscated payload `plain`
/// and gives what follows it. Fails with `BadMagic` where the first five
/// bytes are not the signature; nothing is expanded then.
pub fn check_signature<'a>(plain: &'a [u8]) -> (r: Result<&'a [u8], UnpackError>)
    ensures
        has_magic(plain@) <==> r is Ok,
        !has_magic(plain@) <==> r == Err::<&[u8], UnpackError>(UnpackError::BadMagic),
        r is Ok ==> r->Ok_0@ == plain@.skip(5),
{
    if plain.len() < 5 {
        return Err(UnpackError::BadMagic);
    }
    let mut i: usize = 0;
    while i < 5
        invariant
            i <= 5,
            plain@.len() >= 5,
            forall|j: int| 0 <= j < i ==> plain@[j] == TRAINER_MAGIC@[j],
        decreases 5 - i,
    {
        if plain[i] != TRAINER_MAGIC[i] {
            return Err(UnpackError::BadMagic);
        }
        i = i + 1;
    }
    assert(plain@.take(5) =~= TRAINER_MAGIC@);
    Ok(slice_subrange(plain, 5, plain.len()))
}

/// Drops the first `skip` bytes of the expanded definition `raw`. Fails
/// with `MalformedArchive` where it has fewer.
pub fn strip_header(raw: &[u8], skip: usize) -> (r: Result<Vec<u8>, UnpackError>)
    ensures
        bytes_result(r) == without_header(raw@, skip as int),
{
    if skip > raw.len() {
        return Err(UnpackError::MalformedArchive);
    }
    Ok(slice_to_vec(slice_subrange(raw, skip, raw.len())))
}

/// Deobfuscates the payload `payload`, checks its signature and gives what
/// follows the signature. Fails with `BadMagic` where the signature is
/// missing; nothing is expanded here.
pub fn verify_payload(payload: Vec<u8>) -> (r: Result<Vec<u8>, UnpackError>)
    ensures
        bytes_result(r) == verified(payload@),
{
    let mut data = payload;
    deobfuscate(&mut data);
    match check_signature(data.as_slice()) {
        Ok(rest) => Ok(slice_to_vec(rest)),
        Err(e) => Err(e),
    }
}

/// Expands the stream `compressed` and drops `header_skip` bytes in front
/// of the definition. Fails with `ZlibError` where the stream is rejected,
/// and with `MalformedArchive` where the expanded bytes are fewer than
/// `header_skip`.
pub fn expand_definition(compressed: &[u8], header_skip: usize) -> (r: Result<Vec<u8>, UnpackError>)
    ensures
        bytes_result(r) == expanded(compressed@, header_skip as int),
{
    match decompress(compressed) {
        Ok(raw) => strip_header(raw.as_slice(), header_skip),
        Err(e) => Err(e),
    }
}

/// The definition in the obfuscated payload `payload`: deobfuscates it,
/// checks the signature, expands what follows and drops `header_skip`
/// bytes in front. Fails with `BadMagic` where the signature is missing,
/// with `ZlibError` where the stream is rejected, and with
/// `MalformedArchive` where the expanded bytes are fewer than
/// `header_skip`.
pub fn decode_payload(payload: Vec<u8>, header_skip: usize) -> (r: Result<Vec<u8>, UnpackError>)
    ensures
        bytes_result(r) == definition_of(payload@, header_skip as int),
        !has_magic(deobfuscated(payload@)) ==> r == Err::<Vec<u8>, UnpackError>(
            UnpackError::BadMagic,
        ),
{
    match verify_payload(payload) {
        Ok(compressed) => expand_definition(compressed.as_slice(), header_skip),
        Err(e) => Err(e),
    }
}

/// The definition that the archive resource `archive` leads to.
/// `decompressor_present` says whether the image has the second resource:
/// with it `archive` is read as a container and the trainer's file is the
/// payload, without it `archive` is the payload.
pub fn unpack_archive(archive: &[u8], decompressor_present: bool, options: &ExtractOptions) -> (r:
    Result<Vec<u8>, UnpackError>)
    ensures
        exists|count: u32|
            count_read(options.count_order, archive@, count) && bytes_result(r)
                == #[trigger] extraction(
                archive@,
                decompressor_present,
                options.header_skip as int,
                count,
            ),
        options.count_order is LittleEndian ==> bytes_result(r) == extraction(
            archive@,
            decompressor_present,
            options.header_skip as int,
            le_count(archive@),
        ),
        !decompressor_present ==> bytes_result(r) == definition_of(
            archive@,
            options.header_skip as int,
        ),
{
    let mode = select_mode(decompressor_present);
    let assembled = assemble_payload(mode, archive, options.count_order);
    let ghost count = choose|count: u32|
        count_read(options.count_order, archive@, count) && bytes_result(assembled)
            == #[trigger] payload_of(mode, archive@, count);
    let r = match assembled {
        Ok(payload) => decode_payload(payload, options.header_skip),
        Err(e) => Err(e),
    };
    assert(bytes_result(r) == extraction(
        archive@,
        decompressor_present,
        options.header_skip as int,
        count,
    ));
    r
}

/// The definition that an image leads to whose lookups gave `archive` for
/// the archive resource and `decompressor` for the second resource. The
/// archive resource must be there: without it the run fails with
/// `ResourceNotFound`. Of the second resource only the presence counts: an
/// image with the archive resource alone is unpacked in direct mode, one
/// with both in container mode.
pub fn unpack_resources(
    archive: Option<&[u8]>,
    decompressor: Option<&[u8]>,
    options: &ExtractOptions,
) -> (r: Result<Vec<u8>, UnpackError>)
    ensures
        match archive {
            Some(bytes) => {
                &&& exists|count: u32|
                    count_read(options.count_order, bytes@, count) && bytes_result(r)
                        == #[trigger] extraction(
                        bytes@,
                        decompressor is Some,
                        options.header_skip as int,
                        count,
                    )
                &&& options.count_order is LittleEndian ==> bytes_result(r) == extraction(
                    bytes@,
                    decompressor is Some,
                    options.header_skip as int,
                    le_count(bytes@),
                )
                &&& decompressor is None ==> bytes_result(r) == definition_of(
                    bytes@,
                    options.header_skip as int,
                )
            },
            None => r == Err::<Vec<u8>, UnpackError>(UnpackError::ResourceNotFound),
        },
{
    match archive {
        Some(bytes) => unpack_archive(bytes, decompressor.is_some(), options),
        None => Err(UnpackError::ResourceNotFound),
    }
}

/// The payload that the resources of an image hold. Looks up the raw data
/// called `ARCHIVE_NAME`, which must be there: without it the run fails
/// with `ResourceNotFound`. Then looks up the raw data called
/// `DECOMPRESSOR_NAME`: where it is there the archive resource is read as a
/// container and the trainer's file is the payload, where it is not the
/// archive resource is the payload.
pub fn locate_payload(locator: &ResourceLocator<'_>, order: CountFieldEndianness) -> (r: Result<
    Vec<u8>,
    UnpackError,
>)
    ensures
        exists|count: u32|
            located_count_read(order, locator.entries(), count) && bytes_result(r)
                == #[trigger] located_payload(locator.entries(), count),
        located_archive(locator.entries()) is Err ==> r == Err::<Vec<u8>, UnpackError>(
            UnpackError::ResourceNotFound,
        ),
{
    let archive = match locator.find(RT_RCDATA, ResourceName::Text(ARCHIVE_NAME)) {
        Ok(bytes) => bytes,
        Err(e) => {
            assert(bytes_result(Err(e)) == located_payload(locator.entries(), 0u32));
            return Err(e);
        },
    };
    let decompressor_present = locator.find(
        RT_RCDATA,
        ResourceName::Text(DECOMPRESSOR_NAME),
    ).is_ok();
    let r = assemble_payload(select_mode(decompressor_present), archive, order);
    proof {
        let count = choose|count: u32|
            count_read(order, archive@, count) && bytes_result(r) == #[trigger] payload_of(
                mode_for(decompressor_present),
                archive@,
                count,
            );
        assert(bytes_result(r) == located_payload(locator.entries(), count));
    }
    r
}

/// The definition that the resources of an image lead to: the payload that
/// they hold, decoded.
pub fn unpack_located(locator: &ResourceLocator<'_>, options: &ExtractOptions) -> (r: Result<
    Vec<u8>,
    UnpackError,
>)
    ensures
        exists|count: u32|
            located_count_read(options.count_order, locator.entries(), count) && bytes_result(r)
                == #[trigger] located_extraction(
                locator.entries(),
                options.header_skip as int,
                count,
            ),
        located_archive(locator.entries()) is Err ==> r == Err::<Vec<u8>, UnpackError>(
            UnpackError::ResourceNotFound,
        ),
{
    let located = locate_payload(locator, options.count_order);
    let ghost count = choose|count: u32|
        located_count_read(options.count_order, locator.entries(), count) && bytes_result(located)
            == #[trigger] located_payload(locator.entries(), count);
    let r = match located {
        Ok(payload) => decode_payload(payload, options.header_skip),
        Err(e) => Err(e),
    };
    assert(bytes_result(r) == located_extraction(
        locator.entries(),
        options.header_skip as int,
        count,
    ));
    r
}

/// The definition that the image in `image` carries. An image that cannot
/// be read gives `InvalidImage`; one without a sound layout is never read.
/// Else the outcome is what the resource directory of an image with these
/// bytes leads to.
pub fn extract_trainer(image: &[u8], options: &ExtractOptions) -> (r: Result<Vec<u8>, UnpackError>)
    ensures
        !sound_layout(image@) ==> r == Err::<Vec<u8>, UnpackError>(UnpackError::InvalidImage),
        ({
            ||| r == Err::<Vec<u8>, UnpackError>(UnpackError::InvalidImage)
            ||| exists|count: u32|
                located_count_read(options.count_order, image_directory(image@), count)
                    && bytes_result(r) == #[trigger] located_extraction(
                    image_directory(image@),
                    options.header_skip as int,
                    count,
                )
        }),
{
    match ResourceLocator::open(image) {
        Ok(locator) => unpack_located(&locator, options),
        Err(e) => Err(e),
    }
}

/// The name under which the definition is stored: the input's file name
/// followed by `OUTPUT_SUFFIX`. Fails with `BadFilename` where the input
/// has no file name.
pub fn output_filename(file_name: Option<&str>) -> (r: Result<String, UnpackError>)
    ensures
        match file_name {
            Some(name) => r is Ok && r->Ok_0@ == name@ + OUTPUT_SUFFIX@,
            None => r == Err::<String, UnpackError>(UnpackError::BadFilename),
        },
{
    match file_name {
        Some(name) => Ok(name.to_owned().concat(OUTPUT_SUFFIX)),
        None => Err(UnpackError::BadFilename),
    }
}

} // verus!
