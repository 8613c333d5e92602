//! The resources of an executable image.
//!
//! The image and its resource directory are read in place, as records of
//! four-byte fields. So the directory is opened only in an image with a
//! sound layout, in which these records start at multiples of four.

use crate::errors::UnpackError;
use crate::image::{has_sound_layout, sound_layout};
use pelite::pe32::{Pe, PeFile};
use pelite::resources::{FindError, Name, Resources};
use vstd::prelude::*;
use vstd::slice::slice_subrange;

verus! {

/// Type tag of the resources that hold raw data.
pub const RT_RCDATA: u32 = 10;

/// `pelite::pe32::PeFile`: a 32-bit image, its headers checked.
#[verifier::external_type_specification]
#[verifier::external_body]
pub struct ExPeFile<'a>(PeFile<'a>);

/// `pelite::resources::Resources`: the resource directory of an image.
#[verifier::external_type_specification]
#[verifier::external_body]
pub struct ExResources<'a>(Resources<'a>);

/// `pelite::Error`: why an image could not be read.
#[verifier::external_type_specification]
#[verifier::external_body]
pub struct ExImageError(pelite::Error);

/// `pelite::resources::FindError`: why a resource was not found.
#[verifier::external_type_specification]
#[verifier::external_body]
pub struct ExFindError(FindError);

/// The bytes of the image that `file` is a view of.
pub uninterp spec fn file_bytes(file: PeFile<'_>) -> Seq<u8>;

/// What the resource directory of an image with the bytes `image` holds,
/// as `pelite::pe32::Pe::resources` reads it: for each type tag and name,
/// the bytes of the resource found there.
pub uninterp spec fn image_directory(image: Seq<u8>) -> Map<(u32, NameModel), Seq<u8>>;

/// The bytes of the image in which the directory `resources` lies.
pub uninterp spec fn directory_image(resources: Resources<'_>) -> Seq<u8>;

/// What the directory `resources` holds: for each type tag and name under
/// which `pelite::resources::Resources::find_resource` finds a resource in
/// it, the bytes of that resource.
pub uninterp spec fn directory_entries(resources: Resources<'_>) -> Map<(u32, NameModel), Seq<u8>>;

/// `pelite::pe32::PeFile::from_bytes`: checks the headers of the image in
/// `image` and gives a view of these same bytes. Whether it succeeds is
/// not claimed: that depends on where the bytes lie in memory, not on the
/// bytes alone.
#[verifier::external_body]
fn image_from_bytes<'a>(image: &'a [u8]) -> (r: Result<PeFile<'a>, pelite::Error>)
    ensures
        r is Ok ==> file_bytes(r->Ok_0) == image@,
{
    PeFile::from_bytes(image)
}

/// `pelite::pe32::Pe::resources`: the resource directory of the image. It
/// goes through the section table, which it reads in place after the
/// optional header, to the first section that holds the directory's
/// address, and gives the bytes from there on as the directory. The image
/// must have a sound layout: else the section table or the directory would
/// be read at a place that is no multiple of four. (A view exists only of
/// bytes that start at a multiple of four and whose headers were checked
/// with the fields taken as the machine reads them; on a machine that does
/// not read least significant byte first no view bears the mark that a
/// sound layout asks for.) The directory is read from the image's bytes
/// alone.
#[verifier::external_body]
fn image_resources<'a>(file: PeFile<'a>) -> (r: Result<Resources<'a>, pelite::Error>)
    requires
        sound_layout(file_bytes(file)),
    ensures
        r is Ok ==> directory_image(r->Ok_0) == file_bytes(file),
        r is Ok ==> directory_entries(r->Ok_0) == image_directory(file_bytes(file)),
{
    file.resources()
}

/// `pelite::resources::Resources::find_resource`: the bytes of the first
/// entry under the type tag `kind` and the name `name`. Text is compared
/// with the directory's UTF-16 names character by character, and where it
/// starts with `#` with its numbered entries; UTF-16 units are compared one
/// by one. The lookup reads the directory and nothing else: it succeeds
/// where the directory holds an entry under the tag and the name, and then
/// gives the bytes of that entry. The records of the directory are read in
/// place, so the directory must lie in an image with a sound layout.
#[verifier::external_body]
fn resource_bytes<'a>(resources: &Resources<'a>, kind: u32, name: ResourceName<'_>) -> (r: Result<
    &'a [u8],
    FindError,
>)
    requires
        sound_layout(directory_image(*resources)),
    ensures
        r is Ok <==> directory_entries(*resources).contains_key((kind, name@)),
        r is Ok ==> r->Ok_0@ == directory_entries(*resources)[(kind, name@)],
{
    let name = match name {
        ResourceName::Text(text) => Name::Str(text),
        ResourceName::Wide(units) => Name::Wide(units),
    };
    resources.find_resource(&[Name::Id(kind), name])
}

/// The name under which a resource is looked up.
#[derive(Debug, Clone, Copy)]
pub enum ResourceName<'a> {
    /// The name as text. Text that starts with `#` stands for a number.
    Text(&'a str),
    /// The name in UTF-16 units, as the directory holds it.
    Wide(&'a [u16]),
}

/// What a name is: its characters, or its UTF-16 units.
pub enum NameModel {
    Text(Seq<char>),
    Wide(Seq<u16>),
}

impl<'a> View for ResourceName<'a> {
    type V = NameModel;

    open spec fn view(&self) -> NameModel {
        match *self {
            ResourceName::Text(text) => NameModel::Text(text@),
            ResourceName::Wide(units) => NameModel::Wide(units@),
        }
    }
}

/// What a lookup under the type tag `kind` and the name `name` gives among
/// `entries`: the bytes held there, or `ResourceNotFound` where nothing is
/// held there.
pub open spec fn looked_up(entries: Map<(u32, NameModel), Seq<u8>>, kind: u32, name: NameModel) -> Result<
    Seq<u8>,
    UnpackError,
> {
    if entries.contains_key((kind, name)) {
        Ok(entries[(kind, name)])
    } else {
        Err(UnpackError::ResourceNotFound)
    }
}

/// What opening makes of the outcome `outcome` of reading an image or its
/// directory: what was read, or `InvalidImage` whatever the reason of the
/// failure.
pub fn image_outcome<T>(outcome: Result<T, pelite::Error>) -> (r: Result<T, UnpackError>)
    ensures
        match outcome {
            Ok(read) => r == Ok::<T, UnpackError>(read),
            Err(_) => r == Err::<T, UnpackError>(UnpackError::InvalidImage),
        },
{
    match outcome {
        Ok(read) => Ok(read),
        Err(_) => Err(UnpackError::InvalidImage),
    }
}

/// What a lookup makes of its outcome `outcome`: the bytes found, or
/// `ResourceNotFound` whatever the reason of the failure.
pub fn lookup_outcome<'a>(outcome: Result<&'a [u8], FindError>) -> (r: Result<&'a [u8], UnpackError>)
    ensures
        match outcome {
            Ok(bytes) => r == Ok::<&[u8], UnpackError>(bytes),
            Err(_) => r == Err::<&[u8], UnpackError>(UnpackError::ResourceNotFound),
        },
{
    match outcome {
        Ok(bytes) => Ok(bytes),
        Err(_) => Err(UnpackError::ResourceNotFound),
    }
}

/// Whether `words` is a name as a resource directory writes it: the number
/// of its UTF-16 units, then the units.
pub open spec fn is_prefixed_name(words: Seq<u16>) -> bool {
    words.len() >= 1 && words[0] == words.len() - 1
}

impl<'a> ResourceName<'a> {
    /// The name that `words` holds in the form of a resource directory: the
    /// number of UTF-16 units, then the units. There is none where the
    /// number is missing or is not the number of units that follow.
    pub fn from_prefixed(words: &'a [u16]) -> (r: Option<ResourceName<'a>>)
        ensures
            r is Some <==> is_prefixed_name(words@),
            r is Some ==> r->Some_0 is Wide && r->Some_0->Wide_0@ == words@.skip(1),
    {
        if words.len() >= 1 && words[0] as usize == words.len() - 1 {
            Some(ResourceName::Wide(slice_subrange(words, 1, words.len())))
        } else {
            None
        }
    }
}

/// The resource directory of an image, ready for lookups.
pub struct ResourceLocator<'a> {
    resources: Resources<'a>,
}

impl<'a> ResourceLocator<'a> {
    /// The directory lies in an image with a sound layout.
    #[verifier::type_invariant]
    spec fn in_sound_image(self) -> bool {
        sound_layout(directory_image(self.resources))
    }

    /// What the directory holds: for each type tag and name under which a
    /// lookup finds a resource, its bytes.
    pub closed spec fn entries(&self) -> Map<(u32, NameModel), Seq<u8>> {
        directory_entries(self.resources)
    }

    /// Opens the resource directory of the image in `image`: the locator
    /// that it gives holds what the directory of an image with these bytes
    /// holds. Fails with `InvalidImage`, and with nothing else, where the
    /// image or its directory cannot be read. That is so where the image
    /// has no sound layout, where the bytes are no 32-bit image or the
    /// image has no resources, and where the bytes do not start at an
    /// address that is a multiple of four.
    pub fn open(image: &'a [u8]) -> (r: Result<ResourceLocator<'a>, UnpackError>)
        ensures
            r is Err ==> r->Err_0 == UnpackError::InvalidImage,
            !sound_layout(image@) ==> r is Err,
            r is Ok ==> r->Ok_0.entries() == image_directory(image@),
    {
        if !has_sound_layout(image) {
            return Err(UnpackError::InvalidImage);
        }
        let file = match image_outcome(image_from_bytes(image)) {
            Ok(file) => file,
            Err(e) => return Err(e),
        };
        match image_outcome(image_resources(file)) {
            Ok(resources) => Ok(ResourceLocator { resources: resources }),
            Err(e) => Err(e),
        }
    }

    /// The bytes of the resource that the directory holds under the type
    /// tag `kind` and the name `name`. Fails with `ResourceNotFound`, and
    /// with nothing else, where the directory holds none there. The
    /// directory is only read.
    pub fn find(&self, kind: u32, name: ResourceName<'_>) -> (r: Result<&'a [u8], UnpackError>)
        ensures
            match r {
                Ok(bytes) => looked_up(self.entries(), kind, name@) == Ok::<Seq<u8>, UnpackError>(
                    bytes@,
                ),
                Err(e) => looked_up(self.entries(), kind, name@) == Err::<Seq<u8>, UnpackError>(e),
            },
            r is Err ==> r->Err_0 == UnpackError::ResourceNotFound,
    {
        proof {
            use_type_invariant(self);
        }
        lookup_outcome(resource_bytes(&self.resources, kind, name))
    }
}

} // verus!
