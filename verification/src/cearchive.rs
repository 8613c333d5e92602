//! The container that holds the files of a packed trainer.
//!
//! A container starts with the number of its files in four bytes. The rest
//! is a raw DEFLATE stream. Expanded, it holds the files one after another,
//! each as three fields: name, folder, data. A field is a length in four
//! bytes, least significant byte first, and then as many bytes.

use crate::decompress::{decompress, decompressed};
use crate::errors::UnpackError;
use crate::text::decode_text;
use crate::wire::{be_value, le_value, read_u32_le, read_u32_native};
use vstd::prelude::*;
use vstd::slice::{slice_subrange, slice_to_vec};
use vstd::utf8::{decode_utf8, valid_utf8};

verus! {

/// One file of a container.
#[derive(Debug, Clone)]
pub struct CEArchiveFile {
    pub name: String,
    pub folder: String,
    pub data: Vec<u8>,
}

/// A container: the number of files that it declares, and the files in the
/// order in which they stand.
#[derive(Debug, Clone)]
pub struct CEArchive {
    pub filecount: u32,
    pub files: Vec<CEArchiveFile>,
}

/// What a file is: its name, its folder and its bytes.
pub struct FileModel {
    pub name: Seq<char>,
    pub folder: Seq<char>,
    pub data: Seq<u8>,
}

/// What a container is: the declared number of files, and the files.
pub struct ArchiveModel {
    pub filecount: u32,
    pub files: Seq<FileModel>,
}

/// Byte order of the number of files at the head of a container. Producers
/// disagree on it; the lengths inside are least significant byte first in
/// either case.
#[derive(Debug, Clone, Copy, PartialEq, Eq, Structural)]
pub enum CountFieldEndianness {
    /// Least significant byte first.
    LittleEndian,
    /// The byte order of the machine that runs the program.
    Native,
}

impl View for CEArchiveFile {
    type V = FileModel;

    open spec fn view(&self) -> FileModel {
        FileModel { name: self.name@, folder: self.folder@, data: self.data@ }
    }
}

impl View for CEArchive {
    type V = ArchiveModel;

    open spec fn view(&self) -> ArchiveModel {
        ArchiveModel { filecount: self.filecount, files: file_models(self.files@) }
    }
}

/// The files `files` as what they are.
pub open spec fn file_models(files: Seq<CEArchiveFile>) -> Seq<FileModel> {
    files.map_values(|f: CEArchiveFile| f@)
}

/// The outcome `r` with its container as what it is.
pub open spec fn archive_result(r: Result<CEArchive, UnpackError>) -> Result<
    ArchiveModel,
    UnpackError,
> {
    match r {
        Ok(archive) => Ok(archive@),
        Err(e) => Err(e),
    }
}

/// The field that starts at `at` in `buf`: its bytes, and the place after
/// it. There is none where the length or the bytes run past the end.
pub open spec fn field_at(buf: Seq<u8>, at: int) -> Option<(Seq<u8>, int)> {
    if 0 <= at && at + 4 <= buf.len() {
        let n = le_value(buf.subrange(at, at + 4));
        if at + 4 + n <= buf.len() {
            Some((buf.subrange(at + 4, at + 4 + n), at + 4 + n))
        } else {
            None
        }
    } else {
        None
    }
}

/// The file that starts at `at` in `buf`, and the place after it. There is
/// none where a field is missing, or the name or the folder is no UTF-8.
pub open spec fn entry_at(buf: Seq<u8>, at: int) -> Option<(FileModel, int)> {
    match field_at(buf, at) {
        Some((name, after_name)) => match field_at(buf, after_name) {
            Some((folder, after_folder)) => match field_at(buf, after_folder) {
                Some((data, after_data)) => if valid_utf8(name) && valid_utf8(folder) {
                    Some(
                        (
                            FileModel {
                                name: decode_utf8(name),
                                folder: decode_utf8(folder),
                                data: data,
                            },
                            after_data,
                        ),
                    )
                } else {
                    None
                },
                None => None,
            },
            None => None,
        },
        None => None,
    }
}

/// The `count` files that stand in `buf` from `at` on, in their order. There
/// are none where one of them is missing. What follows the last is not
/// looked at.
pub open spec fn entries_at(buf: Seq<u8>, at: int, count: nat) -> Option<Seq<FileModel>>
    decreases count,
{
    if count == 0 {
        Some(Seq::empty())
    } else {
        match entry_at(buf, at) {
            Some((entry, next)) => match entries_at(buf, next, (count - 1) as nat) {
                Some(rest) => Some(seq![entry] + rest),
                None => None,
            },
            None => None,
        }
    }
}

/// The container of `count` files whose expanded bytes are `plain`.
pub open spec fn archive_of_plain(count: u32, plain: Seq<u8>) -> Result<ArchiveModel, UnpackError> {
    match entries_at(plain, 0, count as nat) {
        Some(files) => Ok(ArchiveModel { filecount: count, files: files }),
        None => Err(UnpackError::MalformedArchive),
    }
}

/// The container of `count` files whose compressed bytes are `compressed`.
pub open spec fn archive_of(count: u32, compressed: Seq<u8>) -> Result<ArchiveModel, UnpackError> {
    match decompressed(compressed) {
        Ok(plain) => archive_of_plain(count, plain),
        Err(e) => Err(e),
    }
}

/// Whether `count` is the number of files that the head of `data` gives when
/// read in the byte order `order`. For the machine's own order it is one of
/// two values. Of fewer than four bytes nothing is read.
pub open spec fn count_read(order: CountFieldEndianness, data: Seq<u8>, count: u32) -> bool {
    data.len() >= 4 ==> {
        ||| count == le_value(data.take(4))
        ||| order is Native && count == be_value(data.take(4))
    }
}

/// The container that `data` holds when its head gives `count` files.
pub open spec fn container_with_count(data: Seq<u8>, count: u32) -> Result<
    ArchiveModel,
    UnpackError,
> {
    if data.len() < 4 {
        Err(UnpackError::MalformedArchive)
    } else {
        archive_of(count, data.skip(4))
    }
}

/// The container that `data` holds, with the number of files read least
/// significant byte first.
pub open spec fn container_parsed(data: Seq<u8>) -> Result<ArchiveModel, UnpackError> {
    container_with_count(data, le_value(data.take(4)) as u32)
}

impl CEArchiveFile {
    /// A file with copies of the given name, folder and bytes.
    pub fn new(name: &str, folder: &str, data: &[u8]) -> (r: CEArchiveFile)
        ensures
            r@ == (FileModel { name: name@, folder: folder@, data: data@ }),
    {
        CEArchiveFile { name: name.to_owned(), folder: folder.to_owned(), data: slice_to_vec(data) }
    }
}

/// Reads the field that starts at `at` in `buf`: its bytes, and the place
/// after it.
pub fn read_field<'a>(buf: &'a [u8], at: usize) -> (r: Option<(&'a [u8], usize)>)
    ensures
        match field_at(buf@, at as int) {
            Some((bytes, next)) => r is Some && r->Some_0.0@ == bytes && r->Some_0.1 == next,
            None => r is None,
        },
{
    if at > buf.len() || buf.len() - at < 4 {
        return None;
    }
    let n: usize = read_u32_le(buf, at) as usize;
    let start: usize = at + 4;
    if buf.len() - start < n {
        return None;
    }
    Some((slice_subrange(buf, start, start + n), start + n))
}

/// Reads the file that starts at `at` in `buf`, and gives the place after
/// it.
pub fn read_entry(buf: &[u8], at: usize) -> (r: Option<(CEArchiveFile, usize)>)
    ensures
        match entry_at(buf@, at as int) {
            Some((entry, next)) => r is Some && r->Some_0.0@ == entry && r->Some_0.1 == next,
            None => r is None,
        },
{
    let (name_bytes, after_name) = match read_field(buf, at) {
        Some(field) => field,
        None => return None,
    };
    let name: String = match decode_text(name_bytes) {
        Some(text) => text,
        None => return None,
    };
    let (folder_bytes, after_folder) = match read_field(buf, after_name) {
        Some(field) => field,
        None => return None,
    };
    let folder: String = match decode_text(folder_bytes) {
        Some(text) => text,
        None => return None,
    };
    let (data, after_data) = match read_field(buf, after_folder) {
        Some(field) => field,
        None => return None,
    };
    Some((CEArchiveFile { name: name, folder: folder, data: slice_to_vec(data) }, after_data))
}

/// `done` followed by `rest`, where there is a rest.
spec fn followed_by(done: Seq<FileModel>, rest: Option<Seq<FileModel>>) -> Option<
    Seq<FileModel>,
> {
    match rest {
        Some(more) => Some(done + more),
        None => None,
    }
}

impl CEArchive {
    /// Whether the container holds as many files as it declares.
    pub open spec fn well_formed(&self) -> bool {
        self.files@.len() == self.filecount
    }

    /// Reads the `filecount` files of a container from its expanded bytes.
    /// Fails with `MalformedArchive` where a length runs past the end of
    /// `plain` or a name or folder is no UTF-8; a container with fewer files
    /// than declared is never returned.
    pub fn from_inflated(filecount: u32, plain: &[u8]) -> (r: Result<CEArchive, UnpackError>)
        ensures
            archive_result(r) == archive_of_plain(filecount, plain@),
            r is Ok ==> r->Ok_0.well_formed(),
    {
        let mut files: Vec<CEArchiveFile> = Vec::new();
        let mut offset: usize = 0;
        let mut i: u32 = 0;
        while i < filecount
            invariant
                i <= filecount,
                files@.len() == i,
                entries_at(plain@, 0, filecount as nat) == followed_by(
                    file_models(files@),
                    entries_at(plain@, offset as int, (filecount - i) as nat),
                ),
            decreases filecount - i,
        {
            match read_entry(plain, offset) {
                Some((file, next)) => {
                    files.push(file);
                    offset = next;
                    i = i + 1;
                },
                None => {
                    return Err(UnpackError::MalformedArchive);
                },
            }
        }
        Ok(CEArchive { filecount: filecount, files: files })
    }

    /// Reads the number of files at the head of `data` in the byte order
    /// `order`. Fails with `MalformedArchive` where `data` has fewer than
    /// four bytes.
    pub fn read_count(data: &[u8], order: CountFieldEndianness) -> (r: Result<u32, UnpackError>)
        ensures
            data@.len() < 4 <==> r == Err::<u32, UnpackError>(UnpackError::MalformedArchive),
            data@.len() >= 4 <==> r is Ok,
            r is Ok ==> count_read(order, data@, r->Ok_0),
            r is Ok && order is LittleEndian ==> r->Ok_0 == le_value(data@.take(4)),
    {
        if data.len() < 4 {
            return Err(UnpackError::MalformedArchive);
        }
        match order {
            CountFieldEndianness::LittleEndian => Ok(read_u32_le(data, 0)),
            CountFieldEndianness::Native => Ok(read_u32_native(data, 0)),
        }
    }

    /// Reads a container of `filecount` files from its compressed bytes.
    /// Fails with `ZlibError` where the stream is rejected, and with
    /// `MalformedArchive` where the expanded bytes do not hold the files.
    pub fn with_count(filecount: u32, compressed: &[u8]) -> (r: Result<CEArchive, UnpackError>)
        ensures
            archive_result(r) == archive_of(filecount, compressed@),
            r is Ok ==> r->Ok_0.well_formed(),
    {
        match decompress(compressed) {
            Ok(plain) => CEArchive::from_inflated(filecount, plain.as_slice()),
            Err(e) => Err(e),
        }
    }

    /// Reads the container that `data` holds, with the number of files read
    /// in the byte order `order`. It fails as `new` does.
    pub fn parse(data: &[u8], order: CountFieldEndianness) -> (r: Result<CEArchive, UnpackError>)
        ensures
            exists|count: u32|
                count_read(order, data@, count) && archive_result(r) == #[trigger] container_with_count(
                    data@,
                    count,
                ),
            order is LittleEndian ==> archive_result(r) == container_parsed(data@),
            r is Ok ==> r->Ok_0.well_formed(),
    {
        match CEArchive::read_count(data, order) {
            Ok(filecount) => {
                let r = CEArchive::with_count(filecount, slice_subrange(data, 4, data.len()));
                assert(archive_result(r) == container_with_count(data@, filecount));
                r
            },
            Err(e) => Err(e),
        }
    }

    /// Reads the container that `data` holds. The number of files at its
    /// head is read least significant byte first. Fails with
    /// `MalformedArchive` where `data` has fewer than four bytes, with
    /// `ZlibError` where the stream after them is rejected, and with
    /// `MalformedArchive` where the expanded bytes do not hold as many files
    /// as the head says.
    pub fn new(data: &[u8]) -> (r: Result<CEArchive, UnpackError>)
        ensures
            archive_result(r) == container_parsed(data@),
            r is Ok ==> r->Ok_0.well_formed(),
    {
        CEArchive::parse(data, CountFieldEndianness::LittleEndian)
    }

    /// The first file called `name`, in the order in which the files stand.
    /// Where several files share the name, the first counts.
    pub fn find(&self, name: &str) -> (r: Option<&CEArchiveFile>)
        ensures
            r is Some <==> first_named_from(self@.files, name@, 0) is Some,
            r is Some ==> r->Some_0@ == self@.files[first_named_from(self@.files, name@, 0)->Some_0],
            r is Some ==> r->Some_0@.name == name@,
            r is None ==> forall|j: int|
                0 <= j < self@.files.len() ==> (#[trigger] self@.files[j]).name != name@,
    {
        let wanted: String = name.to_owned();
        let mut i: usize = 0;
        proof {
            lemma_first_named(self@.files, name@, 0);
        }
        while i < self.files.len()
            invariant
                i <= self.files@.len(),
                wanted@ == name@,
                first_named_from(self@.files, name@, 0) == first_named_from(
                    self@.files,
                    name@,
                    i as int,
                ),
            decreases self.files@.len() - i,
        {
            if self.files[i].name == wanted {
                return Some(&self.files[i]);
            }
            i = i + 1;
        }
        None
    }
}

/// The place of the first file called `name` among `files` from `from` on.
pub open spec fn first_named_from(files: Seq<FileModel>, name: Seq<char>, from: int) -> Option<int>
    decreases files.len() - from,
{
    if from < 0 || from >= files.len() {
        None
    } else if files[from].name == name {
        Some(from)
    } else {
        first_named_from(files, name, from + 1)
    }
}

/// The first file called `name` among `files` has the name, and no file
/// before it has; there is none only where no file has the name.
pub proof fn lemma_first_named(files: Seq<FileModel>, name: Seq<char>, from: int)
    requires
        0 <= from,
    ensures
        match first_named_from(files, name, from) {
            Some(i) => {
                &&& from <= i < files.len()
                &&& files[i].name == name
                &&& forall|j: int| from <= j < i ==> files[j].name != name
            },
            None => forall|j: int| from <= j < files.len() ==> files[j].name != name,
        },
    decreases files.len() - from,
{
    if from < files.len() && files[from].name != name {
        lemma_first_named(files, name, from + 1);
    }
}

} // verus!
