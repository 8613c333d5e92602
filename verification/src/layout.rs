//! The container's layout as its producer writes it, and what reading makes
//! of written bytes.

use crate::cearchive::{
    archive_of_plain, container_parsed, entries_at, entry_at, field_at, ArchiveModel, FileModel,
};
use crate::decompress::inflated;
use crate::errors::UnpackError;
use crate::wire::{fits_u32, le_bytes, lemma_le_value_of_le_bytes};
use vstd::prelude::*;
use vstd::utf8::{encode_utf8, encode_utf8_decode_utf8, encode_utf8_valid_utf8};

verus! {

/// A field as it is written: the number of its bytes, then the bytes.
pub open spec fn field_bytes(content: Seq<u8>) -> Seq<u8> {
    le_bytes(content.len() as int) + content
}

/// A file as it is written: name, folder and data, each as a field.
pub open spec fn entry_bytes(entry: FileModel) -> Seq<u8> {
    field_bytes(encode_utf8(entry.name)) + field_bytes(encode_utf8(entry.folder)) + field_bytes(
        entry.data,
    )
}

/// Files as they are written: one after another.
pub open spec fn entries_bytes(files: Seq<FileModel>) -> Seq<u8>
    decreases files.len(),
{
    if files.len() == 0 {
        Seq::empty()
    } else {
        entry_bytes(files[0]) + entries_bytes(files.drop_first())
    }
}

/// Whether each field of `entry` is short enough for its length to be
/// written.
pub open spec fn entry_fits(entry: FileModel) -> bool {
    &&& fits_u32(encode_utf8(entry.name).len() as int)
    &&& fits_u32(encode_utf8(entry.folder).len() as int)
    &&& fits_u32(entry.data.len() as int)
}

/// Whether `files` can be written: each field short enough.
pub open spec fn entries_fit(files: Seq<FileModel>) -> bool {
    forall|i: int| 0 <= i < files.len() ==> entry_fits(#[trigger] files[i])
}

proof fn lemma_field_read(buf: Seq<u8>, at: int, content: Seq<u8>)
    requires
        0 <= at,
        at + field_bytes(content).len() <= buf.len(),
        fits_u32(content.len() as int),
        buf.subrange(at, at + field_bytes(content).len()) == field_bytes(content),
    ensures
        field_bytes(content).len() == 4 + content.len(),
        field_at(buf, at) == Some((content, at + 4 + content.len())),
{
    let n = content.len() as int;
    let written = field_bytes(content);
    lemma_le_value_of_le_bytes(n);
    assert forall|i: int| 0 <= i < n implies buf.subrange(at + 4, at + 4 + n)[i] == content[i] by {
        assert(buf.subrange(at, at + written.len())[i + 4] == written[i + 4]);
    }
    assert(buf.subrange(at + 4, at + 4 + n) =~= content);
}

proof fn lemma_entry_read(buf: Seq<u8>, at: int, entry: FileModel)
    requires
        0 <= at,
        entry_fits(entry),
        at + entry_bytes(entry).len() <= buf.len(),
        buf.subrange(at, at + entry_bytes(entry).len()) == entry_bytes(entry),
    ensures
        entry_at(buf, at) == Some((entry, at + entry_bytes(entry).len())),
        entry_bytes(entry).len() >= 12,
{
    let name = encode_utf8(entry.name);
    let folder = encode_utf8(entry.folder);
    let written = entry_bytes(entry);
    let after_name = at + 4 + name.len();
    let after_folder = after_name + 4 + folder.len();
    let after_data = after_folder + 4 + entry.data.len();
    lemma_le_value_of_le_bytes(name.len() as int);
    lemma_le_value_of_le_bytes(folder.len() as int);
    lemma_le_value_of_le_bytes(entry.data.len() as int);
    assert(buf.subrange(at, after_name) =~= field_bytes(name));
    assert forall|i: int| 0 <= i < 4 + folder.len() implies buf.subrange(
        after_name,
        after_folder,
    )[i] == field_bytes(folder)[i] by {
        assert(buf.subrange(at, at + written.len())[i + 4 + name.len()] == written[i + 4
            + name.len()]);
    }
    assert(buf.subrange(after_name, after_folder) =~= field_bytes(folder));
    assert forall|i: int| 0 <= i < 4 + entry.data.len() implies buf.subrange(
        after_folder,
        after_data,
    )[i] == field_bytes(entry.data)[i] by {
        assert(buf.subrange(at, at + written.len())[i + 8 + name.len() + folder.len()]
            == written[i + 8 + name.len() + folder.len()]);
    }
    assert(buf.subrange(after_folder, after_data) =~= field_bytes(entry.data));
    lemma_field_read(buf, at, name);
    lemma_field_read(buf, after_name, folder);
    lemma_field_read(buf, after_folder, entry.data);
    encode_utf8_valid_utf8(entry.name);
    encode_utf8_valid_utf8(entry.folder);
    encode_utf8_decode_utf8(entry.name);
    encode_utf8_decode_utf8(entry.folder);
}

/// Files that stand written in `buf` from `at` on are read back as they
/// were, in their order, whatever follows them.
pub proof fn lemma_written_entries_read(buf: Seq<u8>, at: int, files: Seq<FileModel>)
    requires
        0 <= at,
        entries_fit(files),
        at + entries_bytes(files).len() <= buf.len(),
        buf.subrange(at, at + entries_bytes(files).len()) == entries_bytes(files),
    ensures
        entries_at(buf, at, files.len()) == Some(files),
    decreases files.len(),
{
    if files.len() > 0 {
        let first = files[0];
        let rest = files.drop_first();
        let written = entries_bytes(files);
        let next = at + entry_bytes(first).len();
        assert(buf.subrange(at, next) =~= entry_bytes(first));
        assert forall|i: int| 0 <= i < entries_bytes(rest).len() implies buf.subrange(
            next,
            next + entries_bytes(rest).len(),
        )[i] == entries_bytes(rest)[i] by {
            assert(buf.subrange(at, at + written.len())[i + entry_bytes(first).len()] == written[i
                + entry_bytes(first).len()]);
        }
        assert(buf.subrange(next, next + entries_bytes(rest).len()) =~= entries_bytes(rest));
        lemma_entry_read(buf, at, first);
        lemma_written_entries_read(buf, next, rest);
    }
}

/// Writing files in the container's layout and reading them back gives the
/// files that were written, equal field by field and in the same order:
/// for no file, for any number of them, and for empty names, folders and
/// data.
pub proof fn lemma_entries_round_trip(files: Seq<FileModel>)
    requires
        entries_fit(files),
        fits_u32(files.len() as int),
    ensures
        entries_at(entries_bytes(files), 0, files.len()) == Some(files),
        archive_of_plain(files.len() as u32, entries_bytes(files)) == Ok::<
            ArchiveModel,
            UnpackError,
        >(ArchiveModel { filecount: files.len() as u32, files: files }),
{
    let written = entries_bytes(files);
    assert(written.subrange(0, written.len() as int) =~= written);
    lemma_written_entries_read(written, 0, files);
}

/// A container whose head gives the number of its files and whose stream
/// expands to the written files is read as these files.
pub proof fn lemma_container_round_trip(files: Seq<FileModel>, compressed: Seq<u8>)
    requires
        entries_fit(files),
        fits_u32(files.len() as int),
        inflated(compressed) == Ok::<Seq<u8>, Seq<char>>(entries_bytes(files)),
    ensures
        container_parsed(le_bytes(files.len() as int) + compressed) == Ok::<
            ArchiveModel,
            UnpackError,
        >(ArchiveModel { filecount: files.len() as u32, files: files }),
{
    let data = le_bytes(files.len() as int) + compressed;
    lemma_le_value_of_le_bytes(files.len() as int);
    lemma_entries_round_trip(files);
    assert(data.skip(4) =~= compressed);
}

proof fn lemma_field_of_prefix(full: Seq<u8>, n: int, at: int)
    requires
        0 <= n <= full.len(),
    ensures
        match field_at(full.take(n), at) {
            Some((content, next)) => next <= n && field_at(full, at) == Some((content, next)),
            None => true,
        },
{
}

proof fn lemma_entry_of_prefix(full: Seq<u8>, n: int, at: int)
    requires
        0 <= n <= full.len(),
    ensures
        match entry_at(full.take(n), at) {
            Some((entry, next)) => next <= n && entry_at(full, at) == Some((entry, next)),
            None => true,
        },
{
    let cut = full.take(n);
    lemma_field_of_prefix(full, n, at);
    if let Some((_, after_name)) = field_at(cut, at) {
        lemma_field_of_prefix(full, n, after_name);
        if let Some((_, after_folder)) = field_at(cut, after_name) {
            lemma_field_of_prefix(full, n, after_folder);
        }
    }
}

proof fn lemma_first_of_cut(buf: Seq<u8>, at: int, first: FileModel, tail: Seq<u8>)
    requires
        0 <= at <= buf.len(),
        entry_fits(first),
        buf.len() - at < entry_bytes(first).len() + tail.len(),
        buf.skip(at) == (entry_bytes(first) + tail).take(buf.len() - at),
    ensures
        match entry_at(buf, at) {
            Some((entry, next)) => {
                &&& entry == first
                &&& next == at + entry_bytes(first).len()
                &&& next <= buf.len()
            },
            None => true,
        },
{
    let head = entry_bytes(first);
    let written = head + tail;
    let have = buf.len() - at;
    let full = buf + written.skip(have);
    assert forall|i: int| 0 <= i < head.len() implies full.subrange(at, at + head.len())[i]
        == head[i] by {
        if at + i < buf.len() {
            assert(buf.skip(at)[i] == written.take(have)[i]);
        }
    }
    assert(full.subrange(at, at + head.len()) =~= head);
    assert(full.take(buf.len() as int) =~= buf);
    lemma_entry_read(full, at, first);
    lemma_entry_of_prefix(full, buf.len() as int, at);
}

/// Where `buf` ends before the written files that start at `at` do, the
/// files are not read.
pub proof fn lemma_cut_short_fails(buf: Seq<u8>, at: int, files: Seq<FileModel>)
    requires
        0 <= at <= buf.len(),
        entries_fit(files),
        buf.len() - at < entries_bytes(files).len(),
        buf.skip(at) == entries_bytes(files).take(buf.len() - at),
    ensures
        entries_at(buf, at, files.len()) is None,
    decreases files.len(),
{
    let have = buf.len() - at;
    let first = files[0];
    let rest = files.drop_first();
    let head = entry_bytes(first);
    let tail = entries_bytes(rest);
    lemma_first_of_cut(buf, at, first, tail);
    if entry_at(buf, at) is Some {
        let next = at + head.len();
        assert forall|i: int| 0 <= i < buf.len() - next implies buf.skip(next)[i] == tail.take(
            buf.len() - next,
        )[i] by {
            assert(buf.skip(at)[i + head.len()] == (head + tail).take(have)[i + head.len()]);
        }
        assert(buf.skip(next) =~= tail.take(buf.len() - next));
        lemma_cut_short_fails(buf, next, rest);
    }
}

/// A stream of written files that was cut short anywhere is not read as a
/// container of these files: reading fails with `MalformedArchive`.
pub proof fn lemma_truncated_fails(files: Seq<FileModel>, n: int)
    requires
        entries_fit(files),
        fits_u32(files.len() as int),
        0 <= n < entries_bytes(files).len(),
    ensures
        entries_at(entries_bytes(files).take(n), 0, files.len()) is None,
        archive_of_plain(files.len() as u32, entries_bytes(files).take(n)) == Err::<
            ArchiveModel,
            UnpackError,
        >(UnpackError::MalformedArchive),
{
    let cut = entries_bytes(files).take(n);
    assert(cut.skip(0) =~= entries_bytes(files).take(cut.len() as int));
    lemma_cut_short_fails(cut, 0, files);
}

/// The place in `buf` that reading comes to after `k` fields from `at` on.
/// There is none where one of the fields is missing.
pub open spec fn after_fields(buf: Seq<u8>, at: int, k: nat) -> Option<int>
    decreases k,
{
    if k == 0 {
        Some(at)
    } else {
        match field_at(buf, at) {
            Some((_, next)) => after_fields(buf, next, (k - 1) as nat),
            None => None,
        }
    }
}

proof fn lemma_after_fields_split(buf: Seq<u8>, at: int, j: nat, k: nat)
    ensures
        after_fields(buf, at, j + k) == match after_fields(buf, at, j) {
            Some(reached) => after_fields(buf, reached, k),
            None => None,
        },
    decreases j,
{
    if j > 0 {
        match field_at(buf, at) {
            Some((_, next)) => lemma_after_fields_split(buf, next, (j - 1) as nat, k),
            None => {},
        }
    }
}

proof fn lemma_entries_pass_fields(buf: Seq<u8>, at: int, count: nat)
    requires
        entries_at(buf, at, count) is Some,
    ensures
        after_fields(buf, at, 3 * count) is Some,
    decreases count,
{
    if count > 0 {
        let (_, after_name) = field_at(buf, at)->Some_0;
        let (_, after_folder) = field_at(buf, after_name)->Some_0;
        let (_, after_data) = field_at(buf, after_folder)->Some_0;
        lemma_entries_pass_fields(buf, after_data, (count - 1) as nat);
        assert(after_fields(buf, after_folder, (3 * count - 2) as nat) is Some);
        assert(after_fields(buf, after_name, (3 * count - 1) as nat) is Some);
    }
}

/// Where one of the fields that reading `count` files comes to gives a
/// length that runs past the end of `buf`, or has no room for its length,
/// the files are not read: reading fails with `MalformedArchive`.
pub proof fn lemma_overrun_fails(buf: Seq<u8>, at: int, count: nat, k: nat)
    requires
        k < 3 * count,
        after_fields(buf, at, k) is Some,
        field_at(buf, after_fields(buf, at, k)->Some_0) is None,
    ensures
        entries_at(buf, at, count) is None,
        count <= u32::MAX && at == 0 ==> archive_of_plain(count as u32, buf) == Err::<
            ArchiveModel,
            UnpackError,
        >(UnpackError::MalformedArchive),
{
    if entries_at(buf, at, count) is Some {
        lemma_entries_pass_fields(buf, at, count);
        lemma_after_fields_split(buf, at, k, (3 * count - k) as nat);
    }
}

} // verus!
