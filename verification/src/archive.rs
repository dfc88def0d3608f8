use vstd::prelude::*;
use std::io::Cursor;

verus! {

#[verifier::external_type_specification]
#[verifier::external_body]
#[verifier::reject_recursive_types(T)]
pub struct ExCursor<T>(Cursor<T>);

#[verifier::external_type_specification]
#[verifier::external_body]
#[verifier::reject_recursive_types(R)]
pub struct ExZipArchive<R>(zip::read::ZipArchive<R>);

/// The mathematical view of one archive entry, as the extractor reads it:
/// `enclosed` is the confinement-checked form of its stored name (UTF-8
/// bytes, relative, `/`-separated), or nothing when the name cannot be safely
/// confined under a destination; `is_dir` says whether the entry is a
/// directory; `data` is its uncompressed content, or nothing when the entry
/// cannot be read back.
pub struct EntryModel {
    pub enclosed: Option<Seq<u8>>,
    pub is_dir: bool,
    pub data: Option<Seq<u8>>,
}

/// What reading a zip archive from the given bytes yields: the entry list of
/// a valid archive, or nothing when the bytes do not parse as one.  The
/// result is a function of the bytes alone.
pub uninterp spec fn zip_parse(bytes: Seq<u8>) -> Option<Seq<EntryModel>>;

/// The entries an open zip archive holds, in archive order.
pub uninterp spec fn zip_entries(z: zip::read::ZipArchive<Cursor<Vec<u8>>>) -> Seq<EntryModel>;

/// One archive entry handed out of the zip reader as plain values.
pub struct ArchiveEntry {
    /// The enclosed (confinement-checked) name: UTF-8 bytes, relative to the
    /// extraction root, with `/` separators.
    pub name: Vec<u8>,
    /// Whether the entry is a directory.
    pub is_dir: bool,
    /// The uncompressed content; empty for a directory.
    pub data: Vec<u8>,
}

/// The outcome of reading one entry out of an open archive.
pub enum EntryRead {
    /// The entry, with a safe name and its full content.
    Entry(ArchiveEntry),
    /// The stored name cannot be safely confined under a destination (or is
    /// not UTF-8).
    UnsafeName,
    /// The entry cannot be read or decompressed.
    Unreadable,
}

/// Relies on zip::ZipArchive::new: reads the central directory of the
/// archive held in the given bytes and yields the open archive, or an error
/// exactly when the bytes do not parse as a zip archive
/// (std::io::Cursor::new converts the argument into the reader it needs).
#[verifier::external_body]
pub(crate) fn zip_open(bytes: Vec<u8>) -> (r: Option<zip::read::ZipArchive<Cursor<Vec<u8>>>>)
    ensures
        r is Some <==> zip_parse(bytes@) is Some,
        r is Some ==> zip_entries(r->Some_0) == zip_parse(bytes@)->Some_0,
{
    zip::ZipArchive::new(Cursor::new(bytes)).ok()
}

/// Relies on zip::ZipArchive::len: the number of entries in the archive.
#[verifier::external_body]
pub(crate) fn zip_len(z: &zip::read::ZipArchive<Cursor<Vec<u8>>>) -> (n: usize)
    ensures
        n == zip_entries(*z).len(),
{
    z.len()
}

/// Relies on zip::ZipArchive::by_index and, on the entry it yields, on zip's
/// enclosed_name (the confinement check: no NULL bytes, no absolute path,
/// never resolves outside the destination; here also required to be UTF-8),
/// on is_dir, and on the entry's std::io::Read impl, which inflates the
/// content.  An entry is `Unreadable` exactly when zip cannot hand its
/// content back (`data` of its model is nothing).
#[verifier::external_body]
pub(crate) fn zip_entry_at(z: &mut zip::read::ZipArchive<Cursor<Vec<u8>>>, i: usize) -> (r:
    EntryRead)
    requires
        i < zip_entries(*old(z)).len(),
    ensures
        zip_entries(*final(z)) == zip_entries(*old(z)),
        r is Entry <==> (zip_entries(*old(z))[i as int].enclosed is Some && zip_entries(
            *old(z),
        )[i as int].data is Some),
        r matches EntryRead::Entry(e) ==> {
            &&& e.name@ == zip_entries(*old(z))[i as int].enclosed->Some_0
            &&& e.is_dir == zip_entries(*old(z))[i as int].is_dir
            &&& e.data@ == zip_entries(*old(z))[i as int].data->Some_0
        },
        r is UnsafeName ==> zip_entries(*old(z))[i as int].enclosed is None,
        r is Unreadable ==> zip_entries(*old(z))[i as int].data is None,
{
    let mut file = match z.by_index(i) {
        Ok(f) => f,
        Err(_) => return EntryRead::Unreadable,
    };
    let name = match file.enclosed_name().and_then(|p| p.to_str().map(String::from)) {
        Some(s) => s.into_bytes(),
        None => return EntryRead::UnsafeName,
    };
    let is_dir = file.is_dir();
    let mut data: Vec<u8> = Vec::new();
    match std::io::Read::read_to_end(&mut file, &mut data) {
        Ok(_) => EntryRead::Entry(ArchiveEntry { name, is_dir, data }),
        Err(_) => EntryRead::Unreadable,
    }
}

} // verus!
