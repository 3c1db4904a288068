//! The zip archive source: an archive held in memory, its entry names, and
//! the text of an entry looked up by exact name.
use std::io::Cursor;
use std::io::Read;
use vstd::prelude::*;

use crate::error::ConnectorError;
use crate::remote::MANIFEST_FILE;
use crate::text::{ends_with, has_suffix};

verus! {

#[verifier::external_type_specification]
#[verifier::external_body]
#[verifier::reject_recursive_types(R)]
pub struct ExZipArchive<R>(zip::ZipArchive<R>);

#[verifier::external_type_specification]
#[verifier::external_body]
#[verifier::reject_recursive_types(T)]
pub struct ExCursor<T>(Cursor<T>);

#[verifier::external_type_specification]
#[verifier::external_body]
pub struct ExZipError(zip::result::ZipError);

/// The names of an archive's entries, in the order of its central directory.
pub uninterp spec fn archive_entry_names(a: zip::ZipArchive<Cursor<Vec<u8>>>) -> Seq<Seq<char>>;

/// The text of each entry, where it decompresses and is valid UTF-8.
pub uninterp spec fn archive_entry_texts(a: zip::ZipArchive<Cursor<Vec<u8>>>) -> Seq<
    Option<Seq<char>>,
>;

/// The bytes hold a zip archive whose central directory reads.
pub uninterp spec fn archive_readable(bytes: Seq<u8>) -> bool;

/// Relies on `zip::ZipArchive::new` to read the central directory of an
/// archive held in memory.
#[verifier::external_body]
fn open_archive(bytes: Vec<u8>) -> (r: Result<zip::ZipArchive<Cursor<Vec<u8>>>, zip::result::ZipError>)
    ensures
        r is Ok <==> archive_readable(bytes@),
{
    zip::ZipArchive::new(Cursor::new(bytes))
}

/// Relies on `zip::ZipArchive::len`: the number of entries.
#[verifier::external_body]
fn entry_count(a: &zip::ZipArchive<Cursor<Vec<u8>>>) -> (r: usize)
    ensures
        r == archive_entry_names(*a).len(),
        r == archive_entry_texts(*a).len(),
{
    a.len()
}

/// Relies on `zip::ZipArchive::name_for_index`: the name of the entry at an
/// index, none past the last.
#[verifier::external_body]
fn entry_name_at(a: &zip::ZipArchive<Cursor<Vec<u8>>>, i: usize) -> (r: Option<String>)
    ensures
        i < archive_entry_names(*a).len() ==> r.deep_view() == Some(archive_entry_names(*a)[i as int]),
        i >= archive_entry_names(*a).len() ==> r is None,
{
    a.name_for_index(i).map(|n| n.to_string())
}

/// Relies on `zip::ZipArchive::by_index` and `Read::read_to_string` on the
/// entry: it is decompressed and read as UTF-8 text. Only the reader's
/// position changes in the archive.
#[verifier::external_body]
fn read_entry(a: &mut zip::ZipArchive<Cursor<Vec<u8>>>, i: usize) -> (r: Result<String, zip::result::ZipError>)
    requires
        i < archive_entry_names(*old(a)).len(),
    ensures
        archive_entry_names(*final(a)) == archive_entry_names(*old(a)),
        archive_entry_texts(*final(a)) == archive_entry_texts(*old(a)),
        match r {
            Ok(s) => archive_entry_texts(*old(a))[i as int] == Some(s@),
            Err(_) => archive_entry_texts(*old(a))[i as int] is None,
        },
{
    let mut entry = a.by_index(i)?;
    let mut text = String::new();
    entry.read_to_string(&mut text)?;
    Ok(text)
}

/// `i` is the first index at which `names` holds `name`.
pub open spec fn is_first_index(names: Seq<Seq<char>>, name: Seq<char>, i: int) -> bool {
    0 <= i < names.len() && names[i] == name && forall|j: int| 0 <= j < i ==> names[j] != name
}

/// Some entry name ends with `package.json`.
pub open spec fn names_hold_manifest(names: Seq<Seq<char>>) -> bool {
    exists|i: int| 0 <= i < names.len() && #[trigger] has_suffix(names[i], MANIFEST_FILE@)
}

/// A zip archive read into memory. Reads take `&mut self`, so at most one is
/// in flight on an archive at any time.
pub struct ZipConnector {
    archive: zip::ZipArchive<Cursor<Vec<u8>>>,
    has_package_json: bool,
}

impl ZipConnector {
    /// The entry names, in archive order.
    pub closed spec fn entry_names(&self) -> Seq<Seq<char>> {
        archive_entry_names(self.archive)
    }

    /// The text of each entry, where it has one.
    pub closed spec fn entry_texts(&self) -> Seq<Option<Seq<char>>> {
        archive_entry_texts(self.archive)
    }

    pub closed spec fn wf(&self) -> bool {
        self.has_package_json == names_hold_manifest(archive_entry_names(self.archive))
    }

    /// Opens the archive that `bytes` hold; bytes that do not parse as one
    /// are refused.
    pub fn new(bytes: Vec<u8>) -> (r: Result<ZipConnector, ConnectorError>)
        ensures
            r is Ok <==> archive_readable(bytes@),
            r is Err ==> r matches Err(ConnectorError::InvalidArchive),
            r matches Ok(c) ==> c.wf(),
    {
        let archive = match open_archive(bytes) {
            Ok(a) => a,
            Err(_) => return Err(ConnectorError::InvalidArchive),
        };
        let ghost names = archive_entry_names(archive);
        let n = entry_count(&archive);
        let mut found = false;
        let mut i: usize = 0;
        while i < n
            invariant
                n == names.len(),
                names == archive_entry_names(archive),
                i <= n,
                found == exists|j: int| 0 <= j < i && #[trigger] has_suffix(names[j], MANIFEST_FILE@),
            decreases n - i,
        {
            if let Some(name) = entry_name_at(&archive, i) {
                if ends_with(name.as_str(), MANIFEST_FILE) {
                    found = true;
                }
            }
            i = i + 1;
        }
        Ok(ZipConnector { archive, has_package_json: found })
    }

    /// The number of entries.
    pub fn len(&self) -> (r: usize)
        ensures
            r == self.entry_names().len(),
    {
        entry_count(&self.archive)
    }

    /// The name of the entry at an index, verbatim; none past the last.
    pub fn entry_name(&self, index: usize) -> (r: Option<String>)
        ensures
            index < self.entry_names().len() ==> r.deep_view() == Some(self.entry_names()[index as int]),
            index >= self.entry_names().len() ==> r is None,
    {
        entry_name_at(&self.archive, index)
    }

    /// Whether some entry name ends with `package.json`.
    pub fn has_package_json(&self) -> (r: bool)
        requires
            self.wf(),
        ensures
            r == names_hold_manifest(self.entry_names()),
    {
        self.has_package_json
    }

    /// An enumeration of the entry names, in archive order.
    pub fn iter(&self) -> (r: ZipFileIterator)
        ensures
            r.current_index == 0,
            r.total_files == self.entry_names().len(),
    {
        ZipFileIterator { current_index: 0, total_files: self.len() }
    }

    /// The text of the first entry whose name is exactly `path`. A path that
    /// no entry has is an entry-not-found error, never empty text.
    pub fn get_file_content(&mut self, path: &str) -> (r: Result<String, ConnectorError>)
        requires
            old(self).wf(),
        ensures
            final(self).wf(),
            final(self).entry_names() == old(self).entry_names(),
            final(self).entry_texts() == old(self).entry_texts(),
            !old(self).entry_names().contains(path@) ==> r matches Err(
                ConnectorError::EntryNotFound,
            ),
            forall|i: int|
                is_first_index(old(self).entry_names(), path@, i) ==> match r {
                    Ok(s) => old(self).entry_texts()[i] == Some(s@),
                    Err(e) => e is EntryUnreadable && old(self).entry_texts()[i] is None,
                },
    {
        let ghost names = archive_entry_names(self.archive);
        let wanted = path.to_owned();
        let n = entry_count(&self.archive);
        let mut i: usize = 0;
        while i < n
            invariant
                n == names.len(),
                names == archive_entry_names(self.archive),
                self.archive == old(self).archive,
                self.has_package_json == old(self).has_package_json,
                old(self).wf(),
                wanted@ == path@,
                i <= n,
                forall|j: int| 0 <= j < i ==> names[j] != path@,
            decreases n - i,
        {
            match entry_name_at(&self.archive, i) {
                Some(name) => {
                    if name == wanted {
                        assert(is_first_index(names, path@, i as int));
                        return match read_entry(&mut self.archive, i) {
                            Ok(text) => Ok(text),
                            Err(_) => Err(ConnectorError::EntryUnreadable),
                        };
                    }
                },
                None => {},
            }
            i = i + 1;
        }
        Err(ConnectorError::EntryNotFound)
    }
}

/// Walks the entry names of a [`ZipConnector`] by index, reading one name at a
/// time.
pub struct ZipFileIterator {
    pub current_index: usize,
    pub total_files: usize,
}

impl ZipFileIterator {
    /// The name of the next entry; none once every entry was handed out.
    pub fn next(&mut self, connector: &ZipConnector) -> (r: Option<String>)
        requires
            old(self).total_files == connector.entry_names().len(),
        ensures
            final(self).total_files == old(self).total_files,
            old(self).current_index >= old(self).total_files ==> (r is None) && *final(self) == *old(self),
            old(self).current_index < old(self).total_files ==> r.deep_view() == Some(
                connector.entry_names()[old(self).current_index as int],
            ) && final(self).current_index == old(self).current_index + 1,
    {
        if self.current_index >= self.total_files {
            return None;
        }
        let r = connector.entry_name(self.current_index);
        self.current_index = self.current_index + 1;
        r
    }
}

} // verus!
