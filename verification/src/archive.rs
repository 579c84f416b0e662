//! The container session: the opened compressed archive that holds the
//! document's root descriptor, resource tables and embedded media files,
//! together with the root descriptor's path.
//!
//! The archive itself is the `zip` crate's reader over an in-memory buffer;
//! the engine sees it only through the trusted accessors below, whose
//! contracts speak of the abstract entry map `archive_entries`.

use vstd::prelude::*;

use std::io::Read;

verus! {

/// Relies on `zip::ZipArchive`, the zip crate's reader over a seekable
/// source; declared opaquely so that it can stand in a field.
#[verifier::external_type_specification]
#[verifier::external_body]
#[verifier::reject_recursive_types(R)]
pub struct ExZipArchive<R>(zip::ZipArchive<R>);

/// Relies on `std::io::Cursor`, the in-memory reader the archive is opened
/// over; declared opaquely so that it can stand in a field.
#[verifier::external_type_specification]
#[verifier::external_body]
#[verifier::reject_recursive_types(T)]
pub struct ExCursor<T>(std::io::Cursor<T>);

/// The opened compressed container. Reads may advance internal decoder
/// state, so reading takes the archive mutably, but the entry map never
/// changes once the container is open.
pub struct Archive {
    inner: zip::ZipArchive<std::io::Cursor<Vec<u8>>>,
}

/// The contents of the archive: for each entry reachable by name lookup, the
/// UTF-8 bytes of its name mapped to its fully decompressed contents.
pub uninterp spec fn archive_entries(a: Archive) -> Map<Seq<u8>, Seq<u8>>;

/// How an archive access can fail.
#[derive(Clone, Copy, Debug, PartialEq, Eq, Structural)]
pub enum ArchiveError {
    /// No entry of the requested name exists in the archive.
    EntryMissing,
    /// The entry exists but reading or decompressing it failed.
    Io,
    /// The buffer does not hold a well-formed archive.
    Invalid,
}

impl Archive {
    /// Opens a container over an in-memory buffer.
    ///
    /// Relies on `zip::ZipArchive::new`, which parses the buffer's central
    /// directory and fails on a malformed archive.
    #[verifier::external_body]
    pub fn from_bytes(bytes: Vec<u8>) -> (r: Result<Archive, ArchiveError>)
    {
        match zip::ZipArchive::new(std::io::Cursor::new(bytes)) {
            Ok(inner) => Ok(Archive { inner }),
            Err(zip::result::ZipError::Io(_)) => Err(ArchiveError::Io),
            Err(_) => Err(ArchiveError::Invalid),
        }
    }

    /// Reads one entry to completion by exact, case-sensitive name match; no
    /// normalization, no retry, no caching.
    ///
    /// Relies on `zip::ZipArchive::by_name`, which looks the name up by its
    /// exact bytes and answers `FileNotFound` exactly when it is absent, and
    /// on `std::io::Read::read_to_end`, which on success has appended the
    /// entry's whole decompressed contents.
    #[verifier::external_body]
    pub fn read_entry(&mut self, name: &Vec<u8>) -> (r: Result<Vec<u8>, ArchiveError>)
        ensures
            archive_entries(*final(self)) == archive_entries(*old(self)),
            !archive_entries(*old(self)).contains_key(name@) ==> (r matches Err(e) && e == ArchiveError::EntryMissing),
            r matches Ok(bytes) ==> archive_entries(*old(self)).contains_key(name@) && bytes@ == archive_entries(*old(self))[name@],
            (r matches Err(e) && e == ArchiveError::EntryMissing) ==> !archive_entries(*old(self)).contains_key(name@),
            r matches Err(e) ==> e != ArchiveError::Invalid,
    {
        let text = match std::str::from_utf8(name) {
            Ok(text) => text,
            Err(_) => return Err(ArchiveError::EntryMissing),
        };
        let mut entry = match self.inner.by_name(text) {
            Ok(entry) => entry,
            Err(zip::result::ZipError::FileNotFound) => return Err(ArchiveError::EntryMissing),
            Err(_) => return Err(ArchiveError::Io),
        };
        let mut contents = Vec::new();
        match entry.read_to_end(&mut contents) {
            Ok(_) => Ok(contents),
            Err(_) => Err(ArchiveError::Io),
        }
    }
}

/// The container session: the open archive and the path of the document's
/// root descriptor inside it.
pub struct Ofd {
    pub archive: Archive,
    /// Archive-relative path of the root descriptor; media paths are
    /// resolved from its parent directory.
    pub doc_root: Vec<u8>,
}

} // verus!
