//! Resource resolution: locating a font or image reference in the document's
//! resource tables, building the archive-relative path of a media file, and
//! reading and checking its bytes.

use vstd::prelude::*;

use crate::archive::ArchiveError;
use crate::archive::Ofd;
use crate::archive::archive_entries;
use crate::doc::Document;
use crate::doc::Font;
use crate::doc::MultiMedia;

verus! {

/// The path separator of archive entry names.
pub const SLASH: u8 = 47;

/// How resolving a required byte resource can fail. Absence of an optional
/// reference (a font, a colour, a transform) is never an error; it is
/// resolved with a documented default.
#[derive(Clone, Copy, Debug, PartialEq, Eq, Structural)]
pub enum ResolveError {
    /// The referenced id is absent from its resource table.
    ResourceNotFound,
    /// The resolved path names no entry of the container archive.
    ArchiveEntryMissing,
    /// The entry's bytes cannot be decoded as the expected raster format
    /// (or could not be fully read out of the archive).
    DecodeError,
}

/// The first font of the table carrying the given id, if any.
pub open spec fn find_font(fonts: Seq<Font>, id: u64) -> Option<Font>
    decreases fonts.len(),
{
    if fonts.len() == 0 {
        None
    } else if fonts[0].id == id {
        Some(fonts[0])
    } else {
        find_font(fonts.drop_first(), id)
    }
}

/// The first multimedia entry of the table carrying the given id, if any.
pub open spec fn find_media(medias: Seq<MultiMedia>, id: u64) -> Option<MultiMedia>
    decreases medias.len(),
{
    if medias.len() == 0 {
        None
    } else if medias[0].id == id {
        Some(medias[0])
    } else {
        find_media(medias.drop_first(), id)
    }
}

/// Linear scan of the document's font table: the first entry with a matching
/// id, or nothing. An absent font id is not an error; text renders with the
/// backend's default family.
pub fn resolve_font<'a>(document: &'a Document, id: u64) -> (r: Option<&'a Font>)
    ensures
        match r {
            Some(f) => find_font(document.public_res.fonts@, id) == Some(*f),
            None => find_font(document.public_res.fonts@, id) is None,
        },
{
    let fonts = &document.public_res.fonts;
    let ghost all = fonts@;
    proof {
        assert(all.skip(0) =~= all);
    }
    let mut i: usize = 0;
    while i < fonts.len()
        invariant
            0 <= i <= all.len(),
            fonts@ == all,
            all == document.public_res.fonts@,
            find_font(all, id) == find_font(all.skip(i as int), id),
        decreases all.len() - i,
    {
        proof {
            assert(all.skip(i as int).len() == all.len() - i);
            assert(all.skip(i as int)[0] == all[i as int]);
        }
        if fonts[i].id == id {
            proof {
                assert(find_font(all.skip(i as int), id) == Some(all[i as int]));
            }
            return Some(&fonts[i]);
        }
        proof {
            assert(all.skip(i as int).drop_first() =~= all.skip(i as int + 1));
        }
        i = i + 1;
    }
    proof {
        assert(all.skip(all.len() as int) =~= Seq::<Font>::empty());
    }
    None
}

/// Linear scan of the document resource table: the first multimedia entry
/// with a matching id, or nothing.
pub fn resolve_media<'a>(document: &'a Document, id: u64) -> (r: Option<&'a MultiMedia>)
    ensures
        match r {
            Some(m) => find_media(document.doc_res.multi_medias@, id) == Some(*m),
            None => find_media(document.doc_res.multi_medias@, id) is None,
        },
{
    let medias = &document.doc_res.multi_medias;
    let ghost all = medias@;
    proof {
        assert(all.skip(0) =~= all);
    }
    let mut i: usize = 0;
    while i < medias.len()
        invariant
            0 <= i <= all.len(),
            medias@ == all,
            all == document.doc_res.multi_medias@,
            find_media(all, id) == find_media(all.skip(i as int), id),
        decreases all.len() - i,
    {
        proof {
            assert(all.skip(i as int).len() == all.len() - i);
            assert(all.skip(i as int)[0] == all[i as int]);
        }
        if medias[i].id == id {
            proof {
                assert(find_media(all.skip(i as int), id) == Some(all[i as int]));
            }
            return Some(&medias[i]);
        }
        proof {
            assert(all.skip(i as int).drop_first() =~= all.skip(i as int + 1));
        }
        i = i + 1;
    }
    proof {
        assert(all.skip(all.len() as int) =~= Seq::<MultiMedia>::empty());
    }
    None
}

/// The parent directory of an archive path: everything before its last
/// separator, or empty when it has none.
pub open spec fn parent_dir(p: Seq<u8>) -> Seq<u8>
    decreases p.len(),
{
    if p.len() == 0 {
        p
    } else if p.last() == SLASH {
        p.drop_last()
    } else {
        parent_dir(p.drop_last())
    }
}

/// Joins a further component onto a path: a component that starts with a
/// separator replaces the path, anything else is appended after one
/// separator (or stands alone when the path is empty).
pub open spec fn join_loc(a: Seq<u8>, b: Seq<u8>) -> Seq<u8> {
    if b.len() > 0 && b[0] == SLASH {
        b
    } else if a.len() == 0 {
        b
    } else {
        a + seq![SLASH] + b
    }
}

/// The archive entry name of a media file: the document root's parent
/// directory, then the document's base location, then the file name.
pub open spec fn media_entry_path(doc_root: Seq<u8>, base_loc: Seq<u8>, media_file: Seq<u8>) -> Seq<
    u8,
> {
    join_loc(join_loc(parent_dir(doc_root), base_loc), media_file)
}

/// Byte-for-byte copy of a path component.
fn copy_bytes(src: &Vec<u8>) -> (r: Vec<u8>)
    ensures
        r@ == src@,
{
    let mut r: Vec<u8> = Vec::new();
    let mut i: usize = 0;
    while i < src.len()
        invariant
            0 <= i <= src@.len(),
            r@ == src@.take(i as int),
        decreases src@.len() - i,
    {
        r.push(src[i]);
        proof {
            assert(src@.take(i as int).push(src@[i as int]) =~= src@.take(i as int + 1));
        }
        i = i + 1;
    }
    proof {
        assert(src@.take(src@.len() as int) =~= src@);
    }
    r
}

/// The parent directory of an archive path, as executable code.
pub fn parent_dir_of(p: &Vec<u8>) -> (r: Vec<u8>)
    ensures
        r@ == parent_dir(p@),
{
    let mut i: usize = p.len();
    proof {
        assert(p@.take(p@.len() as int) =~= p@);
    }
    while i > 0 && p[i - 1] != SLASH
        invariant
            0 <= i <= p@.len(),
            parent_dir(p@) == parent_dir(p@.take(i as int)),
        decreases i,
    {
        proof {
            assert(p@.take(i as int).drop_last() =~= p@.take(i as int - 1));
            assert(p@.take(i as int).last() == p@[i as int - 1]);
        }
        i = i - 1;
    }
    if i == 0 {
        Vec::new()
    } else {
        proof {
            assert(p@.take(i as int).last() == p@[i as int - 1]);
            assert(p@.take(i as int).drop_last() =~= p@.take(i as int - 1));
        }
        let mut r: Vec<u8> = Vec::new();
        let mut j: usize = 0;
        while j < i - 1
            invariant
                0 < i <= p@.len(),
                0 <= j <= i - 1,
                r@ == p@.take(j as int),
            decreases i - j,
        {
            r.push(p[j]);
            proof {
                assert(p@.take(j as int).push(p@[j as int]) =~= p@.take(j as int + 1));
            }
            j = j + 1;
        }
        r
    }
}

/// Joins a further component onto a path, as executable code.
fn join_component(a: Vec<u8>, b: &Vec<u8>) -> (r: Vec<u8>)
    ensures
        r@ == join_loc(a@, b@),
{
    if b.len() > 0 && b[0] == SLASH {
        copy_bytes(b)
    } else if a.len() == 0 {
        copy_bytes(b)
    } else {
        let ghost a0 = a@;
        let mut r = a;
        r.push(SLASH);
        let mut i: usize = 0;
        while i < b.len()
            invariant
                0 <= i <= b@.len(),
                r@ == a0 + seq![SLASH] + b@.take(i as int),
            decreases b@.len() - i,
        {
            r.push(b[i]);
            proof {
                assert((a0 + seq![SLASH] + b@.take(i as int)).push(b@[i as int]) =~= a0
                    + seq![SLASH] + b@.take(i as int + 1));
            }
            i = i + 1;
        }
        proof {
            assert(a0 + seq![SLASH] + b@.take(b@.len() as int) =~= a0 + seq![SLASH] + b@);
        }
        r
    }
}

/// Builds the archive entry name of a media file by joining the document
/// root's parent directory, the document's base location and the file name.
pub fn media_entry_name(doc_root: &Vec<u8>, base_loc: &Vec<u8>, media_file: &Vec<u8>) -> (r: Vec<
    u8,
>)
    ensures
        r@ == media_entry_path(doc_root@, base_loc@, media_file@),
{
    let parent = parent_dir_of(doc_root);
    let prefix = join_component(parent, base_loc);
    join_component(prefix, media_file)
}

/// The big-endian 32-bit value at offset `i`.
pub open spec fn be_u32(b: Seq<u8>, i: int) -> int {
    b[i] * 0x100_0000 + b[i + 1] * 0x1_0000 + b[i + 2] * 0x100 + b[i + 3]
}

/// The fixed eight-byte signature and the header chunk tag of the expected
/// raster format, at their fixed offsets.
pub open spec fn png_header_ok(b: Seq<u8>) -> bool {
    &&& b.len() >= 24
    &&& b[0] == 137u8
    &&& b[1] == 80u8
    &&& b[2] == 78u8
    &&& b[3] == 71u8
    &&& b[4] == 13u8
    &&& b[5] == 10u8
    &&& b[6] == 26u8
    &&& b[7] == 10u8
    &&& b[12] == 73u8
    &&& b[13] == 72u8
    &&& b[14] == 68u8
    &&& b[15] == 82u8
}

/// The pixel dimensions a raster surface decoded from these bytes will have:
/// the width and height fields of the header chunk. Nothing when the bytes
/// do not begin with a well-formed header, or when either dimension is zero.
pub open spec fn png_dims(b: Seq<u8>) -> Option<(u32, u32)> {
    if png_header_ok(b) && be_u32(b, 16) > 0 && be_u32(b, 20) > 0 {
        Some((be_u32(b, 16) as u32, be_u32(b, 20) as u32))
    } else {
        None
    }
}

/// Reads the pixel dimensions out of a raster file's fixed-offset header
/// fields, rejecting bytes that do not begin with the expected signature and
/// header chunk or that declare an empty surface.
pub fn png_dimensions(bytes: &Vec<u8>) -> (r: Option<(u32, u32)>)
    ensures
        r == png_dims(bytes@),
{
    if bytes.len() < 24 {
        return None;
    }
    let sig_ok = bytes[0] == 137 && bytes[1] == 80 && bytes[2] == 78 && bytes[3] == 71 && bytes[4]
        == 13 && bytes[5] == 10 && bytes[6] == 26 && bytes[7] == 10;
    let tag_ok = bytes[12] == 73 && bytes[13] == 72 && bytes[14] == 68 && bytes[15] == 82;
    if !(sig_ok && tag_ok) {
        return None;
    }
    let w: u32 = (bytes[16] as u32) * 0x100_0000 + (bytes[17] as u32) * 0x1_0000 + (
    bytes[18] as u32) * 0x100 + (bytes[19] as u32);
    let h: u32 = (bytes[20] as u32) * 0x100_0000 + (bytes[21] as u32) * 0x1_0000 + (
    bytes[22] as u32) * 0x100 + (bytes[23] as u32);
    if w > 0 && h > 0 {
        Some((w, h))
    } else {
        None
    }
}

/// The multimedia entry a document's resource table holds for an id.
pub open spec fn media_of(document: Document, id: u64) -> Option<MultiMedia> {
    find_media(document.doc_res.multi_medias@, id)
}

/// The archive entry name of one multimedia entry's file, resolved against
/// a document and the root descriptor path.
pub open spec fn media_path_in(document: Document, doc_root: Seq<u8>, m: MultiMedia) -> Seq<u8> {
    media_entry_path(doc_root, document.doc_res.base_loc@, m.media_file@)
}

/// A resolved and checked raster resource: its raw bytes and the dimensions
/// its decoded surface will have.
pub struct ResolvedImage {
    pub bytes: Vec<u8>,
    pub width: u32,
    pub height: u32,
}

/// Scans the document resource table for the id; if absent, the resource is
/// not found. If present, builds the media file's archive entry name from
/// the root descriptor's parent directory, the document's base location and
/// the file name, and reads that exact entry: an absent entry is
/// `ArchiveEntryMissing`, bytes that cannot be read out or do not carry the
/// expected raster header are `DecodeError`.
pub fn resolve_image_bytes(ofd: &mut Ofd, document: &Document, id: u64) -> (r: Result<
    ResolvedImage,
    ResolveError,
>)
    ensures
        archive_entries(final(ofd).archive) == archive_entries(old(ofd).archive),
        final(ofd).doc_root@ == old(ofd).doc_root@,
        (media_of(*document, id) is None) <==> (r matches Err(e) && e == ResolveError::ResourceNotFound),
        media_of(*document, id) matches Some(m) ==> ((r matches Err(e) && e == ResolveError::ArchiveEntryMissing) <==> !archive_entries(old(ofd).archive).contains_key(media_path_in(*document, old(ofd).doc_root@, m))),
        r matches Ok(img) ==> (media_of(*document, id) matches Some(m) && archive_entries(old(ofd).archive).contains_key(media_path_in(*document, old(ofd).doc_root@, m)) && img.bytes@ == archive_entries(old(ofd).archive)[media_path_in(*document, old(ofd).doc_root@, m)] && png_dims(img.bytes@) == Some((img.width, img.height))),
        (r matches Err(e) && e == ResolveError::DecodeError) ==> (media_of(*document, id) matches Some(m) && archive_entries(old(ofd).archive).contains_key(media_path_in(*document, old(ofd).doc_root@, m))),
        media_of(*document, id) matches Some(m) && archive_entries(old(ofd).archive).contains_key(media_path_in(*document, old(ofd).doc_root@, m)) && png_dims(archive_entries(old(ofd).archive)[media_path_in(*document, old(ofd).doc_root@, m)]) is None ==> (r matches Err(e) && e == ResolveError::DecodeError),
{
    let media = match resolve_media(document, id) {
        None => {
            return Err(ResolveError::ResourceNotFound);
        },
        Some(media) => media,
    };
    let name = media_entry_name(&ofd.doc_root, &document.doc_res.base_loc, &media.media_file);
    let bytes = match ofd.archive.read_entry(&name) {
        Ok(bytes) => bytes,
        Err(ArchiveError::EntryMissing) => {
            return Err(ResolveError::ArchiveEntryMissing);
        },
        Err(_) => {
            return Err(ResolveError::DecodeError);
        },
    };
    match png_dimensions(&bytes) {
        Some((width, height)) => Ok(ResolvedImage { bytes, width, height }),
        None => Err(ResolveError::DecodeError),
    }
}

} // verus!
