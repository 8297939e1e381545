//! Compressed archives of named files, and the digests of bytes. The formats
//! are the work of `flate2`, `tar`, `sha2` and `hex`.

use std::io::Read;

use vstd::prelude::*;
use vstd::utf8::{decode_utf8, encode_utf8, valid_utf8};

use crate::text::pieces;

verus! {

/// One entry of an archive.
pub struct ArchiveEntry {
    /// It is a regular file.
    pub regular: bool,
    /// Its path, or why there is none.
    pub path: Result<String, String>,
    /// Its bytes, or why they could not be read.
    pub data: Result<Vec<u8>, String>,
}

/// An entry as a mathematical value.
pub ghost struct EntryView {
    pub regular: bool,
    pub path: Result<Seq<char>, Seq<char>>,
    pub data: Result<Seq<u8>, Seq<char>>,
}

impl View for ArchiveEntry {
    type V = EntryView;

    open spec fn view(&self) -> EntryView {
        EntryView {
            regular: self.regular,
            path: match self.path {
                Ok(p) => Ok(p@),
                Err(e) => Err(e@),
            },
            data: match self.data {
                Ok(d) => Ok(d@),
                Err(e) => Err(e@),
            },
        }
    }
}

/// What reading an archive gives, item by item: an entry, or the error that
/// ends the archive.
pub open spec fn item_views(
    v: Seq<Result<ArchiveEntry, String>>,
) -> Seq<Result<EntryView, Seq<char>>> {
    Seq::new(
        v.len(),
        |i: int|
            match v[i] {
                Ok(e) => Ok(e@),
                Err(e) => Err(e@),
            },
    )
}

/// Names and bytes of files.
pub open spec fn file_views(v: Seq<(String, Vec<u8>)>) -> Seq<(Seq<char>, Seq<u8>)> {
    Seq::new(v.len(), |i: int| (v[i].0@, v[i].1@))
}

/// What reading gives of files that were written under names that it keeps.
pub open spec fn stored(files: Seq<(Seq<char>, Seq<u8>)>) -> Seq<Result<EntryView, Seq<char>>> {
    Seq::new(
        files.len(),
        |i: int|
            Ok(
                EntryView {
                    regular: true,
                    path: Ok(files[i].0),
                    data: Ok(files[i].1),
                },
            ),
    )
}

/// A relative path written in the plainest way: segments with a slash between
/// them, none of them empty, `.` or `..`, without a backslash or a zero character.
pub open spec fn plain_name(name: Seq<char>) -> bool {
    &&& forall|i: int|
        0 <= i < pieces(name, seq!['/']).len() ==> plain_segment(
            #[trigger] pieces(name, seq!['/'])[i],
        )
    &&& forall|i: int| 0 <= i < name.len() ==> #[trigger] name[i] != '\0' && name[i] != '\\'
}

pub open spec fn plain_segment(s: Seq<char>) -> bool {
    s.len() > 0 && s != seq!['.'] && s != seq!['.', '.']
}

/// A plain name of at most a hundred bytes, which an archive can always hold.
pub open spec fn short_name(name: Seq<char>) -> bool {
    plain_name(name) && encode_utf8(name).len() <= 100
}

pub open spec fn all_plain(files: Seq<(Seq<char>, Seq<u8>)>) -> bool {
    forall|i: int| 0 <= i < files.len() ==> plain_name((#[trigger] files[i]).0)
}

pub open spec fn all_short(files: Seq<(Seq<char>, Seq<u8>)>) -> bool {
    forall|i: int| 0 <= i < files.len() ==> short_name((#[trigger] files[i]).0)
}

/// The bytes that were written, or the message of the error.
pub open spec fn written_view(r: Result<Vec<u8>, String>) -> Result<Seq<u8>, Seq<char>> {
    match r {
        Ok(b) => Ok(b@),
        Err(e) => Err(e@),
    }
}

pub uninterp spec fn archive_contents(bytes: Seq<u8>) -> Seq<Result<EntryView, Seq<char>>>;

pub uninterp spec fn archive_bytes(
    level: int,
    mode: int,
    uid: int,
    gid: int,
    mtime: int,
    files: Seq<(Seq<char>, Seq<u8>)>,
) -> Result<Seq<u8>, Seq<char>>;

pub uninterp spec fn sha256_of(data: Seq<u8>) -> Seq<u8>;

pub uninterp spec fn utf8_error(data: Seq<u8>) -> Seq<char>;

pub uninterp spec fn utf8_lossy(data: Seq<u8>) -> Seq<char>;

/// Reads a gzip-compressed archive: `tar::Archive::entries` over a
/// `flate2::read::GzDecoder`, each entry with its type, its path and its bytes.
/// What comes out is a function of the bytes that go in.
#[verifier::external_body]
pub(crate) fn read_archive(bytes: &[u8]) -> (r: Vec<Result<ArchiveEntry, String>>)
    ensures
        item_views(r@) == archive_contents(bytes@),
{
    let mut archive = tar::Archive::new(flate2::read::GzDecoder::new(bytes));
    let entries = match archive.entries() {
        Ok(entries) => entries,
        Err(e) => return vec![Err(e.to_string())],
    };
    entries.map(|item| {
        let mut entry = item.map_err(|e| e.to_string())?;
        let regular = entry.header().entry_type().is_file();
        let path = entry.path().map(|p| p.to_string_lossy().into_owned()).map_err(|e| e.to_string());
        let mut buffer = Vec::new();
        let data = entry.read_to_end(&mut buffer).map(|_| buffer).map_err(|e| e.to_string());
        Ok(ArchiveEntry { regular, path, data })
    }).collect()
}

/// Writes a gzip-compressed archive: a `tar::Builder` over a
/// `flate2::write::GzEncoder`, one `ustar` header per file, with the given mode,
/// owner and time. The bytes are a function of the arguments. Names that are plain and short
/// are always accepted, and reading an archive of plain names gives the same files
/// in the same order. What reading gives of a name with a backslash is left unsaid: on
/// some machines that is a separator.
#[verifier::external_body]
pub(crate) fn write_archive(
    level: u32,
    mode: u32,
    uid: u64,
    gid: u64,
    mtime: u64,
    files: &Vec<(String, Vec<u8>)>,
) -> (r: Result<Vec<u8>, String>)
    requires
        level <= 9,
        mode <= 0o7777,
        uid <= 0o7777777,
        gid <= 0o7777777,
        mtime <= 0o77777777777,
    ensures
        written_view(r) == archive_bytes(
            level as int,
            mode as int,
            uid as int,
            gid as int,
            mtime as int,
            file_views(files@),
        ),
        all_short(file_views(files@)) ==> r is Ok,
        r is Ok && all_plain(file_views(files@)) ==> archive_contents(r->Ok_0@) == stored(
            file_views(files@),
        ),
{
    let gz = flate2::write::GzEncoder::new(Vec::new(), flate2::Compression::new(level));
    let mut builder = tar::Builder::new(gz);
    for (name, data) in files {
        let mut header = tar::Header::new_ustar();
        header.set_path(name).map_err(|e| e.to_string())?;
        header.set_size(data.len() as u64);
        header.set_mode(mode);
        header.set_uid(uid);
        header.set_gid(gid);
        header.set_mtime(mtime);
        header.set_entry_type(tar::EntryType::Regular);
        header.set_cksum();
        builder.append(&header, data.as_slice()).map_err(|e| e.to_string())?;
    }
    builder.into_inner().and_then(|gz| gz.finish()).map_err(|e| e.to_string())
}

/// The SHA-256 digest: `sha2::Sha256::digest`. Thirty-two bytes that are a
/// function of the data.
#[verifier::external_body]
fn sha256(data: &[u8]) -> (r: Vec<u8>)
    ensures
        r@ == sha256_of(data@),
        r@.len() == 32,
{
    <sha2::Sha256 as sha2::Digest>::digest(data).to_vec()
}

/// The lower-case hexadecimal digit of a value below sixteen.
pub open spec fn hex_digit(n: int) -> char {
    if n < 10 {
        ((48 + n) as u32) as char
    } else {
        ((87 + n) as u32) as char
    }
}

/// Two lower-case hexadecimal digits per byte, the high half first.
pub open spec fn hex_text(data: Seq<u8>) -> Seq<char> {
    Seq::new(
        (2 * data.len()) as nat,
        |i: int|
            if i % 2 == 0 {
                hex_digit(data[i / 2] as int / 16)
            } else {
                hex_digit(data[i / 2] as int % 16)
            },
    )
}

/// Bytes in hexadecimal: `hex::encode`, two lower-case digits per byte.
#[verifier::external_body]
fn hex_encode(data: &[u8]) -> (r: String)
    ensures
        r@ == hex_text(data@),
{
    hex::encode(data)
}

/// The SHA-256 digest of bytes, in hexadecimal.
pub open spec fn sha256_text(data: Seq<u8>) -> Seq<char> {
    hex_text(sha256_of(data))
}

/// The SHA-256 digest of bytes, in hexadecimal.
pub fn sha256_bytes(data: &[u8]) -> (r: String)
    ensures
        r@ == sha256_text(data@),
        r@.len() == 64,
{
    let d = sha256(data);
    hex_encode(d.as_slice())
}

/// The text that bytes encode: `std::str::from_utf8`. It fails exactly on bytes
/// that are not UTF-8, with a message that is a function of them.
#[verifier::external_body]
pub(crate) fn utf8_text(data: &[u8]) -> (r: Result<String, String>)
    ensures
        match r {
            Ok(s) => valid_utf8(data@) && s@ == decode_utf8(data@),
            Err(e) => !valid_utf8(data@) && e@ == utf8_error(data@),
        },
{
    std::str::from_utf8(data).map(|s| s.to_string()).map_err(|e| e.to_string())
}

/// The text that bytes encode, with a replacement character for what is not
/// UTF-8: `String::from_utf8_lossy`. It is a function of the bytes, and the
/// encoded text itself where they are UTF-8.
#[verifier::external_body]
pub(crate) fn utf8_text_lossy(data: &[u8]) -> (r: String)
    ensures
        r@ == utf8_lossy(data@),
        valid_utf8(data@) ==> r@ == decode_utf8(data@),
{
    String::from_utf8_lossy(data).into_owned()
}

} // verus!
