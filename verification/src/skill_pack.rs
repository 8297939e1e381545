//! Packing skill folders into archives and taking them apart again.
//!
//! An archive holds the files of a skill, in the order of their names, and a
//! manifest with the digest of each. Whatever comes out of an archive has been
//! held against that manifest.

use vstd::prelude::*;
use vstd::utf8::{decode_utf8, encode_utf8, valid_utf8};

use crate::archive::{
    all_plain, all_short, archive_bytes, archive_contents, file_views, item_views, plain_name,
    plain_segment, read_archive, sha256_bytes, sha256_text, short_name, stored, utf8_error,
    utf8_text, write_archive, ArchiveEntry, EntryView,
};
use crate::config::{json_file, json_name};
use crate::errors::{
    io_error, json_error, prefixed, user_error, user_error_hint, CliError, ErrorView,
};
use crate::json::{
    field, json_parsed, json_pretty, member_views, plain, reads_as, render_pretty, Json, JsonView,
};
use crate::numbers::{decimal, u64_text};
use crate::order::{
    ascending, byte_contents, in_order, keys_of, text_contents, text_lt, TextMap,
};
use crate::text::{
    debug_form, debug_list, debug_text, debug_texts, has_prefix, join, joined, pieces, same,
    slice_views, split, starts_with, views,
};

pub mod laws;

verus! {

pub open spec fn slash() -> Seq<char> {
    seq!['/']
}

// ---------------------------------------------------------------------------
// Names
// ---------------------------------------------------------------------------

/// The components among the first `n` segments of a path: those that are not
/// empty, nor a `.` behind the first place.
pub open spec fn components_of(parts: Seq<Seq<char>>, n: int) -> Seq<Seq<char>>
    decreases n,
{
    if n <= 0 {
        seq![]
    } else {
        let rest = components_of(parts, n - 1);
        let p = parts[n - 1];
        if p.len() == 0 || (p == "."@ && n - 1 > 0) {
            rest
        } else {
            rest.push(p)
        }
    }
}

/// The components of a path: the root where it is absolute, and its segments.
pub open spec fn components(path: Seq<char>) -> Seq<Seq<char>> {
    let parts = pieces(path, slash());
    let root: Seq<Seq<char>> = if has_prefix(path, "/"@) {
        seq!["/"@]
    } else {
        seq![]
    };
    root + components_of(parts, parts.len() as int)
}

/// The name under which a path is kept: its components with a slash between them.
pub open spec fn arcname(path: Seq<char>) -> Seq<char> {
    joined(components(path), "/"@)
}

proof fn lemma_slash()
    ensures
        "/"@ == slash(),
        "."@ == seq!['.'],
        ".."@ == seq!['.', '.'],
{
    reveal_strlit("/");
    reveal_strlit(".");
    reveal_strlit("..");
    assert("/"@ =~= slash());
    assert("."@ =~= seq!['.']);
    assert(".."@ =~= seq!['.', '.']);
}

/// The name under which a path is kept.
pub fn posix_arcname(path: &str) -> (r: String)
    ensures
        r@ == arcname(path@),
{
    proof {
        lemma_slash();
    }
    let parts = split(path, "/");
    let mut kept: Vec<&str> = Vec::new();
    if starts_with(path, "/") {
        kept.push("/");
    }
    let ghost root = slice_views(kept@);
    let ghost all = slice_views(parts@);
    proof {
        if has_prefix(path@, "/"@) {
            assert(root =~= seq!["/"@]);
        } else {
            assert(root =~= seq![]);
        }
        assert(root + components_of(all, 0) =~= root);
    }
    let mut i: usize = 0;
    while i < parts.len()
        invariant
            i <= parts.len(),
            all == slice_views(parts@),
            slice_views(kept@) == root + components_of(all, i as int),
        decreases parts.len() - i,
    {
        let p = parts[i];
        if !(p.is_empty() || (same(p, ".") && i > 0)) {
            let ghost was = slice_views(kept@);
            kept.push(p);
            assert(slice_views(kept@) =~= was.push(p@));
            assert(root + components_of(all, i as int).push(p@) =~= was.push(p@));
        }
        i += 1;
    }
    join(kept.as_slice(), "/")
}

/// A name that could lead out of the folder that it is put into.
pub open spec fn unsafe_name(name: Seq<char>) -> bool {
    has_prefix(name, "/"@) || pieces(name, slash()).contains(".."@)
}

pub open spec fn unsafe_name_error(name: Seq<char>) -> ErrorView {
    ErrorView::User {
        code: "UNPACK_UNSAFE_NAME"@,
        message: "unsafe tar entry: "@ + debug_form(name),
        hint: None,
    }
}

/// Refuses names that are absolute or have a `..` among their segments.
pub fn check_safe_name(name: &str) -> (r: Result<(), CliError>)
    ensures
        match r {
            Ok(_) => !unsafe_name(name@),
            Err(e) => unsafe_name(name@) && e@ == unsafe_name_error(name@),
        },
{
    proof {
        lemma_slash();
    }
    let parts = split(name, "/");
    let ghost all = slice_views(parts@);
    let mut bad = starts_with(name, "/");
    let mut i: usize = 0;
    while i < parts.len()
        invariant
            i <= parts.len(),
            all == slice_views(parts@),
            bad == (has_prefix(name@, "/"@) || exists|j: int| 0 <= j < i && #[trigger] all[j] == ".."@),
        decreases parts.len() - i,
    {
        let dots = same(parts[i], "..");
        if dots {
            assert(all[i as int] == ".."@);
        }
        bad = bad || dots;
        i += 1;
    }
    if bad {
        let mut message = "unsafe tar entry: ".to_owned();
        let quoted = debug_text(name);
        message.append(quoted.as_str());
        Err(user_error("UNPACK_UNSAFE_NAME", message))
    } else {
        assert(!all.contains(".."@)) by {
            if all.contains(".."@) {
                let j = choose|j: int| 0 <= j < all.len() && all[j] == ".."@;
                assert(all[j] == ".."@);
            }
        }
        Ok(())
    }
}

/// The key of a packed version in the store.
pub fn packed_s3_key(skill_id: &str, version: &str) -> (r: String)
    ensures
        r@ == "skills/"@ + skill_id@ + "/"@ + version@ + ".tar.gz"@,
{
    let mut r = "skills/".to_owned();
    r.append(skill_id);
    r.append("/");
    r.append(version);
    r.append(".tar.gz");
    r
}

/// A plain name is kept as it is, and is safe.
proof fn lemma_plain_name(name: Seq<char>)
    requires
        plain_name(name),
    ensures
        arcname(name) == name,
        !unsafe_name(name),
{
    lemma_slash();
    let parts = pieces(name, slash());
    crate::text::law_joining_pieces_gives_back(name, slash());
    crate::text::lemma_pieces_nonempty(name, slash());
    assert(plain_segment(parts[0]));
    assert(!has_prefix(name, slash())) by {
        if has_prefix(name, slash()) {
            assert(name.subrange(0, 1) =~= name.take(1));
            assert(crate::text::occurs_at(name, slash(), 0));
            assert(crate::text::find_first(name, slash()) == Some(0int));
            assert(parts[0] == name.take(0));
        }
    }
    lemma_all_kept(parts, parts.len() as int);
    assert(parts.take(parts.len() as int) =~= parts);
    assert(seq![] + parts =~= parts);
    assert(!parts.contains(".."@)) by {
        if parts.contains(".."@) {
            let i = choose|i: int| 0 <= i < parts.len() && parts[i] == ".."@;
            assert(plain_segment(parts[i]));
        }
    }
}

proof fn lemma_all_kept(parts: Seq<Seq<char>>, n: int)
    requires
        0 <= n <= parts.len(),
        forall|i: int| 0 <= i < parts.len() ==> plain_segment(#[trigger] parts[i]),
    ensures
        components_of(parts, n) == parts.take(n),
    decreases n,
{
    lemma_slash();
    if n > 0 {
        lemma_all_kept(parts, n - 1);
        assert(plain_segment(parts[n - 1]));
        assert(parts.take(n) =~= parts.take(n - 1).push(parts[n - 1]));
    } else {
        assert(parts.take(0) =~= seq![]);
    }
}

// ---------------------------------------------------------------------------
// The manifest
// ---------------------------------------------------------------------------

/// Where the manifest is in an archive.
pub open spec fn manifest_path() -> Seq<char> {
    json_name(".knack/manifest"@)
}

/// Where the manifest is in an archive.
pub fn manifest_name() -> (r: String)
    ensures
        r@ == manifest_path(),
{
    json_file(".knack/manifest")
}

pub const MANIFEST_VERSION: u32 = 1;

/// The digests of the files in an archive.
pub struct Manifest {
    pub version: u32,
    /// The digest of each file, in hexadecimal, under the file's name.
    pub files: TextMap<String>,
}

/// A manifest as a mathematical value.
#[verifier::ext_equal]
pub ghost struct ManifestView {
    pub version: nat,
    pub files: Map<Seq<char>, Seq<char>>,
}

impl View for Manifest {
    type V = ManifestView;

    open spec fn view(&self) -> ManifestView {
        ManifestView { version: self.version as nat, files: text_contents(self.files) }
    }
}

/// The entries of a map of texts, in the order of the keys.
pub open spec fn text_members(files: Map<Seq<char>, Seq<char>>) -> Seq<(Seq<char>, JsonView)> {
    let keys = in_order(files.dom());
    Seq::new(keys.len(), |i: int| (keys[i], JsonView::Text(files[keys[i]])))
}

/// The document of a manifest.
pub open spec fn manifest_json(m: ManifestView) -> JsonView {
    JsonView::Object(
        seq![
            ("version"@, JsonView::Int(m.version as int)),
            ("files"@, JsonView::Object(text_members(m.files))),
        ],
    )
}

/// The texts among the first `n` members, the last one for a key that occurs
/// twice; nothing where one of them is no text.
pub open spec fn files_of(
    s: Seq<(Seq<char>, JsonView)>,
    n: int,
) -> Option<Map<Seq<char>, Seq<char>>>
    decreases n,
{
    if n <= 0 {
        Some(Map::empty())
    } else {
        match (files_of(s, n - 1), s[n - 1].1) {
            (Some(m), JsonView::Text(t)) => Some(m.insert(s[n - 1].0, t)),
            _ => None,
        }
    }
}

/// The version and the files that a document states: the members of an object,
/// or the two items of an array.
pub open spec fn manifest_parts(v: JsonView) -> (Option<JsonView>, Option<JsonView>) {
    match v {
        JsonView::Array(s) => if s.len() == 2 {
            (Some(s[0]), Some(s[1]))
        } else {
            (None, None)
        },
        _ => (field(v, "version"@), field(v, "files"@)),
    }
}

/// What a document says as a manifest, or why it is none.
pub open spec fn manifest_of(v: JsonView) -> Result<ManifestView, Seq<char>> {
    match manifest_parts(v) {
        (None, _) => Err("missing field `version`"@),
        (Some(JsonView::Int(n)), files) => if !(0 <= n <= u32::MAX) {
            Err("invalid value for `version`, expected u32"@)
        } else {
            match files {
                None => Err("missing field `files`"@),
                Some(JsonView::Object(s)) => match files_of(s, s.len() as int) {
                    Some(m) => Ok(ManifestView { version: n as nat, files: m }),
                    None => Err("invalid type in `files`, expected a string"@),
                },
                Some(_) => Err("invalid type for `files`, expected a map"@),
            }
        },
        (Some(_), _) => Err("invalid value for `version`, expected u32"@),
    }
}

/// What a text says as a manifest, given what it holds as JSON.
pub open spec fn manifest_parsed(
    j: Result<JsonView, Seq<char>>,
) -> Result<ManifestView, ErrorView> {
    match j {
        Err(e) => Err(ErrorView::Internal("json parse: "@ + e)),
        Ok(v) => match manifest_of(v) {
            Ok(m) => Ok(m),
            Err(e) => Err(ErrorView::Internal("json parse: "@ + e)),
        },
    }
}

/// A result as a mathematical value.
pub open spec fn manifest_result(r: Result<Manifest, CliError>) -> Result<ManifestView, ErrorView> {
    match r {
        Ok(m) => Ok(m@),
        Err(e) => Err(e@),
    }
}

/// The texts of an object's members, or nothing where one is no text.
fn read_files(members: &Vec<(String, Json)>) -> (r: Option<TextMap<String>>)
    ensures
        match r {
            Some(m) => m.wf() && files_of(member_views(members@), members@.len() as int) == Some(
                text_contents(m),
            ),
            None => files_of(member_views(members@), members@.len() as int) is None,
        },
{
    let ghost s = member_views(members@);
    let mut m: TextMap<String> = TextMap::new();
    assert(text_contents(m) =~= Map::empty());
    let mut i: usize = 0;
    while i < members.len()
        invariant
            i <= members.len(),
            s == member_views(members@),
            m.wf(),
            files_of(s, i as int) == Some(text_contents(m)),
        decreases members.len() - i,
    {
        assert(s[i as int] == (members@[i as int].0@, members@[i as int].1.value()));
        match &members[i].1 {
            Json::Text(t) => {
                let ghost was = text_contents(m);
                m.insert(members[i].0.clone(), t.clone());
                assert(text_contents(m) =~= was.insert(members@[i as int].0@, t@));
            },
            _ => {
                proof {
                    lemma_no_files_after(s, i + 1, s.len() as int);
                }
                return None;
            },
        }
        i += 1;
    }
    Some(m)
}

proof fn lemma_no_files_after(s: Seq<(Seq<char>, JsonView)>, n: int, len: int)
    requires
        0 <= n <= len,
        files_of(s, n) is None,
    ensures
        files_of(s, len) is None,
    decreases len - n,
{
    if n < len {
        assert(files_of(s, n + 1) is None);
        lemma_no_files_after(s, n + 1, len);
    }
}

/// The manifest that a document is, or why it is none.
fn read_manifest(v: &Json) -> (r: Result<Manifest, String>)
    ensures
        match r {
            Ok(m) => m.files.wf() && manifest_of(v.value()) == Ok::<ManifestView, Seq<char>>(m@),
            Err(e) => manifest_of(v.value()) == Err::<ManifestView, Seq<char>>(e@),
        },
{
    let (version, files) = match v {
        Json::Array(a) => {
            proof {
                crate::json::lemma_array_value(*a);
            }
            if a.len() == 2 {
                (Some(&a[0]), Some(&a[1]))
            } else {
                (None, None)
            }
        },
        _ => (v.get("version"), v.get("files")),
    };
    assert(manifest_parts(v.value()) == (
        crate::json::opt_value(version),
        crate::json::opt_value(files),
    ));
    let n: u64 = match version {
        None => {
            return Err("missing field `version`".to_owned());
        },
        Some(x) => match x.as_u64() {
            Some(n) => n,
            None => {
                return Err("invalid value for `version`, expected u32".to_owned());
            },
        },
    };
    if n > 0xffff_ffff {
        return Err("invalid value for `version`, expected u32".to_owned());
    }
    match files {
        None => Err("missing field `files`".to_owned()),
        Some(Json::Object(members)) => {
            proof {
                crate::json::lemma_object_value(*members);
            }
            match read_files(members) {
                Some(m) => Ok(Manifest { version: n as u32, files: m }),
                None => Err("invalid type in `files`, expected a string".to_owned()),
            }
        },
        Some(_) => Err("invalid type for `files`, expected a map".to_owned()),
    }
}

impl Manifest {
    /// The document: two spaces of indent, the files in the order of their names.
    pub fn to_json(&self) -> (r: String)
        requires
            self.files.wf(),
        ensures
            r@ == json_pretty(manifest_json(self@)),
            reads_as(r@, manifest_json(self@)),
    {
        let mut files: Vec<(String, Json)> = Vec::new();
        let mut i: usize = 0;
        while i < self.files.entries.len()
            invariant
                i <= self.files.entries@.len(),
                files@.len() == i,
                forall|j: int|
                    0 <= j < i ==> (#[trigger] files@[j]).0@ == self.files.entries@[j].0@
                        && files@[j].1.value() == JsonView::Text(self.files.entries@[j].1@),
            decreases self.files.entries@.len() - i,
        {
            let e = &self.files.entries[i];
            files.push((e.0.clone(), Json::text(e.1.as_str())));
            i += 1;
        }
        proof {
            self.lemma_members(files@);
        }
        let mut all: Vec<(String, Json)> = Vec::new();
        all.push(("version".to_owned(), Json::Nat(self.version as u64)));
        all.push(("files".to_owned(), Json::object(files)));
        let v = Json::object(all);
        proof {
            assert(v.value() == manifest_json(self@)) by {
                assert(member_views(all@) =~= manifest_json(self@)->Object_0);
            }
            self.lemma_document_is_plain();
        }
        render_pretty(&v)
    }

    proof fn lemma_members(self, files: Seq<(String, Json)>)
        requires
            self.files.wf(),
            files.len() == self.files.entries@.len(),
            forall|j: int|
                0 <= j < files.len() ==> (#[trigger] files[j]).0@ == self.files.entries@[j].0@
                    && files[j].1.value() == JsonView::Text(self.files.entries@[j].1@),
        ensures
            member_views(files) == text_members(self@.files),
    {
        self.files.lemma_keys_in_order();
        let keys = keys_of(self.files.entries@);
        assert(self@.files.dom() =~= self.files.contents().dom());
        assert forall|j: int| 0 <= j < files.len() implies #[trigger] member_views(files)[j]
            == text_members(self@.files)[j] by {
            self.files.lemma_entry(j);
            assert(files[j].0@ == keys[j]);
        }
        assert(member_views(files) =~= text_members(self@.files));
    }

    proof fn lemma_document_is_plain(self)
        requires
            self.files.wf(),
        ensures
            plain(manifest_json(self@), crate::json::depth_limit()),
    {
        reveal_strlit("version");
        reveal_strlit("files");
        self.files.lemma_keys_in_order();
        assert(self@.files.dom() =~= self.files.contents().dom());
        let s = text_members(self@.files);
        let keys = keys_of(self.files.entries@);
        assert forall|i: int, j: int| 0 <= i < j < s.len() implies (#[trigger] s[i]).0 != (
        #[trigger] s[j]).0 by {
            assert(text_lt_at(keys, i, j));
            crate::order::lemma_text_lt_irreflexive(keys[i]);
        }
        assert forall|i: int| 0 <= i < s.len() implies plain((#[trigger] s[i]).1, 98) by {
            assert(s[i].1 is Text);
        }
        assert(plain(JsonView::Object(s), 99));
        let all = manifest_json(self@)->Object_0;
        assert(all[0].0.len() != all[1].0.len());
        assert(plain(all[0].1, 99));
        assert(plain(all[1].1, 99));
    }

    /// The manifest that a text holds.
    pub fn from_json(raw: &str) -> (r: Result<Manifest, CliError>)
        ensures
            manifest_result(r) == manifest_parsed(json_parsed(raw@)),
            r matches Ok(m) ==> m.files.wf(),
    {
        match crate::json::parse(raw) {
            Err(e) => Err(json_error(e.as_str())),
            Ok(v) => match read_manifest(&v) {
                Ok(m) => Ok(m),
                Err(e) => Err(json_error(e.as_str())),
            },
        }
    }
}

spec fn text_lt_at(keys: Seq<Seq<char>>, i: int, j: int) -> bool {
    crate::order::text_lt(keys[i], keys[j])
}

// ---------------------------------------------------------------------------
// Taking an archive apart
// ---------------------------------------------------------------------------

/// What has been found in an archive so far.
#[verifier::ext_equal]
pub ghost struct Scan {
    pub manifest: Option<ManifestView>,
    pub members: Map<Seq<char>, Seq<u8>>,
}

pub open spec fn bad_manifest_error(data: Seq<u8>) -> ErrorView {
    ErrorView::User {
        code: "UNPACK_BAD_MANIFEST"@,
        message: "manifest is not utf-8: "@ + utf8_error(data),
        hint: None,
    }
}

/// What is found once a file has been read under its name.
pub open spec fn scan_file(st: Scan, name: Seq<char>, data: Seq<u8>) -> Result<Scan, ErrorView> {
    if name == manifest_path() {
        if !valid_utf8(data) {
            Err(bad_manifest_error(data))
        } else {
            match manifest_parsed(json_parsed(decode_utf8(data))) {
                Ok(m) => Ok(Scan { manifest: Some(m), ..st }),
                Err(e) => Err(e),
            }
        }
    } else {
        Ok(Scan { members: st.members.insert(name, data), ..st })
    }
}

/// What is found once an item of the archive has been read. Anything but a
/// regular file is passed over.
pub open spec fn scan_item(
    st: Scan,
    item: Result<EntryView, Seq<char>>,
) -> Result<Scan, ErrorView> {
    match item {
        Err(e) => Err(ErrorView::Internal("io: "@ + e)),
        Ok(entry) => if !entry.regular {
            Ok(st)
        } else {
            match entry.path {
                Err(e) => Err(ErrorView::Internal("io: "@ + e)),
                Ok(path) => if unsafe_name(arcname(path)) {
                    Err(unsafe_name_error(arcname(path)))
                } else {
                    match entry.data {
                        Err(e) => Err(ErrorView::Internal("io: "@ + e)),
                        Ok(data) => scan_file(st, arcname(path), data),
                    }
                },
            }
        },
    }
}

/// What is found in the first `n` items; the first error ends the reading.
pub open spec fn scanned(
    items: Seq<Result<EntryView, Seq<char>>>,
    n: int,
) -> Result<Scan, ErrorView>
    decreases n,
{
    if n <= 0 {
        Ok(Scan { manifest: None, members: Map::empty() })
    } else {
        match scanned(items, n - 1) {
            Ok(st) => scan_item(st, items[n - 1]),
            Err(e) => Err(e),
        }
    }
}

pub open spec fn no_manifest_error() -> ErrorView {
    ErrorView::User {
        code: "UNPACK_NO_MANIFEST"@,
        message: "tarball is missing "@ + manifest_path(),
        hint: None,
    }
}

pub open spec fn newer_manifest_error(version: nat) -> ErrorView {
    ErrorView::User {
        code: "UNPACK_NEWER_MANIFEST"@,
        message: "manifest version "@ + decimal(version)
            + " is newer than this build understands (max 1)"@,
        hint: Some("upgrade your Knack CLI: irm https://getknack.ai/install.ps1 | iex"@),
    }
}

/// The texts of a sequence that are not in a set, in their order.
pub open spec fn not_among(keys: Seq<Seq<char>>, set: Set<Seq<char>>) -> Seq<Seq<char>>
    decreases keys.len(),
{
    if keys.len() == 0 {
        seq![]
    } else if set.contains(keys.last()) {
        not_among(keys.drop_last(), set)
    } else {
        not_among(keys.drop_last(), set).push(keys.last())
    }
}

pub open spec fn mismatch_error(members: Set<Seq<char>>, listed: Set<Seq<char>>) -> ErrorView {
    ErrorView::User {
        code: "UNPACK_MANIFEST_MISMATCH"@,
        message: "manifest mismatch (extra="@ + debug_list(not_among(in_order(members), listed))
            + " missing="@ + debug_list(not_among(in_order(listed), members)) + ")"@,
        hint: None,
    }
}

pub open spec fn digest_error(name: Seq<char>) -> ErrorView {
    ErrorView::User {
        code: "UNPACK_SHA256_MISMATCH"@,
        message: "sha256 mismatch on "@ + name,
        hint: None,
    }
}

/// The first of the first `n` names whose file does not have the listed digest.
pub open spec fn first_altered(
    names: Seq<Seq<char>>,
    n: int,
    listed: Map<Seq<char>, Seq<char>>,
    members: Map<Seq<char>, Seq<u8>>,
) -> Option<Seq<char>>
    decreases n,
{
    if n <= 0 {
        None
    } else {
        match first_altered(names, n - 1, listed, members) {
            Some(name) => Some(name),
            None => if sha256_text(members[names[n - 1]]) != listed[names[n - 1]] {
                Some(names[n - 1])
            } else {
                None
            },
        }
    }
}

/// What was found, held against the manifest: it is there, of a version that is
/// understood, lists exactly the files that are there, and has their digests.
pub open spec fn checked(st: Scan) -> Result<Unpacking, ErrorView> {
    match st.manifest {
        None => Err(no_manifest_error()),
        Some(m) => if m.version > 1 {
            Err(newer_manifest_error(m.version))
        } else if st.members.dom() != m.files.dom() {
            Err(mismatch_error(st.members.dom(), m.files.dom()))
        } else {
            let names = in_order(m.files.dom());
            match first_altered(names, names.len() as int, m.files, st.members) {
                Some(name) => Err(digest_error(name)),
                None => Ok(Unpacking { manifest: m, files: st.members }),
            }
        },
    }
}

/// What taking an archive apart gives, by what reading it gives.
pub open spec fn unpack_outcome(items: Seq<Result<EntryView, Seq<char>>>) -> Result<
    Unpacking,
    ErrorView,
> {
    match scanned(items, items.len() as int) {
        Ok(st) => checked(st),
        Err(e) => Err(e),
    }
}

/// A skill out of an archive: its manifest and its files.
pub struct UnpackedSkill {
    pub manifest: Manifest,
    pub files: TextMap<Vec<u8>>,
}

/// A skill out of an archive, as a mathematical value.
#[verifier::ext_equal]
pub ghost struct Unpacking {
    pub manifest: ManifestView,
    pub files: Map<Seq<char>, Seq<u8>>,
}

impl UnpackedSkill {
    pub open spec fn wf(self) -> bool {
        self.manifest.files.wf() && self.files.wf()
    }
}

impl View for UnpackedSkill {
    type V = Unpacking;

    open spec fn view(&self) -> Unpacking {
        Unpacking { manifest: self.manifest@, files: byte_contents(self.files) }
    }
}

/// A result as a mathematical value.
pub open spec fn unpacked_result(
    r: Result<UnpackedSkill, CliError>,
) -> Result<Unpacking, ErrorView> {
    match r {
        Ok(u) => Ok(u@),
        Err(e) => Err(e@),
    }
}

/// What has been found in an archive so far.
struct Found {
    manifest: Option<Manifest>,
    members: TextMap<Vec<u8>>,
}

impl Found {
    spec fn wf(self) -> bool {
        self.members.wf() && (self.manifest matches Some(m) ==> m.files.wf())
    }

    spec fn scan(self) -> Scan {
        Scan {
            manifest: match self.manifest {
                Some(m) => Some(m@),
                None => None,
            },
            members: byte_contents(self.members),
        }
    }
}

/// Takes one file in.
fn take_file(found: &mut Found, name: String, data: Vec<u8>) -> (r: Result<(), CliError>)
    requires
        old(found).wf(),
    ensures
        final(found).wf(),
        match r {
            Ok(_) => scan_file(old(found).scan(), name@, data@) == Ok::<Scan, ErrorView>(
                final(found).scan(),
            ),
            Err(e) => scan_file(old(found).scan(), name@, data@) == Err::<Scan, ErrorView>(e@),
        },
{
    let manifest_name = manifest_name();
    if same(name.as_str(), manifest_name.as_str()) {
        match utf8_text(data.as_slice()) {
            Err(e) => Err(
                user_error("UNPACK_BAD_MANIFEST", prefixed("manifest is not utf-8: ", e.as_str())),
            ),
            Ok(text) => match Manifest::from_json(text.as_str()) {
                Ok(m) => {
                    found.manifest = Some(m);
                    Ok(())
                },
                Err(e) => Err(e),
            },
        }
    } else {
        let ghost was = byte_contents(found.members);
        let ghost key = name@;
        let ghost value = data@;
        found.members.insert(name, data);
        assert(byte_contents(found.members) =~= was.insert(key, value));
        Ok(())
    }
}

/// Takes one item of an archive in.
fn take_item(found: &mut Found, item: Result<ArchiveEntry, String>) -> (r: Result<(), CliError>)
    requires
        old(found).wf(),
    ensures
        final(found).wf(),
        match r {
            Ok(_) => scan_item(old(found).scan(), item_view(item)) == Ok::<Scan, ErrorView>(
                final(found).scan(),
            ),
            Err(e) => scan_item(old(found).scan(), item_view(item)) == Err::<Scan, ErrorView>(e@),
        },
{
    match item {
        Err(e) => Err(io_error(e.as_str())),
        Ok(entry) => {
            if !entry.regular {
                return Ok(());
            }
            match entry.path {
                Err(e) => Err(io_error(e.as_str())),
                Ok(path) => {
                    let name = posix_arcname(path.as_str());
                    match check_safe_name(name.as_str()) {
                        Err(e) => Err(e),
                        Ok(_) => match entry.data {
                            Err(e) => Err(io_error(e.as_str())),
                            Ok(data) => take_file(found, name, data),
                        },
                    }
                },
            }
        },
    }
}

pub open spec fn item_view(item: Result<ArchiveEntry, String>) -> Result<EntryView, Seq<char>> {
    match item {
        Ok(e) => Ok(e@),
        Err(e) => Err(e@),
    }
}

/// The strings that are no keys of a map.
fn keys_not_in<V>(keys: &Vec<String>, m: &TextMap<V>) -> (r: Vec<String>)
    requires
        m.wf(),
    ensures
        views(r@) == not_among(views(keys@), m.contents().dom()),
{
    let ghost all = views(keys@);
    let mut r: Vec<String> = Vec::new();
    let mut i: usize = 0;
    assert(views(r@) =~= not_among(all.take(0), m.contents().dom()));
    while i < keys.len()
        invariant
            i <= keys.len(),
            m.wf(),
            all == views(keys@),
            views(r@) == not_among(all.take(i as int), m.contents().dom()),
        decreases keys.len() - i,
    {
        assert(all.take(i + 1).drop_last() =~= all.take(i as int));
        assert(all.take(i + 1).last() == keys@[i as int]@);
        if !m.contains_key(keys[i].as_str()) {
            let ghost was = views(r@);
            r.push(keys[i].clone());
            assert(views(r@) =~= was.push(keys@[i as int]@));
        }
        i += 1;
    }
    assert(all.take(all.len() as int) =~= all);
    r
}

proof fn lemma_altered_stays(
    names: Seq<Seq<char>>,
    n: int,
    len: int,
    listed: Map<Seq<char>, Seq<char>>,
    members: Map<Seq<char>, Seq<u8>>,
)
    requires
        0 <= n <= len,
        first_altered(names, n, listed, members) is Some,
    ensures
        first_altered(names, len, listed, members) == first_altered(names, n, listed, members),
    decreases len - n,
{
    if n < len {
        assert(first_altered(names, n + 1, listed, members) == first_altered(
            names,
            n,
            listed,
            members,
        ));
        lemma_altered_stays(names, n + 1, len, listed, members);
    }
}

/// Two maps list the same names.
fn same_names(a: &TextMap<Vec<u8>>, b: &TextMap<String>) -> (r: bool)
    requires
        a.wf(),
        b.wf(),
    ensures
        r == (a.contents().dom() == b.contents().dom()),
{
    proof {
        a.lemma_keys_in_order();
        b.lemma_keys_in_order();
    }
    let ghost ka = keys_of(a.entries@);
    let ghost kb = keys_of(b.entries@);
    proof {
        assert(ka.to_set() =~= a.contents().dom());
        assert(kb.to_set() =~= b.contents().dom());
    }
    if a.len() != b.len() {
        assert(ka.len() != kb.len());
        return false;
    }
    let mut i: usize = 0;
    while i < a.len()
        invariant
            i <= a.entries@.len(),
            a.entries@.len() == b.entries@.len(),
            ka == keys_of(a.entries@),
            kb == keys_of(b.entries@),
            ka == in_order(a.contents().dom()),
            kb == in_order(b.contents().dom()),
            forall|j: int| 0 <= j < i ==> #[trigger] ka[j] == kb[j],
        decreases a.entries@.len() - i,
    {
        if !same(a.entries[i].0.as_str(), b.entries[i].0.as_str()) {
            assert(ka[i as int] != kb[i as int]);
            return false;
        }
        assert(ka[i as int] == kb[i as int]);
        i += 1;
    }
    assert(ka =~= kb);
    true
}

/// The manifest against what was found.
fn check_found(found: Found) -> (r: Result<UnpackedSkill, CliError>)
    requires
        found.wf(),
    ensures
        unpacked_result(r) == checked(found.scan()),
        r matches Ok(u) ==> u.wf(),
{
    let members = found.members;
    let manifest = match found.manifest {
        Some(m) => m,
        None => {
            let name = manifest_name();
            return Err(
                user_error("UNPACK_NO_MANIFEST", prefixed("tarball is missing ", name.as_str())),
            );
        },
    };
    if manifest.version > MANIFEST_VERSION {
        let mut message = "manifest version ".to_owned();
        let n = u64_text(manifest.version as u64);
        message.append(n.as_str());
        message.append(" is newer than this build understands (max 1)");
        return Err(
            user_error_hint(
                "UNPACK_NEWER_MANIFEST",
                message,
                "upgrade your Knack CLI: irm https://getknack.ai/install.ps1 | iex",
            ),
        );
    }
    let ghost listed = manifest@.files;
    let ghost have = byte_contents(members);
    proof {
        assert(listed.dom() =~= manifest.files.contents().dom());
        assert(have.dom() =~= members.contents().dom());
        members.lemma_keys_in_order();
        manifest.files.lemma_keys_in_order();
    }
    if !same_names(&members, &manifest.files) {
        let there = members.keys();
        let named = manifest.files.keys();
        let extra = keys_not_in(&there, &manifest.files);
        let missing = keys_not_in(&named, &members);
        let mut message = "manifest mismatch (extra=".to_owned();
        let e = debug_texts(&extra);
        message.append(e.as_str());
        message.append(" missing=");
        let m = debug_texts(&missing);
        message.append(m.as_str());
        message.append(")");
        return Err(user_error("UNPACK_MANIFEST_MISMATCH", message));
    }
    let ghost names = in_order(listed.dom());
    let mut i: usize = 0;
    while i < manifest.files.len()
        invariant
            i <= manifest.files.entries@.len(),
            manifest.files.wf(),
            members.wf(),
            listed == text_contents(manifest.files),
            have == byte_contents(members),
            listed.dom() == have.dom(),
            have.dom() == members.contents().dom(),
            listed.dom() == manifest.files.contents().dom(),
            names == keys_of(manifest.files.entries@),
            first_altered(names, i as int, listed, have) is None,
            found.scan() == (Scan { manifest: Some(manifest@), members: have }),
            manifest@.files == listed,
            manifest@.version <= 1,
            names == in_order(listed.dom()),
        decreases manifest.files.entries@.len() - i,
    {
        let e = &manifest.files.entries[i];
        proof {
            manifest.files.lemma_entry(i as int);
            assert(names[i as int] == e.0@);
        }
        match members.get(e.0.as_str()) {
            Some(data) => {
                let actual = sha256_bytes(data.as_slice());
                if !same(actual.as_str(), e.1.as_str()) {
                    proof {
                        assert(first_altered(names, i + 1, listed, have) == Some(e.0@));
                        lemma_altered_stays(names, i + 1, names.len() as int, listed, have);
                    }
                    return Err(
                        user_error(
                            "UNPACK_SHA256_MISMATCH",
                            prefixed("sha256 mismatch on ", e.0.as_str()),
                        ),
                    );
                }
            },
            None => {
                assert(false);
            },
        }
        i += 1;
    }
    Ok(UnpackedSkill { manifest, files: members })
}

/// Takes the items of an archive, held against the manifest among them.
pub fn unpack_items(
    items: Vec<Result<ArchiveEntry, String>>,
) -> (r: Result<UnpackedSkill, CliError>)
    ensures
        unpacked_result(r) == unpack_outcome(item_views(items@)),
        r matches Ok(u) ==> u.wf(),
{
    let ghost all = item_views(items@);
    let mut found = Found { manifest: None, members: TextMap::new() };
    assert(byte_contents(found.members) =~= Map::empty());
    for item in it: items
        invariant
            item_views(it.seq()) == all,
            found.wf(),
            scanned(all, it.index() as int) == Ok::<Scan, ErrorView>(found.scan()),
    {
        assert(all[it.index() as int] == item_view(item));
        match take_item(&mut found, item) {
            Ok(_) => {},
            Err(e) => {
                proof {
                    lemma_failure_stays(all, it.index() + 1, all.len() as int);
                }
                return Err(e);
            },
        }
    }
    check_found(found)
}

proof fn lemma_failure_stays(items: Seq<Result<EntryView, Seq<char>>>, n: int, len: int)
    requires
        0 <= n <= len,
        scanned(items, n) is Err,
    ensures
        scanned(items, len) == scanned(items, n),
    decreases len - n,
{
    if n < len {
        assert(scanned(items, n + 1) == scanned(items, n));
        lemma_failure_stays(items, n + 1, len);
    }
}

/// Takes an archive apart and holds it against the manifest in it: every file's
/// digest is the listed one. Refuses names that lead out of the folder, and
/// manifests of a version that is not understood.
pub fn unpack_skill(tarball: &[u8]) -> (r: Result<UnpackedSkill, CliError>)
    ensures
        unpacked_result(r) == unpack_outcome(archive_contents(tarball@)),
        r matches Ok(u) ==> u.wf(),
{
    unpack_items(read_archive(tarball))
}

/// Nothing that comes out of an archive leads out of the folder that it is put into, and
/// the manifest is not among the files.
pub proof fn law_unpacked_names_stay_inside(items: Seq<Result<EntryView, Seq<char>>>)
    ensures
        unpack_outcome(items) matches Ok(u) ==> forall|name: Seq<char>| #[trigger]
            u.files.dom().contains(name) ==> !unsafe_name(name) && name != manifest_path(),
{
    if unpack_outcome(items) is Ok {
        lemma_found_names(items, items.len() as int);
    }
}

proof fn lemma_found_names(items: Seq<Result<EntryView, Seq<char>>>, n: int)
    requires
        scanned(items, n) is Ok,
    ensures
        forall|name: Seq<char>| #[trigger]
            scanned(items, n)->Ok_0.members.dom().contains(name) ==> !unsafe_name(name) && name
                != manifest_path(),
    decreases n,
{
    if n > 0 {
        lemma_found_names(items, n - 1);
    }
}

/// The files that come out of an archive are exactly those that its manifest lists, each
/// with the digest that is listed, and the manifest is of a version that is understood.
pub proof fn law_unpacked_files_are_the_listed_ones(
    items: Seq<Result<EntryView, Seq<char>>>,
    u: UnpackedSkill,
)
    requires
        u.wf(),
        unpack_outcome(items) == Ok::<Unpacking, ErrorView>(u@),
    ensures
        u@.manifest.version <= 1,
        u@.files.dom() == u@.manifest.files.dom(),
        forall|name: Seq<char>| #[trigger]
            u@.files.dom().contains(name) ==> sha256_text(u@.files[name])
                == u@.manifest.files[name],
{
    let m = u.manifest;
    let names = in_order(m@.files.dom());
    m.files.lemma_keys_in_order();
    assert(m@.files.dom() =~= m.files.contents().dom());
    assert forall|name: Seq<char>| #[trigger] u@.files.dom().contains(name) implies sha256_text(
        u@.files[name],
    ) == m@.files[name] by {
        assert(m.files.contents().dom().contains(name));
        assert(keys_of(m.files.entries@).to_set() =~= m.files.contents().dom());
        let i = choose|i: int| 0 <= i < names.len() && names[i] == name;
        lemma_all_unaltered(names, names.len() as int, m@.files, u@.files, i);
    }
}

proof fn lemma_all_unaltered(
    names: Seq<Seq<char>>,
    n: int,
    listed: Map<Seq<char>, Seq<char>>,
    members: Map<Seq<char>, Seq<u8>>,
    i: int,
)
    requires
        0 <= i < n <= names.len(),
        first_altered(names, n, listed, members) is None,
    ensures
        sha256_text(members[names[i]]) == listed[names[i]],
    decreases n,
{
    if i < n - 1 {
        lemma_all_unaltered(names, n - 1, listed, members, i);
    }
}

// ---------------------------------------------------------------------------
// Packing
// ---------------------------------------------------------------------------

/// A skill in an archive.
pub struct PackedSkill {
    pub bytes: Vec<u8>,
    pub manifest: Manifest,
    /// The digest of the archive, in hexadecimal.
    pub sha256: String,
}

/// The files at the top of a skill folder that are packed.
pub open spec fn packed_at_top(name: Seq<char>) -> bool {
    name == "SKILL.md"@ || name == "meta.knack.yaml"@ || name == "intuition.md"@
}

/// The folders of a skill folder that are packed with all that is in them.
pub open spec fn packed_below(name: Seq<char>) -> bool {
    has_prefix(name, "tests/"@) || has_prefix(name, "examples/"@) || has_prefix(name, "scripts/"@)
        || has_prefix(name, "assets/"@) || has_prefix(name, "references/"@)
}

/// Whether a file of a skill folder is packed.
pub fn is_packed(name: &str) -> (r: bool)
    ensures
        r == (packed_at_top(name@) || packed_below(name@)),
{
    same(name, "SKILL.md") || same(name, "meta.knack.yaml") || same(name, "intuition.md")
        || starts_with(name, "tests/") || starts_with(name, "examples/") || starts_with(
        name,
        "scripts/",
    ) || starts_with(name, "assets/") || starts_with(name, "references/")
}

/// A file of a skill folder is packed.
pub open spec fn packed_name(name: Seq<char>) -> bool {
    packed_at_top(name) || packed_below(name)
}

/// Those of the first `n` files of a folder that are packed.
pub open spec fn packed_entries(files: Seq<(Seq<char>, Seq<u8>)>, n: int) -> Seq<
    (Seq<char>, Seq<u8>),
>
    decreases n,
{
    if n <= 0 {
        seq![]
    } else if packed_name(files[n - 1].0) {
        packed_entries(files, n - 1).push(files[n - 1])
    } else {
        packed_entries(files, n - 1)
    }
}

/// The files of a folder that are packed.
pub open spec fn packed_part(files: Map<Seq<char>, Seq<u8>>) -> Map<Seq<char>, Seq<u8>> {
    files.restrict(Set::new(|name: Seq<char>| packed_name(name)))
}

/// The files of a skill folder that are packed, in the order of their names.
pub fn collect_entries(folder: TextMap<Vec<u8>>) -> (r: TextMap<Vec<u8>>)
    requires
        folder.wf(),
    ensures
        r.wf(),
        file_views(r.entries@) == packed_entries(
            file_views(folder.entries@),
            folder.entries@.len() as int,
        ),
        byte_contents(r) == packed_part(byte_contents(folder)),
{
    let ghost all = folder;
    let ghost files = file_views(folder.entries@);
    let ghost keys = keys_of(folder.entries@);
    let mut kept: Vec<(String, Vec<u8>)> = Vec::new();
    assert(file_views(kept@) =~= packed_entries(files, 0));
    for e in it: folder.entries
        invariant
            it.seq() == all.entries@,
            all.wf(),
            files == file_views(all.entries@),
            keys == keys_of(all.entries@),
            file_views(kept@) == packed_entries(files, it.index() as int),
            ascending(keys_of(kept@)),
            forall|k: int| 0 <= k < kept@.len() ==> is_entry_before(
                all.entries@,
                #[trigger] kept@[k],
                it.index() as int,
            ),
            forall|m: int|
                0 <= m < it.index() && packed_name(#[trigger] keys[m]) ==> has_entry(
                    kept@,
                    all.entries@[m],
                ),
    {
        let ghost i = it.index() as int;
        let ghost was = kept@;
        assert(files[i] == (e.0@, e.1@));
        assert(keys[i] == e.0@);
        if is_packed(e.0.as_str()) {
            kept.push(e);
            proof {
                assert(file_views(kept@) =~= file_views(was).push(files[i]));
                assert forall|a: int, b: int| 0 <= a < b < kept@.len() implies text_lt(
                    #[trigger] keys_of(kept@)[a],
                    #[trigger] keys_of(kept@)[b],
                ) by {
                    if b < was.len() {
                        assert(text_lt(keys_of(was)[a], keys_of(was)[b]));
                    } else {
                        assert(is_entry_before(all.entries@, was[a], i));
                        let m = choose|m: int| entry_at(all.entries@, was[a], m) && m < i;
                        assert(text_lt(keys[m], keys[i]));
                    }
                }
                assert(entry_at(all.entries@, e, i));
                assert(kept@[was.len() as int] == e);
            }
        }
        proof {
            assert forall|k: int| 0 <= k < kept@.len() implies is_entry_before(
                all.entries@,
                #[trigger] kept@[k],
                i + 1,
            ) by {
                if k < was.len() {
                    assert(is_entry_before(all.entries@, was[k], i));
                    let m = choose|m: int| entry_at(all.entries@, was[k], m) && m < i;
                    assert(entry_at(all.entries@, kept@[k], m));
                } else {
                    assert(entry_at(all.entries@, kept@[k], i));
                }
            }
            assert forall|m: int| 0 <= m < i + 1 && packed_name(#[trigger] keys[m]) implies has_entry(
                kept@,
                all.entries@[m],
            ) by {
                if m < i {
                    assert(has_entry(was, all.entries@[m]));
                    let k = choose|k: int| entry_at(was, all.entries@[m], k);
                    assert(entry_at(kept@, all.entries@[m], k));
                } else {
                    assert(entry_at(kept@, all.entries@[m], was.len() as int));
                }
            }
        }
    }
    let r = TextMap { entries: kept };
    proof {
        lemma_kept_contents(all, r);
    }
    r
}

/// The entry stands at a position.
spec fn entry_at(s: Seq<(String, Vec<u8>)>, e: (String, Vec<u8>), m: int) -> bool {
    0 <= m < s.len() && s[m].0@ == e.0@ && s[m].1@ == e.1@
}

spec fn is_entry_before(s: Seq<(String, Vec<u8>)>, e: (String, Vec<u8>), n: int) -> bool {
    packed_name(e.0@) && exists|m: int| #[trigger] entry_at(s, e, m) && m < n
}

spec fn has_entry(s: Seq<(String, Vec<u8>)>, e: (String, Vec<u8>)) -> bool {
    exists|m: int| #[trigger] entry_at(s, e, m)
}

/// Entries that are exactly those of a map that are packed hold the part that is packed.
proof fn lemma_kept_contents(all: TextMap<Vec<u8>>, kept: TextMap<Vec<u8>>)
    requires
        all.wf(),
        kept.wf(),
        forall|k: int|
            0 <= k < kept.entries@.len() ==> is_entry_before(
                all.entries@,
                #[trigger] kept.entries@[k],
                all.entries@.len() as int,
            ),
        forall|m: int|
            0 <= m < all.entries@.len() && packed_name(#[trigger] keys_of(all.entries@)[m])
                ==> has_entry(kept.entries@, all.entries@[m]),
    ensures
        byte_contents(kept) == packed_part(byte_contents(all)),
{
    let want = packed_part(byte_contents(all));
    let got = byte_contents(kept);
    let keys = keys_of(all.entries@);
    let names = keys_of(kept.entries@);
    assert forall|name: Seq<char>| #[trigger] got.dom().contains(name) implies want.dom().contains(
        name,
    ) && got[name] == want[name] by {
        let k = choose|k: int| 0 <= k < names.len() && names[k] == name;
        kept.lemma_entry(k);
        assert(is_entry_before(all.entries@, kept.entries@[k], all.entries@.len() as int));
        let m = choose|m: int| entry_at(all.entries@, kept.entries@[k], m) && m < all.entries@.len();
        all.lemma_entry(m);
    }
    assert forall|name: Seq<char>| #[trigger] want.dom().contains(name) implies got.dom().contains(
        name,
    ) by {
        let m = choose|m: int| 0 <= m < keys.len() && keys[m] == name;
        assert(has_entry(kept.entries@, all.entries@[m]));
        let k = choose|k: int| entry_at(kept.entries@, all.entries@[m], k);
        kept.lemma_entry(k);
    }
    assert(got =~= want);
}

pub open spec fn not_directory_error(dir: Seq<char>) -> ErrorView {
    ErrorView::User {
        code: "PACK_NOT_DIRECTORY"@,
        message: "not a directory: "@ + dir,
        hint: None,
    }
}

pub open spec fn missing_required_error(name: Seq<char>) -> ErrorView {
    ErrorView::User {
        code: "PACK_MISSING_REQUIRED"@,
        message: "missing required file: "@ + name,
        hint: Some("a skill folder needs SKILL.md and meta.knack.yaml"@),
    }
}

/// The manifest of a set of files.
pub open spec fn manifest_for(files: Map<Seq<char>, Seq<u8>>) -> ManifestView {
    ManifestView { version: 1, files: files.map_values(|d: Seq<u8>| sha256_text(d)) }
}

/// What an archive of files in order holds: the files, and the manifest last.
pub open spec fn packed_files(
    files: Seq<(Seq<char>, Seq<u8>)>,
    manifest: ManifestView,
) -> Seq<(Seq<char>, Seq<u8>)> {
    files.push((manifest_path(), encode_utf8(json_pretty(manifest_json(manifest)))))
}

/// The bytes of an archive: anybody may read the files, and nothing tells when or by whom
/// they were made.
pub open spec fn bytes_of(files: Seq<(Seq<char>, Seq<u8>)>) -> Result<Seq<u8>, Seq<char>> {
    archive_bytes(6, 0o644, 0, 0, 0, files)
}

/// The manifest is none of the files that are packed.
proof fn lemma_manifest_is_not_packed()
    ensures
        !packed_name(manifest_path()),
{
    reveal_strlit(".knack/manifest");
    reveal_strlit("SKILL.md");
    reveal_strlit("meta.knack.yaml");
    reveal_strlit("intuition.md");
    reveal_strlit("tests/");
    reveal_strlit("examples/");
    reveal_strlit("scripts/");
    reveal_strlit("assets/");
    reveal_strlit("references/");
    let p = manifest_path();
    assert(p[0] == '.');
    assert(p.take(6)[0] == '.');
    assert(p.take(9)[0] == '.');
    assert(p.take(8)[0] == '.');
    assert(p.take(7)[0] == '.');
    assert(p.take(11)[0] == '.');
    assert("SKILL.md"@[0] == 'S' && "meta.knack.yaml"@[0] == 'm' && "intuition.md"@[0] == 'i');
}

fn manifest_of_entries(entries: &TextMap<Vec<u8>>) -> (r: Manifest)
    requires
        entries.wf(),
    ensures
        r.files.wf(),
        r@ == manifest_for(byte_contents(*entries)),
{
    let mut files: Vec<(String, String)> = Vec::new();
    let mut i: usize = 0;
    while i < entries.entries.len()
        invariant
            i <= entries.entries@.len(),
            files@.len() == i,
            forall|j: int|
                0 <= j < i ==> (#[trigger] files@[j]).0@ == entries.entries@[j].0@ && files@[j].1@
                    == sha256_text(entries.entries@[j].1@),
        decreases entries.entries@.len() - i,
    {
        let e = &entries.entries[i];
        files.push((e.0.clone(), sha256_bytes(e.1.as_slice())));
        i += 1;
    }
    let r = Manifest { version: MANIFEST_VERSION, files: TextMap { entries: files } };
    proof {
        assert(keys_of(r.files.entries@) =~= keys_of(entries.entries@));
        let want = manifest_for(byte_contents(*entries));
        assert forall|k: Seq<char>| #[trigger] r@.files.dom().contains(k) implies r@.files[k]
            == want.files[k] by {
            let keys = keys_of(entries.entries@);
            let j = choose|j: int| 0 <= j < keys.len() && keys[j] == k;
            entries.lemma_entry(j);
            r.files.lemma_entry(j);
            assert(r.files.entries@[j].0@ == k);
        }
        assert(r@.files.dom() =~= want.files.dom());
        assert(r@.files =~= want.files);
    }
    r
}

/// Puts the files of a skill folder that belong into an archive into one, with a manifest
/// of their digests. The names are relative paths with slashes; of names without anything
/// odd in them, as a folder has them, what is unpacked is what was packed.
pub fn pack_skill(dir: &str, is_dir: bool, folder: TextMap<Vec<u8>>) -> (r: Result<
    PackedSkill,
    CliError,
>)
    requires
        folder.wf(),
    ensures
        !is_dir ==> r is Err && r->Err_0@ == not_directory_error(dir@),
        is_dir && !folder.contents().dom().contains("SKILL.md"@) ==> r is Err && r->Err_0@
            == missing_required_error("SKILL.md"@),
        is_dir && folder.contents().dom().contains("SKILL.md"@)
            && !folder.contents().dom().contains("meta.knack.yaml"@) ==> r is Err && r->Err_0@
            == missing_required_error("meta.knack.yaml"@),
        is_dir && folder.contents().dom().contains("SKILL.md"@)
            && folder.contents().dom().contains("meta.knack.yaml"@) ==> {
            let part = packed_part(byte_contents(folder));
            let entries = packed_entries(
                file_views(folder.entries@),
                folder.entries@.len() as int,
            );
            let manifest = manifest_for(part);
            let files = packed_files(entries, manifest);
            match r {
                Ok(p) => {
                    &&& bytes_of(files) == Ok::<Seq<u8>, Seq<char>>(p.bytes@)
                    &&& p.manifest@ == manifest
                    &&& p.manifest.files.wf()
                    &&& p.sha256@ == sha256_text(p.bytes@)
                    &&& all_plain(entries) ==> unpack_outcome(archive_contents(p.bytes@)) == Ok::<
                        Unpacking,
                        ErrorView,
                    >(Unpacking { manifest, files: part })
                },
                Err(e) => {
                    &&& bytes_of(files) is Err
                    &&& e@ == ErrorView::Internal(
                        "io: "@ + bytes_of(files)->Err_0,
                    )
                    &&& !all_short(entries)
                },
            }
        },
{
    if !is_dir {
        return Err(user_error("PACK_NOT_DIRECTORY", prefixed("not a directory: ", dir)));
    }
    let ghost given = folder;
    let entries = collect_entries(folder);
    proof {
        assert(byte_contents(given).dom() =~= given.contents().dom());
        assert(byte_contents(entries).dom() =~= entries.contents().dom());
        assert(packed_name("SKILL.md"@) && packed_name("meta.knack.yaml"@));
    }
    if !entries.contains_key("SKILL.md") {
        return Err(missing_required("SKILL.md"));
    }
    if !entries.contains_key("meta.knack.yaml") {
        return Err(missing_required("meta.knack.yaml"));
    }
    let manifest = manifest_of_entries(&entries);
    let text = manifest.to_json();
    let ghost whole = entries;
    let ghost before = file_views(entries.entries@);
    let mut files = entries.entries;
    files.push((manifest_name(), text.as_str().as_bytes_vec()));
    proof {
        assert(file_views(files@) =~= packed_files(before, manifest@));
        lemma_manifest_name();
        if all_short(before) {
            let now = file_views(files@);
            assert forall|i: int| 0 <= i < now.len() implies short_name((#[trigger] now[i]).0) by {
                if i < before.len() {
                    assert(now[i] == before[i]);
                }
            }
        }
    }
    match write_archive(6, 0o644, 0, 0, 0, &files) {
        Err(e) => Err(io_error(e.as_str())),
        Ok(bytes) => {
            let sha256 = sha256_bytes(bytes.as_slice());
            proof {
                if all_plain(before) {
                    let now = file_views(files@);
                    assert forall|i: int| 0 <= i < now.len() implies plain_name(
                        (#[trigger] now[i]).0,
                    ) by {
                        if i < before.len() {
                            assert(now[i] == before[i]);
                        }
                    }
                    lemma_manifest_is_not_packed();
                    assert(!whole.contents().dom().contains(manifest_path()));
                    lemma_unpacks(whole, manifest, text@);
                }
            }
            Ok(PackedSkill { bytes, manifest, sha256 })
        },
    }
}

fn missing_required(name: &str) -> (r: CliError)
    ensures
        r@ == missing_required_error(name@),
{
    user_error_hint(
        "PACK_MISSING_REQUIRED",
        prefixed("missing required file: ", name),
        "a skill folder needs SKILL.md and meta.knack.yaml",
    )
}

proof fn lemma_manifest_name()
    ensures
        short_name(manifest_path()),
{
    let name = manifest_path();
    reveal_strlit(".knack/manifest");
    reveal_strlit(".json");
    assert(name.len() == 20);
    assert(name[6] == '/');
    assert(name.subrange(6, 7) =~= slash());
    assert(crate::text::occurs_at(name, slash(), 6));
    assert forall|j: int| 0 <= j < 6 implies !#[trigger] crate::text::occurs_at(name, slash(), j) by {
        if crate::text::occurs_at(name, slash(), j) {
            assert(name.subrange(j, j + 1)[0] == name[j]);
        }
    }
    crate::text::lemma_find_from_is(name, slash(), 0, 6);
    let rest = name.skip(7);
    assert forall|j: int| 0 <= j implies !#[trigger] crate::text::occurs_at(rest, slash(), j) by {
        if crate::text::occurs_at(rest, slash(), j) {
            assert(rest.subrange(j, j + 1)[0] == rest[j]);
            assert(rest[j] == name[j + 7]);
        }
    }
    crate::text::lemma_find_from(rest, slash(), 0);
    assert(crate::text::find_first(rest, slash()) is None);
    assert(pieces(rest, slash()) == seq![rest]);
    let parts = pieces(name, slash());
    assert(parts =~= seq![name.take(6), rest]);
    vstd::utf8::is_ascii_chars_encode_utf8(name);
    assert(encode_utf8(name).len() == 20);
}

/// The files among the first `n`.
spec fn gathered(files: Seq<(Seq<char>, Seq<u8>)>, n: int) -> Map<Seq<char>, Seq<u8>>
    decreases n,
{
    if n <= 0 {
        Map::empty()
    } else {
        gathered(files, n - 1).insert(files[n - 1].0, files[n - 1].1)
    }
}

proof fn lemma_gathered(files: Seq<(Seq<char>, Seq<u8>)>, n: int)
    requires
        0 <= n <= files.len(),
        forall|i: int, j: int|
            0 <= i < j < files.len() ==> (#[trigger] files[i]).0 != (#[trigger] files[j]).0,
    ensures
        forall|i: int|
            0 <= i < n ==> gathered(files, n).dom().contains((#[trigger] files[i]).0) && gathered(
                files,
                n,
            )[files[i].0] == files[i].1,
        forall|k: Seq<char>| #[trigger]
            gathered(files, n).dom().contains(k) ==> exists|i: int|
                0 <= i < n && (#[trigger] files[i]).0 == k,
    decreases n,
{
    if n > 0 {
        lemma_gathered(files, n - 1);
        assert forall|k: Seq<char>| #[trigger] gathered(files, n).dom().contains(k) implies exists|
            i: int,
        | 0 <= i < n && (#[trigger] files[i]).0 == k by {
            if k == files[n - 1].0 {
                assert(files[n - 1].0 == k);
            } else {
                assert(gathered(files, n - 1).dom().contains(k));
            }
        }
    }
}

proof fn lemma_scan_of_stored(
    files: Seq<(Seq<char>, Seq<u8>)>,
    all: Seq<(Seq<char>, Seq<u8>)>,
    n: int,
)
    requires
        0 <= n <= files.len() <= all.len(),
        forall|i: int| 0 <= i < files.len() ==> #[trigger] all[i] == files[i],
        forall|i: int| 0 <= i < files.len() ==> plain_name((#[trigger] files[i]).0),
        forall|i: int| 0 <= i < files.len() ==> (#[trigger] files[i]).0 != manifest_path(),
    ensures
        scanned(stored(all), n) == Ok::<Scan, ErrorView>(
            Scan { manifest: None, members: gathered(files, n) },
        ),
    decreases n,
{
    if n > 0 {
        lemma_scan_of_stored(files, all, n - 1);
        assert(all[n - 1] == files[n - 1]);
        lemma_plain_name(files[n - 1].0);
    }
}

/// Reading a document of a manifest gives the manifest.
pub proof fn law_manifest_document_reads_back(m: Manifest)
    requires
        m.files.wf(),
    ensures
        manifest_of(manifest_json(m@)) == Ok::<ManifestView, Seq<char>>(m@),
{
    reveal_strlit("version");
    reveal_strlit("files");
    let v = manifest_json(m@);
    let s = v->Object_0;
    assert("version"@.len() != "files"@.len());
    assert(field(v, "version"@) == Some(s[0].1));
    assert(s.drop_first()[0] == s[1]);
    reveal_with_fuel(crate::json::member, 2);
    assert(field(v, "files"@) == Some(s[1].1));
    let t = text_members(m@.files);
    let keys = in_order(m@.files.dom());
    m.files.lemma_keys_in_order();
    assert(m@.files.dom() =~= m.files.contents().dom());
    assert(keys == keys_of(m.files.entries@));
    lemma_files_of(m@.files, t, keys, t.len() as int);
    let got = files_of(t, t.len() as int)->0;
    assert forall|k: Seq<char>| m@.files.dom().contains(k) implies got.dom().contains(k) && got[k]
        == m@.files[k] by {
        let j = choose|j: int| 0 <= j < keys.len() && keys[j] == k;
        assert(keys[j] == k);
    }
    assert forall|k: Seq<char>| got.dom().contains(k) implies m@.files.dom().contains(k) by {
        let j = choose|j: int| 0 <= j < t.len() && keys[j] == k;
        assert(keys.contains(k));
    }
    assert(got =~= m@.files);
}

proof fn lemma_files_of(
    files: Map<Seq<char>, Seq<char>>,
    t: Seq<(Seq<char>, JsonView)>,
    keys: Seq<Seq<char>>,
    n: int,
)
    requires
        0 <= n <= t.len(),
        t.len() == keys.len(),
        ascending(keys),
        forall|i: int| 0 <= i < t.len() ==> #[trigger] t[i] == (keys[i], JsonView::Text(files[keys[i]])),
    ensures
        files_of(t, n) is Some,
        forall|i: int|
            0 <= i < n ==> files_of(t, n)->0.dom().contains(#[trigger] keys[i]) && files_of(
                t,
                n,
            )->0[keys[i]] == files[keys[i]],
        forall|k: Seq<char>| #[trigger]
            files_of(t, n)->0.dom().contains(k) ==> exists|i: int| 0 <= i < n && #[trigger] keys[i] == k,
    decreases n,
{
    if n > 0 {
        lemma_files_of(files, t, keys, n - 1);
        assert(t[n - 1] == (keys[n - 1], JsonView::Text(files[keys[n - 1]])));
        let was = files_of(t, n - 1)->0;
        assert(files_of(t, n) == Some(was.insert(keys[n - 1], files[keys[n - 1]])));
        assert forall|k: Seq<char>| #[trigger] files_of(t, n)->0.dom().contains(k) implies exists|i: int|
            0 <= i < n && #[trigger] keys[i] == k by {
            if k == keys[n - 1] {
                assert(keys[n - 1] == k);
            } else {
                assert(was.dom().contains(k));
            }
        }
    }
}

proof fn lemma_none_altered(
    names: Seq<Seq<char>>,
    n: int,
    listed: Map<Seq<char>, Seq<char>>,
    members: Map<Seq<char>, Seq<u8>>,
)
    requires
        0 <= n <= names.len(),
        forall|i: int|
            0 <= i < names.len() ==> listed[#[trigger] names[i]] == sha256_text(members[names[i]]),
    ensures
        first_altered(names, n, listed, members) is None,
    decreases n,
{
    if n > 0 {
        lemma_none_altered(names, n - 1, listed, members);
        assert(listed[names[n - 1]] == sha256_text(members[names[n - 1]]));
    }
}

/// What an archive of files and their manifest gives back is the files and the
/// manifest.
proof fn lemma_unpacks(entries: TextMap<Vec<u8>>, m: Manifest, text: Seq<char>)
    requires
        entries.wf(),
        all_plain(file_views(entries.entries@)),
        !entries.contents().dom().contains(manifest_path()),
        m.files.wf(),
        m@ == manifest_for(byte_contents(entries)),
        text == json_pretty(manifest_json(m@)),
        reads_as(text, manifest_json(m@)),
    ensures
        unpack_outcome(stored(packed_files(file_views(entries.entries@), m@))) == Ok::<
            Unpacking,
            ErrorView,
        >(Unpacking { manifest: m@, files: byte_contents(entries) }),
{
    let files = file_views(entries.entries@);
    let all = packed_files(files, m@);
    let keys = keys_of(entries.entries@);
    assert forall|i: int| 0 <= i < files.len() implies (#[trigger] files[i]).0 != manifest_path() by {
        entries.lemma_entry(i);
    }
    assert forall|i: int, j: int| 0 <= i < j < files.len() implies (#[trigger] files[i]).0 != (
    #[trigger] files[j]).0 by {
        assert(text_lt_at(keys, i, j));
        crate::order::lemma_text_lt_irreflexive(keys[i]);
        assert(keys[i] == files[i].0);
        assert(keys[j] == files[j].0);
    }
    lemma_scan_of_stored(files, all, files.len() as int);
    lemma_gathered(files, files.len() as int);
    let have = byte_contents(entries);
    let got = gathered(files, files.len() as int);
    assert forall|k: Seq<char>| #[trigger] have.dom().contains(k) implies got.dom().contains(k)
        && got[k] == have[k] by {
        assert(entries.contents().dom().contains(k));
        let j = choose|j: int| 0 <= j < keys.len() && keys[j] == k;
        entries.lemma_entry(j);
        assert(files[j].0 == k);
    }
    assert forall|k: Seq<char>| #[trigger] got.dom().contains(k) implies have.dom().contains(k) by {
        let j = choose|j: int| 0 <= j < files.len() && (#[trigger] files[j]).0 == k;
        entries.lemma_entry(j);
    }
    assert(got.dom() =~= have.dom());
    assert(got =~= have);
    // The manifest, which is the last item.
    lemma_manifest_name();
    lemma_plain_name(manifest_path());
    vstd::utf8::encode_utf8_valid_utf8(text);
    vstd::utf8::encode_utf8_decode_utf8(text);
    law_manifest_document_reads_back(m);
    let n = all.len() as int;
    assert(scanned(stored(all), n - 1) == Ok::<Scan, ErrorView>(
        Scan { manifest: None, members: have },
    ));
    assert(scanned(stored(all), n) == Ok::<Scan, ErrorView>(
        Scan { manifest: Some(m@), members: have },
    ));
    // The check.
    assert(m@.files.dom() =~= have.dom());
    let names = in_order(m@.files.dom());
    m.files.lemma_keys_in_order();
    assert(m@.files.dom() =~= m.files.contents().dom());
    assert forall|i: int| 0 <= i < names.len() implies m@.files[#[trigger] names[i]] == sha256_text(
        have[names[i]],
    ) by {
        m.files.lemma_entry(i);
        assert(names[i] == m.files.entries@[i].0@);
        assert(m@.files.dom().contains(names[i]));
    }
    lemma_none_altered(names, names.len() as int, m@.files, have);
}

} // verus!
