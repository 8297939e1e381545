//! What goes into an archive and what comes out of it, file by file.

use vstd::prelude::*;

use crate::archive::{hex_digit, hex_text, sha256_of, sha256_text, EntryView};
use crate::skill_pack::{
    arcname, manifest_for, manifest_path, packed_entries, packed_part, scanned, slash,
    unpack_outcome, unsafe_name,
};
use crate::text::{find_first, has_prefix, lemma_find_from, occurs_at, pieces};

verus! {

/// The text starts with the other one.
pub open spec fn starts(s: Seq<char>, p: Seq<char>) -> bool {
    p.len() <= s.len() && forall|i: int| 0 <= i < p.len() ==> s[i] == #[trigger] p[i]
}

/// The file belongs to a skill: it is one of the three at the top of the folder, or it
/// lies below one of the five folders.
pub open spec fn belongs(name: Seq<char>) -> bool {
    ||| name == "SKILL.md"@
    ||| name == "meta.knack.yaml"@
    ||| name == "intuition.md"@
    ||| starts(name, "tests/"@)
    ||| starts(name, "examples/"@)
    ||| starts(name, "scripts/"@)
    ||| starts(name, "assets/"@)
    ||| starts(name, "references/"@)
}

proof fn lemma_starts(s: Seq<char>, p: Seq<char>)
    ensures
        starts(s, p) <==> has_prefix(s, p),
{
    if has_prefix(s, p) {
        assert forall|i: int| 0 <= i < p.len() implies s[i] == #[trigger] p[i] by {
            assert(s.take(p.len() as int)[i] == s[i]);
        }
    }
    if starts(s, p) {
        assert(s.take(p.len() as int) =~= p);
    }
}

proof fn lemma_belongs(name: Seq<char>)
    ensures
        belongs(name) <==> crate::skill_pack::packed_name(name),
{
    lemma_starts(name, "tests/"@);
    lemma_starts(name, "examples/"@);
    lemma_starts(name, "scripts/"@);
    lemma_starts(name, "assets/"@);
    lemma_starts(name, "references/"@);
}

/// Of a folder, exactly the files that belong to a skill are packed, each with its bytes,
/// and the manifest lists exactly these, each with the digest of its bytes.
pub proof fn law_what_belongs_is_packed(folder: Map<Seq<char>, Seq<u8>>, name: Seq<char>)
    ensures
        packed_part(folder).dom().contains(name) <==> folder.dom().contains(name) && (name
            == "SKILL.md"@ || name == "meta.knack.yaml"@ || name == "intuition.md"@ || starts(
            name,
            "tests/"@,
        ) || starts(name, "examples/"@) || starts(name, "scripts/"@) || starts(name, "assets/"@)
            || starts(name, "references/"@)),
        packed_part(folder).dom().contains(name) ==> packed_part(folder)[name] == folder[name],
        manifest_for(packed_part(folder)).version == 1,
        manifest_for(packed_part(folder)).files.dom().contains(name) <==> folder.dom().contains(name)
            && belongs(name),
        folder.dom().contains(name) && belongs(name) ==> manifest_for(packed_part(folder)).files[name]
            == hex_text(sha256_of(folder[name])),
{
    lemma_belongs(name);
}

proof fn lemma_packed_entries(
    files: Seq<(Seq<char>, Seq<u8>)>,
    n: int,
    p: spec_fn((Seq<char>, Seq<u8>)) -> bool,
)
    requires
        0 <= n <= files.len(),
        forall|f: (Seq<char>, Seq<u8>)| #[trigger] p(f) == belongs(f.0),
    ensures
        packed_entries(files, n) == files.take(n).filter(p),
    decreases n,
{
    reveal(Seq::filter);
    if n > 0 {
        lemma_packed_entries(files, n - 1, p);
        assert(files.take(n).drop_last() =~= files.take(n - 1));
        assert(files.take(n).last() == files[n - 1]);
        lemma_belongs(files[n - 1].0);
    } else {
        assert(files.take(0).filter(p) =~= seq![]);
    }
}

/// The files in an archive are those of the folder that belong to a skill, in their order.
pub proof fn law_archives_hold_what_belongs(files: Seq<(Seq<char>, Seq<u8>)>)
    ensures
        packed_entries(files, files.len() as int) == files.filter(
            |f: (Seq<char>, Seq<u8>)| belongs(f.0),
        ),
{
    let p = |f: (Seq<char>, Seq<u8>)| belongs(f.0);
    lemma_packed_entries(files, files.len() as int, p);
    assert(files.take(files.len() as int) =~= files);
}

/// A digest is written with two hexadecimal digits for each byte, the high half first.
pub proof fn law_digests_are_in_hexadecimal(data: Seq<u8>, i: int)
    requires
        0 <= i < data.len(),
    ensures
        hex_text(data).len() == 2 * data.len(),
        hex_text(data)[2 * i] == "0123456789abcdef"@[data[i] as int / 16],
        hex_text(data)[2 * i + 1] == "0123456789abcdef"@[data[i] as int % 16],
        sha256_text(data) == hex_text(sha256_of(data)),
{
    reveal_strlit("0123456789abcdef");
    assert(forall|n: int| 0 <= n < 16 ==> #[trigger] hex_digit(n) == "0123456789abcdef"@[n]);
}

// ---------------------------------------------------------------------------
// Taking an archive apart
// ---------------------------------------------------------------------------

/// The item is a file with a name, which is not the manifest's, and with bytes.
pub open spec fn is_member(
    item: Result<EntryView, Seq<char>>,
    name: Seq<char>,
    data: Seq<u8>,
) -> bool {
    item matches Ok(e) && e.regular && (e.path matches Ok(p) && arcname(p) == name) && (
    e.data matches Ok(d) && d == data) && name != manifest_path()
}

/// The item is no file of that name.
pub open spec fn is_no_member(item: Result<EntryView, Seq<char>>, name: Seq<char>) -> bool {
    item matches Ok(e) && !(e.regular && (e.path matches Ok(p) && arcname(p) == name))
}

proof fn lemma_scanned_members(
    items: Seq<Result<EntryView, Seq<char>>>,
    n: int,
    k: int,
    name: Seq<char>,
    data: Seq<u8>,
)
    requires
        0 <= k < n <= items.len(),
        is_member(items[k], name, data),
        forall|i: int| k < i < n ==> is_no_member(#[trigger] items[i], name),
    ensures
        scanned(items, n) matches Ok(st) ==> st.members.dom().contains(name) && st.members[name]
            == data,
    decreases n,
{
    if k < n - 1 {
        lemma_scanned_members(items, n - 1, k, name, data);
        assert(is_no_member(items[n - 1], name));
    }
}

proof fn lemma_scanned_from(items: Seq<Result<EntryView, Seq<char>>>, n: int, name: Seq<char>)
    requires
        0 <= n <= items.len(),
    ensures
        scanned(items, n) matches Ok(st) ==> st.members.dom().contains(name) ==> exists|k: int|
            0 <= k < n && is_member(#[trigger] items[k], name, st.members[name]),
        scanned(items, n) is Ok ==> forall|i: int| 0 <= i < n ==> (#[trigger] items[i]) is Ok,
    decreases n,
{
    if n > 0 {
        lemma_scanned_from(items, n - 1, name);
        if let Ok(st) = scanned(items, n) {
            let was = scanned(items, n - 1)->Ok_0;
            if st.members.dom().contains(name) {
                if was.members.dom().contains(name) && was.members[name] == st.members[name] {
                    let k = choose|k: int|
                        0 <= k < n - 1 && is_member(#[trigger] items[k], name, was.members[name]);
                    assert(is_member(items[k], name, st.members[name]));
                } else {
                    assert(is_member(items[n - 1], name, st.members[name]));
                }
            }
        }
    }
}

/// Each file in an archive that can be taken apart comes out of it, under its name and
/// with its bytes; of two with one name it is the last.
pub proof fn law_each_file_comes_out(
    items: Seq<Result<EntryView, Seq<char>>>,
    k: int,
    name: Seq<char>,
    data: Seq<u8>,
)
    requires
        unpack_outcome(items) is Ok,
        0 <= k < items.len(),
        is_member(items[k], name, data),
        forall|i: int| k < i < items.len() ==> is_no_member(#[trigger] items[i], name),
    ensures
        unpack_outcome(items)->Ok_0.files.dom().contains(name),
        unpack_outcome(items)->Ok_0.files[name] == data,
{
    lemma_scanned_members(items, items.len() as int, k, name, data);
}

/// Nothing comes out of an archive that is not a file in it.
pub proof fn law_only_files_come_out(items: Seq<Result<EntryView, Seq<char>>>, name: Seq<char>)
    requires
        unpack_outcome(items) is Ok,
        unpack_outcome(items)->Ok_0.files.dom().contains(name),
    ensures
        exists|k: int|
            0 <= k < items.len() && is_member(
                #[trigger] items[k],
                name,
                unpack_outcome(items)->Ok_0.files[name],
            ),
{
    lemma_scanned_from(items, items.len() as int, name);
}

/// An archive that cannot be read to its end is not taken apart.
pub proof fn law_broken_archives_are_refused(items: Seq<Result<EntryView, Seq<char>>>, i: int)
    requires
        0 <= i < items.len(),
        items[i] is Err,
    ensures
        unpack_outcome(items) is Err,
{
    lemma_scanned_from(items, items.len() as int, seq![]);
}

// ---------------------------------------------------------------------------
// Names that lead out of a folder
// ---------------------------------------------------------------------------

/// Two dots stand at the position, with a slash or nothing on either side.
pub open spec fn climbs_at(name: Seq<char>, i: int) -> bool {
    &&& 0 <= i
    &&& i + 2 <= name.len()
    &&& name[i] == '.'
    &&& name[i + 1] == '.'
    &&& i == 0 || name[i - 1] == '/'
    &&& i + 2 == name.len() || name[i + 2] == '/'
}

proof fn lemma_climbing_piece(name: Seq<char>, i: int)
    requires
        climbs_at(name, i),
    ensures
        pieces(name, slash()).contains(seq!['.', '.']),
    decreases name.len(),
{
    let p = slash();
    lemma_find_from(name, p, 0);
    match find_first(name, p) {
        Some(k) => {
            assert(name.subrange(k, k + 1)[0] == name[k]);
            let rest = pieces(name.skip(k + 1), p);
            let all = pieces(name, p);
            if k < i {
                assert(climbs_at(name.skip(k + 1), i - k - 1));
                lemma_climbing_piece(name.skip(k + 1), i - k - 1);
                let j = choose|j: int| 0 <= j < rest.len() && rest[j] == seq!['.', '.'];
                assert(all[j + 1] == seq!['.', '.']);
            } else {
                if i > 0 {
                    assert(name.subrange(i - 1, i) =~= p);
                    assert(occurs_at(name, p, i - 1));
                }
                assert(i == 0);
                assert(k >= 2);
                if k > 2 {
                    assert(name.subrange(2, 3) =~= p);
                    assert(occurs_at(name, p, 2));
                }
                assert(name.take(k) =~= seq!['.', '.']);
                assert(all[0] == seq!['.', '.']);
            }
        },
        None => {
            if i > 0 {
                assert(name.subrange(i - 1, i) =~= p);
                assert(occurs_at(name, p, i - 1));
            }
            if i + 2 < name.len() {
                assert(name.subrange(i + 2, i + 3) =~= p);
                assert(occurs_at(name, p, i + 2));
            }
            assert(name =~= seq!['.', '.']);
            assert(pieces(name, p)[0] == name);
        },
    }
}

/// A name that comes out of an archive does not start with a slash, and no two dots stand
/// alone between its slashes.
pub proof fn law_no_name_climbs(
    items: Seq<Result<EntryView, Seq<char>>>,
    name: Seq<char>,
    i: int,
)
    requires
        unpack_outcome(items) is Ok,
        unpack_outcome(items)->Ok_0.files.dom().contains(name),
    ensures
        name.len() > 0 ==> name[0] != '/',
        !climbs_at(name, i),
{
    crate::skill_pack::law_unpacked_names_stay_inside(items);
    assert(!unsafe_name(name));
    reveal_strlit("/");
    reveal_strlit("..");
    assert("/"@ =~= seq!['/']);
    assert(".."@ =~= seq!['.', '.']);
    if name.len() > 0 && name[0] == '/' {
        assert(name.take(1) =~= "/"@);
        assert(has_prefix(name, "/"@));
    }
    if climbs_at(name, i) {
        lemma_climbing_piece(name, i);
    }
}

} // verus!
