//! The name of a skill with a version behind it.

use vstd::prelude::*;

use crate::text::{chars_of, find_chars_from, find_from, lemma_find_from, opt_str_view};

verus! {

/// Where the version starts: the first `@`, but for one that opens the text and
/// so belongs to a handle.
pub open spec fn version_mark(s: Seq<char>) -> Option<int> {
    find_from(
        s,
        seq!['@'],
        if s.len() > 0 && s[0] == '@' {
            1
        } else {
            0
        },
    )
}

/// The name, and the version if there is one.
pub open spec fn slug_parts(s: Seq<char>) -> (Seq<char>, Option<Seq<char>>) {
    match version_mark(s) {
        Some(i) => (s.take(i), Some(s.skip(i + 1))),
        None => (s, None),
    }
}

/// The name and the version of a skill, taken apart. The leading `@` of a handle
/// stays with the name.
pub fn parse_slug_at_version<'a>(s: &'a str) -> (r: (&'a str, Option<&'a str>))
    ensures
        r.0@ == slug_parts(s@).0,
        opt_str_view(r.1) == slug_parts(s@).1,
{
    let v = chars_of(s);
    let mark: Vec<char> = vec!['@'];
    assert(mark@ =~= seq!['@']);
    let n: usize = s.unicode_len();
    let from: usize = if v.len() > 0 && v[0] == '@' {
        1
    } else {
        0
    };
    proof {
        lemma_find_from(s@, seq!['@'], from as int);
    }
    match find_chars_from(v.as_slice(), mark.as_slice(), from) {
        Some(i) => {
            let a = s.substring_char(0, i);
            let b = s.substring_char(i + 1, n);
            assert(a@ =~= s@.take(i as int));
            assert(b@ =~= s@.skip(i + 1));
            (a, Some(b))
        },
        None => (s, None),
    }
}

/// A name and its version make up the text they were taken from.
pub proof fn law_parts_make_the_text(s: Seq<char>)
    ensures
        match slug_parts(s) {
            (name, Some(version)) => s == name + seq!['@'] + version,
            (name, None) => s == name,
        },
{
    let from: int = if s.len() > 0 && s[0] == '@' {
        1
    } else {
        0
    };
    lemma_find_from(s, seq!['@'], from);
    match version_mark(s) {
        Some(i) => {
            assert(s.subrange(i, i + 1)[0] == '@');
            assert(s =~= s.take(i) + seq!['@'] + s.skip(i + 1));
        },
        None => {},
    }
}

/// A name with a version behind it comes apart into just these, whatever the
/// version: the name has no `@`, but perhaps for its first character.
pub proof fn law_name_and_version_come_apart(name: Seq<char>, version: Seq<char>)
    requires
        name.len() > 0,
        forall|i: int| 1 <= i < name.len() ==> name[i] != '@',
    ensures
        slug_parts(name + seq!['@'] + version) == (name, Some(version)),
        slug_parts(name) == (name, None::<Seq<char>>),
{
    let s = name + seq!['@'] + version;
    let from: int = if name[0] == '@' {
        1
    } else {
        0
    };
    assert(s[0] == name[0]);
    assert forall|j: int| from <= j < name.len() implies !crate::text::occurs_at(s, seq!['@'], j) by {
        assert(s[j] == name[j]);
        if crate::text::occurs_at(s, seq!['@'], j) {
            assert(s.subrange(j, j + 1)[0] == '@');
        }
    }
    assert(s.subrange(name.len() as int, name.len() as int + 1) =~= seq!['@']);
    crate::text::lemma_find_from_is(s, seq!['@'], from, name.len() as int);
    assert(s.take(name.len() as int) =~= name);
    assert(s.skip(name.len() as int + 1) =~= version);
    lemma_find_from(name, seq!['@'], from);
    if version_mark(name) is Some {
        let i = version_mark(name)->0;
        assert(name.subrange(i, i + 1)[0] == '@');
    }
}

} // verus!
