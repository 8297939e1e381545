//! `knack folder`: folders for skills, and the local index of them.

use vstd::prelude::*;

use crate::commands::install::installed::{lemma_filter_push, lemma_filter_shorter};
use crate::errors::{user_error_hint, CliError, ErrorView};
use crate::json::{member_views, no_members, text_or_null, values, with_member, Json, JsonView};
use crate::numbers::{decimal, u64_text};
use crate::order::{in_rank, sort, text_le, viewed, Ranked};
use crate::text::{
    clone_strings, concat3, concat5, opt_owned, opt_str, opt_str_view, opt_view, pad_right,
    padded_right, same, views,
};

pub mod flow;
pub mod laws;

verus! {

/// What `knack folder` is asked to do.
#[derive(Debug, Clone)]
pub enum FolderCmd {
    Create(CreateArgs),
    List(ListArgs),
    Rename(RenameArgs),
    Reparent(ReparentArgs),
    Delete(DeleteArgs),
    Mv(MvArgs),
}

#[derive(Debug, Clone)]
pub struct CreateArgs {
    pub name: String,
    pub team_id: Option<String>,
    pub parent: Option<String>,
}

#[derive(Debug, Clone)]
pub struct ReparentArgs {
    pub id_or_name: String,
    pub new_parent: Option<String>,
    /// To the top.
    pub root: bool,
    pub scope: Option<String>,
    pub team_id: Option<String>,
}

#[derive(Debug, Clone)]
pub struct ListArgs {
    pub scope: Option<String>,
    pub team_id: Option<String>,
}

#[derive(Debug, Clone)]
pub struct RenameArgs {
    pub id_or_name: String,
    pub new_name: String,
    pub scope: Option<String>,
    pub team_id: Option<String>,
}

#[derive(Debug, Clone)]
pub struct DeleteArgs {
    pub id_or_name: String,
    pub scope: Option<String>,
    pub team_id: Option<String>,
}

#[derive(Debug, Clone)]
pub struct MvArgs {
    pub slug: String,
    pub folder_name: Option<String>,
    /// Out of its folder.
    pub unfiled: bool,
    pub scope: Option<String>,
    pub team_id: Option<String>,
}

/// A folder, as the server tells of it.
#[derive(Debug, Clone)]
pub struct Folder {
    pub id: String,
    pub name: String,
    pub scope: String,
    pub owner_team_id: Option<String>,
    pub parent_folder_id: Option<String>,
    pub skill_count: u64,
}

// ---------------------------------------------------------------------------
// Where things go
// ---------------------------------------------------------------------------

/// Among which folders the parent of a new folder is looked for: a team's folder
/// lies in a team's folder, and a personal one in a personal one.
pub fn parent_scope(team_id: Option<&str>) -> (r: &'static str)
    ensures
        r@ == (if team_id is Some {
            "team"@
        } else {
            "personal"@
        }),
{
    if team_id.is_some() {
        "team"
    } else {
        "personal"
    }
}

/// Where a folder is moved to.
#[derive(Debug)]
pub enum ReparentTo {
    Root,
    /// Under the folder that is named.
    Parent(String),
}

/// Where a folder is moved to. Something has to be said.
pub fn reparent_target(args: &ReparentArgs) -> (r: Result<ReparentTo, CliError>)
    ensures
        if args.root {
            r is Ok && r->Ok_0 is Root
        } else {
            match opt_view(args.new_parent) {
                Some(p) => r is Ok && (r->Ok_0 matches ReparentTo::Parent(q) && q@ == p),
                None => r is Err && r->Err_0@ == (ErrorView::User {
                    code: "REPARENT_NO_TARGET"@,
                    message: "pass a new parent folder id/name, or --root to promote to the top level"@,
                    hint: Some("knack folder reparent <id-or-name> <parent-id-or-name> | --root"@),
                }),
            }
        },
{
    if args.root {
        return Ok(ReparentTo::Root);
    }
    match &args.new_parent {
        Some(p) => Ok(ReparentTo::Parent(p.clone())),
        None => Err(
            user_error_hint(
                "REPARENT_NO_TARGET",
                "pass a new parent folder id/name, or --root to promote to the top level".to_owned(),
                "knack folder reparent <id-or-name> <parent-id-or-name> | --root",
            ),
        ),
    }
}

/// A skill, as far as moving it is concerned.
#[derive(Debug)]
pub struct SkillPlace {
    pub id: String,
    pub slug: String,
    pub scope: String,
    pub owner_team_id: Option<String>,
}

/// What is done with a skill.
#[derive(Debug)]
pub enum MvPlan {
    /// It is taken out of its folder.
    Unfile,
    /// It goes into the folder that is named, which is looked for in the scope and
    /// the team.
    File { folder: String, scope: Option<String>, team_id: Option<String> },
}

/// Among which folders a folder is looked for: where the caller says, else where
/// the skill is.
pub open spec fn folder_scope(asked: Option<Seq<char>>, of_skill: Seq<char>) -> Option<Seq<char>> {
    if asked is Some {
        asked
    } else if of_skill == "personal"@ || of_skill == "team"@ {
        Some(of_skill)
    } else {
        None
    }
}

pub open spec fn first_given(a: Option<Seq<char>>, b: Option<Seq<char>>) -> Option<Seq<char>> {
    if a is Some {
        a
    } else {
        b
    }
}

/// What is done with a skill: it has to be there, and a folder has to be named,
/// unless it is taken out of its own.
pub fn mv_plan(args: &MvArgs, skill: Option<&SkillPlace>) -> (r: Result<MvPlan, CliError>)
    ensures
        match skill {
            None => r is Err && r->Err_0@ == ErrorView::NotFound(
                "skill `"@ + args.slug@ + "` not found"@,
            ),
            Some(s) => if args.unfiled {
                r is Ok && r->Ok_0 is Unfile
            } else {
                match opt_view(args.folder_name) {
                    None => r is Err && r->Err_0@ == (ErrorView::User {
                        code: "MISSING_FOLDER"@,
                        message: "pass a folder name or --unfiled"@,
                        hint: Some("knack folder mv <skill-slug> <folder-name> | --unfiled"@),
                    }),
                    Some(name) => r is Ok && (r->Ok_0 matches MvPlan::File { folder, scope, team_id }
                        && folder@ == name && opt_view(scope) == folder_scope(
                        opt_view(args.scope),
                        s.scope@,
                    ) && opt_view(team_id) == first_given(
                        opt_view(args.team_id),
                        opt_view(s.owner_team_id),
                    )),
                }
            },
        },
{
    let s = match skill {
        Some(s) => s,
        None => {
            return Err(CliError::NotFound(concat3("skill `", args.slug.as_str(), "` not found")));
        },
    };
    if args.unfiled {
        return Ok(MvPlan::Unfile);
    }
    let folder = match &args.folder_name {
        Some(f) => f.clone(),
        None => {
            return Err(
                user_error_hint(
                    "MISSING_FOLDER",
                    "pass a folder name or --unfiled".to_owned(),
                    "knack folder mv <skill-slug> <folder-name> | --unfiled",
                ),
            );
        },
    };
    let scope = match &args.scope {
        Some(x) => Some(x.clone()),
        None => if same(s.scope.as_str(), "personal") || same(s.scope.as_str(), "team") {
            Some(s.scope.clone())
        } else {
            None
        },
    };
    let team_id = match &args.team_id {
        Some(t) => Some(t.clone()),
        None => opt_owned(opt_str(&s.owner_team_id)),
    };
    Ok(MvPlan::File { folder, scope, team_id })
}

/// The team that a folder is made for where none of the name was found: the team
/// itself for a team's skill, and nobody else.
pub fn new_folder_team<'a>(scope: Option<&str>, team_id: Option<&'a str>) -> (r: Option<&'a str>)
    ensures
        r == (if opt_str_view(scope) == Some("team"@) {
            team_id
        } else {
            None
        }),
{
    match scope {
        Some(s) => if same(s, "team") {
            team_id
        } else {
            None
        },
        None => None,
    }
}

// ---------------------------------------------------------------------------
// The local index
// ---------------------------------------------------------------------------

/// A folder in the local index.
#[derive(Debug)]
pub struct FolderIndexEntry {
    pub id: String,
    pub name: String,
    pub scope: String,
    pub owner_team_id: Option<String>,
    /// The skills in it.
    pub slugs: Vec<String>,
}

/// A folder in the local index, as a mathematical value.
#[verifier::ext_equal]
pub ghost struct IndexView {
    pub id: Seq<char>,
    pub name: Seq<char>,
    pub scope: Seq<char>,
    pub owner_team_id: Option<Seq<char>>,
    pub slugs: Seq<Seq<char>>,
}

impl View for FolderIndexEntry {
    type V = IndexView;

    open spec fn view(&self) -> IndexView {
        IndexView {
            id: self.id@,
            name: self.name@,
            scope: self.scope@,
            owner_team_id: opt_view(self.owner_team_id),
            slugs: views(self.slugs@),
        }
    }
}

impl Ranked for FolderIndexEntry {
    /// By name.
    open spec fn leq(a: IndexView, b: IndexView) -> bool {
        text_le(a.name, b.name)
    }

    proof fn lemma_leq(a: IndexView, b: IndexView, c: IndexView) {
        <String as Ranked>::lemma_leq(a.name, b.name, c.name);
        assert(<String as Ranked>::leq(a.name, b.name) == text_le(a.name, b.name));
        assert(<String as Ranked>::leq(b.name, a.name) == text_le(b.name, a.name));
        assert(<String as Ranked>::leq(b.name, c.name) == text_le(b.name, c.name));
        assert(<String as Ranked>::leq(a.name, c.name) == text_le(a.name, c.name));
    }

    fn is_leq(a: &FolderIndexEntry, b: &FolderIndexEntry) -> (r: bool) {
        let r = String::is_leq(&a.name, &b.name);
        assert(<String as Ranked>::leq(a.name@, b.name@) == text_le(a.name@, b.name@));
        r
    }
}

/// The local index.
#[derive(Debug)]
pub struct FoldersIndex {
    pub folders: Vec<FolderIndexEntry>,
}

impl View for FoldersIndex {
    type V = Seq<IndexView>;

    open spec fn view(&self) -> Seq<IndexView> {
        viewed(self.folders@)
    }
}

/// A folder with an id is in the index.
pub open spec fn has_folder(s: Seq<IndexView>, id: Seq<char>) -> bool {
    exists|i: int| 0 <= i < s.len() && (#[trigger] s[i]).id == id
}

/// A folder with nothing in it.
pub open spec fn empty_folder(f: Folder) -> IndexView {
    IndexView {
        id: f.id@,
        name: f.name@,
        scope: f.scope@,
        owner_team_id: opt_view(f.owner_team_id),
        slugs: seq![],
    }
}

/// Adds a folder with nothing in it, unless it is there. Whether it was added.
pub fn assign_to_folder_stub(idx: &mut FoldersIndex, f: &Folder) -> (r: bool)
    ensures
        r == !has_folder(old(idx)@, f.id@),
        final(idx)@ == (if has_folder(old(idx)@, f.id@) {
            old(idx)@
        } else {
            in_rank::<FolderIndexEntry>(old(idx)@.push(empty_folder(*f)))
        }),
{
    let ghost was = idx@;
    let mut i: usize = 0;
    while i < idx.folders.len()
        invariant
            i <= idx.folders.len(),
            idx@ == was,
            forall|j: int| 0 <= j < i ==> (#[trigger] was[j]).id != f.id@,
        decreases idx.folders.len() - i,
    {
        assert(was[i as int] == idx.folders@[i as int]@);
        if same(idx.folders[i].id.as_str(), f.id.as_str()) {
            return false;
        }
        i += 1;
    }
    let entry = FolderIndexEntry {
        id: f.id.clone(),
        name: f.name.clone(),
        scope: f.scope.clone(),
        owner_team_id: opt_owned(opt_str(&f.owner_team_id)),
        slugs: Vec::new(),
    };
    assert(entry@ =~= empty_folder(*f));
    let mut all: Vec<FolderIndexEntry> = Vec::new();
    copy_all(&idx.folders, &mut all);
    all.push(entry);
    assert(viewed(all@) =~= was.push(empty_folder(*f)));
    idx.folders = sort(all);
    true
}

fn copy_entry(e: &FolderIndexEntry) -> (r: FolderIndexEntry)
    ensures
        r@ == e@,
{
    FolderIndexEntry {
        id: e.id.clone(),
        name: e.name.clone(),
        scope: e.scope.clone(),
        owner_team_id: opt_owned(opt_str(&e.owner_team_id)),
        slugs: clone_strings(&e.slugs),
    }
}

fn copy_all(from: &Vec<FolderIndexEntry>, to: &mut Vec<FolderIndexEntry>)
    requires
        old(to)@.len() == 0,
    ensures
        viewed(final(to)@) == viewed(from@),
{
    let mut i: usize = 0;
    while i < from.len()
        invariant
            i <= from.len(),
            to@.len() == i,
            forall|j: int| 0 <= j < i ==> (#[trigger] to@[j])@ == from@[j]@,
        decreases from.len() - i,
    {
        to.push(copy_entry(&from[i]));
        i += 1;
    }
    assert(viewed(to@) =~= viewed(from@));
}

/// The entry under the new name, where it is the folder that is renamed.
pub open spec fn renamed(e: IndexView, id: Seq<char>, name: Seq<char>) -> IndexView {
    if e.id == id {
        IndexView { name, ..e }
    } else {
        e
    }
}

/// Some folder gets another name.
pub open spec fn renames(s: Seq<IndexView>, id: Seq<char>, name: Seq<char>) -> bool {
    exists|i: int| 0 <= i < s.len() && (#[trigger] s[i]).id == id && s[i].name != name
}

/// Renames a folder, and puts it where its new name belongs. Whether anything
/// changed.
pub fn sync_folder_rename_local(
    idx: &mut FoldersIndex,
    folder_id: &str,
    new_name: &str,
) -> (r: bool)
    ensures
        r == renames(old(idx)@, folder_id@, new_name@),
        final(idx)@ == (if renames(old(idx)@, folder_id@, new_name@) {
            in_rank::<FolderIndexEntry>(
                Seq::new(old(idx)@.len(), |i: int| renamed(old(idx)@[i], folder_id@, new_name@)),
            )
        } else {
            old(idx)@
        }),
{
    let ghost was = idx@;
    let mut changed = false;
    let mut all: Vec<FolderIndexEntry> = Vec::new();
    let mut i: usize = 0;
    while i < idx.folders.len()
        invariant
            i <= idx.folders.len(),
            idx@ == was,
            all@.len() == i,
            forall|j: int| 0 <= j < i ==> (#[trigger] all@[j])@ == renamed(was[j], folder_id@, new_name@),
            changed == (exists|j: int|
                0 <= j < i && (#[trigger] was[j]).id == folder_id@ && was[j].name != new_name@),
        decreases idx.folders.len() - i,
    {
        assert(was[i as int] == idx.folders@[i as int]@);
        let mut e = copy_entry(&idx.folders[i]);
        if same(e.id.as_str(), folder_id) && !same(e.name.as_str(), new_name) {
            e.name = new_name.to_owned();
            changed = true;
        }
        assert(e@ =~= renamed(was[i as int], folder_id@, new_name@));
        all.push(e);
        i += 1;
    }
    if changed {
        assert(viewed(all@) =~= Seq::new(
            was.len(),
            |i: int| renamed(was[i], folder_id@, new_name@),
        ));
        idx.folders = sort(all);
    }
    changed
}

/// The index without a folder.
pub open spec fn without_folder(s: Seq<IndexView>, id: Seq<char>) -> Seq<IndexView> {
    s.filter(|e: IndexView| e.id != id)
}

/// Takes a folder out of the index. Whether it was there.
pub fn sync_folder_delete_local(idx: &mut FoldersIndex, folder_id: &str) -> (r: bool)
    ensures
        r == has_folder(old(idx)@, folder_id@),
        final(idx)@ == without_folder(old(idx)@, folder_id@),
{
    let ghost was = idx@;
    let ghost p = |e: IndexView| e.id != folder_id@;
    let mut kept: Vec<FolderIndexEntry> = Vec::new();
    let mut i: usize = 0;
    proof {
        reveal(Seq::filter);
        assert(was.take(0) =~= seq![]);
        assert(viewed(kept@) =~= seq![]);
    }
    while i < idx.folders.len()
        invariant
            i <= idx.folders.len(),
            idx@ == was,
            p == (|e: IndexView| e.id != folder_id@),
            viewed(kept@) == was.take(i as int).filter(p),
        decreases idx.folders.len() - i,
    {
        let ghost x = was[i as int];
        proof {
            assert(was.take(i + 1) =~= was.take(i as int).push(x));
            lemma_filter_push(was.take(i as int), x, p);
        }
        if !same(idx.folders[i].id.as_str(), folder_id) {
            let ghost before = viewed(kept@);
            kept.push(copy_entry(&idx.folders[i]));
            assert(viewed(kept@) =~= before.push(x));
        }
        i += 1;
    }
    assert(was.take(i as int) =~= was);
    proof {
        lemma_filter_shorter(was, p);
        assert(viewed(kept@).len() == kept@.len());
        assert(viewed(idx.folders@).len() == idx.folders@.len());
    }
    let changed = kept.len() != idx.folders.len();
    idx.folders = kept;
    changed
}

/// A folder that was added is there, and what was there stays.
pub proof fn law_added_folder_is_there(s: Seq<IndexView>, f: Folder)
    ensures
        ({
            let r = in_rank::<FolderIndexEntry>(s.push(empty_folder(f)));
            &&& r.contains(empty_folder(f))
            &&& has_folder(r, f.id@)
            &&& forall|e: IndexView| #[trigger] s.contains(e) ==> r.contains(e)
        }),
{
    let t = s.push(empty_folder(f));
    let r = in_rank::<FolderIndexEntry>(t);
    crate::order::law_arranging_sorts::<FolderIndexEntry>(t, t.len() as int);
    assert(t.take(t.len() as int) =~= t);
    r.to_multiset_ensures();
    t.to_multiset_ensures();
    assert forall|e: IndexView| t.contains(e) implies r.contains(e) by {
        assert(t.to_multiset().contains(e));
        assert(r.to_multiset().contains(e));
    }
    assert(t[t.len() - 1] == empty_folder(f));
    assert(t.contains(empty_folder(f)));
    let k = choose|k: int| 0 <= k < r.len() && r[k] == empty_folder(f);
    assert(r[k].id == f.id@);
    assert forall|e: IndexView| #[trigger] s.contains(e) implies r.contains(e) by {
        let i = choose|i: int| 0 <= i < s.len() && s[i] == e;
        assert(t[i] == e);
        assert(t.contains(e));
    }
}

/// A folder that was deleted is gone, and the others stay.
pub proof fn law_deleted_folder_is_gone(s: Seq<IndexView>, id: Seq<char>)
    ensures
        !has_folder(without_folder(s, id), id),
        forall|e: IndexView|
            e.id != id ==> (#[trigger] without_folder(s, id).contains(e) == s.contains(e)),
    decreases s.len(),
{
    reveal(Seq::filter);
    if s.len() > 0 {
        let rest = s.drop_last();
        let x = s.last();
        law_deleted_folder_is_gone(rest, id);
        let a = without_folder(rest, id);
        let b = without_folder(s, id);
        assert(s =~= rest.push(x));
        assert(b == (if x.id != id {
            a.push(x)
        } else {
            a
        }));
        assert forall|e: IndexView| e.id != id implies #[trigger] b.contains(e) == s.contains(e) by {
            assert(a.contains(e) == rest.contains(e));
            if s.contains(e) {
                let i = choose|i: int| 0 <= i < s.len() && s[i] == e;
                if i < rest.len() {
                    assert(rest[i] == e);
                    let j = choose|j: int| 0 <= j < a.len() && a[j] == e;
                    assert(b[j] == e);
                } else {
                    assert(b[b.len() - 1] == e);
                }
            }
            if b.contains(e) {
                let j = choose|j: int| 0 <= j < b.len() && b[j] == e;
                if j < a.len() {
                    assert(a[j] == e);
                    let i = choose|i: int| 0 <= i < rest.len() && rest[i] == e;
                    assert(s[i] == e);
                } else {
                    assert(s[s.len() - 1] == e);
                }
            }
        }
        if has_folder(b, id) {
            let j = choose|j: int| 0 <= j < b.len() && (#[trigger] b[j]).id == id;
            assert(a[j].id == id);
        }
    }
}

// ---------------------------------------------------------------------------
// Reports
// ---------------------------------------------------------------------------

pub open spec fn folder_json(f: Folder) -> JsonView {
    JsonView::Object(
        seq![
            ("id"@, JsonView::Text(f.id@)),
            ("name"@, JsonView::Text(f.name@)),
            ("scope"@, JsonView::Text(f.scope@)),
            ("owner_team_id"@, text_or_null(opt_view(f.owner_team_id))),
            ("skill_count"@, JsonView::Int(f.skill_count as int)),
        ],
    )
}

/// What a listing reports.
pub fn list_json(folders: &Vec<Folder>) -> (r: Json)
    ensures
        r.value() == JsonView::Object(
            seq![
                (
                    "folders"@,
                    JsonView::Array(Seq::new(folders@.len(), |i: int| folder_json(folders@[i]))),
                ),
            ],
        ),
{
    let mut a: Vec<Json> = Vec::new();
    let mut i: usize = 0;
    while i < folders.len()
        invariant
            i <= folders.len(),
            a@.len() == i,
            forall|j: int| 0 <= j < i ==> (#[trigger] a@[j]).value() == folder_json(folders@[j]),
        decreases folders.len() - i,
    {
        let f = &folders[i];
        let m = with_member(no_members(), "id", Json::text(f.id.as_str()));
        let m = with_member(m, "name", Json::text(f.name.as_str()));
        let m = with_member(m, "scope", Json::text(f.scope.as_str()));
        let m = with_member(m, "owner_team_id", Json::opt_text(opt_str(&f.owner_team_id)));
        let m = with_member(m, "skill_count", Json::Nat(f.skill_count));
        assert(member_views(m@) =~= folder_json(folders@[i as int])->Object_0);
        a.push(Json::object(m));
        i += 1;
    }
    proof {
        crate::json::lemma_array_value(a);
        assert(values(a@) =~= Seq::new(folders@.len(), |i: int| folder_json(folders@[i])));
    }
    let m = with_member(no_members(), "folders", Json::Array(a));
    assert(member_views(m@) =~= seq![
        (
            "folders"@,
            JsonView::Array(Seq::new(folders@.len(), |i: int| folder_json(folders@[i]))),
        ),
    ]);
    Json::object(m)
}

/// What people are told of a folder in a listing.
pub open spec fn folder_line(f: Folder) -> Seq<char> {
    "  "@ + padded_right(f.name@, 28) + " "@ + padded_right(f.scope@, 8) + " "@ + (if f.skill_count
        == 1 {
        "1 skill"@
    } else {
        decimal(f.skill_count as nat) + " skills"@
    })
}

/// What people are told of folders.
pub fn list_lines(folders: &Vec<Folder>) -> (r: Vec<String>)
    ensures
        views(r@) == (if folders@.len() == 0 {
            seq!["(no folders)"@]
        } else {
            Seq::new(folders@.len(), |i: int| folder_line(folders@[i]))
        }),
{
    let mut out: Vec<String> = Vec::new();
    if folders.len() == 0 {
        out.push("(no folders)".to_owned());
        assert(views(out@) =~= seq!["(no folders)"@]);
        return out;
    }
    let mut i: usize = 0;
    while i < folders.len()
        invariant
            i <= folders.len(),
            out@.len() == i,
            forall|j: int| 0 <= j < i ==> (#[trigger] out@[j])@ == folder_line(folders@[j]),
        decreases folders.len() - i,
    {
        let f = &folders[i];
        let suffix = if f.skill_count == 1 {
            "1 skill".to_owned()
        } else {
            let n = u64_text(f.skill_count);
            crate::errors::prefixed(n.as_str(), " skills")
        };
        let name = pad_right(f.name.as_str(), 28);
        let scope = pad_right(f.scope.as_str(), 8);
        let mut line = concat5("  ", name.as_str(), " ", scope.as_str(), " ");
        line.append(suffix.as_str());
        out.push(line);
        i += 1;
    }
    assert(views(out@) =~= Seq::new(folders@.len(), |i: int| folder_line(folders@[i])));
    out
}

} // verus!
