//! What becomes of folders and of the skills in them.

use vstd::prelude::*;

use crate::commands::folder::flow::{
    create_next, delete_next, mv_next, rename_next, reparent_next, FolderFacts, FolderNext,
    LocalView,
};
use crate::commands::folder::{
    empty_folder, first_given, folder_scope, renamed, renames, without_folder, CreateArgs,
    DeleteArgs, Folder, IndexView, MvArgs, RenameArgs, ReparentArgs,
};
use crate::text::opt_view;

verus! {

/// A folder that is renamed keeps all but its name, and every other folder keeps that too.
pub proof fn law_only_the_named_folder_is_renamed(e: IndexView, id: Seq<char>, name: Seq<char>)
    ensures
        ({
            let r = renamed(e, id, name);
            &&& r.id == e.id && r.scope == e.scope && r.owner_team_id == e.owner_team_id && r.slugs
                == e.slugs
            &&& e.id == id ==> r.name == name
            &&& e.id != id ==> r.name == e.name
        }),
{
}

/// Renaming changes something exactly where a folder with the id has another name.
pub proof fn law_renaming_to_the_same_name_changes_nothing(
    s: Seq<IndexView>,
    id: Seq<char>,
    name: Seq<char>,
)
    ensures
        renames(s, id, name) <==> exists|i: int|
            0 <= i < s.len() && #[trigger] renamed(s[i], id, name) != s[i],
{
    if renames(s, id, name) {
        let i = choose|i: int| 0 <= i < s.len() && (#[trigger] s[i]).id == id && s[i].name != name;
        assert(renamed(s[i], id, name) != s[i]);
    }
    if exists|i: int| 0 <= i < s.len() && #[trigger] renamed(s[i], id, name) != s[i] {
        let i = choose|i: int| 0 <= i < s.len() && #[trigger] renamed(s[i], id, name) != s[i];
        assert(s[i].id == id);
        if s[i].name == name {
            assert(renamed(s[i], id, name) == s[i]);
        }
    }
}

proof fn lemma_kept(s: Seq<IndexView>, id: Seq<char>, p: spec_fn(IndexView) -> bool)
    requires
        forall|e: IndexView| #[trigger] p(e) == (e.id != id),
    ensures
        without_folder(s, id) == s.filter(p),
    decreases s.len(),
{
    reveal(Seq::filter);
    if s.len() > 0 {
        lemma_kept(s.drop_last(), id, p);
    } else {
        assert(s.filter(p) =~= without_folder(s, id));
    }
}

/// Deleting a folder leaves every other one, in its order.
pub proof fn law_other_folders_stay(s: Seq<IndexView>, id: Seq<char>)
    ensures
        without_folder(s, id) == s.filter(|e: IndexView| e.id != id),
{
    let p = |e: IndexView| e.id != id;
    lemma_kept(s, id, p);
}

/// A new folder has the facts of the one that was made, and no skills.
pub proof fn law_new_folders_are_empty(f: Folder)
    ensures
        ({
            let e = empty_folder(f);
            &&& e.id == f.id@ && e.name == f.name@ && e.scope == f.scope@
            &&& e.owner_team_id == (match f.owner_team_id {
                Some(t) => Some(t@),
                None => None,
            })
            &&& e.slugs.len() == 0
        }),
{
}

/// The scope that is asked for counts; else that of the skill, where folders have it.
pub proof fn law_the_scope_asked_for_counts(asked: Seq<char>, of_skill: Seq<char>)
    ensures
        folder_scope(Some(asked), of_skill) == Some(asked),
        of_skill == "personal"@ || of_skill == "team"@ ==> folder_scope(None, of_skill) == Some(
            of_skill,
        ),
        of_skill != "personal"@ && of_skill != "team"@ ==> folder_scope(None, of_skill) is None,
{
}

/// The first of two values counts where it is given.
pub proof fn law_the_first_given_counts(a: Seq<char>, b: Option<Seq<char>>)
    ensures
        first_given(Some(a), b) == Some(a),
        first_given(None, b) == b,
{
}

/// A folder is made under its name, in its team and below its parent; one that was made is
/// kept here too.
pub proof fn law_folders_are_made_as_asked(args: CreateArgs, f: FolderFacts)
    ensures
        args.parent is Some && f.parent is None ==> (create_next(
            args,
            f,
        ) matches FolderNext::FindParent { name, scope, team_id } && name == args.parent->0@
            && scope == Some(
            if args.team_id is Some {
                "team"@
            } else {
                "personal"@
            },
        ) && team_id == opt_view(args.team_id)),
        args.parent is Some && f.parent is Some && f.parent->0 is Err ==> create_next(args, f)
            == FolderNext::Fail((f.parent->0)->Err_0@),
        f.made is None && (args.parent is None || (f.parent is Some && f.parent->0 is Ok)) ==> (
        create_next(args, f) matches FolderNext::Make { name, team_id, parent_id, note } && name
            == args.name@ && team_id == opt_view(args.team_id) && parent_id == (
        if args.parent is None {
            None
        } else {
            Some((f.parent->0)->Ok_0.id@)
        })),
        f.made is Some && f.made->0 is Ok && args.parent is None ==> (create_next(
            args,
            f,
        ) matches FolderNext::Done { local, report, line } && (local matches LocalView::Add(v)
            && v.id == (f.made->0)->Ok_0.id@ && v.name == (f.made->0)->Ok_0.name@)),
        f.made is Some && f.made->0 is Err && args.parent is None ==> create_next(args, f)
            == FolderNext::Fail((f.made->0)->Err_0@),
{
}

/// The folder that is found is the one that is renamed, to the new name; what the server
/// answers is kept here.
pub proof fn law_the_found_folder_is_renamed(args: RenameArgs, f: FolderFacts)
    ensures
        f.folder is None ==> rename_next(args, f) == (FolderNext::FindFolder {
            name: args.id_or_name@,
            scope: opt_view(args.scope),
            team_id: opt_view(args.team_id),
        }),
        f.folder is Some && f.folder->0 is Err ==> rename_next(args, f) == FolderNext::Fail(
            (f.folder->0)->Err_0@,
        ),
        f.folder is Some && f.folder->0 is Ok && f.changed is None ==> rename_next(args, f) == (
        FolderNext::Rename { id: (f.folder->0)->Ok_0.id@, name: args.new_name@ }),
        f.folder is Some && f.folder->0 is Ok && f.changed is Some && f.changed->0 is Ok ==> (
        rename_next(args, f) matches FolderNext::Done { local, report, line } && local == (
        LocalView::Rename {
            id: (f.changed->0)->Ok_0.id@,
            name: (f.changed->0)->Ok_0.name@,
        })),
{
}

/// The folder that is found is the one that is deleted, there and here.
pub proof fn law_the_found_folder_is_deleted(args: DeleteArgs, f: FolderFacts)
    ensures
        f.folder is None ==> delete_next(args, f) == (FolderNext::FindFolder {
            name: args.id_or_name@,
            scope: opt_view(args.scope),
            team_id: opt_view(args.team_id),
        }),
        f.folder is Some && f.folder->0 is Ok && f.deleted is None ==> delete_next(args, f) == (
        FolderNext::Delete { id: (f.folder->0)->Ok_0.id@ }),
        f.folder is Some && f.folder->0 is Ok && f.deleted is Some && f.deleted->0 is Ok ==> (
        delete_next(args, f) matches FolderNext::Done { local, report, line } && local == (
        LocalView::Remove { id: (f.folder->0)->Ok_0.id@ })),
        f.folder is Some && f.folder->0 is Ok && f.deleted is Some && f.deleted->0 is Err ==>
            delete_next(args, f) == FolderNext::Fail((f.deleted->0)->Err_0@),
{
}

/// A folder goes under the parent that was found, or to the top where that is asked for.
pub proof fn law_folders_go_under_their_parent(args: ReparentArgs, f: FolderFacts)
    requires
        f.folder is Some && f.folder->0 is Ok,
        f.changed is None,
    ensures
        args.root ==> reparent_next(args, f) == (FolderNext::Reparent {
            id: (f.folder->0)->Ok_0.id@,
            parent_id: None,
        }),
        !args.root && args.new_parent is Some && f.parent is None ==> (reparent_next(
            args,
            f,
        ) matches FolderNext::FindParent { name, scope, team_id } && name == args.new_parent->0@),
        !args.root && args.new_parent is Some && f.parent is Some && f.parent->0 is Ok ==>
            reparent_next(args, f) == (FolderNext::Reparent {
            id: (f.folder->0)->Ok_0.id@,
            parent_id: Some((f.parent->0)->Ok_0.id@),
        }),
        !args.root && args.new_parent is None ==> reparent_next(args, f) is Fail,
{
}

/// A skill is taken out of its folder where that is asked for; else it goes to the folder
/// that was found, or that was made because none was.
pub proof fn law_skills_go_to_the_folder_named(args: MvArgs, f: FolderFacts)
    requires
        f.skill matches Some(Ok(Some(_))),
        f.filed is None,
    ensures
        ({
            let s = (f.skill->0)->Ok_0->0;
            let next = mv_next(args, f);
            &&& args.unfiled ==> next == (FolderNext::File { skill_id: s.id@, folder_id: None })
            &&& !args.unfiled && args.folder_name is None ==> next is Fail
            &&& !args.unfiled && args.folder_name is Some ==> {
                &&& f.folder is None ==> (next matches FolderNext::FindFolder {
                    name,
                    scope,
                    team_id,
                } && name == args.folder_name->0@ && scope == folder_scope(
                    opt_view(args.scope),
                    s.scope@,
                ))
                &&& f.folder is Some && f.folder->0 is Ok ==> next == (FolderNext::File {
                    skill_id: s.id@,
                    folder_id: Some((f.folder->0)->Ok_0.id@),
                })
                &&& f.folder is Some && f.folder->0 is Err ==> {
                    let e = (f.folder->0)->Err_0@;
                    &&& !(e is NotFound) ==> next == FolderNext::Fail(e)
                    &&& e is NotFound && f.made is None ==> (next matches FolderNext::Make {
                        name,
                        team_id,
                        parent_id,
                        note,
                    } && name == args.folder_name->0@ && parent_id is None)
                    &&& e is NotFound && f.made is Some && f.made->0 is Ok ==> next == (
                    FolderNext::File {
                        skill_id: s.id@,
                        folder_id: Some((f.made->0)->Ok_0.id@),
                    })
                }
            }
        }),
{
}

/// A skill that was filed is kept here under the folder that it went to, and one that was
/// taken out under none.
pub proof fn law_filed_skills_are_kept_so(args: MvArgs, f: FolderFacts)
    requires
        f.skill matches Some(Ok(Some(_))),
        f.filed matches Some(Ok(_)),
    ensures
        args.unfiled ==> (mv_next(args, f) matches FolderNext::Done { local, report, line }
            && local == (LocalView::Unfile { slug: (f.filed->0)->Ok_0@ })),
        !args.unfiled && args.folder_name is Some && f.folder is Some && f.folder->0 is Ok ==> (
        mv_next(args, f) matches FolderNext::Done { local, report, line } && local == (
        LocalView::File { slug: (f.filed->0)->Ok_0@, folder: (f.folder->0)->Ok_0@ })),
{
}

} // verus!
