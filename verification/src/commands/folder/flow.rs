//! `knack folder`, step by step: what is asked of the server, what becomes of the local
//! index, and what people are told.

use vstd::prelude::*;

use crate::commands::folder::{
    first_given, folder_scope, mv_plan, new_folder_team, parent_scope, reparent_target, CreateArgs,
    DeleteArgs, Folder, MvArgs, MvPlan, RenameArgs, ReparentArgs, ReparentTo, SkillPlace,
};
use crate::errors::{copy_error, prefixed, CliError, ErrorView};
use crate::json::{member_views, no_members, text_or_null, with_member, Json, JsonView};
use crate::output::Told;
use crate::text::{concat3, concat4, opt_owned, opt_str, opt_view, views};

verus! {

/// A folder, as a mathematical value.
#[verifier::ext_equal]
pub ghost struct FolderView {
    pub id: Seq<char>,
    pub name: Seq<char>,
    pub scope: Seq<char>,
    pub owner_team_id: Option<Seq<char>>,
    pub parent_folder_id: Option<Seq<char>>,
    pub skill_count: u64,
}

impl View for Folder {
    type V = FolderView;

    open spec fn view(&self) -> FolderView {
        FolderView {
            id: self.id@,
            name: self.name@,
            scope: self.scope@,
            owner_team_id: opt_view(self.owner_team_id),
            parent_folder_id: opt_view(self.parent_folder_id),
            skill_count: self.skill_count,
        }
    }
}

fn copy_folder(f: &Folder) -> (r: Folder)
    ensures
        r@ == f@,
{
    Folder {
        id: f.id.clone(),
        name: f.name.clone(),
        scope: f.scope.clone(),
        owner_team_id: opt_owned(opt_str(&f.owner_team_id)),
        parent_folder_id: opt_owned(opt_str(&f.parent_folder_id)),
        skill_count: f.skill_count,
    }
}

/// What the server has answered so far.
#[derive(Debug)]
pub struct FolderFacts {
    /// The skill that is moved.
    pub skill: Option<Result<Option<SkillPlace>, CliError>>,
    /// The folder that was named.
    pub folder: Option<Result<Folder, CliError>>,
    /// The folder that it goes under.
    pub parent: Option<Result<Folder, CliError>>,
    /// The folder that was made.
    pub made: Option<Result<Folder, CliError>>,
    /// The folder after it was changed.
    pub changed: Option<Result<Folder, CliError>>,
    pub deleted: Option<Result<(), CliError>>,
    /// The slug of the skill after it was filed.
    pub filed: Option<Result<String, CliError>>,
}

/// What becomes of the local index.
#[derive(Debug)]
pub enum LocalChange {
    /// It stays as it is.
    Nothing,
    Add(Folder),
    Rename { id: String, name: String },
    Remove { id: String },
    /// A skill goes into a folder.
    File { slug: String, folder: Folder },
    /// A skill goes out of its folder.
    Unfile { slug: String },
}

/// What becomes of the local index, as a mathematical value.
pub ghost enum LocalView {
    Nothing,
    Add(FolderView),
    Rename { id: Seq<char>, name: Seq<char> },
    Remove { id: Seq<char> },
    File { slug: Seq<char>, folder: FolderView },
    Unfile { slug: Seq<char> },
}

impl View for LocalChange {
    type V = LocalView;

    open spec fn view(&self) -> LocalView {
        match *self {
            LocalChange::Nothing => LocalView::Nothing,
            LocalChange::Add(f) => LocalView::Add(f@),
            LocalChange::Rename { id, name } => LocalView::Rename { id: id@, name: name@ },
            LocalChange::Remove { id } => LocalView::Remove { id: id@ },
            LocalChange::File { slug, folder } => LocalView::File { slug: slug@, folder: folder@ },
            LocalChange::Unfile { slug } => LocalView::Unfile { slug: slug@ },
        }
    }
}

/// What is done next.
#[derive(Debug)]
pub enum FolderAction {
    FindSkill { slug: String },
    /// Looks for the folder that is named.
    FindFolder { name: String, scope: Option<String>, team_id: Option<String> },
    /// Looks for the folder that it goes under.
    FindParent { name: String, scope: Option<String>, team_id: Option<String> },
    /// Makes a folder. People are told of it first, where they did not ask for it.
    Make { name: String, team_id: Option<String>, parent_id: Option<String>, note: Option<String> },
    Rename { id: String, name: String },
    Reparent { id: String, parent_id: Option<String> },
    Delete { id: String },
    /// Files a skill, or takes it out of its folder.
    File { skill_id: String, folder_id: Option<String> },
    Done { local: LocalChange, told: Told },
    Fail(CliError),
}

/// What is done next, as a mathematical value.
pub ghost enum FolderNext {
    FindSkill { slug: Seq<char> },
    FindFolder { name: Seq<char>, scope: Option<Seq<char>>, team_id: Option<Seq<char>> },
    FindParent { name: Seq<char>, scope: Option<Seq<char>>, team_id: Option<Seq<char>> },
    Make {
        name: Seq<char>,
        team_id: Option<Seq<char>>,
        parent_id: Option<Seq<char>>,
        note: Option<Seq<char>>,
    },
    Rename { id: Seq<char>, name: Seq<char> },
    Reparent { id: Seq<char>, parent_id: Option<Seq<char>> },
    Delete { id: Seq<char> },
    File { skill_id: Seq<char>, folder_id: Option<Seq<char>> },
    Done { local: LocalView, report: JsonView, line: Seq<char> },
    Fail(ErrorView),
}

impl FolderAction {
    /// It is the action `n`: in particular one line is told where it is over.
    pub open spec fn is_action(&self, n: FolderNext) -> bool {
        match *self {
            FolderAction::FindSkill { slug } => n == (FolderNext::FindSkill { slug: slug@ }),
            FolderAction::FindFolder { name, scope, team_id } => n == (FolderNext::FindFolder {
                name: name@,
                scope: opt_view(scope),
                team_id: opt_view(team_id),
            }),
            FolderAction::FindParent { name, scope, team_id } => n == (FolderNext::FindParent {
                name: name@,
                scope: opt_view(scope),
                team_id: opt_view(team_id),
            }),
            FolderAction::Make { name, team_id, parent_id, note } => n == (FolderNext::Make {
                name: name@,
                team_id: opt_view(team_id),
                parent_id: opt_view(parent_id),
                note: opt_view(note),
            }),
            FolderAction::Rename { id, name } => n == (FolderNext::Rename { id: id@, name: name@ }),
            FolderAction::Reparent { id, parent_id } => n == (FolderNext::Reparent {
                id: id@,
                parent_id: opt_view(parent_id),
            }),
            FolderAction::Delete { id } => n == (FolderNext::Delete { id: id@ }),
            FolderAction::File { skill_id, folder_id } => n == (FolderNext::File {
                skill_id: skill_id@,
                folder_id: opt_view(folder_id),
            }),
            FolderAction::Done { local, told } => views(told.lines@).len() == 1 && n == (
            FolderNext::Done {
                local: local@,
                report: told.report.value(),
                line: views(told.lines@)[0],
            }),
            FolderAction::Fail(e) => n == FolderNext::Fail(e@),
        }
    }
}

/// It is over: the line is the only one.
fn done(local: LocalChange, report: Json, line: String) -> (r: FolderAction)
    ensures
        r.is_action(
            FolderNext::Done { local: local@, report: report.value(), line: line@ },
        ),
{
    let mut lines: Vec<String> = Vec::new();
    lines.push(line);
    assert(views(lines@) =~= seq![line@]);
    FolderAction::Done { local, told: Told { report, lines } }
}

// ---------------------------------------------------------------------------
// A new folder
// ---------------------------------------------------------------------------

/// What is reported of a folder that was made.
pub open spec fn made_report(f: FolderView) -> JsonView {
    JsonView::Object(
        seq![
            ("id"@, JsonView::Text(f.id)),
            ("name"@, JsonView::Text(f.name)),
            ("scope"@, JsonView::Text(f.scope)),
            ("owner_team_id"@, text_or_null(f.owner_team_id)),
        ],
    )
}

/// The id of the folder that a new one goes under, as far as it is known.
pub open spec fn parent_found(args: CreateArgs, f: FolderFacts) -> Result<
    Option<Seq<char>>,
    FolderNext,
> {
    match opt_view(args.parent) {
        None => Ok(None),
        Some(p) => match f.parent {
            None => Err(
                FolderNext::FindParent {
                    name: p,
                    scope: Some(
                        if args.team_id is Some {
                            "team"@
                        } else {
                            "personal"@
                        },
                    ),
                    team_id: opt_view(args.team_id),
                },
            ),
            Some(Err(e)) => Err(FolderNext::Fail(e@)),
            Some(Ok(x)) => Ok(Some(x.id@)),
        },
    }
}

/// What is done next while a folder is made: the one that it goes under is looked for
/// before.
pub open spec fn create_next(args: CreateArgs, f: FolderFacts) -> FolderNext {
    match parent_found(args, f) {
        Err(n) => n,
        Ok(parent_id) => match f.made {
            None => FolderNext::Make {
                name: args.name@,
                team_id: opt_view(args.team_id),
                parent_id,
                note: None,
            },
            Some(Err(e)) => FolderNext::Fail(e@),
            Some(Ok(x)) => FolderNext::Done {
                local: LocalView::Add(x@),
                report: made_report(x@),
                line: "✓ created folder "@ + x.name@ + " (id: "@ + x.id@ + ", scope: "@ + x.scope@
                    + ")"@,
            },
        },
    }
}

/// What is done next while a folder is made.
pub fn create(args: &CreateArgs, f: &FolderFacts) -> (r: FolderAction)
    ensures
        r.is_action(create_next(*args, *f)),
{
    let parent_id = match &args.parent {
        None => None,
        Some(p) => match &f.parent {
            None => {
                return FolderAction::FindParent {
                    name: p.clone(),
                    scope: Some(parent_scope(opt_str(&args.team_id)).to_owned()),
                    team_id: opt_owned(opt_str(&args.team_id)),
                };
            },
            Some(Err(e)) => {
                return FolderAction::Fail(copy_error(e));
            },
            Some(Ok(x)) => Some(x.id.clone()),
        },
    };
    match &f.made {
        None => FolderAction::Make {
            name: args.name.clone(),
            team_id: opt_owned(opt_str(&args.team_id)),
            parent_id,
            note: None,
        },
        Some(Err(e)) => FolderAction::Fail(copy_error(e)),
        Some(Ok(x)) => {
            let m = with_member(no_members(), "id", Json::text(x.id.as_str()));
            let m = with_member(m, "name", Json::text(x.name.as_str()));
            let m = with_member(m, "scope", Json::text(x.scope.as_str()));
            let m = with_member(m, "owner_team_id", Json::opt_text(opt_str(&x.owner_team_id)));
            assert(member_views(m@) =~= made_report(x@)->Object_0);
            let mut line = concat4("✓ created folder ", x.name.as_str(), " (id: ", x.id.as_str());
            line.append(", scope: ");
            line.append(x.scope.as_str());
            line.append(")");
            done(LocalChange::Add(copy_folder(x)), Json::object(m), line)
        },
    }
}

// ---------------------------------------------------------------------------
// Another name
// ---------------------------------------------------------------------------

/// What is done next while a folder is renamed.
pub open spec fn rename_next(args: RenameArgs, f: FolderFacts) -> FolderNext {
    match f.folder {
        None => FolderNext::FindFolder {
            name: args.id_or_name@,
            scope: opt_view(args.scope),
            team_id: opt_view(args.team_id),
        },
        Some(Err(e)) => FolderNext::Fail(e@),
        Some(Ok(x)) => match f.changed {
            None => FolderNext::Rename { id: x.id@, name: args.new_name@ },
            Some(Err(e)) => FolderNext::Fail(e@),
            Some(Ok(y)) => FolderNext::Done {
                local: LocalView::Rename { id: y.id@, name: y.name@ },
                report: JsonView::Object(
                    seq![("id"@, JsonView::Text(y.id@)), ("name"@, JsonView::Text(y.name@))],
                ),
                line: "✓ renamed → "@ + y.name@,
            },
        },
    }
}

/// What is done next while a folder is renamed.
pub fn rename(args: &RenameArgs, f: &FolderFacts) -> (r: FolderAction)
    ensures
        r.is_action(rename_next(*args, *f)),
{
    match &f.folder {
        None => FolderAction::FindFolder {
            name: args.id_or_name.clone(),
            scope: opt_owned(opt_str(&args.scope)),
            team_id: opt_owned(opt_str(&args.team_id)),
        },
        Some(Err(e)) => FolderAction::Fail(copy_error(e)),
        Some(Ok(x)) => match &f.changed {
            None => FolderAction::Rename { id: x.id.clone(), name: args.new_name.clone() },
            Some(Err(e)) => FolderAction::Fail(copy_error(e)),
            Some(Ok(y)) => {
                let m = with_member(no_members(), "id", Json::text(y.id.as_str()));
                let m = with_member(m, "name", Json::text(y.name.as_str()));
                assert(member_views(m@) =~= seq![
                    ("id"@, JsonView::Text(y.id@)),
                    ("name"@, JsonView::Text(y.name@)),
                ]);
                done(
                    LocalChange::Rename { id: y.id.clone(), name: y.name.clone() },
                    Json::object(m),
                    prefixed("✓ renamed → ", y.name.as_str()),
                )
            },
        },
    }
}

// ---------------------------------------------------------------------------
// Another place
// ---------------------------------------------------------------------------

/// What is reported of a folder that was moved.
pub open spec fn moved_report(f: FolderView) -> JsonView {
    JsonView::Object(
        seq![
            ("id"@, JsonView::Text(f.id)),
            ("name"@, JsonView::Text(f.name)),
            ("parent_folder_id"@, text_or_null(f.parent_folder_id)),
        ],
    )
}

/// What people are told of a folder that was moved.
pub open spec fn moved_line(f: FolderView) -> Seq<char> {
    match f.parent_folder_id {
        Some(p) => "✓ moved "@ + f.name + " under parent "@ + p,
        None => "✓ promoted "@ + f.name + " to root"@,
    }
}

/// What is done next with a folder that was found and goes under another one, or
/// under none.
pub open spec fn reparent_found(args: ReparentArgs, x: FolderView, f: FolderFacts) -> FolderNext {
    if !args.root && f.parent is None {
        FolderNext::FindParent {
            name: args.new_parent->0@,
            scope: Some(x.scope),
            team_id: x.owner_team_id,
        }
    } else if !args.root && f.parent->0 is Err {
        FolderNext::Fail((f.parent->0)->Err_0@)
    } else {
        match f.changed {
            None => FolderNext::Reparent {
                id: x.id,
                parent_id: if args.root {
                    None
                } else {
                    Some((f.parent->0)->Ok_0.id@)
                },
            },
            Some(Err(e)) => FolderNext::Fail(e@),
            Some(Ok(y)) => FolderNext::Done {
                local: LocalView::Nothing,
                report: moved_report(y@),
                line: moved_line(y@),
            },
        }
    }
}

/// What is done next while a folder is moved. The folder that it goes under is looked
/// for where the folder itself is.
pub open spec fn reparent_next(args: ReparentArgs, f: FolderFacts) -> FolderNext {
    if !args.root && args.new_parent is None {
        FolderNext::Fail(
            ErrorView::User {
                code: "REPARENT_NO_TARGET"@,
                message: "pass a new parent folder id/name, or --root to promote to the top level"@,
                hint: Some("knack folder reparent <id-or-name> <parent-id-or-name> | --root"@),
            },
        )
    } else {
        match f.folder {
            None => FolderNext::FindFolder {
                name: args.id_or_name@,
                scope: opt_view(args.scope),
                team_id: opt_view(args.team_id),
            },
            Some(Err(e)) => FolderNext::Fail(e@),
            Some(Ok(x)) => reparent_found(args, x@, f),
        }
    }
}

/// What is done next while a folder is moved.
pub fn reparent(args: &ReparentArgs, f: &FolderFacts) -> (r: FolderAction)
    ensures
        r.is_action(reparent_next(*args, *f)),
{
    let to = match reparent_target(args) {
        Ok(to) => to,
        Err(e) => {
            return FolderAction::Fail(e);
        },
    };
    let x = match &f.folder {
        None => {
            return FolderAction::FindFolder {
                name: args.id_or_name.clone(),
                scope: opt_owned(opt_str(&args.scope)),
                team_id: opt_owned(opt_str(&args.team_id)),
            };
        },
        Some(Err(e)) => {
            return FolderAction::Fail(copy_error(e));
        },
        Some(Ok(x)) => x,
    };
    let parent_id = match to {
        ReparentTo::Root => None,
        ReparentTo::Parent(p) => match &f.parent {
            None => {
                return FolderAction::FindParent {
                    name: p,
                    scope: Some(x.scope.clone()),
                    team_id: opt_owned(opt_str(&x.owner_team_id)),
                };
            },
            Some(Err(e)) => {
                return FolderAction::Fail(copy_error(e));
            },
            Some(Ok(y)) => Some(y.id.clone()),
        },
    };
    match &f.changed {
        None => FolderAction::Reparent { id: x.id.clone(), parent_id },
        Some(Err(e)) => FolderAction::Fail(copy_error(e)),
        Some(Ok(y)) => {
            let m = with_member(no_members(), "id", Json::text(y.id.as_str()));
            let m = with_member(m, "name", Json::text(y.name.as_str()));
            let m = with_member(m, "parent_folder_id", Json::opt_text(opt_str(&y.parent_folder_id)));
            assert(member_views(m@) =~= moved_report(y@)->Object_0);
            let line = match &y.parent_folder_id {
                Some(p) => concat4("✓ moved ", y.name.as_str(), " under parent ", p.as_str()),
                None => concat3("✓ promoted ", y.name.as_str(), " to root"),
            };
            done(LocalChange::Nothing, Json::object(m), line)
        },
    }
}

// ---------------------------------------------------------------------------
// No more
// ---------------------------------------------------------------------------

/// What is reported of a folder that was deleted.
pub open spec fn deleted_report(f: FolderView) -> JsonView {
    JsonView::Object(
        seq![
            ("id"@, JsonView::Text(f.id)),
            ("name"@, JsonView::Text(f.name)),
            ("status"@, JsonView::Text("deleted"@)),
        ],
    )
}

/// What is done next while a folder is deleted.
pub open spec fn delete_next(args: DeleteArgs, f: FolderFacts) -> FolderNext {
    match f.folder {
        None => FolderNext::FindFolder {
            name: args.id_or_name@,
            scope: opt_view(args.scope),
            team_id: opt_view(args.team_id),
        },
        Some(Err(e)) => FolderNext::Fail(e@),
        Some(Ok(x)) => match f.deleted {
            None => FolderNext::Delete { id: x.id@ },
            Some(Err(e)) => FolderNext::Fail(e@),
            Some(Ok(_)) => FolderNext::Done {
                local: LocalView::Remove { id: x.id@ },
                report: deleted_report(x@),
                line: "✓ deleted folder "@ + x.name@ + " (contained skills are now unfiled)"@,
            },
        },
    }
}

/// What is done next while a folder is deleted.
pub fn delete(args: &DeleteArgs, f: &FolderFacts) -> (r: FolderAction)
    ensures
        r.is_action(delete_next(*args, *f)),
{
    match &f.folder {
        None => FolderAction::FindFolder {
            name: args.id_or_name.clone(),
            scope: opt_owned(opt_str(&args.scope)),
            team_id: opt_owned(opt_str(&args.team_id)),
        },
        Some(Err(e)) => FolderAction::Fail(copy_error(e)),
        Some(Ok(x)) => match &f.deleted {
            None => FolderAction::Delete { id: x.id.clone() },
            Some(Err(e)) => FolderAction::Fail(copy_error(e)),
            Some(Ok(_)) => {
                let m = with_member(no_members(), "id", Json::text(x.id.as_str()));
                let m = with_member(m, "name", Json::text(x.name.as_str()));
                let m = with_member(m, "status", Json::text("deleted"));
                assert(member_views(m@) =~= deleted_report(x@)->Object_0);
                let line = concat3(
                    "✓ deleted folder ",
                    x.name.as_str(),
                    " (contained skills are now unfiled)",
                );
                done(LocalChange::Remove { id: x.id.clone() }, Json::object(m), line)
            },
        },
    }
}

// ---------------------------------------------------------------------------
// A skill in a folder
// ---------------------------------------------------------------------------

/// What is reported of a skill that is out of its folder.
pub open spec fn unfiled_report(slug: Seq<char>) -> JsonView {
    JsonView::Object(seq![("slug"@, JsonView::Text(slug)), ("folder_id"@, JsonView::Null)])
}

/// What is reported of a skill that is in a folder.
pub open spec fn filed_report(slug: Seq<char>, f: FolderView) -> JsonView {
    JsonView::Object(
        seq![
            ("slug"@, JsonView::Text(slug)),
            ("folder_id"@, JsonView::Text(f.id)),
            ("folder_name"@, JsonView::Text(f.name)),
        ],
    )
}

/// What is done next while a skill is taken out of its folder.
pub open spec fn unfile_next(s: SkillPlace, f: FolderFacts) -> FolderNext {
    match f.filed {
        None => FolderNext::File { skill_id: s.id@, folder_id: None },
        Some(Err(e)) => FolderNext::Fail(e@),
        Some(Ok(slug)) => FolderNext::Done {
            local: LocalView::Unfile { slug: slug@ },
            report: unfiled_report(slug@),
            line: "✓ "@ + slug@ + " is now unfiled"@,
        },
    }
}

/// What is done next while a skill is put into a folder that was found or made.
pub open spec fn file_next(s: SkillPlace, x: FolderView, f: FolderFacts) -> FolderNext {
    match f.filed {
        None => FolderNext::File { skill_id: s.id@, folder_id: Some(x.id) },
        Some(Err(e)) => FolderNext::Fail(e@),
        Some(Ok(slug)) => FolderNext::Done {
            local: LocalView::File { slug: slug@, folder: x },
            report: filed_report(slug@, x),
            line: "✓ "@ + slug@ + " → "@ + x.name,
        },
    }
}

/// What is done next while a skill is put into the folder of a name, which is made
/// where there is none.
pub open spec fn mv_to(
    s: SkillPlace,
    name: Seq<char>,
    scope: Option<Seq<char>>,
    team_id: Option<Seq<char>>,
    f: FolderFacts,
) -> FolderNext {
    match f.folder {
        None => FolderNext::FindFolder { name, scope, team_id },
        Some(Ok(x)) => file_next(s, x@, f),
        Some(Err(e)) => if e@ is NotFound {
            match f.made {
                None => FolderNext::Make {
                    name,
                    team_id: if scope == Some("team"@) {
                        team_id
                    } else {
                        None
                    },
                    parent_id: None,
                    note: Some("creating folder `"@ + name + "`…"@),
                },
                Some(Ok(x)) => file_next(s, x@, f),
                Some(Err(e)) => FolderNext::Fail(e@),
            }
        } else {
            FolderNext::Fail(e@)
        },
    }
}

/// What is done next while a skill is moved.
pub open spec fn mv_next(args: MvArgs, f: FolderFacts) -> FolderNext {
    match f.skill {
        None => FolderNext::FindSkill { slug: args.slug@ },
        Some(Err(e)) => FolderNext::Fail(e@),
        Some(Ok(None)) => FolderNext::Fail(
            ErrorView::NotFound("skill `"@ + args.slug@ + "` not found"@),
        ),
        Some(Ok(Some(s))) => if args.unfiled {
            unfile_next(s, f)
        } else {
            match opt_view(args.folder_name) {
                None => FolderNext::Fail(
                    ErrorView::User {
                        code: "MISSING_FOLDER"@,
                        message: "pass a folder name or --unfiled"@,
                        hint: Some("knack folder mv <skill-slug> <folder-name> | --unfiled"@),
                    },
                ),
                Some(name) => mv_to(
                    s,
                    name,
                    folder_scope(opt_view(args.scope), s.scope@),
                    first_given(opt_view(args.team_id), opt_view(s.owner_team_id)),
                    f,
                ),
            }
        },
    }
}

fn unfile(s: &SkillPlace, f: &FolderFacts) -> (r: FolderAction)
    ensures
        r.is_action(unfile_next(*s, *f)),
{
    match &f.filed {
        None => FolderAction::File { skill_id: s.id.clone(), folder_id: None },
        Some(Err(e)) => FolderAction::Fail(copy_error(e)),
        Some(Ok(slug)) => {
            let m = with_member(no_members(), "slug", Json::text(slug.as_str()));
            let m = with_member(m, "folder_id", Json::Null);
            assert(member_views(m@) =~= unfiled_report(slug@)->Object_0);
            done(
                LocalChange::Unfile { slug: slug.clone() },
                Json::object(m),
                concat3("✓ ", slug.as_str(), " is now unfiled"),
            )
        },
    }
}

fn file(s: &SkillPlace, x: &Folder, f: &FolderFacts) -> (r: FolderAction)
    ensures
        r.is_action(file_next(*s, x@, *f)),
{
    match &f.filed {
        None => FolderAction::File { skill_id: s.id.clone(), folder_id: Some(x.id.clone()) },
        Some(Err(e)) => FolderAction::Fail(copy_error(e)),
        Some(Ok(slug)) => {
            let m = with_member(no_members(), "slug", Json::text(slug.as_str()));
            let m = with_member(m, "folder_id", Json::text(x.id.as_str()));
            let m = with_member(m, "folder_name", Json::text(x.name.as_str()));
            assert(member_views(m@) =~= filed_report(slug@, x@)->Object_0);
            done(
                LocalChange::File { slug: slug.clone(), folder: copy_folder(x) },
                Json::object(m),
                concat4("✓ ", slug.as_str(), " → ", x.name.as_str()),
            )
        },
    }
}

/// What is done next while a skill is moved.
pub fn mv(args: &MvArgs, f: &FolderFacts) -> (r: FolderAction)
    ensures
        r.is_action(mv_next(*args, *f)),
{
    let found = match &f.skill {
        None => {
            return FolderAction::FindSkill { slug: args.slug.clone() };
        },
        Some(Err(e)) => {
            return FolderAction::Fail(copy_error(e));
        },
        Some(Ok(found)) => found,
    };
    let plan = match mv_plan(args, found.as_ref()) {
        Ok(plan) => plan,
        Err(e) => {
            return FolderAction::Fail(e);
        },
    };
    match found {
        None => FolderAction::FindSkill { slug: args.slug.clone() },
        Some(s) => match plan {
            MvPlan::Unfile => unfile(s, f),
            MvPlan::File { folder, scope, team_id } => match &f.folder {
                None => FolderAction::FindFolder { name: folder, scope, team_id },
                Some(Ok(x)) => file(s, x, f),
                Some(Err(CliError::NotFound(_))) => match &f.made {
                    None => {
                        let team = opt_owned(new_folder_team(opt_str(&scope), opt_str(&team_id)));
                        let note = concat3("creating folder `", folder.as_str(), "`…");
                        FolderAction::Make {
                            name: folder,
                            team_id: team,
                            parent_id: None,
                            note: Some(note),
                        }
                    },
                    Some(Ok(x)) => file(s, x, f),
                    Some(Err(e)) => FolderAction::Fail(copy_error(e)),
                },
                Some(Err(e)) => FolderAction::Fail(copy_error(e)),
            },
        },
    }
}

// ---------------------------------------------------------------------------
// Laws
// ---------------------------------------------------------------------------

/// The local index follows the server: nothing is over before the server has done it.
pub proof fn law_the_server_comes_first(
    c: CreateArgs,
    n: RenameArgs,
    p: ReparentArgs,
    d: DeleteArgs,
    m: MvArgs,
    f: FolderFacts,
)
    ensures
        create_next(c, f) is Done ==> f.made is Some && f.made->0 is Ok,
        rename_next(n, f) is Done ==> f.changed is Some && f.changed->0 is Ok,
        reparent_next(p, f) is Done ==> f.changed is Some && f.changed->0 is Ok,
        delete_next(d, f) is Done ==> f.deleted is Some && f.deleted->0 is Ok,
        mv_next(m, f) is Done ==> f.filed is Some && f.filed->0 is Ok,
{
}

/// A folder is put under a folder of its own scope and team, whatever was asked.
pub proof fn law_folders_stay_in_their_scope(args: ReparentArgs, f: FolderFacts)
    ensures
        (reparent_next(args, f) matches FolderNext::FindParent { name, scope, team_id } ==> {
            &&& f.folder is Some && f.folder->0 is Ok
            &&& scope == Some((f.folder->0)->Ok_0.scope@)
            &&& team_id == opt_view((f.folder->0)->Ok_0.owner_team_id)
        }),
{
}

/// A folder that a move makes on its own lies at the top, and belongs to a team only
/// where folders of teams were looked at.
pub proof fn law_made_folders_lie_at_the_top(args: MvArgs, f: FolderFacts)
    ensures
        (mv_next(args, f) matches FolderNext::Make { name, team_id, parent_id, note } ==> {
            &&& parent_id is None
            &&& Some(name) == opt_view(args.folder_name)
            &&& (team_id is Some ==> folder_scope(
                opt_view(args.scope),
                (f.skill->0)->Ok_0->0.scope@,
            ) == Some("team"@))
        }),
{
}

} // verus!
