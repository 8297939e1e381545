//! The check of a skill's folder before anything is sent: the two files that
//! every skill needs are there, and they are not empty.

use vstd::prelude::*;

use crate::errors::prefixed;
use crate::json::{member_views, values, Json, JsonView};
use crate::text::{join_strings, joined, views};

verus! {

/// Something that is wrong with a folder.
#[derive(Debug, Clone)]
pub struct ValidationIssue {
    pub path: String,
    pub message: String,
    pub code: &'static str,
}

/// An issue as a mathematical value.
#[verifier::ext_equal]
pub ghost struct IssueView {
    pub path: Seq<char>,
    pub message: Seq<char>,
    pub code: Seq<char>,
}

impl View for ValidationIssue {
    type V = IssueView;

    open spec fn view(&self) -> IssueView {
        IssueView { path: self.path@, message: self.message@, code: self.code@ }
    }
}

/// All that is wrong with a folder.
#[derive(Debug)]
pub struct ValidationReport {
    pub issues: Vec<ValidationIssue>,
}

impl View for ValidationReport {
    type V = Seq<IssueView>;

    open spec fn view(&self) -> Seq<IssueView> {
        Seq::new(self.issues@.len(), |i: int| self.issues@[i]@)
    }
}

impl Default for ValidationReport {
    fn default() -> (r: ValidationReport)
        ensures
            r@ == Seq::<IssueView>::empty(),
    {
        let r = ValidationReport { issues: Vec::new() };
        assert(r@ =~= Seq::empty());
        r
    }
}

/// What an issue says: where, and what.
pub open spec fn issue_line(i: IssueView) -> Seq<char> {
    if i.path.len() == 0 {
        i.message
    } else {
        i.path + ": "@ + i.message
    }
}

/// What a report says in one line.
pub open spec fn report_summary(s: Seq<IssueView>) -> Seq<char> {
    if s.len() == 0 {
        "ok"@
    } else {
        joined(s.map_values(|i: IssueView| issue_line(i)), "; "@)
    }
}

/// An issue as JSON.
pub open spec fn issue_json(i: IssueView) -> JsonView {
    JsonView::Object(
        seq![
            ("path"@, JsonView::Text(i.path)),
            ("message"@, JsonView::Text(i.message)),
            ("code"@, JsonView::Text(i.code)),
        ],
    )
}

/// A report as JSON.
pub open spec fn report_details(s: Seq<IssueView>) -> JsonView {
    JsonView::Object(
        seq![("issues"@, JsonView::Array(s.map_values(|i: IssueView| issue_json(i))))],
    )
}

impl ValidationIssue {
    fn line(&self) -> (r: String)
        ensures
            r@ == issue_line(self@),
    {
        if self.path.as_str().is_empty() {
            self.message.clone()
        } else {
            let mut r = self.path.clone();
            r.append(": ");
            r.append(self.message.as_str());
            r
        }
    }

    fn to_json(&self) -> (r: Json)
        ensures
            r.value() == issue_json(self@),
    {
        let mut m: Vec<(String, Json)> = Vec::new();
        m.push(("path".to_owned(), Json::text(self.path.as_str())));
        m.push(("message".to_owned(), Json::text(self.message.as_str())));
        m.push(("code".to_owned(), Json::text(self.code)));
        assert(member_views(m@) =~= seq![
            ("path"@, JsonView::Text(self@.path)),
            ("message"@, JsonView::Text(self@.message)),
            ("code"@, JsonView::Text(self@.code)),
        ]);
        Json::object(m)
    }
}

impl ValidationReport {
    /// Whether nothing is wrong.
    pub fn is_ok(&self) -> (r: bool)
        ensures
            r == (self@.len() == 0),
    {
        self.issues.len() == 0
    }

    /// The report as the details of an error.
    pub fn into_details(self) -> (r: Json)
        ensures
            r.value() == report_details(self@),
    {
        let mut a: Vec<Json> = Vec::new();
        let mut i: usize = 0;
        while i < self.issues.len()
            invariant
                i <= self.issues.len(),
                a@.len() == i,
                forall|j: int| 0 <= j < i ==> (#[trigger] a@[j]).value() == issue_json(self@[j]),
            decreases self.issues.len() - i,
        {
            a.push(self.issues[i].to_json());
            i += 1;
        }
        proof {
            crate::json::lemma_array_value(a);
            assert(values(a@) =~= self@.map_values(|i: IssueView| issue_json(i)));
        }
        let mut m: Vec<(String, Json)> = Vec::new();
        m.push(("issues".to_owned(), Json::Array(a)));
        assert(member_views(m@) =~= seq![
            ("issues"@, JsonView::Array(self@.map_values(|i: IssueView| issue_json(i)))),
        ]);
        Json::object(m)
    }

    /// The report in one line.
    pub fn summary(&self) -> (r: String)
        ensures
            r@ == report_summary(self@),
    {
        if self.issues.len() == 0 {
            return "ok".to_owned();
        }
        let mut parts: Vec<String> = Vec::new();
        let mut i: usize = 0;
        while i < self.issues.len()
            invariant
                i <= self.issues.len(),
                parts@.len() == i,
                forall|j: int| 0 <= j < i ==> (#[trigger] parts@[j])@ == issue_line(self@[j]),
            decreases self.issues.len() - i,
        {
            parts.push(self.issues[i].line());
            i += 1;
        }
        assert(views(parts@) =~= self@.map_values(|i: IssueView| issue_line(i)));
        join_strings(&parts, "; ")
    }

    /// Adds an issue.
    pub fn push(&mut self, path: &str, message: String, code: &'static str)
        ensures
            final(self)@ == old(self)@.push(
                IssueView { path: path@, message: message@, code: code@ },
            ),
    {
        let ghost was = self@;
        self.issues.push(ValidationIssue { path: path.to_owned(), message, code });
        assert(self@ =~= was.push(IssueView { path: path@, message: message@, code: code@ }));
    }
}

/// White space in ASCII.
pub open spec fn blank_byte(b: u8) -> bool {
    b == 0x20 || b == 0x09 || b == 0x0A || b == 0x0C || b == 0x0D
}

/// Nothing but white space.
pub open spec fn blank(bytes: Seq<u8>) -> bool {
    forall|i: int| 0 <= i < bytes.len() ==> blank_byte(#[trigger] bytes[i])
}

/// What is wrong with a file that has to be there: there is none, or it is empty.
pub open spec fn file_issues(name: Seq<char>, content: Option<Seq<u8>>) -> Seq<IssueView> {
    match content {
        None => seq![
            IssueView {
                path: name,
                message: "missing required file `"@ + name + "`"@,
                code: "FILE_MISSING"@,
            },
        ],
        Some(b) => if blank(b) {
            seq![
                IssueView {
                    path: name,
                    message: "`"@ + name + "` is empty"@,
                    code: "FILE_EMPTY"@,
                },
            ]
        } else {
            seq![]
        },
    }
}

/// What is wrong with a folder.
pub open spec fn folder_issues(
    is_dir: bool,
    skill_md: Option<Seq<u8>>,
    meta: Option<Seq<u8>>,
) -> Seq<IssueView> {
    if !is_dir {
        seq![
            IssueView {
                path: ""@,
                message: "skill folder does not exist or is not a directory"@,
                code: "DIR_MISSING"@,
            },
        ]
    } else {
        file_issues("SKILL.md"@, skill_md) + file_issues("meta.knack.yaml"@, meta)
    }
}

/// Whether there is nothing but white space.
pub fn is_blank(bytes: &Vec<u8>) -> (r: bool)
    ensures
        r == blank(bytes@),
{
    let mut i: usize = 0;
    while i < bytes.len()
        invariant
            i <= bytes.len(),
            forall|j: int| 0 <= j < i ==> blank_byte(#[trigger] bytes@[j]),
        decreases bytes.len() - i,
    {
        let b = bytes[i];
        if !(b == 0x20 || b == 0x09 || b == 0x0A || b == 0x0C || b == 0x0D) {
            assert(!blank_byte(bytes@[i as int]));
            return false;
        }
        i += 1;
    }
    true
}

/// The bytes that were read, if any were.
pub open spec fn read_view(o: Option<&Vec<u8>>) -> Option<Seq<u8>> {
    match o {
        Some(v) => Some(v@),
        None => None,
    }
}

fn check_file(report: &mut ValidationReport, name: &str, content: Option<&Vec<u8>>)
    ensures
        final(report)@ == old(report)@ + file_issues(name@, read_view(content)),
{
    let ghost was = report@;
    match content {
        None => {
            let mut m = prefixed("missing required file `", name);
            m.append("`");
            report.push(name, m, "FILE_MISSING");
        },
        Some(b) => {
            if is_blank(b) {
                let mut m = prefixed("`", name);
                m.append("` is empty");
                report.push(name, m, "FILE_EMPTY");
            }
        },
    }
    assert(report@ =~= was + file_issues(name@, read_view(content)));
}

/// What is wrong with a folder, by whether it is one and by what was read of the
/// two files in it.
pub fn validate_skill_folder(
    is_dir: bool,
    skill_md: Option<&Vec<u8>>,
    meta: Option<&Vec<u8>>,
) -> (r: ValidationReport)
    ensures
        r@ == folder_issues(is_dir, read_view(skill_md), read_view(meta)),
{
    let mut report = ValidationReport::default();
    if !is_dir {
        report.push(
            "",
            "skill folder does not exist or is not a directory".to_owned(),
            "DIR_MISSING",
        );
        assert(report@ =~= folder_issues(false, read_view(skill_md), read_view(meta)));
        return report;
    }
    check_file(&mut report, "SKILL.md", skill_md);
    check_file(&mut report, "meta.knack.yaml", meta);
    assert(report@ =~= folder_issues(true, read_view(skill_md), read_view(meta)));
    report
}

/// Nothing is wrong with a folder exactly when it is one, and both files are there
/// and hold something.
pub proof fn law_a_clean_folder_has_both_files(
    is_dir: bool,
    skill_md: Option<Seq<u8>>,
    meta: Option<Seq<u8>>,
)
    ensures
        folder_issues(is_dir, skill_md, meta).len() == 0 <==> is_dir && skill_md is Some && !blank(
            skill_md->0,
        ) && meta is Some && !blank(meta->0),
{
}

} // verus!
