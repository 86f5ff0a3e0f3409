//! Board vocabulary stored as text: task statuses, issue relationship kinds,
//! the statuses a new project starts with, and the default tags.
use vstd::prelude::*;

use crate::text::{chars_of, push_char, to_uppercase, text_uppercase};

verus! {

broadcast use vstd::string::group_string_axioms;

/// The status of a task; stored and exchanged in lower case.
#[derive(Debug, Clone, Copy, PartialEq, Eq, Structural)]
pub enum TaskStatus {
    Todo,
    InProgress,
    InReview,
    Done,
    Cancelled,
}

/// The kind of a relationship between two issues; stored in snake case.
#[derive(Debug, Clone, Copy, PartialEq, Eq, Structural)]
pub enum IssueRelationshipType {
    Blocking,
    Related,
    HasDuplicate,
}

/// The statuses of a project on the local board.
pub struct LocalProjectStatus;

/// The tags of a project.
pub struct TagRepository;

/// The stored Jira connections and status mappings of organizations.
pub struct JiraRepository;

// ---------------------------------------------------------------------------
// Specification
// ---------------------------------------------------------------------------

/// The text of a task status.
pub open spec fn task_status_text(s: TaskStatus) -> Seq<char> {
    match s {
        TaskStatus::Todo => "todo"@,
        TaskStatus::InProgress => "inprogress"@,
        TaskStatus::InReview => "inreview"@,
        TaskStatus::Done => "done"@,
        TaskStatus::Cancelled => "cancelled"@,
    }
}

/// The text of a relationship kind.
pub open spec fn relationship_text(t: IssueRelationshipType) -> Seq<char> {
    match t {
        IssueRelationshipType::Blocking => "blocking"@,
        IssueRelationshipType::Related => "related"@,
        IssueRelationshipType::HasDuplicate => "has_duplicate"@,
    }
}

// ---------------------------------------------------------------------------
// Implementation
// ---------------------------------------------------------------------------

/// Whether the characters `cs` are exactly those of `lit`.
fn chars_are(cs: &Vec<char>, lit: &str) -> (r: bool)
    ensures
        r == (cs@ == lit@),
{
    let l = chars_of(lit);
    if cs.len() != l.len() {
        return false;
    }
    let mut i: usize = 0;
    while i < cs.len()
        invariant
            i <= cs.len(),
            cs.len() == l.len(),
            l@ == lit@,
            forall|k: int| 0 <= k < i ==> cs@[k] == l@[k],
        decreases cs.len() - i,
    {
        if cs[i] != l[i] {
            return false;
        }
        i += 1;
    }
    assert(cs@ =~= lit@);
    true
}

/// The identifier of a new local project: the first three characters of its
/// name, upper-cased.
pub fn project_identifier(name: &str) -> (r: String)
    ensures
        r@ == text_uppercase(
            if name@.len() < 3 {
                name@
            } else {
                name@.take(3)
            },
        ),
{
    let cs = chars_of(name);
    let mut head = String::new();
    let mut i: usize = 0;
    while i < cs.len() && i < 3
        invariant
            i <= cs.len(),
            i <= 3,
            cs@ == name@,
            head@ == cs@.take(i as int),
        decreases cs.len() - i,
    {
        push_char(&mut head, cs[i]);
        i += 1;
        assert(head@ =~= cs@.take(i as int));
    }
    if cs.len() < 3 {
        assert(cs@.take(i as int) =~= name@);
    }
    to_uppercase(head.as_str())
}

/// The color of a local project that has none.
pub fn project_color(color: Option<&str>) -> (r: &str)
    ensures
        r@ == match color {
            Some(c) => c@,
            None => "#3b82f6"@,
        },
{
    match color {
        Some(c) => c,
        None => "#3b82f6",
    }
}

impl TaskStatus {
    /// The lower-case text of the status.
    pub fn as_str(&self) -> (r: &'static str)
        ensures
            r@ == task_status_text(*self),
    {
        match self {
            TaskStatus::Todo => "todo",
            TaskStatus::InProgress => "inprogress",
            TaskStatus::InReview => "inreview",
            TaskStatus::Done => "done",
            TaskStatus::Cancelled => "cancelled",
        }
    }

    /// The lower-case text of the status, owned.
    pub fn to_string(&self) -> (r: String)
        ensures
            r@ == task_status_text(*self),
    {
        let mut r = String::new();
        crate::text::push_str(&mut r, self.as_str());
        r
    }

    /// The status that a text names exactly (lower case), if any.
    pub fn parse(s: &str) -> (r: Option<TaskStatus>)
        ensures
            r matches Some(t) ==> task_status_text(t) == s@,
            r is None ==> forall|t: TaskStatus| task_status_text(t) != s@,
    {
        let cs = chars_of(s);
        if chars_are(&cs, "todo") {
            Some(TaskStatus::Todo)
        } else if chars_are(&cs, "inprogress") {
            Some(TaskStatus::InProgress)
        } else if chars_are(&cs, "inreview") {
            Some(TaskStatus::InReview)
        } else if chars_are(&cs, "done") {
            Some(TaskStatus::Done)
        } else if chars_are(&cs, "cancelled") {
            Some(TaskStatus::Cancelled)
        } else {
            None
        }
    }

    /// The status text stored for a new task: the given status, or `todo`.
    pub fn stored_text(status: Option<TaskStatus>) -> (r: &'static str)
        ensures
            r@ == match status {
                Some(t) => task_status_text(t),
                None => "todo"@,
            },
    {
        match status {
            Some(t) => t.as_str(),
            None => "todo",
        }
    }
}

impl Default for TaskStatus {
    fn default() -> (r: TaskStatus)
        ensures
            r == TaskStatus::Todo,
    {
        TaskStatus::Todo
    }
}

impl IssueRelationshipType {
    /// The snake-case text of the kind.
    pub fn as_str(&self) -> (r: &'static str)
        ensures
            r@ == relationship_text(*self),
    {
        match self {
            IssueRelationshipType::Blocking => "blocking",
            IssueRelationshipType::Related => "related",
            IssueRelationshipType::HasDuplicate => "has_duplicate",
        }
    }

    /// The snake-case text of the kind, owned.
    pub fn to_string(&self) -> (r: String)
        ensures
            r@ == relationship_text(*self),
    {
        let mut r = String::new();
        crate::text::push_str(&mut r, self.as_str());
        r
    }

    /// The kind that a text names exactly (snake case), if any.
    pub fn parse(s: &str) -> (r: Option<IssueRelationshipType>)
        ensures
            r matches Some(t) ==> relationship_text(t) == s@,
            r is None ==> forall|t: IssueRelationshipType| relationship_text(t) != s@,
    {
        let cs = chars_of(s);
        if chars_are(&cs, "blocking") {
            Some(IssueRelationshipType::Blocking)
        } else if chars_are(&cs, "related") {
            Some(IssueRelationshipType::Related)
        } else if chars_are(&cs, "has_duplicate") {
            Some(IssueRelationshipType::HasDuplicate)
        } else {
            None
        }
    }
}

impl LocalProjectStatus {
    /// The statuses a new project starts with: name, color and sort order.
    pub fn defaults() -> (r: Vec<(&'static str, &'static str, i32)>)
        ensures
            r@.len() == 4,
            r@[0].0@ == "Todo"@ && r@[0].1@ == "#6b7280"@ && r@[0].2 == 0,
            r@[1].0@ == "In Progress"@ && r@[1].1@ == "#3b82f6"@ && r@[1].2 == 1,
            r@[2].0@ == "In Review"@ && r@[2].1@ == "#f59e0b"@ && r@[2].2 == 2,
            r@[3].0@ == "Done"@ && r@[3].1@ == "#22c55e"@ && r@[3].2 == 3,
    {
        let mut r: Vec<(&'static str, &'static str, i32)> = Vec::new();
        r.push(("Todo", "#6b7280", 0));
        r.push(("In Progress", "#3b82f6", 1));
        r.push(("In Review", "#f59e0b", 2));
        r.push(("Done", "#22c55e", 3));
        r
    }
}

impl TagRepository {
    /// The tags each new project starts with: name and HSL color `"H S% L%"`.
    pub fn default_tags() -> (r: Vec<(&'static str, &'static str)>)
        ensures
            r@.len() == 4,
            r@[0].0@ == "bug"@ && r@[0].1@ == "355 65% 53%"@,
            r@[1].0@ == "feature"@ && r@[1].1@ == "124 82% 30%"@,
            r@[2].0@ == "documentation"@ && r@[2].1@ == "205 100% 40%"@,
            r@[3].0@ == "enhancement"@ && r@[3].1@ == "181 72% 78%"@,
    {
        let mut r: Vec<(&'static str, &'static str)> = Vec::new();
        r.push(("bug", "355 65% 53%"));
        r.push(("feature", "124 82% 30%"));
        r.push(("documentation", "205 100% 40%"));
        r.push(("enhancement", "181 72% 78%"));
        r
    }

    /// The neutral gray of a tag created for an imported label.
    pub fn label_color() -> (r: &'static str)
        ensures
            r@ == "210 10% 58%"@,
    {
        "210 10% 58%"
    }
}

// ---------------------------------------------------------------------------
// Laws
// ---------------------------------------------------------------------------

/// Each task status has its own text, so parsing the text of a status gives
/// that status back.
pub proof fn lemma_task_status_text_round_trip(a: TaskStatus, b: TaskStatus)
    ensures
        task_status_text(a) == task_status_text(b) ==> a == b,
{
    reveal_strlit("todo");
    reveal_strlit("inprogress");
    reveal_strlit("inreview");
    reveal_strlit("done");
    reveal_strlit("cancelled");
    if task_status_text(a) == task_status_text(b) {
        let t = task_status_text(a);
        assert(t.len() == task_status_text(b).len());
        assert(t[0] == task_status_text(b)[0]);
        assert(t[2] == task_status_text(b)[2]);
    }
}

/// Each relationship kind has its own text, so parsing the text of a kind
/// gives that kind back.
pub proof fn lemma_relationship_text_round_trip(a: IssueRelationshipType, b: IssueRelationshipType)
    ensures
        relationship_text(a) == relationship_text(b) ==> a == b,
{
    reveal_strlit("blocking");
    reveal_strlit("related");
    reveal_strlit("has_duplicate");
    if relationship_text(a) == relationship_text(b) {
        let t = relationship_text(a);
        assert(t[0] == relationship_text(b)[0]);
    }
}

} // verus!
