//! Task and dependency entities of a plan.
use vstd::prelude::*;

verus! {

/// Identifier of a task: the 128 bits of a random (version 4) UUID.
pub type TaskId = u128;

/// Progress value that stands for a finished task; progress is counted in
/// millionths, so `0..=PROGRESS_FULL` covers the range from 0% to 100%.
pub const PROGRESS_FULL: u32 = 1_000_000;

/// Task priority level.
#[derive(Debug, Clone, Copy, PartialEq, Eq, Structural)]
pub enum TaskPriority {
    Unset,
    Low,
    Medium,
    High,
    Critical,
}

impl Default for TaskPriority {
    fn default() -> (p: TaskPriority)
        ensures
            p == TaskPriority::Unset,
    {
        TaskPriority::Unset
    }
}

impl TaskPriority {
    pub fn label(self) -> (r: &'static str)
        ensures
            self == TaskPriority::Unset ==> r@ == "\u{2014}"@,
            self == TaskPriority::Low ==> r@ == "Low"@,
            self == TaskPriority::Medium ==> r@ == "Medium"@,
            self == TaskPriority::High ==> r@ == "High"@,
            self == TaskPriority::Critical ==> r@ == "Critical"@,
    {
        match self {
            TaskPriority::Unset => "\u{2014}",
            TaskPriority::Low => "Low",
            TaskPriority::Medium => "Medium",
            TaskPriority::High => "High",
            TaskPriority::Critical => "Critical",
        }
    }

    /// The icon glyph of the priority in the Phosphor icon font; none for an
    /// unset priority.
    pub fn icon(self) -> (r: &'static str)
        ensures
            self == TaskPriority::Unset ==> r@.len() == 0,
            self == TaskPriority::Low ==> r@ == seq!['\u{E03E}'],
            self == TaskPriority::Medium ==> r@ == seq!['\u{E21C}'],
            self == TaskPriority::High ==> r@ == seq!['\u{E08E}'],
            self == TaskPriority::Critical ==> r@ == seq!['\u{E4E0}'],
    {
        proof {
            reveal_strlit("");
        }
        match self {
            TaskPriority::Unset => "",
            TaskPriority::Low => icon_arrow_down(),
            TaskPriority::Medium => icon_equals(),
            TaskPriority::High => icon_arrow_up(),
            TaskPriority::Critical => icon_warning(),
        }
    }

    /// Every priority, from lowest to highest.
    pub fn all() -> (r: Vec<TaskPriority>)
        ensures
            r@ == seq![
                TaskPriority::Unset,
                TaskPriority::Low,
                TaskPriority::Medium,
                TaskPriority::High,
                TaskPriority::Critical,
            ],
    {
        vec![
            TaskPriority::Unset,
            TaskPriority::Low,
            TaskPriority::Medium,
            TaskPriority::High,
            TaskPriority::Critical,
        ]
    }
}

/// Relies on egui_phosphor::regular::ARROW_DOWN, the glyph U+E03E.
#[verifier::external_body]
fn icon_arrow_down() -> (r: &'static str)
    ensures
        r@ == seq!['\u{E03E}'],
{
    egui_phosphor::regular::ARROW_DOWN
}

/// Relies on egui_phosphor::regular::EQUALS, the glyph U+E21C.
#[verifier::external_body]
fn icon_equals() -> (r: &'static str)
    ensures
        r@ == seq!['\u{E21C}'],
{
    egui_phosphor::regular::EQUALS
}

/// Relies on egui_phosphor::regular::ARROW_UP, the glyph U+E08E.
#[verifier::external_body]
fn icon_arrow_up() -> (r: &'static str)
    ensures
        r@ == seq!['\u{E08E}'],
{
    egui_phosphor::regular::ARROW_UP
}

/// Relies on egui_phosphor::regular::WARNING, the glyph U+E4E0.
#[verifier::external_body]
fn icon_warning() -> (r: &'static str)
    ensures
        r@ == seq!['\u{E4E0}'],
{
    egui_phosphor::regular::WARNING
}

/// The kind of a dependency between two tasks.
#[derive(Debug, Clone, Copy, PartialEq, Eq, Structural)]
pub enum DependencyKind {
    FinishToStart,
    StartToStart,
    FinishToFinish,
    StartToFinish,
}

impl Default for DependencyKind {
    fn default() -> (k: DependencyKind)
        ensures
            k == DependencyKind::FinishToStart,
    {
        DependencyKind::FinishToStart
    }
}

impl DependencyKind {
    /// The two-letter abbreviation of the kind.
    pub open spec fn short_label_spec(self) -> Seq<char> {
        match self {
            DependencyKind::FinishToStart => seq!['F', 'S'],
            DependencyKind::StartToStart => seq!['S', 'S'],
            DependencyKind::FinishToFinish => seq!['F', 'F'],
            DependencyKind::StartToFinish => seq!['S', 'F'],
        }
    }

    pub fn short_label(self) -> (r: &'static str)
        ensures
            r@ == self.short_label_spec(),
    {
        proof {
            reveal_strlit("FS");
            reveal_strlit("SS");
            reveal_strlit("FF");
            reveal_strlit("SF");
        }
        match self {
            DependencyKind::FinishToStart => "FS",
            DependencyKind::StartToStart => "SS",
            DependencyKind::FinishToFinish => "FF",
            DependencyKind::StartToFinish => "SF",
        }
    }

    pub fn description(self) -> (r: &'static str)
        ensures
            self == DependencyKind::FinishToStart ==> r@
                == "Finish-to-Start (FS): successor can't start until the predecessor finishes"@,
            self == DependencyKind::StartToStart ==> r@
                == "Start-to-Start (SS): successor can't start until the predecessor starts"@,
            self == DependencyKind::FinishToFinish ==> r@
                == "Finish-to-Finish (FF): successor can't finish until the predecessor finishes"@,
            self == DependencyKind::StartToFinish ==> r@
                == "Start-to-Finish (SF): successor can't finish until the predecessor starts"@,
    {
        match self {
            DependencyKind::FinishToStart => "Finish-to-Start (FS): successor can't start until the predecessor finishes",
            DependencyKind::StartToStart => "Start-to-Start (SS): successor can't start until the predecessor starts",
            DependencyKind::FinishToFinish => "Finish-to-Finish (FF): successor can't finish until the predecessor finishes",
            DependencyKind::StartToFinish => "Start-to-Finish (SF): successor can't finish until the predecessor starts",
        }
    }

    /// Every dependency kind.
    pub fn all() -> (r: Vec<DependencyKind>)
        ensures
            r@ == seq![
                DependencyKind::FinishToStart,
                DependencyKind::StartToStart,
                DependencyKind::FinishToFinish,
                DependencyKind::StartToFinish,
            ],
    {
        vec![
            DependencyKind::FinishToStart,
            DependencyKind::StartToStart,
            DependencyKind::FinishToFinish,
            DependencyKind::StartToFinish,
        ]
    }
}


/// A display color: four bytes of premultiplied red, green, blue and alpha.
#[derive(Debug, Clone, Copy, PartialEq, Eq, Structural)]
pub struct Rgba {
    pub r: u8,
    pub g: u8,
    pub b: u8,
    pub a: u8,
}

impl Rgba {
    /// An opaque color.
    pub fn from_rgb(r: u8, g: u8, b: u8) -> (c: Rgba)
        ensures
            c == (Rgba { r, g, b, a: 255 }),
    {
        Rgba { r, g, b, a: 255 }
    }
}

/// Default bar color of a task (steel blue).
pub open spec fn task_color() -> Rgba {
    Rgba { r: 70, g: 130, b: 180, a: 255 }
}

/// Default bar color of a milestone (orange).
pub open spec fn milestone_color() -> Rgba {
    Rgba { r: 255, g: 165, b: 0, a: 255 }
}

/// A dependency link between two tasks. Either end may name a task that no
/// longer exists.
#[derive(Debug, Clone, Copy, PartialEq, Eq, Structural)]
pub struct Dependency {
    pub from_task: TaskId,
    pub to_task: TaskId,
    pub kind: DependencyKind,
}

/// A single task or milestone of the chart. `start` and `end` count seconds
/// from 1970-01-01T00:00:00.
#[derive(Debug, Clone)]
pub struct Task {
    pub id: TaskId,
    pub name: String,
    pub start: i64,
    pub end: i64,
    /// Progress in millionths, from 0 (not started) to `PROGRESS_FULL`.
    pub progress: u32,
    /// Optional group or category name, kept only so old records survive a
    /// load and save unchanged.
    pub group: Option<String>,
    /// The phase (parent task) that the task belongs to.
    pub parent_id: Option<TaskId>,
    /// Whether the children of this parent are folded away.
    pub collapsed: bool,
    pub priority: TaskPriority,
    pub description: String,
    pub color: Rgba,
    /// A milestone has no duration: its start is its end.
    pub is_milestone: bool,
}

/// Relies on uuid::Uuid::new_v4, which draws a random UUID; nothing is
/// promised of its bits.
#[verifier::external_body]
fn fresh_task_id() -> (id: TaskId) {
    uuid::Uuid::new_v4().as_u128()
}

/// The tasks of `ts` whose parent is `pid`, in their order in `ts`.
pub open spec fn children(ts: Seq<Task>, pid: TaskId) -> Seq<Task>
    decreases ts.len(),
{
    if ts.len() == 0 {
        Seq::empty()
    } else if ts.last().parent_id == Some(pid) {
        children(ts.drop_last(), pid).push(ts.last())
    } else {
        children(ts.drop_last(), pid)
    }
}

/// `children` of a prefix one longer than another.
pub proof fn lemma_children_step(ts: Seq<Task>, pid: TaskId, i: int)
    requires
        0 <= i < ts.len(),
    ensures
        children(ts.subrange(0, i + 1), pid) == if ts[i].parent_id == Some(pid) {
            children(ts.subrange(0, i), pid).push(ts[i])
        } else {
            children(ts.subrange(0, i), pid)
        },
{
    assert(ts.subrange(0, i + 1).drop_last() =~= ts.subrange(0, i));
}

/// A field-by-field copy of a task.
pub fn copy_task(t: &Task) -> (r: Task)
    ensures
        r == *t,
{
    let group = match &t.group {
        Some(g) => Some(g.clone()),
        None => None,
    };
    Task {
        id: t.id,
        name: t.name.clone(),
        start: t.start,
        end: t.end,
        progress: t.progress,
        group,
        parent_id: t.parent_id,
        collapsed: t.collapsed,
        priority: t.priority,
        description: t.description.clone(),
        color: t.color,
        is_milestone: t.is_milestone,
    }
}

/// A copy of a whole sequence of tasks.
pub fn copy_tasks(ts: &[Task]) -> (r: Vec<Task>)
    ensures
        r@ == ts@,
{
    let mut r: Vec<Task> = Vec::new();
    let mut i: usize = 0;
    while i < ts.len()
        invariant
            i <= ts@.len(),
            r@ == ts@.subrange(0, i as int),
        decreases ts@.len() - i,
    {
        r.push(copy_task(&ts[i]));
        i = i + 1;
    }
    assert(r@ =~= ts@);
    r
}

/// A copy of a sequence of dependencies.
pub fn copy_dependencies(ds: &[Dependency]) -> (r: Vec<Dependency>)
    ensures
        r@ == ds@,
{
    let mut r: Vec<Dependency> = Vec::new();
    let mut i: usize = 0;
    while i < ds.len()
        invariant
            i <= ds@.len(),
            r@ == ds@.subrange(0, i as int),
        decreases ds@.len() - i,
    {
        r.push(ds[i]);
        i = i + 1;
    }
    assert(r@ =~= ds@);
    r
}

/// Whether some task of `tasks` has `pid` as its parent.
pub fn has_child(tasks: &[Task], pid: TaskId) -> (r: bool)
    ensures
        r == (children(tasks@, pid).len() > 0),
{
    let mut i: usize = 0;
    while i < tasks.len()
        invariant
            i <= tasks@.len(),
            children(tasks@.subrange(0, i as int), pid).len() == 0,
        decreases tasks@.len() - i,
    {
        proof {
            lemma_children_step(tasks@, pid, i as int);
        }
        if tasks[i].parent_id == Some(pid) {
            proof {
                lemma_children_prefix_grows(tasks@, pid, i as int + 1);
            }
            return true;
        }
        i = i + 1;
    }
    assert(tasks@.subrange(0, i as int) =~= tasks@);
    false
}

impl Task {
    /// A new task with a fresh id, no progress and the default color.
    pub fn new(name: String, start: i64, end: i64) -> (t: Task)
        ensures
            t.name == name,
            t.start == start,
            t.end == end,
            t.progress == 0,
            t.group.is_none(),
            t.parent_id.is_none(),
            !t.collapsed,
            t.priority == TaskPriority::Unset,
            t.description@.len() == 0,
            t.color == task_color(),
            !t.is_milestone,
    {
        Task {
            id: fresh_task_id(),
            name,
            start,
            end,
            progress: 0,
            group: None,
            parent_id: None,
            collapsed: false,
            priority: TaskPriority::Unset,
            description: String::new(),
            color: Rgba::from_rgb(70, 130, 180),
            is_milestone: false,
        }
    }

    /// A new milestone at `date`, with a fresh id and the milestone color.
    pub fn new_milestone(name: String, date: i64) -> (t: Task)
        ensures
            t.name == name,
            t.start == date,
            t.end == date,
            t.progress == 0,
            t.group.is_none(),
            t.parent_id.is_none(),
            !t.collapsed,
            t.priority == TaskPriority::Unset,
            t.description@.len() == 0,
            t.color == milestone_color(),
            t.is_milestone,
    {
        Task {
            id: fresh_task_id(),
            name,
            start: date,
            end: date,
            progress: 0,
            group: None,
            parent_id: None,
            collapsed: false,
            priority: TaskPriority::Unset,
            description: String::new(),
            color: Rgba::from_rgb(255, 165, 0),
            is_milestone: true,
        }
    }

    /// Whether some task of `tasks` has `self` as its parent.
    pub fn has_children(&self, tasks: &[Task]) -> (r: bool)
        ensures
            r == (children(tasks@, self.id).len() > 0),
    {
        has_child(tasks, self.id)
    }

    /// The direct children of `self` in `tasks`, in their order there.
    pub fn children_ids<'a>(&self, tasks: &'a [Task]) -> (r: Vec<&'a Task>)
        ensures
            r@.len() == children(tasks@, self.id).len(),
            forall|k: int| 0 <= k < r@.len() ==> *(#[trigger] r@[k]) == children(tasks@, self.id)[k],
    {
        let mut r: Vec<&'a Task> = Vec::new();
        let mut i: usize = 0;
        while i < tasks.len()
            invariant
                i <= tasks@.len(),
                r@.len() == children(tasks@.subrange(0, i as int), self.id).len(),
                forall|k: int| 0 <= k < r@.len() ==> *(#[trigger] r@[k]) == children(tasks@.subrange(0, i as int), self.id)[k],
            decreases tasks@.len() - i,
        {
            proof {
                lemma_children_step(tasks@, self.id, i as int);
            }
            if tasks[i].parent_id == Some(self.id) {
                r.push(&tasks[i]);
            }
            i = i + 1;
        }
        assert(tasks@.subrange(0, i as int) =~= tasks@);
        r
    }
}

/// Once a prefix holds a child, every longer prefix does too.
pub proof fn lemma_children_prefix_grows(ts: Seq<Task>, pid: TaskId, i: int)
    requires
        0 <= i <= ts.len(),
        children(ts.subrange(0, i), pid).len() > 0,
    ensures
        children(ts, pid).len() > 0,
    decreases ts.len() - i,
{
    if i < ts.len() {
        lemma_children_step(ts, pid, i);
        lemma_children_prefix_grows(ts, pid, i + 1);
    } else {
        assert(ts.subrange(0, i) =~= ts);
    }
}

/// Label of a dependency as seen from one of its tasks: its kind, then an
/// arrow that points away for an outgoing link and back for an incoming one.
pub fn dep_kind_label(kind: DependencyKind, is_outgoing: bool) -> (r: String)
    ensures
        r@ == seq!['['] + kind.short_label_spec() + seq![']', ' ']
            + seq![if is_outgoing { '\u{2192}' } else { '\u{2190}' }],
{
    proof {
        reveal_strlit("[");
        reveal_strlit("] \u{2192}");
        reveal_strlit("] \u{2190}");
    }
    let mut r = String::from_str("[");
    r.append(kind.short_label());
    if is_outgoing {
        r.append("] \u{2192}");
    } else {
        r.append("] \u{2190}");
    }
    assert(r@ =~= seq!['['] + kind.short_label_spec() + seq![']', ' ']
            + seq![if is_outgoing { '\u{2192}' } else { '\u{2190}' }]);
    r
}

} // verus!
