//! The task data model: a tagged variant payload under an id and a
//! creation timestamp.

use vstd::prelude::*;
use vstd::string::StringExecFns;

use crate::date::{spec_weekday_name, spec_yyyymmdd, wf_date, weekday_name, Date};
use crate::text::{spec_dec, usize_to_string};

verus! {

/// Derived temporal status of a one-time task relative to the current
/// date. Recomputed on every load; never trusted as carried over.
#[derive(Clone, Copy, Debug, PartialEq, Eq, Structural)]
pub enum OnceDateStatus {
    Expired,
    Upcoming,
    Ongoing,
}

/// One persisted reminder entry.
///
/// `id` is a 1-based position in the stored list, resequenced after
/// every removal; `created_at` is a display timestamp fixed at
/// construction.
#[derive(Clone, Debug)]
pub struct Task {
    pub id: usize,
    pub created_at: String,
    pub content: TaskType,
}

/// The task payload: exactly one of four kinds.
///
/// The weekday is an index 0 = Monday .. 6 = Sunday; the canonical
/// three-letter name is derived from it when the task is persisted or
/// shown. `ongoing` and `status` are derived from the wall clock on
/// every load.
#[derive(Clone, Debug)]
pub enum TaskType {
    WeekTask { text: String, weekday: u8, ongoing: bool },
    MonthTask { text: String, day: usize, ongoing: bool },
    OnceTask { text: String, date: Date, status: OnceDateStatus },
    ProgressTask { text: String, progress: String },
}

/// The mathematical value of a `Task`.
pub ghost struct TaskView {
    pub id: int,
    pub created_at: Seq<char>,
    pub content: ContentView,
}

/// The mathematical value of a `TaskType`.
pub ghost enum ContentView {
    Week { text: Seq<char>, weekday: int, ongoing: bool },
    Month { text: Seq<char>, day: int, ongoing: bool },
    Once { text: Seq<char>, date: Date, status: OnceDateStatus },
    Progress { text: Seq<char>, progress: Seq<char> },
}

impl View for TaskType {
    type V = ContentView;

    open spec fn view(&self) -> ContentView {
        match self {
            TaskType::WeekTask { text, weekday, ongoing } => ContentView::Week {
                text: text@,
                weekday: *weekday as int,
                ongoing: *ongoing,
            },
            TaskType::MonthTask { text, day, ongoing } => ContentView::Month {
                text: text@,
                day: *day as int,
                ongoing: *ongoing,
            },
            TaskType::OnceTask { text, date, status } => ContentView::Once {
                text: text@,
                date: *date,
                status: *status,
            },
            TaskType::ProgressTask { text, progress } => ContentView::Progress {
                text: text@,
                progress: progress@,
            },
        }
    }
}

impl View for Task {
    type V = TaskView;

    open spec fn view(&self) -> TaskView {
        TaskView { id: self.id as int, created_at: self.created_at@, content: self.content@ }
    }
}

/// The values of a whole task list.
pub open spec fn task_views(ts: Seq<Task>) -> Seq<TaskView> {
    ts.map_values(|t: Task| t@)
}

/// A payload is well formed when its calendar fields lie in the ranges
/// fixed at construction: weekday index below 7, monthly day in
/// `1..=31`, one-time date fitting `YYYYMMDD`.
pub open spec fn wf_content(c: ContentView) -> bool {
    match c {
        ContentView::Week { weekday, .. } => 0 <= weekday < 7,
        ContentView::Month { day, .. } => 1 <= day <= 31,
        ContentView::Once { date, .. } => wf_date(date),
        ContentView::Progress { .. } => true,
    }
}

/// A task is well formed when its payload is.
pub open spec fn wf_task(t: TaskView) -> bool {
    wf_content(t.content)
}

/// Every task of a list is well formed.
pub open spec fn wf_tasks(ts: Seq<TaskView>) -> bool {
    forall|i: int| 0 <= i < ts.len() ==> #[trigger] wf_task(ts[i])
}

/// One step of walking a list from the front: when the unprocessed
/// tail holds the views `vs.skip(i)`, its head is `vs[i]`, and taking
/// the head leaves the views `vs.skip(i + 1)`.
pub proof fn lemma_task_views_tail(pre: Seq<Task>, post: Seq<Task>, vs: Seq<TaskView>, i: int)
    requires
        0 <= i <= vs.len(),
        task_views(pre) == vs.skip(i),
        pre.len() > 0,
        post == pre.remove(0),
    ensures
        pre[0]@ == vs[i],
        task_views(post) == vs.skip(i + 1),
{
    assert(task_views(pre).len() == pre.len());
    assert(vs.skip(i).len() == vs.len() - i);
    assert(i < vs.len());
    assert(task_views(pre)[0] == pre[0]@);
    assert(vs.skip(i)[0] == vs[i]);
    assert forall|j: int| 0 <= j < post.len() implies task_views(post)[j] == vs.skip(i + 1)[j] by {
        assert(post[j] == pre[j + 1]);
        assert(task_views(pre)[j + 1] == pre[j + 1]@);
        assert(vs.skip(i)[j + 1] == vs[i + 1 + j]);
        assert(vs.skip(i + 1)[j] == vs[i + 1 + j]);
    }
    assert(task_views(post) =~= vs.skip(i + 1));
}

/// The status word shown beside a one-time task.
pub open spec fn spec_status_flag(s: OnceDateStatus) -> Seq<char> {
    match s {
        OnceDateStatus::Expired => " Expired"@,
        OnceDateStatus::Upcoming => " Upcoming"@,
        OnceDateStatus::Ongoing => " Ongoing"@,
    }
}

/// The one-line record shown for a task, without any styling.
pub open spec fn spec_format_info(t: TaskView) -> Seq<char> {
    "[#"@ + spec_dec(t.id) + "]: "@ + (match t.content {
        ContentView::Week { text, weekday, ongoing } => text + " - "@ + spec_weekday_name(weekday)
            + (if ongoing { " Ongoing"@ } else { " Upcoming"@ })
            + " - repeat every week - created at "@,
        ContentView::Month { text, day, ongoing } => text + " - "@ + spec_dec(day)
            + (if ongoing { " Ongoing"@ } else { " Upcoming"@ })
            + " - repeat every month - created at "@,
        ContentView::Once { text, date, status } => text + " - "@ + spec_yyyymmdd(date)
            + spec_status_flag(status) + " - once-time reminder - created at "@,
        ContentView::Progress { text, progress } => text + " - "@ + progress
            + " - progress - created at "@,
    }) + t.created_at
}

impl Task {
    /// A fresh task around a payload: id 0 until the store assigns the
    /// real one, created now.
    pub fn build(content: TaskType) -> (r: Task)
        ensures
            r@.id == 0,
            r@.content == content@,
    {
        Task { id: 0, created_at: crate::date::get_time(), content }
    }

    /// Renders the task as one plain line.
    pub fn format_info(&self) -> (r: String)
        requires
            wf_task(self@),
        ensures
            r@ == spec_format_info(self@),
    {
        let mut s = String::new();
        s.append("[#");
        s.append(usize_to_string(self.id).as_str());
        s.append("]: ");
        match &self.content {
            TaskType::WeekTask { text, weekday, ongoing } => {
                s.append(text.as_str());
                s.append(" - ");
                s.append(weekday_name(*weekday).as_str());
                s.append(if *ongoing { " Ongoing" } else { " Upcoming" });
                s.append(" - repeat every week - created at ");
            },
            TaskType::MonthTask { text, day, ongoing } => {
                s.append(text.as_str());
                s.append(" - ");
                s.append(usize_to_string(*day).as_str());
                s.append(if *ongoing { " Ongoing" } else { " Upcoming" });
                s.append(" - repeat every month - created at ");
            },
            TaskType::OnceTask { text, date, status } => {
                s.append(text.as_str());
                s.append(" - ");
                s.append(date.to_yyyymmdd().as_str());
                s.append(match status {
                    OnceDateStatus::Expired => " Expired",
                    OnceDateStatus::Upcoming => " Upcoming",
                    OnceDateStatus::Ongoing => " Ongoing",
                });
                s.append(" - once-time reminder - created at ");
            },
            TaskType::ProgressTask { text, progress } => {
                s.append(text.as_str());
                s.append(" - ");
                s.append(progress.as_str());
                s.append(" - progress - created at ");
            },
        }
        s.append(self.created_at.as_str());
        proof {
            assert(s@ =~= spec_format_info(self@));
        }
        s
    }
}

} // verus!
