//! The persisted record form of a task.
//!
//! The journal file holds, for each task, exactly these fields: the
//! weekday as its canonical three-letter name and the one-time date as
//! its `YYYYMMDD` string. Encoding and decoding between tasks and
//! records is verified, and a round trip is proved to give the task
//! back unchanged; the JSON syntax around these records is the
//! caller's concern.

use vstd::prelude::*;

use crate::date::{
    lemma_date_roundtrip, lemma_weekday_name_roundtrip, spec_parse_yyyymmdd,
    spec_weekday_from_name, spec_weekday_name, spec_yyyymmdd, weekday_from_name, weekday_name,
    Date,
};
use crate::error::TtdError;
use crate::task::{
    task_views, wf_task, wf_tasks, ContentView, OnceDateStatus, Task, TaskType, TaskView,
};

verus! {

/// One task as it stands in the journal file.
#[derive(Debug)]
pub struct TaskRecord {
    pub id: usize,
    pub created_at: String,
    pub content: ContentRecord,
}

/// A task payload as it stands in the journal file: calendar fields in
/// their string forms.
#[derive(Debug)]
pub enum ContentRecord {
    WeekTask { text: String, weekday: String, ongoing: bool },
    MonthTask { text: String, day: usize, ongoing: bool },
    OnceTask { text: String, date: String, status: OnceDateStatus },
    ProgressTask { text: String, progress: String },
}

/// The mathematical value of a `TaskRecord`.
pub ghost struct RecordView {
    pub id: int,
    pub created_at: Seq<char>,
    pub content: RecordContentView,
}

/// The mathematical value of a `ContentRecord`.
pub ghost enum RecordContentView {
    Week { text: Seq<char>, weekday: Seq<char>, ongoing: bool },
    Month { text: Seq<char>, day: int, ongoing: bool },
    Once { text: Seq<char>, date: Seq<char>, status: OnceDateStatus },
    Progress { text: Seq<char>, progress: Seq<char> },
}

impl View for ContentRecord {
    type V = RecordContentView;

    open spec fn view(&self) -> RecordContentView {
        match self {
            ContentRecord::WeekTask { text, weekday, ongoing } => RecordContentView::Week {
                text: text@,
                weekday: weekday@,
                ongoing: *ongoing,
            },
            ContentRecord::MonthTask { text, day, ongoing } => RecordContentView::Month {
                text: text@,
                day: *day as int,
                ongoing: *ongoing,
            },
            ContentRecord::OnceTask { text, date, status } => RecordContentView::Once {
                text: text@,
                date: date@,
                status: *status,
            },
            ContentRecord::ProgressTask { text, progress } => RecordContentView::Progress {
                text: text@,
                progress: progress@,
            },
        }
    }
}

impl View for TaskRecord {
    type V = RecordView;

    open spec fn view(&self) -> RecordView {
        RecordView { id: self.id as int, created_at: self.created_at@, content: self.content@ }
    }
}

/// The values of a whole record list.
pub open spec fn record_views(rs: Seq<TaskRecord>) -> Seq<RecordView> {
    rs.map_values(|r: TaskRecord| r@)
}

/// One step of walking a record list from the front: when the
/// unprocessed tail holds the views `vs.skip(i)`, its head is `vs[i]`,
/// and taking the head leaves the views `vs.skip(i + 1)`.
proof fn lemma_record_views_tail(pre: Seq<TaskRecord>, post: Seq<TaskRecord>, vs: Seq<RecordView>, i: int)
    requires
        0 <= i <= vs.len(),
        record_views(pre) == vs.skip(i),
        pre.len() > 0,
        post == pre.remove(0),
    ensures
        pre[0]@ == vs[i],
        record_views(post) == vs.skip(i + 1),
{
    assert(record_views(pre).len() == pre.len());
    assert(vs.skip(i).len() == vs.len() - i);
    assert(i < vs.len());
    assert(record_views(pre)[0] == pre[0]@);
    assert(vs.skip(i)[0] == vs[i]);
    assert forall|j: int| 0 <= j < post.len() implies record_views(post)[j] == vs.skip(i + 1)[j] by {
        assert(post[j] == pre[j + 1]);
        assert(record_views(pre)[j + 1] == pre[j + 1]@);
        assert(vs.skip(i)[j + 1] == vs[i + 1 + j]);
        assert(vs.skip(i + 1)[j] == vs[i + 1 + j]);
    }
    assert(record_views(post) =~= vs.skip(i + 1));
}

/// The record under which a payload is persisted.
pub open spec fn spec_encode_content(c: ContentView) -> RecordContentView {
    match c {
        ContentView::Week { text, weekday, ongoing } => RecordContentView::Week {
            text,
            weekday: spec_weekday_name(weekday),
            ongoing,
        },
        ContentView::Month { text, day, ongoing } => RecordContentView::Month {
            text,
            day,
            ongoing,
        },
        ContentView::Once { text, date, status } => RecordContentView::Once {
            text,
            date: spec_yyyymmdd(date),
            status,
        },
        ContentView::Progress { text, progress } => RecordContentView::Progress { text, progress },
    }
}

/// The record under which a task is persisted.
pub open spec fn spec_encode_task(t: TaskView) -> RecordView {
    RecordView { id: t.id, created_at: t.created_at, content: spec_encode_content(t.content) }
}

/// The payload a persisted record denotes, or nothing where its
/// weekday is no canonical name, its date is no `YYYYMMDD` string, or
/// its day is out of range.
pub open spec fn spec_decode_content(c: RecordContentView) -> Option<ContentView> {
    match c {
        RecordContentView::Week { text, weekday, ongoing } => match spec_weekday_from_name(
            weekday,
        ) {
            Some(w) => Some(ContentView::Week { text, weekday: w as int, ongoing }),
            None => None,
        },
        RecordContentView::Month { text, day, ongoing } => if 1 <= day <= 31 {
            Some(ContentView::Month { text, day, ongoing })
        } else {
            None
        },
        RecordContentView::Once { text, date, status } => match spec_parse_yyyymmdd(date) {
            Some(d) => Some(ContentView::Once { text, date: d, status }),
            None => None,
        },
        RecordContentView::Progress { text, progress } => Some(
            ContentView::Progress { text, progress },
        ),
    }
}

/// The task a persisted record denotes, if any.
pub open spec fn spec_decode_task(r: RecordView) -> Option<TaskView> {
    match spec_decode_content(r.content) {
        Some(c) => Some(TaskView { id: r.id, created_at: r.created_at, content: c }),
        None => None,
    }
}

/// Writes a task into its persisted record form.
pub fn encode_task(t: Task) -> (r: TaskRecord)
    requires
        wf_task(t@),
    ensures
        r@ == spec_encode_task(t@),
{
    let Task { id, created_at, content } = t;
    let content = match content {
        TaskType::WeekTask { text, weekday, ongoing } => ContentRecord::WeekTask {
            text,
            weekday: weekday_name(weekday),
            ongoing,
        },
        TaskType::MonthTask { text, day, ongoing } => ContentRecord::MonthTask {
            text,
            day,
            ongoing,
        },
        TaskType::OnceTask { text, date, status } => ContentRecord::OnceTask {
            text,
            date: date.to_yyyymmdd(),
            status,
        },
        TaskType::ProgressTask { text, progress } => ContentRecord::ProgressTask {
            text,
            progress,
        },
    };
    TaskRecord { id, created_at, content }
}

/// Reads a persisted record back into a task; a record whose calendar
/// strings or day field cannot be read is a decoding failure.
pub fn decode_task(r: TaskRecord) -> (res: Result<Task, TtdError>)
    ensures
        match res {
            Ok(t) => spec_decode_task(r@) == Some(t@) && wf_task(t@),
            Err(e) => spec_decode_task(r@) is None && e == TtdError::DecodeError,
        },
{
    let TaskRecord { id, created_at, content } = r;
    let content = match content {
        ContentRecord::WeekTask { text, weekday, ongoing } => {
            match weekday_from_name(weekday.as_str()) {
                Some(w) => TaskType::WeekTask { text, weekday: w, ongoing },
                None => {
                    return Err(TtdError::DecodeError);
                },
            }
        },
        ContentRecord::MonthTask { text, day, ongoing } => {
            if day < 1 || day > 31 {
                return Err(TtdError::DecodeError);
            }
            TaskType::MonthTask { text, day, ongoing }
        },
        ContentRecord::OnceTask { text, date, status } => {
            match Date::parse_yyyymmdd(date.as_str()) {
                Some(d) => TaskType::OnceTask { text, date: d, status },
                None => {
                    return Err(TtdError::DecodeError);
                },
            }
        },
        ContentRecord::ProgressTask { text, progress } => TaskType::ProgressTask {
            text,
            progress,
        },
    };
    Ok(Task { id, created_at, content })
}

/// A well-formed task's persisted record reads back to the very same
/// task: ids, timestamps and every content field survive the trip
/// through the file.
pub proof fn lemma_task_roundtrip(t: TaskView)
    requires
        wf_task(t),
    ensures
        spec_decode_task(spec_encode_task(t)) == Some(t),
{
    match t.content {
        ContentView::Week { weekday, .. } => {
            lemma_weekday_name_roundtrip(weekday);
        },
        ContentView::Once { date, .. } => {
            lemma_date_roundtrip(date);
        },
        _ => {},
    }
}

/// The persisted record values of a well-formed task list.
pub open spec fn spec_encode_tasks(ts: Seq<TaskView>) -> Seq<RecordView> {
    ts.map_values(|t: TaskView| spec_encode_task(t))
}

/// The task values a persisted record list denotes, or nothing where
/// any one record cannot be read.
pub open spec fn spec_decode_tasks(rs: Seq<RecordView>) -> Option<Seq<TaskView>> {
    if forall|j: int| 0 <= j < rs.len() ==> #[trigger] spec_decode_task(rs[j]) is Some {
        Some(rs.map_values(|r: RecordView| spec_decode_task(r)->0))
    } else {
        None
    }
}

/// A well-formed task list's persisted records read back to the very
/// same list, element for element and in the same order.
pub proof fn lemma_tasks_roundtrip(ts: Seq<TaskView>)
    requires
        wf_tasks(ts),
    ensures
        spec_decode_tasks(spec_encode_tasks(ts)) == Some(ts),
{
    let rs = spec_encode_tasks(ts);
    assert forall|j: int| 0 <= j < rs.len() implies #[trigger] spec_decode_task(rs[j]) is Some by {
        assert(wf_task(ts[j]));
        lemma_task_roundtrip(ts[j]);
    }
    assert forall|j: int| 0 <= j < rs.len() implies rs.map_values(
        |r: RecordView| spec_decode_task(r)->0,
    )[j] == ts[j] by {
        assert(wf_task(ts[j]));
        lemma_task_roundtrip(ts[j]);
    }
    assert(rs.map_values(|r: RecordView| spec_decode_task(r)->0) =~= ts);
}

/// Writes a whole task list into its persisted record form.
pub fn encode_tasks(tasks: Vec<Task>) -> (r: Vec<TaskRecord>)
    requires
        wf_tasks(task_views(tasks@)),
    ensures
        record_views(r@) == spec_encode_tasks(task_views(tasks@)),
{
    let ghost vs = task_views(tasks@);
    let mut tasks = tasks;
    let mut out: Vec<TaskRecord> = Vec::new();
    while tasks.len() > 0
        invariant
            wf_tasks(vs),
            out@.len() + tasks@.len() == vs.len(),
            task_views(tasks@) =~= vs.skip(out@.len() as int),
            record_views(out@) =~= spec_encode_tasks(vs).take(out@.len() as int),
        decreases tasks@.len(),
    {
        let ghost i = out@.len() as int;
        let ghost pre = tasks@;
        let t = tasks.remove(0);
        proof {
            crate::task::lemma_task_views_tail(pre, tasks@, vs, i);
            assert(t@ == vs[i]);
            assert(wf_task(vs[i]));
        }
        let rec = encode_task(t);
        out.push(rec);
        proof {
            assert forall|j: int| 0 <= j < out@.len() implies record_views(out@)[j]
                == spec_encode_tasks(vs).take(i + 1)[j] by {
                assert(record_views(out@)[j] == out@[j]@);
            }
            assert(record_views(out@) =~= spec_encode_tasks(vs).take(i + 1));
        }
    }
    proof {
        assert(spec_encode_tasks(vs).take(out@.len() as int) =~= spec_encode_tasks(vs));
    }
    out
}

/// Reads a whole persisted record list back into tasks; one unreadable
/// record makes the whole list a decoding failure.
#[verifier::loop_isolation(false)]
pub fn decode_tasks(records: Vec<TaskRecord>) -> (r: Result<Vec<Task>, TtdError>)
    ensures
        match r {
            Ok(tasks) => spec_decode_tasks(record_views(records@)) == Some(task_views(tasks@))
                && wf_tasks(task_views(tasks@)),
            Err(e) => spec_decode_tasks(record_views(records@)) is None && e
                == TtdError::DecodeError,
        },
{
    let ghost rvs = record_views(records@);
    let mut records = records;
    let mut out: Vec<Task> = Vec::new();
    while records.len() > 0
        invariant
            out@.len() + records@.len() == rvs.len(),
            record_views(records@) =~= rvs.skip(out@.len() as int),
            forall|j: int| 0 <= j < out@.len() ==> #[trigger] spec_decode_task(rvs[j]) is Some,
            forall|j: int| 0 <= j < out@.len() ==> task_views(out@)[j] == spec_decode_task(
                rvs[j],
            )->0,
            forall|j: int| 0 <= j < out@.len() ==> wf_task(#[trigger] task_views(out@)[j]),
        decreases records@.len(),
    {
        let ghost i = out@.len() as int;
        let ghost pre = records@;
        let rec = records.remove(0);
        proof {
            lemma_record_views_tail(pre, records@, rvs, i);
            assert(rec@ == rvs[i]);
        }
        let ghost out_pre = out@;
        match decode_task(rec) {
            Ok(t) => {
                out.push(t);
                proof {
                    assert forall|j: int| 0 <= j < out@.len() implies task_views(out@)[j] == (
                    if j < i {
                        task_views(out_pre)[j]
                    } else {
                        t@
                    }) by {
                        assert(task_views(out@)[j] == out@[j]@);
                        if j < i {
                            assert(task_views(out_pre)[j] == out_pre[j]@);
                        }
                    }
                }
            },
            Err(e) => {
                proof {
                    assert(spec_decode_task(rvs[i]) is None);
                }
                return Err(e);
            },
        }
    }
    proof {
        assert(spec_decode_tasks(rvs) is Some);
        assert(spec_decode_tasks(rvs)->0 =~= task_views(out@));
    }
    Ok(out)
}

} // verus!
