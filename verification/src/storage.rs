//! The store engine: status recomputation, construction, mutation and
//! filter partitioning over the full task list.
//!
//! Every operation here is a pure function of the list (and of today's
//! date); reading and rewriting the journal file around these calls is
//! the caller's concern.

use vstd::multiset::Multiset;
use vstd::prelude::*;

use crate::date::{
    date_check, date_parse_of, parse_date, parse_weekday, spec_date_status, weekday_check,
    weekday_parse_of, day_check, Date, Today,
};
use crate::error::TtdError;
use crate::task::{task_views, ContentView, OnceDateStatus, Task, TaskType, TaskView};
use crate::text::{parse_usize, spec_parse_usize, str_eq};

verus! {

/// A filter selector: which subset of the list an operation targets.
#[derive(Clone, Copy, Debug, PartialEq, Eq, Structural)]
pub enum Filter {
    /// One-time tasks whose derived status is `Expired`.
    ExpiredOnce,
    /// Every one-time task.
    AllOnce,
    /// Every monthly task.
    AllMonth,
    /// Every weekly task.
    AllWeek,
    /// Every progress bookmark.
    AllProgress,
    /// Everything; the documented fallback for unrecognized selectors.
    NoFilter,
}

impl Filter {
    /// The selector encoded by the command-line flags, first flag
    /// winning; no flag at all means no filter.
    pub fn from_flags(expired: bool, once_task: bool, month_task: bool, week_task: bool, progress_task: bool) -> (r: Filter)
        ensures
            r == (if expired { Filter::ExpiredOnce }
                else if once_task { Filter::AllOnce }
                else if month_task { Filter::AllMonth }
                else if week_task { Filter::AllWeek }
                else if progress_task { Filter::AllProgress }
                else { Filter::NoFilter }),
    {
        if expired { Filter::ExpiredOnce }
        else if once_task { Filter::AllOnce }
        else if month_task { Filter::AllMonth }
        else if week_task { Filter::AllWeek }
        else if progress_task { Filter::AllProgress }
        else { Filter::NoFilter }
    }
}

/// Whether a payload is selected by a filter.
pub open spec fn matches_filter(c: ContentView, f: Filter) -> bool {
    match f {
        Filter::ExpiredOnce => match c {
            ContentView::Once { status, .. } => status == OnceDateStatus::Expired,
            _ => false,
        },
        Filter::AllOnce => c is Once,
        Filter::AllMonth => c is Month,
        Filter::AllWeek => c is Week,
        Filter::AllProgress => c is Progress,
        Filter::NoFilter => true,
    }
}

/// The tasks a filter selects.
pub open spec fn filter_pred(f: Filter) -> spec_fn(TaskView) -> bool {
    |t: TaskView| matches_filter(t.content, f)
}

/// The tasks a filter leaves alone.
pub open spec fn reject_pred(f: Filter) -> spec_fn(TaskView) -> bool {
    |t: TaskView| !matches_filter(t.content, f)
}

/// A payload with its derived status recomputed for today.
pub open spec fn spec_refresh_content(c: ContentView, today: Today) -> ContentView {
    match c {
        ContentView::Once { text, date, status: _ } => ContentView::Once {
            text,
            date,
            status: spec_date_status(date, today),
        },
        ContentView::Week { text, weekday, ongoing: _ } => ContentView::Week {
            text,
            weekday,
            ongoing: weekday == today.weekday as int,
        },
        ContentView::Month { text, day, ongoing: _ } => ContentView::Month {
            text,
            day,
            ongoing: day == today.day as int,
        },
        ContentView::Progress { text, progress } => ContentView::Progress { text, progress },
    }
}

/// A task with its derived status recomputed for today; id, timestamp
/// and content fields stay as they are.
pub open spec fn spec_refresh_task(t: TaskView, today: Today) -> TaskView {
    TaskView { id: t.id, created_at: t.created_at, content: spec_refresh_content(t.content, today) }
}

/// A whole list with every derived status recomputed for today.
pub open spec fn spec_refresh(ts: Seq<TaskView>, today: Today) -> Seq<TaskView> {
    ts.map_values(|t: TaskView| spec_refresh_task(t, today))
}

/// The same tasks under fresh ids `1..=len`, in the same order.
pub open spec fn spec_resequence(ts: Seq<TaskView>) -> Seq<TaskView> {
    Seq::new(ts.len(), |i: int| TaskView { id: i + 1, created_at: ts[i].created_at, content: ts[i].content })
}

/// Recomputes every task's derived status from today's date, as the
/// store does on each load. Nothing else about any task changes.
pub fn init(tasks: Vec<Task>, today: &Today) -> (r: Vec<Task>)
    ensures
        task_views(r@) == spec_refresh(task_views(tasks@), *today),
{
    let ghost orig = task_views(tasks@);
    let mut tasks = tasks;
    let mut out: Vec<Task> = Vec::new();
    while tasks.len() > 0
        invariant
            out@.len() + tasks@.len() == orig.len(),
            task_views(tasks@) =~= orig.skip(out@.len() as int),
            task_views(out@) =~= spec_refresh(orig, *today).take(out@.len() as int),
        decreases tasks@.len(),
    {
        let ghost i = out@.len() as int;
        let ghost pre = tasks@;
        let t = tasks.remove(0);
        proof {
            crate::task::lemma_task_views_tail(pre, tasks@, orig, i);
            assert(t@ == orig[i]);
        }
        let Task { id, created_at, content } = t;
        let content = match content {
            TaskType::OnceTask { text, date, status: _ } => {
                let status = date_check(&date, today);
                TaskType::OnceTask { text, date, status }
            },
            TaskType::WeekTask { text, weekday, ongoing: _ } => {
                let ongoing = weekday_check(weekday, today);
                TaskType::WeekTask { text, weekday, ongoing }
            },
            TaskType::MonthTask { text, day, ongoing: _ } => {
                let ongoing = day_check(day, today);
                TaskType::MonthTask { text, day, ongoing }
            },
            TaskType::ProgressTask { text, progress } => TaskType::ProgressTask { text, progress },
        };
        out.push(Task { id, created_at, content });
        proof {
            assert(out@.last()@ == spec_refresh_task(orig[i], *today));
            assert forall|j: int| 0 <= j < out@.len() implies task_views(out@)[j]
                == spec_refresh(orig, *today).take(i + 1)[j] by {
                assert(task_views(out@)[j] == out@[j]@);
                if j < i {
                    assert(task_views(out@.take(i))[j] == out@.take(i)[j]@);
                }
            }
            assert(task_views(out@) =~= spec_refresh(orig, *today).take(i + 1));
        }
    }
    proof {
        assert(task_views(out@) =~= spec_refresh(orig, *today));
    }
    out
}

/// Mapping to views commutes with removing an element.
proof fn lemma_task_views_remove(s: Seq<Task>, k: int)
    requires
        0 <= k < s.len(),
    ensures
        task_views(s.remove(k)) =~= task_views(s).remove(k),
{
    assert forall|j: int| 0 <= j < s.remove(k).len() implies task_views(s.remove(k))[j]
        == task_views(s).remove(k)[j] by {
        if j < k {
            assert(s.remove(k)[j] == s[j]);
            assert(task_views(s).remove(k)[j] == task_views(s)[j]);
        } else {
            assert(s.remove(k)[j] == s[j + 1]);
            assert(task_views(s).remove(k)[j] == task_views(s)[j + 1]);
        }
    }
}

/// The same tasks under fresh ids `1..=len`: id resequencing after a
/// removal or a bulk filter.
pub fn id_reset(tasks: Vec<Task>) -> (r: Vec<Task>)
    ensures
        task_views(r@) == spec_resequence(task_views(tasks@)),
        forall|j: int| 0 <= j < r@.len() ==> task_views(r@)[j].id == j + 1,
{
    let ghost orig = task_views(tasks@);
    let mut tasks = tasks;
    proof {
        vstd::std_specs::vec::axiom_spec_len(&tasks);
        assert(orig.len() <= usize::MAX);
    }
    let mut out: Vec<Task> = Vec::new();
    while tasks.len() > 0
        invariant
            orig.len() <= usize::MAX,
            out@.len() + tasks@.len() == orig.len(),
            task_views(tasks@) =~= orig.skip(out@.len() as int),
            task_views(out@) =~= spec_resequence(orig).take(out@.len() as int),
        decreases tasks@.len(),
    {
        let ghost i = out@.len() as int;
        let ghost pre = tasks@;
        let mut t = tasks.remove(0);
        proof {
            crate::task::lemma_task_views_tail(pre, tasks@, orig, i);
            assert(t@ == orig[i]);
        }
        t.id = out.len() + 1;
        out.push(t);
        proof {
            assert(out@.last()@ == spec_resequence(orig)[i]);
            assert forall|j: int| 0 <= j < out@.len() implies task_views(out@)[j]
                == spec_resequence(orig).take(i + 1)[j] by {
                assert(task_views(out@)[j] == out@[j]@);
            }
            assert(task_views(out@) =~= spec_resequence(orig).take(i + 1));
        }
    }
    proof {
        assert(task_views(out@) =~= spec_resequence(orig));
    }
    out
}

/// Appends a task to the list under the next free id, `len + 1`.
pub fn add_task(tasks: &mut Vec<Task>, task: Task)
    requires
        old(tasks)@.len() < usize::MAX,
    ensures
        task_views(final(tasks)@) == task_views(old(tasks)@).push(
            TaskView {
                id: old(tasks)@.len() as int + 1,
                created_at: task@.created_at,
                content: task@.content,
            },
        ),
{
    let mut task = task;
    task.id = tasks.len() + 1;
    let ghost pre = tasks@;
    tasks.push(task);
    proof {
        assert forall|j: int| 0 <= j < tasks@.len() implies task_views(tasks@)[j]
            == task_views(pre).push(task@)[j] by {
            if j < pre.len() {
                assert(tasks@[j] == pre[j]);
                assert(task_views(pre)[j] == pre[j]@);
            }
        }
        assert(task_views(tasks@) =~= task_views(pre).push(task@));
    }
}

/// Removes the task under a given id, or the last task where no id is
/// given, and resequences the survivors to ids `1..=len-1` in their
/// original order. An id outside `1..=len` is refused; so is removing
/// from an empty list.
pub fn remove_task_by_id(tasks: &mut Vec<Task>, id: Option<usize>) -> (r: Result<
    Task,
    TtdError,
>)
    ensures
        match r {
            Ok(t) => ({
                let vs = task_views(old(tasks)@);
                let k = if id is Some { id->0 - 1 } else { vs.len() - 1 };
                &&& (id is Some ==> 1 <= id->0 <= vs.len())
                &&& (id is None ==> vs.len() > 0)
                &&& t@ == vs[k]
                &&& task_views(final(tasks)@) == spec_resequence(vs.remove(k))
                &&& final(tasks)@.len() == old(tasks)@.len() - 1
                &&& forall|j: int| 0 <= j < final(tasks)@.len()
                    ==> task_views(final(tasks)@)[j].id == j + 1
            }),
            Err(e) => {
                &&& final(tasks)@ == old(tasks)@
                &&& match id {
                    Some(i) => e == TtdError::IndexError && (i == 0 || i > old(tasks)@.len()),
                    None => e == TtdError::EmptyListError && old(tasks)@.len() == 0,
                }
            },
        },
{
    let len = tasks.len();
    let index: usize = match id {
        Some(i) => {
            if i == 0 || i > len {
                return Err(TtdError::IndexError);
            }
            i - 1
        },
        None => {
            if len == 0 {
                return Err(TtdError::EmptyListError);
            }
            len - 1
        },
    };
    let removed = tasks.remove(index);
    proof {
        lemma_task_views_remove(old(tasks)@, index as int);
        assert(task_views(old(tasks)@)[index as int] == old(tasks)@[index as int]@);
    }
    let mut work: Vec<Task> = Vec::new();
    core::mem::swap(tasks, &mut work);
    let reset = id_reset(work);
    *tasks = reset;
    proof {
        let vs = task_views(old(tasks)@);
        let k = if id is Some { id->0 - 1 } else { vs.len() - 1 };
        assert(k == index as int);
        assert(task_views(tasks@) =~= spec_resequence(vs.remove(k)));
    }
    Ok(removed)
}

/// Drops every task, reporting how many there were.
pub fn clear_tasks(tasks: &mut Vec<Task>) -> (count: usize)
    ensures
        final(tasks)@.len() == 0,
        count == old(tasks)@.len(),
{
    let count = tasks.len();
    tasks.clear();
    count
}

/// Replaces the progress text of the bookmark under a given id. An id
/// outside `1..=len` is refused with `IndexError`; an id naming any
/// other task kind is refused with `WrongVariantError`; either way the
/// list is left as it was.
pub fn update_bookmark(tasks: &mut Vec<Task>, id: usize, new_progress: String) -> (r: Result<
    (),
    TtdError,
>)
    ensures
        match r {
            Ok(()) => ({
                let vs = task_views(old(tasks)@);
                let k = id - 1;
                &&& 1 <= id <= vs.len()
                &&& vs[k].content is Progress
                &&& task_views(final(tasks)@) == vs.update(
                    k,
                    TaskView {
                        id: vs[k].id,
                        created_at: vs[k].created_at,
                        content: ContentView::Progress {
                            text: vs[k].content->Progress_text,
                            progress: new_progress@,
                        },
                    },
                )
            }),
            Err(e) => {
                &&& final(tasks)@ == old(tasks)@
                &&& if id == 0 || id > old(tasks)@.len() {
                    e == TtdError::IndexError
                } else {
                    e == TtdError::WrongVariantError
                        && !(task_views(old(tasks)@)[id - 1].content is Progress)
                }
            },
        },
{
    let len = tasks.len();
    if id == 0 || id > len {
        return Err(TtdError::IndexError);
    }
    let index = id - 1;
    let ghost pre = tasks@;
    proof {
        assert(task_views(pre)[index as int] == pre[index as int]@);
    }
    let t = tasks.remove(index);
    match t {
        Task { id: tid, created_at, content: TaskType::ProgressTask { text, progress: _ } } => {
            let updated = Task {
                id: tid,
                created_at,
                content: TaskType::ProgressTask { text, progress: new_progress },
            };
            tasks.insert(index, updated);
            proof {
                let vs = task_views(pre);
                let k = index as int;
                assert forall|j: int| 0 <= j < tasks@.len() implies task_views(tasks@)[j]
                    == vs.update(
                    k,
                    TaskView {
                        id: vs[k].id,
                        created_at: vs[k].created_at,
                        content: ContentView::Progress {
                            text: vs[k].content->Progress_text,
                            progress: new_progress@,
                        },
                    },
                )[j] by {
                    if j < k {
                        assert(tasks@[j] == pre[j]);
                        assert(vs[j] == pre[j]@);
                    } else if j > k {
                        assert(tasks@[j] == pre[j]);
                        assert(vs[j] == pre[j]@);
                    }
                }
                assert(task_views(tasks@) =~= task_views(pre).update(
                    index as int,
                    TaskView {
                        id: task_views(pre)[index as int].id,
                        created_at: task_views(pre)[index as int].created_at,
                        content: ContentView::Progress {
                            text: task_views(pre)[index as int].content->Progress_text,
                            progress: new_progress@,
                        },
                    },
                ));
            }
            Ok(())
        },
        other => {
            tasks.insert(index, other);
            proof {
                assert(tasks@ =~= pre);
            }
            Err(TtdError::WrongVariantError)
        },
    }
}

/// Whether a payload is selected by a filter.
fn matches_filter_exec(c: &TaskType, f: Filter) -> (r: bool)
    ensures
        r == matches_filter(c@, f),
{
    match f {
        Filter::ExpiredOnce => match c {
            TaskType::OnceTask { status: OnceDateStatus::Expired, .. } => true,
            _ => false,
        },
        Filter::AllOnce => matches!(c, TaskType::OnceTask { .. }),
        Filter::AllMonth => matches!(c, TaskType::MonthTask { .. }),
        Filter::AllWeek => matches!(c, TaskType::WeekTask { .. }),
        Filter::AllProgress => matches!(c, TaskType::ProgressTask { .. }),
        Filter::NoFilter => true,
    }
}

/// Filtering a sequence extended by one element keeps the old result
/// and appends the element exactly where the predicate selects it.
proof fn lemma_filter_push<A>(s: Seq<A>, x: A, pred: spec_fn(A) -> bool)
    ensures
        (s.push(x)).filter(pred) == (if pred(x) {
            s.filter(pred).push(x)
        } else {
            s.filter(pred)
        }),
{
    reveal(Seq::filter);
    assert(s.push(x).drop_last() =~= s);
    assert(s.push(x).last() == x);
    assert(s.push(x).len() == s.len() + 1);
}

/// The tasks a filter selects, in their original order; `NoFilter`
/// selects everything. The store itself is not touched: listing never
/// mutates.
pub fn list_tasks_by_filter(tasks: Vec<Task>, filter: Filter) -> (r: Vec<Task>)
    ensures
        task_views(r@) == task_views(tasks@).filter(filter_pred(filter)),
{
    let ghost vs = task_views(tasks@);
    let mut tasks = tasks;
    let mut out: Vec<Task> = Vec::new();
    let ghost processed = 0int;
    proof {
        assert(vs.take(0) =~= Seq::<TaskView>::empty());
        reveal(Seq::filter);
        assert(task_views(out@) =~= vs.take(0).filter(filter_pred(filter)));
    }
    while tasks.len() > 0
        invariant
            0 <= processed <= vs.len(),
            processed + tasks@.len() == vs.len(),
            task_views(tasks@) =~= vs.skip(processed),
            task_views(out@) =~= vs.take(processed).filter(filter_pred(filter)),
        decreases tasks@.len(),
    {
        let ghost i = processed;
        let ghost pre = tasks@;
        let t = tasks.remove(0);
        proof {
            crate::task::lemma_task_views_tail(pre, tasks@, vs, i);
            assert(t@ == vs[i]);
        }
        let ghost out_pre = task_views(out@);
        let selected = matches_filter_exec(&t.content, filter);
        if selected {
            out.push(t);
        }
        proof {
            assert(vs.take(i + 1) =~= vs.take(i).push(vs[i]));
            lemma_filter_push(vs.take(i), vs[i], filter_pred(filter));
            assert(filter_pred(filter)(vs[i]) == matches_filter(vs[i].content, filter));
            if selected {
                assert forall|j: int| 0 <= j < out@.len() implies task_views(out@)[j]
                    == out_pre.push(t@)[j] by {
                }
                assert(task_views(out@) =~= out_pre.push(t@));
            }
            assert(task_views(out@) =~= vs.take(i + 1).filter(filter_pred(filter)));
            processed = i + 1;
        }
    }
    proof {
        assert(vs.take(processed) =~= vs);
    }
    out
}

/// Splits the list into the tasks a filter selects (to be removed) and
/// the rest (to be kept, resequenced to ids `1..=len`), both in their
/// original order. `NoFilter` selects everything, so a removal under
/// the documented fallback reports the whole list removed and keeps
/// nothing.
pub fn remove_tasks_by_filter(tasks: Vec<Task>, filter: Filter) -> (r: (Vec<Task>, Vec<Task>))
    ensures
        task_views(r.0@) == spec_resequence(task_views(tasks@).filter(reject_pred(filter))),
        task_views(r.1@) == task_views(tasks@).filter(filter_pred(filter)),
{
    let ghost vs = task_views(tasks@);
    let mut tasks = tasks;
    let mut keep: Vec<Task> = Vec::new();
    let mut drop: Vec<Task> = Vec::new();
    let ghost processed = 0int;
    proof {
        assert(vs.take(0) =~= Seq::<TaskView>::empty());
        reveal(Seq::filter);
        assert(task_views(keep@) =~= vs.take(0).filter(reject_pred(filter)));
        assert(task_views(drop@) =~= vs.take(0).filter(filter_pred(filter)));
    }
    while tasks.len() > 0
        invariant
            0 <= processed <= vs.len(),
            processed + tasks@.len() == vs.len(),
            task_views(tasks@) =~= vs.skip(processed),
            task_views(keep@) =~= vs.take(processed).filter(reject_pred(filter)),
            task_views(drop@) =~= vs.take(processed).filter(filter_pred(filter)),
        decreases tasks@.len(),
    {
        let ghost i = processed;
        let ghost pre = tasks@;
        let t = tasks.remove(0);
        proof {
            crate::task::lemma_task_views_tail(pre, tasks@, vs, i);
            assert(t@ == vs[i]);
        }
        let ghost keep_pre = task_views(keep@);
        let ghost drop_pre = task_views(drop@);
        let selected = matches_filter_exec(&t.content, filter);
        if selected {
            drop.push(t);
        } else {
            keep.push(t);
        }
        proof {
            assert(vs.take(i + 1) =~= vs.take(i).push(vs[i]));
            lemma_filter_push(vs.take(i), vs[i], filter_pred(filter));
            lemma_filter_push(vs.take(i), vs[i], reject_pred(filter));
            assert(filter_pred(filter)(vs[i]) == matches_filter(vs[i].content, filter));
            assert(reject_pred(filter)(vs[i]) == !matches_filter(vs[i].content, filter));
            if selected {
                assert(task_views(drop@) =~= drop_pre.push(t@));
            } else {
                assert(task_views(keep@) =~= keep_pre.push(t@));
            }
            assert(task_views(keep@) =~= vs.take(i + 1).filter(reject_pred(filter)));
            assert(task_views(drop@) =~= vs.take(i + 1).filter(filter_pred(filter)));
            processed = i + 1;
        }
    }
    proof {
        assert(vs.take(processed) =~= vs);
    }
    let retained = id_reset(keep);
    (retained, drop)
}

/// What belongs on today's list: anything whose derived status says it
/// is on for today. Bookmarks never are.
pub open spec fn is_today_content(c: ContentView) -> bool {
    match c {
        ContentView::Once { status, .. } => status == OnceDateStatus::Ongoing,
        ContentView::Week { ongoing, .. } => ongoing,
        ContentView::Month { ongoing, .. } => ongoing,
        ContentView::Progress { .. } => false,
    }
}

/// The tasks on for today.
pub open spec fn today_pred() -> spec_fn(TaskView) -> bool {
    |t: TaskView| is_today_content(t.content)
}

/// The tasks whose derived status puts them on today's list, in their
/// original order.
pub fn tasks_of_today(tasks: Vec<Task>) -> (r: Vec<Task>)
    ensures
        task_views(r@) == task_views(tasks@).filter(today_pred()),
{
    let ghost vs = task_views(tasks@);
    let mut tasks = tasks;
    let mut out: Vec<Task> = Vec::new();
    let ghost processed = 0int;
    proof {
        assert(vs.take(0) =~= Seq::<TaskView>::empty());
        reveal(Seq::filter);
        assert(task_views(out@) =~= vs.take(0).filter(today_pred()));
    }
    while tasks.len() > 0
        invariant
            0 <= processed <= vs.len(),
            processed + tasks@.len() == vs.len(),
            task_views(tasks@) =~= vs.skip(processed),
            task_views(out@) =~= vs.take(processed).filter(today_pred()),
        decreases tasks@.len(),
    {
        let ghost i = processed;
        let ghost pre = tasks@;
        let t = tasks.remove(0);
        proof {
            crate::task::lemma_task_views_tail(pre, tasks@, vs, i);
            assert(t@ == vs[i]);
        }
        let ghost out_pre = task_views(out@);
        let selected = match &t.content {
            TaskType::OnceTask { status: OnceDateStatus::Ongoing, .. } => true,
            TaskType::WeekTask { ongoing: true, .. } => true,
            TaskType::MonthTask { ongoing: true, .. } => true,
            _ => false,
        };
        proof {
            assert(selected == is_today_content(t@.content));
        }
        if selected {
            out.push(t);
        }
        proof {
            assert(vs.take(i + 1) =~= vs.take(i).push(vs[i]));
            lemma_filter_push(vs.take(i), vs[i], today_pred());
            assert(today_pred()(vs[i]) == is_today_content(vs[i].content));
            if selected {
                assert(task_views(out@) =~= out_pre.push(t@));
            }
            assert(task_views(out@) =~= vs.take(i + 1).filter(today_pred()));
            processed = i + 1;
        }
    }
    proof {
        assert(vs.take(processed) =~= vs);
    }
    out
}

/// The date value behind a user string the calendar accepted.
pub open spec fn parsed_date(s: Seq<char>) -> Date {
    let p = date_parse_of(s)->0;
    Date { year: p.0 as u16, month: p.1, day: p.2 }
}

/// Builds a task payload from the command-line selectors, first
/// non-empty selector winning in the order weekday, day, date,
/// progress, and computes its initial derived status from today.
/// A day outside `1..=31`, or a weekday or date string the calendar
/// rejects, is refused; so is a call with no selector at all.
pub fn parse_task(
    text: String,
    weekday: Option<String>,
    day: Option<usize>,
    date: Option<String>,
    progress: Option<String>,
    today: &Today,
) -> (r: Result<Task, TtdError>)
    ensures
        match r {
            Ok(t) => t@.id == 0 && (if weekday is Some {
                &&& weekday_parse_of(weekday->0@) is Some
                &&& t@.content == (ContentView::Week {
                    text: text@,
                    weekday: weekday_parse_of(weekday->0@)->0 as int,
                    ongoing: weekday_parse_of(weekday->0@)->0 == today.weekday,
                })
            } else if day is Some {
                &&& 1 <= day->0 <= 31
                &&& t@.content == (ContentView::Month {
                    text: text@,
                    day: day->0 as int,
                    ongoing: day->0 == today.day as usize,
                })
            } else if date is Some {
                &&& date_parse_of(date->0@) is Some
                &&& 0 <= (date_parse_of(date->0@)->0).0 <= 9999
                &&& t@.content == (ContentView::Once {
                    text: text@,
                    date: parsed_date(date->0@),
                    status: spec_date_status(parsed_date(date->0@), *today),
                })
            } else if progress is Some {
                t@.content == (ContentView::Progress { text: text@, progress: progress->0@ })
            } else {
                false
            }),
            Err(e) => {
                if weekday is Some {
                    e == TtdError::InvalidWeekday && weekday_parse_of(weekday->0@) is None
                } else if day is Some {
                    e == TtdError::InvalidDay && !(1 <= day->0 <= 31)
                } else if date is Some {
                    e == TtdError::InvalidDate && (date_parse_of(date->0@) is None || !(0 <= (
                    date_parse_of(date->0@)->0).0 <= 9999))
                } else if progress is Some {
                    false
                } else {
                    e == TtdError::MissingVariant
                }
            },
        },
{
    if let Some(w) = weekday {
        let wd = match parse_weekday(w.as_str()) {
            Ok(wd) => wd,
            Err(e) => {
                return Err(e);
            },
        };
        let ongoing = weekday_check(wd, today);
        Ok(Task::build(TaskType::WeekTask { text, weekday: wd, ongoing }))
    } else if let Some(d) = day {
        if d < 1 || d > 31 {
            return Err(TtdError::InvalidDay);
        }
        let ongoing = day_check(d, today);
        Ok(Task::build(TaskType::MonthTask { text, day: d, ongoing }))
    } else if let Some(ds) = date {
        let parsed = match parse_date(ds.as_str()) {
            Ok(p) => p,
            Err(e) => {
                return Err(e);
            },
        };
        let status = date_check(&parsed, today);
        Ok(Task::build(TaskType::OnceTask { text, date: parsed, status }))
    } else if let Some(p) = progress {
        Ok(Task::build(TaskType::ProgressTask { text, progress: p }))
    } else {
        Err(TtdError::MissingVariant)
    }
}

/// Reads one line of the interactive add mode, already split into a
/// content word, a selector word and an argument word, and builds the
/// task the selector asks for.
pub fn parse_input(task_content: (&str, &str), task_type: &str, today: &Today) -> (r: Result<
    Task,
    TtdError,
>)
    ensures
        match r {
            Ok(t) => t@.id == 0 && (if task_type@ == "-w"@ {
                &&& weekday_parse_of(task_content.1@) is Some
                &&& t@.content == (ContentView::Week {
                    text: task_content.0@,
                    weekday: weekday_parse_of(task_content.1@)->0 as int,
                    ongoing: weekday_parse_of(task_content.1@)->0 == today.weekday,
                })
            } else if task_type@ == "-m"@ {
                &&& spec_parse_usize(task_content.1@) is Some
                &&& 1 <= spec_parse_usize(task_content.1@)->0 <= 31
                &&& t@.content == (ContentView::Month {
                    text: task_content.0@,
                    day: spec_parse_usize(task_content.1@)->0,
                    ongoing: spec_parse_usize(task_content.1@)->0 == today.day as int,
                })
            } else if task_type@ == "-o"@ {
                &&& date_parse_of(task_content.1@) is Some
                &&& 0 <= (date_parse_of(task_content.1@)->0).0 <= 9999
                &&& t@.content == (ContentView::Once {
                    text: task_content.0@,
                    date: parsed_date(task_content.1@),
                    status: spec_date_status(parsed_date(task_content.1@), *today),
                })
            } else if task_type@ == "-p"@ {
                t@.content == (ContentView::Progress {
                    text: task_content.0@,
                    progress: task_content.1@,
                })
            } else {
                false
            }),
            Err(e) => {
                if task_type@ == "-w"@ {
                    e == TtdError::InvalidWeekday && weekday_parse_of(task_content.1@) is None
                } else if task_type@ == "-m"@ {
                    e == TtdError::InvalidDay && (spec_parse_usize(task_content.1@) is None || !(1
                        <= spec_parse_usize(task_content.1@)->0 <= 31))
                } else if task_type@ == "-o"@ {
                    e == TtdError::InvalidDate && (date_parse_of(task_content.1@) is None || !(0
                        <= (date_parse_of(task_content.1@)->0).0 <= 9999))
                } else if task_type@ == "-p"@ {
                    false
                } else {
                    e == TtdError::MissingVariant
                }
            },
        },
{
    if str_eq(task_type, "-w") {
        parse_task(task_content.0.to_owned(), Some(task_content.1.to_owned()), None, None, None, today)
    } else if str_eq(task_type, "-m") {
        match parse_usize(task_content.1) {
            Some(d) => parse_task(task_content.0.to_owned(), None, Some(d), None, None, today),
            None => Err(TtdError::InvalidDay),
        }
    } else if str_eq(task_type, "-o") {
        parse_task(task_content.0.to_owned(), None, None, Some(task_content.1.to_owned()), None, today)
    } else if str_eq(task_type, "-p") {
        parse_task(task_content.0.to_owned(), None, None, None, Some(task_content.1.to_owned()), today)
    } else {
        Err(TtdError::MissingVariant)
    }
}

/// Passes the journal file's path through where the file exists, and
/// refuses it where it does not.
pub fn path_check(path: String, exists: bool) -> (r: Result<String, TtdError>)
    ensures
        match r {
            Ok(p) => exists && p@ == path@,
            Err(e) => !exists && e == TtdError::IoError,
        },
{
    if exists {
        Ok(path)
    } else {
        Err(TtdError::IoError)
    }
}

/// Recomputing derived statuses is idempotent: a second recomputation
/// against the same date changes nothing.
pub proof fn lemma_status_idempotent(ts: Seq<TaskView>, today: Today)
    ensures
        spec_refresh(spec_refresh(ts, today), today) == spec_refresh(ts, today),
{
    let once = spec_refresh(ts, today);
    assert forall|j: int| 0 <= j < once.len() implies spec_refresh(once, today)[j] == once[j] by {
        assert(once[j] == spec_refresh_task(ts[j], today));
    }
    assert(spec_refresh(once, today) =~= once);
}

/// A filter partitions the list completely: selected and retained
/// together hold exactly the original tasks, and no task is in both,
/// since one side matches the filter and the other does not.
pub proof fn lemma_partition_complete(ts: Seq<TaskView>, f: Filter)
    ensures
        ts.filter(filter_pred(f)).to_multiset().add(ts.filter(reject_pred(f)).to_multiset())
            == ts.to_multiset(),
        forall|j: int| 0 <= j < ts.filter(filter_pred(f)).len()
            ==> matches_filter(#[trigger] ts.filter(filter_pred(f))[j].content, f),
        forall|j: int| 0 <= j < ts.filter(reject_pred(f)).len()
            ==> !matches_filter(#[trigger] ts.filter(reject_pred(f))[j].content, f),
    decreases ts.len(),
{
    broadcast use vstd::seq_lib::group_seq_properties;

    reveal(Seq::filter);
    ts.to_multiset_ensures();
    let sel = ts.filter(filter_pred(f));
    let rej = ts.filter(reject_pred(f));
    assert forall|j: int| 0 <= j < sel.len() implies matches_filter(
        #[trigger] sel[j].content,
        f,
    ) by {
        Seq::lemma_filter_pred(ts, filter_pred(f), j);
    }
    assert forall|j: int| 0 <= j < rej.len() implies !matches_filter(
        #[trigger] rej[j].content,
        f,
    ) by {
        Seq::lemma_filter_pred(ts, reject_pred(f), j);
    }
    if ts.len() == 0 {
        assert(sel =~= ts);
        assert(rej =~= ts);
        assert(ts.to_multiset() =~= Multiset::<TaskView>::empty());
        assert(sel.to_multiset().add(rej.to_multiset()) =~= ts.to_multiset());
    } else {
        let s0 = ts.drop_last();
        let x = ts.last();
        lemma_partition_complete(s0, f);
        s0.to_multiset_ensures();
        assert(s0.push(x) =~= ts);
        assert(s0.push(x).to_multiset() =~= s0.to_multiset().insert(x));
        let sel0 = s0.filter(filter_pred(f));
        let rej0 = s0.filter(reject_pred(f));
        sel0.to_multiset_ensures();
        rej0.to_multiset_ensures();
        if filter_pred(f)(x) {
            assert(sel == sel0.push(x));
            assert(rej == rej0);
            assert(sel.to_multiset() =~= sel0.to_multiset().insert(x));
            assert(sel0.to_multiset().insert(x).add(rej0.to_multiset()) =~= sel0.to_multiset().add(
                rej0.to_multiset(),
            ).insert(x));
            assert(sel.to_multiset().add(rej.to_multiset()) =~= ts.to_multiset());
        } else {
            assert(sel == sel0);
            assert(rej == rej0.push(x));
            assert(rej.to_multiset() =~= rej0.to_multiset().insert(x));
            assert(sel0.to_multiset().add(rej0.to_multiset().insert(x)) =~= sel0.to_multiset().add(
                rej0.to_multiset(),
            ).insert(x));
            assert(sel.to_multiset().add(rej.to_multiset()) =~= ts.to_multiset());
        }
    }
}

} // verus!
