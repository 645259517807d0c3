use ttd::date::{Date, Today};
use ttd::error::TtdError;
use ttd::storage::{
    add_task, clear_tasks, id_reset, init, list_tasks_by_filter, parse_input, parse_task,
    path_check, remove_task_by_id, remove_tasks_by_filter, tasks_of_today, update_bookmark,
    Filter,
};
use ttd::task::{OnceDateStatus, Task, TaskType};

fn some_today() -> Today {
    Today { year: 2023, month: 5, day: 2, weekday: 1 }
}

fn week_task(id: usize, text: &str, weekday: u8, ongoing: bool) -> Task {
    Task {
        id,
        created_at: "2023-05-01 09:00:00".to_string(),
        content: TaskType::WeekTask { text: text.to_string(), weekday, ongoing },
    }
}

fn month_task(id: usize, text: &str, day: usize, ongoing: bool) -> Task {
    Task {
        id,
        created_at: "2023-05-01 09:00:00".to_string(),
        content: TaskType::MonthTask { text: text.to_string(), day, ongoing },
    }
}

fn once_task(id: usize, text: &str, date: Date, status: OnceDateStatus) -> Task {
    Task {
        id,
        created_at: "2023-05-01 09:00:00".to_string(),
        content: TaskType::OnceTask { text: text.to_string(), date, status },
    }
}

fn progress_task(id: usize, text: &str, progress: &str) -> Task {
    Task {
        id,
        created_at: "2023-05-01 09:00:00".to_string(),
        content: TaskType::ProgressTask {
            text: text.to_string(),
            progress: progress.to_string(),
        },
    }
}

fn text_of(t: &Task) -> &str {
    match &t.content {
        TaskType::WeekTask { text, .. } => text,
        TaskType::MonthTask { text, .. } => text,
        TaskType::OnceTask { text, .. } => text,
        TaskType::ProgressTask { text, .. } => text,
    }
}

#[test]
fn add_assigns_the_next_id() {
    let mut tasks: Vec<Task> = Vec::new();
    add_task(&mut tasks, week_task(0, "a", 0, false));
    add_task(&mut tasks, month_task(0, "b", 5, false));
    add_task(&mut tasks, progress_task(0, "c", "p.1"));
    assert_eq!(tasks.len(), 3);
    assert_eq!(tasks[0].id, 1);
    assert_eq!(tasks[1].id, 2);
    assert_eq!(tasks[2].id, 3);
}

#[test]
fn remove_by_id_resequences_the_survivors() {
    let mut tasks = vec![
        week_task(1, "first", 0, false),
        month_task(2, "second", 5, false),
        progress_task(3, "third", "p.1"),
    ];
    let removed = remove_task_by_id(&mut tasks, Some(2)).unwrap();
    assert_eq!(removed.id, 2);
    assert_eq!(text_of(&removed), "second");
    assert_eq!(tasks.len(), 2);
    assert_eq!(tasks[0].id, 1);
    assert_eq!(tasks[1].id, 2);
    assert_eq!(text_of(&tasks[0]), "first");
    assert_eq!(text_of(&tasks[1]), "third");
}

#[test]
fn remove_without_id_takes_the_last_task() {
    let mut tasks = vec![week_task(1, "a", 0, false), month_task(2, "b", 5, false)];
    let removed = remove_task_by_id(&mut tasks, None).unwrap();
    assert_eq!(text_of(&removed), "b");
    assert_eq!(tasks.len(), 1);
    assert_eq!(tasks[0].id, 1);
    assert_eq!(text_of(&tasks[0]), "a");
}

#[test]
fn remove_rejects_out_of_range_ids() {
    let mut tasks = vec![week_task(1, "a", 0, false)];
    assert!(matches!(remove_task_by_id(&mut tasks, Some(0)), Err(TtdError::IndexError)));
    assert!(matches!(remove_task_by_id(&mut tasks, Some(2)), Err(TtdError::IndexError)));
    assert_eq!(tasks.len(), 1);
    let mut empty: Vec<Task> = Vec::new();
    assert!(matches!(remove_task_by_id(&mut empty, None), Err(TtdError::EmptyListError)));
}

#[test]
fn clear_reports_how_many_were_dropped() {
    let mut tasks = vec![week_task(1, "a", 0, false), month_task(2, "b", 5, false)];
    assert_eq!(clear_tasks(&mut tasks), 2);
    assert!(tasks.is_empty());
    assert_eq!(clear_tasks(&mut tasks), 0);
}

#[test]
fn id_reset_renumbers_in_order() {
    let tasks = vec![week_task(7, "a", 0, false), month_task(9, "b", 5, false)];
    let reset = id_reset(tasks);
    assert_eq!(reset[0].id, 1);
    assert_eq!(reset[1].id, 2);
    assert_eq!(text_of(&reset[0]), "a");
    assert_eq!(text_of(&reset[1]), "b");
}

#[test]
fn update_bookmark_replaces_the_progress_text() {
    let mut tasks = vec![week_task(1, "a", 0, false), progress_task(2, "book", "p.10")];
    assert_eq!(update_bookmark(&mut tasks, 2, "p.50".to_string()), Ok(()));
    match &tasks[1].content {
        TaskType::ProgressTask { text, progress } => {
            assert_eq!(text, "book");
            assert_eq!(progress, "p.50");
        },
        _ => panic!("bookmark lost its variant"),
    }
    assert_eq!(tasks[1].id, 2);
}

#[test]
fn update_bookmark_refuses_other_variants() {
    let mut tasks = vec![week_task(1, "a", 0, false)];
    assert_eq!(
        update_bookmark(&mut tasks, 1, "p.50".to_string()),
        Err(TtdError::WrongVariantError)
    );
    match &tasks[0].content {
        TaskType::WeekTask { text, weekday, ongoing } => {
            assert_eq!(text, "a");
            assert_eq!(*weekday, 0);
            assert!(!*ongoing);
        },
        _ => panic!("task changed variant"),
    }
    assert_eq!(update_bookmark(&mut tasks, 0, "p".to_string()), Err(TtdError::IndexError));
    assert_eq!(update_bookmark(&mut tasks, 2, "p".to_string()), Err(TtdError::IndexError));
    assert_eq!(tasks.len(), 1);
}

#[test]
fn init_recomputes_every_derived_status() {
    let today = some_today();
    let tasks = vec![
        week_task(1, "on", 1, false),
        week_task(2, "off", 3, true),
        month_task(3, "due", 2, false),
        month_task(4, "later", 15, true),
        once_task(5, "past", Date { year: 2023, month: 4, day: 1 }, OnceDateStatus::Ongoing),
        once_task(6, "now", Date { year: 2023, month: 5, day: 2 }, OnceDateStatus::Expired),
        once_task(7, "soon", Date { year: 2023, month: 6, day: 1 }, OnceDateStatus::Ongoing),
        progress_task(8, "book", "p.10"),
    ];
    let refreshed = init(tasks, &today);
    let flags: Vec<bool> = refreshed[0..4]
        .iter()
        .map(|t| match &t.content {
            TaskType::WeekTask { ongoing, .. } => *ongoing,
            TaskType::MonthTask { ongoing, .. } => *ongoing,
            _ => unreachable!(),
        })
        .collect();
    assert_eq!(flags, vec![true, false, true, false]);
    let statuses: Vec<OnceDateStatus> = refreshed[4..7]
        .iter()
        .map(|t| match &t.content {
            TaskType::OnceTask { status, .. } => *status,
            _ => unreachable!(),
        })
        .collect();
    assert_eq!(
        statuses,
        vec![OnceDateStatus::Expired, OnceDateStatus::Ongoing, OnceDateStatus::Upcoming]
    );
    match &refreshed[7].content {
        TaskType::ProgressTask { progress, .. } => assert_eq!(progress, "p.10"),
        _ => panic!("bookmark was touched"),
    }
}

#[test]
fn init_is_idempotent_for_a_fixed_day() {
    let today = some_today();
    let tasks = vec![
        week_task(1, "w", 4, true),
        once_task(2, "o", Date { year: 2023, month: 1, day: 1 }, OnceDateStatus::Upcoming),
    ];
    let once = init(tasks.clone(), &today);
    let twice = init(once.clone(), &today);
    for (a, b) in once.iter().zip(twice.iter()) {
        assert_eq!(format!("{:?}", a), format!("{:?}", b));
    }
}

#[test]
fn list_by_filter_selects_without_mutating() {
    let store = vec![
        week_task(1, "w", 0, false),
        once_task(2, "o", Date { year: 2023, month: 1, day: 1 }, OnceDateStatus::Expired),
        progress_task(3, "p", "p.1"),
    ];
    let selected = list_tasks_by_filter(store.clone(), Filter::AllMonth);
    assert!(selected.is_empty());
    assert_eq!(store.len(), 3);
    let everything = list_tasks_by_filter(store.clone(), Filter::NoFilter);
    assert_eq!(everything.len(), 3);
    let expired = list_tasks_by_filter(store.clone(), Filter::ExpiredOnce);
    assert_eq!(expired.len(), 1);
    assert_eq!(text_of(&expired[0]), "o");
}

#[test]
fn remove_by_filter_partitions_and_resequences() {
    let store = vec![
        week_task(1, "w1", 0, false),
        month_task(2, "m1", 5, false),
        week_task(3, "w2", 2, true),
        once_task(4, "o1", Date { year: 2023, month: 1, day: 1 }, OnceDateStatus::Expired),
        once_task(5, "o2", Date { year: 2023, month: 9, day: 1 }, OnceDateStatus::Upcoming),
    ];
    let (retained, removed) = remove_tasks_by_filter(store, Filter::AllWeek);
    assert_eq!(removed.len(), 2);
    assert_eq!(text_of(&removed[0]), "w1");
    assert_eq!(text_of(&removed[1]), "w2");
    assert_eq!(retained.len(), 3);
    assert_eq!(
        retained.iter().map(|t| t.id).collect::<Vec<usize>>(),
        vec![1, 2, 3]
    );
    assert_eq!(text_of(&retained[0]), "m1");
    assert_eq!(text_of(&retained[1]), "o1");
    assert_eq!(text_of(&retained[2]), "o2");
}

#[test]
fn remove_by_filter_takes_only_expired_once_tasks() {
    let store = vec![
        once_task(1, "gone", Date { year: 2023, month: 1, day: 1 }, OnceDateStatus::Expired),
        once_task(2, "kept", Date { year: 2023, month: 9, day: 1 }, OnceDateStatus::Upcoming),
        week_task(3, "w", 0, false),
    ];
    let (retained, removed) = remove_tasks_by_filter(store, Filter::ExpiredOnce);
    assert_eq!(removed.len(), 1);
    assert_eq!(text_of(&removed[0]), "gone");
    assert_eq!(retained.len(), 2);
    assert_eq!(text_of(&retained[0]), "kept");
    assert_eq!(text_of(&retained[1]), "w");
}

#[test]
fn remove_under_no_filter_selects_everything() {
    let store = vec![week_task(1, "w", 0, false), month_task(2, "m", 5, false)];
    let (retained, removed) = remove_tasks_by_filter(store, Filter::NoFilter);
    assert!(retained.is_empty());
    assert_eq!(removed.len(), 2);
    assert_eq!(text_of(&removed[0]), "w");
    assert_eq!(text_of(&removed[1]), "m");
    let (retained, removed) = remove_tasks_by_filter(Vec::new(), Filter::NoFilter);
    assert!(retained.is_empty());
    assert!(removed.is_empty());
}

#[test]
fn filter_flags_resolve_in_order() {
    assert_eq!(Filter::from_flags(true, true, true, true, true), Filter::ExpiredOnce);
    assert_eq!(Filter::from_flags(false, true, false, false, false), Filter::AllOnce);
    assert_eq!(Filter::from_flags(false, false, true, false, false), Filter::AllMonth);
    assert_eq!(Filter::from_flags(false, false, false, true, false), Filter::AllWeek);
    assert_eq!(Filter::from_flags(false, false, false, false, true), Filter::AllProgress);
    assert_eq!(Filter::from_flags(false, false, false, false, false), Filter::NoFilter);
}

#[test]
fn tasks_of_today_keeps_only_what_is_on() {
    let store = vec![
        week_task(1, "on", 1, true),
        week_task(2, "off", 2, false),
        month_task(3, "due", 2, true),
        once_task(4, "now", Date { year: 2023, month: 5, day: 2 }, OnceDateStatus::Ongoing),
        once_task(5, "past", Date { year: 2023, month: 1, day: 1 }, OnceDateStatus::Expired),
        progress_task(6, "book", "p.1"),
    ];
    let today_list = tasks_of_today(store);
    assert_eq!(
        today_list.iter().map(text_of).collect::<Vec<&str>>(),
        vec!["on", "due", "now"]
    );
}

#[test]
fn parse_task_builds_each_variant() {
    let today = some_today();
    let t = parse_task("walk".to_string(), Some("tue".to_string()), None, None, None, &today)
        .unwrap();
    assert_eq!(t.id, 0);
    match &t.content {
        TaskType::WeekTask { text, weekday, ongoing } => {
            assert_eq!(text, "walk");
            assert_eq!(*weekday, 1);
            assert!(*ongoing);
        },
        _ => panic!("wrong variant"),
    }
    let t = parse_task("rent".to_string(), None, Some(2), None, None, &today).unwrap();
    match &t.content {
        TaskType::MonthTask { day, ongoing, .. } => {
            assert_eq!(*day, 2);
            assert!(*ongoing);
        },
        _ => panic!("wrong variant"),
    }
    let t = parse_task("dentist".to_string(), None, None, Some("20230601".to_string()), None, &today)
        .unwrap();
    match &t.content {
        TaskType::OnceTask { date, status, .. } => {
            assert_eq!(*date, Date { year: 2023, month: 6, day: 1 });
            assert_eq!(*status, OnceDateStatus::Upcoming);
        },
        _ => panic!("wrong variant"),
    }
    let t = parse_task("book".to_string(), None, None, None, Some("p.10".to_string()), &today)
        .unwrap();
    match &t.content {
        TaskType::ProgressTask { progress, .. } => assert_eq!(progress, "p.10"),
        _ => panic!("wrong variant"),
    }
}

#[test]
fn parse_task_builds_a_past_date_as_expired() {
    let today = some_today();
    let t = parse_task("late".to_string(), None, None, Some("20200101".to_string()), None, &today)
        .unwrap();
    match &t.content {
        TaskType::OnceTask { status, .. } => assert_eq!(*status, OnceDateStatus::Expired),
        _ => panic!("wrong variant"),
    }
}

#[test]
fn parse_task_prefers_the_weekday_selector() {
    let today = some_today();
    let t = parse_task(
        "both".to_string(),
        Some("fri".to_string()),
        Some(10),
        Some("20230601".to_string()),
        Some("p.1".to_string()),
        &today,
    )
    .unwrap();
    assert!(matches!(t.content, TaskType::WeekTask { .. }));
}

#[test]
fn parse_task_reports_each_validation_error() {
    let today = some_today();
    assert!(matches!(
        parse_task("x".to_string(), Some("noday".to_string()), None, None, None, &today),
        Err(TtdError::InvalidWeekday)
    ));
    assert!(matches!(
        parse_task("x".to_string(), None, Some(0), None, None, &today),
        Err(TtdError::InvalidDay)
    ));
    assert!(matches!(
        parse_task("x".to_string(), None, Some(32), None, None, &today),
        Err(TtdError::InvalidDay)
    ));
    assert!(matches!(
        parse_task("x".to_string(), None, None, Some("202301".to_string()), None, &today),
        Err(TtdError::InvalidDate)
    ));
    assert!(matches!(
        parse_task("x".to_string(), None, None, None, None, &today),
        Err(TtdError::MissingVariant)
    ));
}

#[test]
fn parse_input_reads_each_selector_word() {
    let today = some_today();
    let t = parse_input(("walk", "Mon"), "-w", &today).unwrap();
    assert!(matches!(t.content, TaskType::WeekTask { .. }));
    let t = parse_input(("rent", "15"), "-m", &today).unwrap();
    match &t.content {
        TaskType::MonthTask { day, .. } => assert_eq!(*day, 15),
        _ => panic!("wrong variant"),
    }
    let t = parse_input(("dentist", "20230601"), "-o", &today).unwrap();
    assert!(matches!(t.content, TaskType::OnceTask { .. }));
    let t = parse_input(("book", "p.10"), "-p", &today).unwrap();
    assert!(matches!(t.content, TaskType::ProgressTask { .. }));
    assert!(matches!(
        parse_input(("rent", "abc"), "-m", &today),
        Err(TtdError::InvalidDay)
    ));
    assert!(matches!(
        parse_input(("x", "y"), "-z", &today),
        Err(TtdError::MissingVariant)
    ));
}

#[test]
fn path_check_needs_an_existing_file() {
    assert_eq!(path_check("a/b".to_string(), true), Ok("a/b".to_string()));
    assert_eq!(path_check("a/b".to_string(), false), Err(TtdError::IoError));
}

#[test]
fn a_task_for_todays_weekday_is_ongoing_at_once() {
    let today = ttd::date::today();
    let name = ttd::date::weekday_name(today.weekday);
    let task = parse_task("now".to_string(), Some(name), None, None, None, &today).unwrap();
    match &task.content {
        TaskType::WeekTask { ongoing, .. } => assert!(*ongoing),
        _ => panic!("wrong variant"),
    }
    let mut store: Vec<Task> = Vec::new();
    add_task(&mut store, task);
    let reloaded = init(store, &today);
    match &reloaded[0].content {
        TaskType::WeekTask { ongoing, .. } => assert!(*ongoing),
        _ => panic!("wrong variant"),
    }
}
