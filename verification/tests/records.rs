use ttd::date::Date;
use ttd::error::TtdError;
use ttd::record::{decode_task, decode_tasks, encode_task, encode_tasks, ContentRecord, TaskRecord};
use ttd::task::{OnceDateStatus, Task, TaskType};

fn sample_tasks() -> Vec<Task> {
    vec![
        Task {
            id: 1,
            created_at: "2023-05-01 09:00:00".to_string(),
            content: TaskType::WeekTask { text: "walk".to_string(), weekday: 4, ongoing: true },
        },
        Task {
            id: 2,
            created_at: "2023-05-01 09:01:00".to_string(),
            content: TaskType::MonthTask { text: "rent".to_string(), day: 2, ongoing: false },
        },
        Task {
            id: 3,
            created_at: "2023-05-01 09:02:00".to_string(),
            content: TaskType::OnceTask {
                text: "dentist".to_string(),
                date: Date { year: 2023, month: 6, day: 1 },
                status: OnceDateStatus::Upcoming,
            },
        },
        Task {
            id: 4,
            created_at: "2023-05-01 09:03:00".to_string(),
            content: TaskType::ProgressTask {
                text: "book".to_string(),
                progress: "p.10".to_string(),
            },
        },
    ]
}

#[test]
fn records_hold_the_string_forms() {
    let rec = encode_task(sample_tasks().remove(0));
    match &rec.content {
        ContentRecord::WeekTask { weekday, .. } => assert_eq!(weekday, "Fri"),
        _ => panic!("wrong record variant"),
    }
    let rec = encode_task(sample_tasks().remove(2));
    match &rec.content {
        ContentRecord::OnceTask { date, .. } => assert_eq!(date, "20230601"),
        _ => panic!("wrong record variant"),
    }
}

#[test]
fn a_task_list_survives_the_record_round_trip() {
    let originals = sample_tasks();
    let records = encode_tasks(sample_tasks());
    let reloaded = decode_tasks(records).unwrap();
    assert_eq!(reloaded.len(), originals.len());
    for (a, b) in originals.iter().zip(reloaded.iter()) {
        assert_eq!(format!("{:?}", a), format!("{:?}", b));
    }
}

#[test]
fn unreadable_records_fail_the_decode() {
    let bad_weekday = TaskRecord {
        id: 1,
        created_at: "x".to_string(),
        content: ContentRecord::WeekTask {
            text: "t".to_string(),
            weekday: "Monday".to_string(),
            ongoing: false,
        },
    };
    assert!(matches!(decode_task(bad_weekday), Err(TtdError::DecodeError)));
    let bad_date = TaskRecord {
        id: 1,
        created_at: "x".to_string(),
        content: ContentRecord::OnceTask {
            text: "t".to_string(),
            date: "2023-06-01".to_string(),
            status: OnceDateStatus::Upcoming,
        },
    };
    assert!(matches!(decode_task(bad_date), Err(TtdError::DecodeError)));
    let bad_day = TaskRecord {
        id: 1,
        created_at: "x".to_string(),
        content: ContentRecord::MonthTask { text: "t".to_string(), day: 0, ongoing: false },
    };
    assert!(matches!(decode_task(bad_day), Err(TtdError::DecodeError)));
    let records = vec![encode_task(sample_tasks().remove(0)), TaskRecord {
        id: 2,
        created_at: "x".to_string(),
        content: ContentRecord::MonthTask { text: "t".to_string(), day: 99, ongoing: false },
    }];
    assert!(matches!(decode_tasks(records), Err(TtdError::DecodeError)));
}
