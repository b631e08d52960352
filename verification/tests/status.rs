use rsrq::command::purge::all::purge_all;
use rsrq::command::purge::queue::{purge_queue, purge_target};
use rsrq::command::status::check_status::{
    check_status, get_queue_names, jobs_from_details, members_pipeline, pad_right, queues_of, str_lt,
    QueueInfo,
};
use rsrq::model::enqueue_file::EnqueueFile;
use rsrq::model::error::RsrqError;
use rsrq::model::job::status::JobStatus;
use rsrq::model::process::rsrq_process::Process;
use rsrq::model::process::rsrq_process_key::ProcessKey;
use rsrq::model::process::rsrq_process_state::ProcessState;
use rsrq::model::queue::queue_type::QueueType;
use rsrq::model::worker::key::WorkerKey;
use rsrq::model::worker::rsrq_worker::Worker;

fn commands(pipe: &redis::Pipeline) -> Vec<Vec<String>> {
    pipe.cmd_iter()
        .map(|c| {
            c.args_iter()
                .map(|a| match a {
                    redis::Arg::Simple(b) => String::from_utf8(b.to_vec()).unwrap(),
                    redis::Arg::Cursor => "<cursor>".to_string(),
                })
                .collect()
        })
        .collect()
}

fn is_atomic(pipe: &redis::Pipeline) -> bool {
    pipe.get_packed_pipeline().starts_with(b"*1\r\n$5\r\nMULTI\r\n")
}

#[test]
fn texts_are_ordered_as_strings_are() {
    let texts = ["", "a", "A", "ab", "b", "ba", "default", "T", "é", "z", "aa", "a b"];
    for a in texts {
        for b in texts {
            assert_eq!(str_lt(a, b), a < b, "{:?} {:?}", a, b);
        }
    }
}

#[test]
fn the_jobs_of_each_queue_are_counted_by_status() {
    let jobs: Vec<(JobStatus, String)> = [
        (JobStatus::Queued, "b"),
        (JobStatus::Finished, "a"),
        (JobStatus::Queued, "b"),
        (JobStatus::Cancelled, "c"),
        (JobStatus::Failed, "a"),
        (JobStatus::Running, "b"),
        (JobStatus::Finished, "a"),
    ]
    .iter()
    .map(|(s, q)| (*s, q.to_string()))
    .collect();
    let infos = check_status(&jobs);
    let found: Vec<(&str, [usize; 5])> = infos
        .iter()
        .map(|i| (i.name.as_str(), [i.n_queued, i.n_running, i.n_finished, i.n_failed, i.n_cancelled]))
        .collect();
    assert_eq!(
        found,
        vec![("a", [0, 0, 2, 1, 0]), ("b", [2, 1, 0, 0, 0]), ("c", [0, 0, 0, 0, 1])]
    );
    assert!(check_status(&vec![]).is_empty());
}

#[test]
fn the_report_of_a_queue() {
    let mut info = QueueInfo::new("T");
    assert_eq!(
        info.to_line(),
        "Queue: T          [Queued 0    ] [Running 0    ] [Finished 0    ] [Failed 0    ] [Cancelled 0    ]"
    );
    info.count(JobStatus::Queued);
    info.count(JobStatus::Queued);
    info.count(JobStatus::Running);
    info.n_finished = 123456;
    info.count(JobStatus::Failed);
    info.count(JobStatus::Cancelled);
    assert_eq!(
        info.to_line(),
        format!(
            "Queue: {:<10} [Queued {:<5}] [Running {:<5}] [Finished {:<5}] [Failed {:<5}] [Cancelled {:<5}]",
            "T", 2, 1, 123456, 1, 1
        )
    );
    assert_eq!(pad_right("a-long-queue-name", 10), "a-long-queue-name");
    assert_eq!(pad_right("é", 3), format!("{:<3}", "é"));
}

#[test]
fn the_containers_of_a_queue_and_of_a_scan() {
    let keys: Vec<String> = queues_of("T").iter().map(|q| q.key.clone()).collect();
    assert_eq!(keys, vec!["rsrq:queued:T", "rsrq:running:T", "rsrq:finished:T", "rsrq:failed:T"]);
    let scanned: Vec<String> = ["rsrq:job:1", "rsrq:failed:U", "rsrq:uid:job", "other", "rsrq:queued:T"]
        .iter()
        .map(|k| k.to_string())
        .collect();
    let queues = get_queue_names(&scanned);
    let found: Vec<(QueueType, &str)> = queues.iter().map(|q| (q.q_type, q.name.as_str())).collect();
    assert_eq!(found, vec![(QueueType::Failed, "U"), (QueueType::Queued, "T")]);
}

#[test]
fn the_jobs_of_a_container_are_read_whole() {
    let pipe = members_pipeline(&queues_of("T"));
    assert!(!is_atomic(&pipe));
    assert_eq!(
        commands(&pipe),
        vec![
            vec!["LRANGE", "rsrq:queued:T", "0", "-1"],
            vec!["LRANGE", "rsrq:running:T", "0", "-1"],
            vec!["SMEMBERS", "rsrq:finished:T"],
            vec!["SMEMBERS", "rsrq:failed:T"],
        ]
    );
}

#[test]
fn the_details_come_in_pairs() {
    let details: Vec<String> = ["queued", "T", "failed", "U"].iter().map(|s| s.to_string()).collect();
    assert_eq!(
        jobs_from_details(&details).unwrap(),
        vec![(JobStatus::Queued, "T".to_string()), (JobStatus::Failed, "U".to_string())]
    );
    let bad: Vec<String> = ["queued", "T", "lost", "U"].iter().map(|s| s.to_string()).collect();
    assert!(matches!(
        jobs_from_details(&bad),
        Err(RsrqError::CmdParserError(ref m)) if m == "Invalid job status: lost"
    ));
    assert!(jobs_from_details(&vec![]).unwrap().is_empty());
}

#[test]
fn purging_deletes_the_jobs_and_then_their_container() {
    assert_eq!(purge_target(&Some("T".to_string()), QueueType::Failed).key, "rsrq:failed:T");
    assert_eq!(purge_target(&None, QueueType::Queued).key, "rsrq:queued:*");
    let pipe = purge_queue(&vec![
        ("rsrq:failed:T".to_string(), vec![3, 1]),
        ("rsrq:failed:U".to_string(), vec![]),
    ]);
    assert!(is_atomic(&pipe));
    assert_eq!(
        commands(&pipe),
        vec![
            vec!["DEL", "rsrq:job:3"],
            vec!["DEL", "rsrq:job:1"],
            vec!["DEL", "rsrq:failed:T"],
            vec!["DEL", "rsrq:failed:U"],
        ]
    );
    assert!(is_atomic(&purge_queue(&vec![])));
    assert!(commands(&purge_queue(&vec![])).is_empty());
}

#[test]
fn purging_everything_deletes_every_key() {
    assert!(purge_all(&vec![]).is_none());
    let pipe = purge_all(&vec!["rsrq:job:1".to_string(), "rsrq:uid:job".to_string()]).unwrap();
    assert!(is_atomic(&pipe));
    assert_eq!(commands(&pipe), vec![vec!["DEL", "rsrq:job:1"], vec!["DEL", "rsrq:uid:job"]]);
}

#[test]
fn the_commands_of_a_file_are_its_lines() {
    for text in ["", "a", "a\n", "a\nb", "a\r\nb\r\n", "a\r", "\n", "\n\n", "a\n\nb\n", "\r\n", "a\rb\n", "echo 'x y'\nls\n"] {
        let expected: Vec<String> = text.lines().map(|l| l.to_string()).collect();
        assert_eq!(EnqueueFile::load(text).jobs, expected, "{:?}", text);
    }
}

#[test]
fn the_record_of_a_worker() {
    assert_eq!(Worker::get_key(5), "rsrq:worker:5");
    let mut worker = Worker::new(5, "node".to_string(), 4242, 1700000000, "T");
    assert_eq!(worker.key, "rsrq:worker:5");
    let written = |w: &Worker| -> Vec<(String, String)> {
        w.to_array().iter().map(|(k, v)| (k.to_string(), v.clone())).collect()
    };
    let expect = |pairs: &[(&str, &str)]| -> Vec<(String, String)> {
        pairs.iter().map(|(k, v)| (k.to_string(), v.to_string())).collect()
    };
    assert_eq!(
        written(&worker),
        expect(&[
            ("id", "5"),
            ("hostname", "node"),
            ("pid", "4242"),
            ("current_job", ""),
            ("current_job_start", ""),
            ("birth", "1700000000"),
            ("queue", "T"),
        ])
    );
    worker.current_job = Some(9);
    worker.current_job_start = Some(1700000003);
    assert_eq!(written(&worker)[3], ("current_job".to_string(), "9".to_string()));
    assert_eq!(written(&worker)[4], ("current_job_start".to_string(), "1700000003".to_string()));
    assert_eq!(WorkerKey::CurrentJobStart.to_string(), "current_job_start");
}

#[test]
fn the_record_of_a_process() {
    assert_eq!(Process::get_key(2), "rsrq:proc:2");
    let mut process = Process::new(2, "node".to_string(), 77, 1700000000, "T", 4, Some(3600), None, true, 250);
    let written: Vec<(String, String)> =
        process.to_array().iter().map(|(k, v)| (k.to_string(), v.clone())).collect();
    let expected: Vec<(String, String)> = [
        ("id", "2"),
        ("hostname", "node"),
        ("pid", "77"),
        ("birth", "1700000000"),
        ("last_heartbeat", "1700000000"),
        ("state", "idle"),
        ("num_running", "0"),
        ("queue", "T"),
        ("workers", "4"),
        ("max_duration_sec", "3600"),
        ("max_jobs", ""),
        ("burst", "true"),
        ("poll_ms", "250"),
    ]
    .iter()
    .map(|(k, v)| (k.to_string(), v.to_string()))
    .collect();
    assert_eq!(written, expected);
    for (name, _) in &expected {
        assert_eq!(ProcessKey::from_string(name).unwrap().to_string(), *name);
    }
    assert!(ProcessKey::from_string("cpu").is_err());

    let beat: Vec<(String, String)> =
        process.update_running(3, 1700000010).iter().map(|(k, v)| (k.to_string(), v.clone())).collect();
    assert_eq!(
        beat,
        vec![
            ("last_heartbeat".to_string(), "1700000010".to_string()),
            ("state".to_string(), "running".to_string()),
            ("num_running".to_string(), "3".to_string()),
        ]
    );
    assert_eq!(process.state, ProcessState::Running);
    process.update_running(0, 1700000020);
    assert_eq!(process.state, ProcessState::Idle);
    assert_eq!(process.last_heartbeat, 1700000020);
    assert_eq!(ProcessState::from_string("idle").unwrap(), ProcessState::Idle);
    assert_eq!(ProcessState::from_string("running").unwrap(), ProcessState::Running);
    assert!(matches!(ProcessState::from_string("busy"), Err(RsrqError::ParserError(ref m)) if m == "busy"));
}

#[test]
fn every_failure_has_its_line() {
    let text = |s: &str| s.to_string();
    let all = [
        (RsrqError::RedisConnError(text("refused")), "Redis connection error: refused"),
        (RsrqError::RedisOpError(text("timeout")), "Redis operation error: timeout"),
        (RsrqError::CmdParserError(text("bad")), "Command parser error: bad"),
        (RsrqError::EnvError(text("not present")), "Environment variable error: not present"),
        (RsrqError::JobNotFound(12), "Job not found: 12"),
        (RsrqError::SystemTimeError(text("early")), "System time error: early"),
        (RsrqError::ParserError(text("x")), "Parser error: x"),
        (RsrqError::SnakemakeInvalidJobScript(text("none")), "Snakemake invalid job script: none"),
        (RsrqError::InvalidJson(text("eof")), "Invalid JSON: eof"),
        (RsrqError::FileNotFound(text("gone")), "File not found: gone"),
        (RsrqError::FileReadError(text("torn")), "File read error: torn"),
        (RsrqError::IOError(text("broken pipe")), "IO error: broken pipe"),
        (RsrqError::GeneralError(text("other")), "General error: other"),
    ];
    for (error, line) in all {
        assert_eq!(error.to_string(), line);
    }
}
