use rsrq::model::error::RsrqError;
use rsrq::model::job::key::JobKey;
use rsrq::model::job::rsrq_job::Job;
use rsrq::model::job::status::JobStatus;

fn commands(pipe: &redis::Pipeline) -> Vec<Vec<String>> {
    pipe.cmd_iter()
        .map(|c| {
            c.args_iter()
                .map(|a| match a {
                    redis::Arg::Simple(b) => String::from_utf8(b.to_vec()).unwrap(),
                    redis::Arg::Cursor => "<cursor>".to_string(),
                })
                .collect()
        })
        .collect()
}

fn is_atomic(pipe: &redis::Pipeline) -> bool {
    pipe.get_packed_pipeline().starts_with(b"*1\r\n$5\r\nMULTI\r\n")
}

fn items(job: &Job) -> Vec<(String, String)> {
    job.to_array().iter().map(|(k, v)| (k.to_string(), v.clone())).collect()
}

fn sample() -> Job {
    Job {
        key: Job::get_redis_key(42),
        id: 42,
        cmd: "sh -c 'exit 2'".to_string(),
        status: JobStatus::Failed,
        queue: "T".to_string(),
        created: 1700000000,
        started: Some(1700000001),
        finished: Some(1700000005),
        stdout: Some("out".to_string()),
        stderr: Some("err".to_string()),
        exit_code: Some(-2),
        duration_ms: Some(4321),
    }
}

#[test]
fn the_key_of_a_job_is_the_prefix_and_its_identifier() {
    assert_eq!(Job::get_redis_key(0), "rsrq:job:0");
    assert_eq!(Job::get_redis_key(17), "rsrq:job:17");
    assert_eq!(Job::get_redis_key(usize::MAX), format!("rsrq:job:{}", usize::MAX));
}

#[test]
fn the_fields_of_a_job_have_their_names() {
    let all = [
        (JobKey::Id, "id"),
        (JobKey::Cmd, "cmd"),
        (JobKey::Status, "status"),
        (JobKey::Queue, "queue"),
        (JobKey::Created, "created"),
        (JobKey::Started, "started"),
        (JobKey::Finished, "finished"),
        (JobKey::Stdout, "stdout"),
        (JobKey::Stderr, "stderr"),
        (JobKey::ExitCode, "exit_code"),
        (JobKey::DurationMs, "duration_ms"),
    ];
    for (key, name) in all {
        assert_eq!(key.to_string(), name);
        assert_eq!(JobKey::from_string(name).unwrap(), key);
    }
    assert!(matches!(
        JobKey::from_string("pid"),
        Err(RsrqError::ParserError(ref m)) if m == "pid"
    ));
}

#[test]
fn a_new_job_is_queued_and_everything_else_is_unset() {
    let job = Job::new("T", "echo hello", 7, 1700000000);
    assert_eq!(job.key, "rsrq:job:7");
    assert_eq!(job.id, 7);
    assert_eq!(job.cmd, "echo hello");
    assert_eq!(job.status, JobStatus::Queued);
    assert_eq!(job.queue, "T");
    assert_eq!(job.created, 1700000000);
    assert_eq!(job.started, None);
    assert_eq!(job.finished, None);
    assert_eq!(job.stdout, None);
    assert_eq!(job.stderr, None);
    assert_eq!(job.exit_code, None);
    assert_eq!(job.duration_ms, None);
}

#[test]
fn an_unset_value_is_written_as_the_empty_text() {
    let job = Job::new("T", "echo hello", 7, 1700000000);
    let expected: Vec<(String, String)> = [
        ("id", "7"),
        ("cmd", "echo hello"),
        ("status", "queued"),
        ("queue", "T"),
        ("created", "1700000000"),
        ("started", ""),
        ("finished", ""),
        ("stdout", ""),
        ("stderr", ""),
        ("exit_code", ""),
        ("duration_ms", ""),
    ]
    .iter()
    .map(|(k, v)| (k.to_string(), v.to_string()))
    .collect();
    assert_eq!(items(&job), expected);
    assert_eq!(job.to_items(), expected);
}

#[test]
fn every_value_of_a_job_is_written() {
    let expected: Vec<(String, String)> = [
        ("id", "42"),
        ("cmd", "sh -c 'exit 2'"),
        ("status", "failed"),
        ("queue", "T"),
        ("created", "1700000000"),
        ("started", "1700000001"),
        ("finished", "1700000005"),
        ("stdout", "out"),
        ("stderr", "err"),
        ("exit_code", "-2"),
        ("duration_ms", "4321"),
    ]
    .iter()
    .map(|(k, v)| (k.to_string(), v.to_string()))
    .collect();
    assert_eq!(items(&sample()), expected);
}

#[test]
fn a_job_is_read_back_as_it_was_written() {
    for job in [sample(), Job::new("T", "echo hello", 7, 1700000000)] {
        let loaded = Job::load(job.id, &items(&job)).unwrap();
        assert_eq!(loaded.key, job.key);
        assert_eq!(loaded.id, job.id);
        assert_eq!(loaded.cmd, job.cmd);
        assert_eq!(loaded.status, job.status);
        assert_eq!(loaded.queue, job.queue);
        assert_eq!(loaded.created, job.created);
        assert_eq!(loaded.started, job.started);
        assert_eq!(loaded.finished, job.finished);
        assert_eq!(loaded.stdout, job.stdout);
        assert_eq!(loaded.stderr, job.stderr);
        assert_eq!(loaded.exit_code, job.exit_code);
        assert_eq!(loaded.duration_ms, job.duration_ms);
    }
}

#[test]
fn the_first_field_that_fails_fails_the_load() {
    let with = |name: &str, value: Option<&str>| -> Result<Job, RsrqError> {
        let mut map = items(&sample());
        map.retain(|(k, _)| k != name);
        if let Some(v) = value {
            map.push((name.to_string(), v.to_string()));
        }
        Job::load(42, &map)
    };
    for name in ["id", "cmd", "status", "queue", "created"] {
        assert!(matches!(
            with(name, None),
            Err(RsrqError::ParserError(ref m)) if m == "Key not found."
        ));
    }
    for name in ["started", "finished", "stdout", "stderr", "exit_code", "duration_ms"] {
        assert!(with(name, None).is_ok());
        assert!(with(name, Some("")).is_ok());
    }
    assert!(matches!(with("id", Some("x")), Err(RsrqError::ParserError(ref m)) if m == "x"));
    assert!(matches!(
        with("status", Some("done")),
        Err(RsrqError::CmdParserError(ref m)) if m == "Invalid job status: done"
    ));
    assert!(matches!(with("created", Some("")), Err(RsrqError::ParserError(ref m)) if m == ""));
    assert!(matches!(with("started", Some("-1")), Err(RsrqError::ParserError(ref m)) if m == "-1"));
    assert!(matches!(
        with("exit_code", Some("4294967296")),
        Err(RsrqError::ParserError(ref m)) if m == "4294967296"
    ));
    assert!(matches!(
        Job::load(42, &vec![]),
        Err(RsrqError::ParserError(ref m)) if m == "Key not found."
    ));
    let mut both = items(&sample());
    both.retain(|(k, _)| k != "cmd" && k != "status");
    both.push(("status".to_string(), "done".to_string()));
    assert!(matches!(Job::load(42, &both), Err(RsrqError::ParserError(ref m)) if m == "Key not found."));
}

#[test]
fn a_job_is_loaded_under_the_key_that_was_asked_for() {
    let loaded = Job::load(9, &items(&sample())).unwrap();
    assert_eq!(loaded.key, "rsrq:job:9");
    assert_eq!(loaded.id, 42);
}

#[test]
fn a_job_is_created_by_one_atomic_pipeline() {
    let job = Job::new("T", "echo hello", 7, 1700000000);
    let pipe = job.creation_pipeline();
    assert!(is_atomic(&pipe));
    let cmds = commands(&pipe);
    assert_eq!(cmds.len(), 2);
    let mut hash = vec!["HMSET".to_string(), "rsrq:job:7".to_string()];
    for (k, v) in items(&job) {
        hash.push(k);
        hash.push(v);
    }
    assert_eq!(cmds[0], hash);
    assert_eq!(cmds[1], vec!["LPUSH", "rsrq:queued:T", "7"]);
}

#[test]
fn statuses_are_asked_for_in_the_order_of_the_jobs() {
    let mut pipe = redis::pipe();
    Job::get_status_many(&vec![3, 1, 2], &mut pipe);
    assert!(!is_atomic(&pipe));
    assert_eq!(
        commands(&pipe),
        vec![
            vec!["HGET", "rsrq:job:3", "status"],
            vec!["HGET", "rsrq:job:1", "status"],
            vec!["HGET", "rsrq:job:2", "status"],
        ]
    );
    let mut none = redis::pipe();
    Job::get_status_many(&vec![], &mut none);
    assert!(commands(&none).is_empty());
}

#[test]
fn the_replies_to_a_query_for_statuses_are_read_in_their_order() {
    let names = |v: &[&str]| -> Vec<String> { v.iter().map(|s| s.to_string()).collect() };
    assert_eq!(
        Job::statuses_from_replies(&names(&["running", "cancelled", "queued"])).unwrap(),
        vec![JobStatus::Running, JobStatus::Cancelled, JobStatus::Queued]
    );
    assert!(Job::statuses_from_replies(&vec![]).unwrap().is_empty());
    assert!(matches!(
        Job::statuses_from_replies(&names(&["running", "lost", "gone"])),
        Err(RsrqError::CmdParserError(ref m)) if m == "Invalid job status: lost"
    ));
}
