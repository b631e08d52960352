use rsrq::config::{Q_FAILED, Q_FINISHED, Q_QUEUED, Q_RUNNING};
use rsrq::model::error::RsrqError;
use rsrq::model::job::status::JobStatus;
use rsrq::model::queue::queue_type::QueueType;
use rsrq::model::queue::rsrq_queue::Queue;

fn commands(pipe: &redis::Pipeline) -> Vec<Vec<String>> {
    pipe.cmd_iter()
        .map(|c| {
            c.args_iter()
                .map(|a| match a {
                    redis::Arg::Simple(b) => String::from_utf8(b.to_vec()).unwrap(),
                    redis::Arg::Cursor => "<cursor>".to_string(),
                })
                .collect()
        })
        .collect()
}

#[test]
fn the_kinds_have_their_key_prefixes() {
    assert_eq!(QueueType::Queued.to_string(), "rsrq:queued");
    assert_eq!(QueueType::Running.to_string(), "rsrq:running");
    assert_eq!(QueueType::Finished.to_string(), "rsrq:finished");
    assert_eq!(QueueType::Failed.to_string(), "rsrq:failed");
    assert_eq!(Q_QUEUED, "rsrq:queued");
    assert_eq!(Q_RUNNING, "rsrq:running");
    assert_eq!(Q_FINISHED, "rsrq:finished");
    assert_eq!(Q_FAILED, "rsrq:failed");
}

#[test]
fn a_kind_is_found_again_from_its_prefix() {
    for t in QueueType::get_types() {
        assert_eq!(QueueType::from_string(t.to_string()).unwrap(), t);
    }
    assert!(matches!(
        QueueType::from_string("rsrq:waiting"),
        Err(RsrqError::ParserError(ref m)) if m == "Invalid queue type: rsrq:waiting"
    ));
    assert!(QueueType::from_string("queued").is_err());
    assert!(QueueType::from_string("").is_err());
}

#[test]
fn the_kinds_come_in_the_order_of_a_jobs_life() {
    assert_eq!(
        QueueType::get_types(),
        vec![QueueType::Queued, QueueType::Running, QueueType::Finished, QueueType::Failed]
    );
    assert!(QueueType::Queued.stores_list());
    assert!(QueueType::Running.stores_list());
    assert!(!QueueType::Finished.stores_list());
    assert!(!QueueType::Failed.stores_list());
}

#[test]
fn the_key_of_a_container_is_its_prefix_and_its_queue() {
    let q = Queue::new(QueueType::Queued, "T");
    assert_eq!(q.key, "rsrq:queued:T");
    assert_eq!(q.name, "T");
    assert_eq!(q.q_type, QueueType::Queued);
    assert_eq!(Queue::new(QueueType::Failed, "my queue").key, "rsrq:failed:my queue");
    assert_eq!(Queue::new(QueueType::Running, "").key, "rsrq:running:");
}

#[test]
fn reading_a_key_undoes_writing_it() {
    for t in QueueType::get_types() {
        for name in ["T", "default", "a-b_c", "ünï", "a:b", ":", "::a::", "rsrq:queued:T", " "] {
            let q = Queue::from_key(&Queue::new(t, name).key).unwrap();
            assert_eq!(q.q_type, t);
            assert_eq!(q.name, name);
            assert_eq!(q.key, Queue::new(t, name).key);
        }
    }
}

#[test]
fn a_key_that_names_no_container_is_rejected() {
    let reason = |key: &str| match Queue::from_key(key) {
        Err(RsrqError::ParserError(m)) => m,
        _ => panic!("{:?} was read as a key", key),
    };
    assert_eq!(reason(""), "Invalid prefix.");
    assert_eq!(reason("rq:queued:T"), "Invalid prefix.");
    assert_eq!(reason("rsrq"), "Invalid queue type.");
    assert_eq!(reason("rsrq::T"), "Invalid queue type.");
    assert_eq!(reason("rsrq:queued"), "Invalid queue name.");
    assert_eq!(reason("rsrq:queued:"), "Invalid queue name.");
    assert_eq!(reason("rsrq:job:7"), "Invalid queue type: rsrq:job");
    assert_eq!(reason("rsrq:uid:job"), "Invalid queue type: rsrq:uid");
}

#[test]
fn the_name_of_a_queue_is_all_that_follows_the_second_colon() {
    let q = Queue::from_key("rsrq:finished:a:b").unwrap();
    assert_eq!(q.q_type, QueueType::Finished);
    assert_eq!(q.name, "a:b");
    assert_eq!(q.key, "rsrq:finished:a:b");
    assert_eq!(Queue::from_key("rsrq:queued::").unwrap().name, ":");
}

#[test]
fn a_job_is_added_at_the_head_of_a_list_or_into_a_set() {
    let mut pipe = redis::pipe();
    Queue::new(QueueType::Queued, "T").pipe_add_job_id(5, &mut pipe);
    Queue::new(QueueType::Running, "T").pipe_add_job_id(6, &mut pipe);
    Queue::new(QueueType::Finished, "T").pipe_add_job_id(7, &mut pipe);
    Queue::new(QueueType::Failed, "T").pipe_add_job_id(8, &mut pipe);
    assert_eq!(
        commands(&pipe),
        vec![
            vec!["LPUSH", "rsrq:queued:T", "5"],
            vec!["LPUSH", "rsrq:running:T", "6"],
            vec!["SADD", "rsrq:finished:T", "7"],
            vec!["SADD", "rsrq:failed:T", "8"],
        ]
    );
}

#[test]
fn a_job_is_removed_once_from_a_list_or_from_a_set() {
    let mut pipe = redis::pipe();
    Queue::new(QueueType::Queued, "T").pipe_remove_job_id(5, &mut pipe);
    Queue::new(QueueType::Running, "T").pipe_remove_job_id(6, &mut pipe);
    Queue::new(QueueType::Finished, "T").pipe_remove_job_id(7, &mut pipe);
    Queue::new(QueueType::Failed, "T").pipe_remove_job_id(usize::MAX, &mut pipe);
    assert_eq!(
        commands(&pipe),
        vec![
            vec!["LREM".to_string(), "rsrq:queued:T".to_string(), "1".to_string(), "5".to_string()],
            vec!["LREM".to_string(), "rsrq:running:T".to_string(), "1".to_string(), "6".to_string()],
            vec!["SREM".to_string(), "rsrq:finished:T".to_string(), "7".to_string()],
            vec!["SREM".to_string(), "rsrq:failed:T".to_string(), usize::MAX.to_string()],
        ]
    );
}

#[test]
fn a_lease_moves_the_tail_of_the_queued_list_to_the_head_of_the_running_list() {
    let pipe = Queue::new(QueueType::Queued, "T").get_next_job_id().unwrap();
    assert!(!pipe.get_packed_pipeline().starts_with(b"*1\r\n$5\r\nMULTI\r\n"));
    assert_eq!(commands(&pipe), vec![vec!["LMOVE", "rsrq:queued:T", "rsrq:running:T", "RIGHT", "LEFT"]]);
}

#[test]
fn only_the_queued_list_is_leased_from() {
    for t in [QueueType::Running, QueueType::Finished, QueueType::Failed] {
        let expected = format!("Cannot get next job from queue type: {}", t.to_string());
        assert!(matches!(
            Queue::new(t, "T").get_next_job_id(),
            Err(RsrqError::ParserError(ref m)) if *m == expected
        ));
    }
}

#[test]
fn a_batch_holds_no_slot_for_an_empty_lease() {
    let failed = || Err(RsrqError::RedisOpError("timeout".to_string()));
    assert_eq!(Queue::get_n_next_job_ids(&vec![Ok(Some(3)), Ok(None), failed(), Ok(Some(1)), Ok(None)]), vec![3, 1]);
    assert!(Queue::get_n_next_job_ids(&vec![Ok(None), failed()]).is_empty());
    assert!(Queue::get_n_next_job_ids(&vec![]).is_empty());
}

#[test]
fn a_status_has_its_name_and_its_container() {
    let all = [
        (JobStatus::Queued, "queued", QueueType::Queued),
        (JobStatus::Running, "running", QueueType::Running),
        (JobStatus::Finished, "finished", QueueType::Finished),
        (JobStatus::Failed, "failed", QueueType::Failed),
        (JobStatus::Cancelled, "cancelled", QueueType::Failed),
    ];
    for (status, name, kind) in all {
        assert_eq!(status.to_string(), name);
        assert_eq!(JobStatus::from_string(name).unwrap(), status);
        assert_eq!(status.to_queue_type(), kind);
    }
    assert!(matches!(
        JobStatus::from_string("done"),
        Err(RsrqError::CmdParserError(ref m)) if m == "Invalid job status: done"
    ));
}
