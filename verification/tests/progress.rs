use rsrq::model::progress_bar::{
    format_avg_duration, format_ms_time_as_duration, format_remaining_secs_as_str, RsrqProgressBar,
};
use rsrq::model::worker::pool::WorkerPool;
use rsrq::util::system::get_hostname;
use rsrq::util::time::get_ms_since;

#[test]
fn seconds_are_shown_as_hours_minutes_and_seconds() {
    assert_eq!(format_remaining_secs_as_str(3723, 0), "01:02:03");
    assert_eq!(format_remaining_secs_as_str(3723, 3), "01:02:00");
    assert_eq!(format_remaining_secs_as_str(10, 10), "00:00:00");
    assert_eq!(format_remaining_secs_as_str(10, 11), "00:00:00");
    assert_eq!(format_remaining_secs_as_str(0, 0), "00:00:00");
    assert_eq!(format_remaining_secs_as_str(360000, 0), "100:00:00");
    assert_eq!(format_remaining_secs_as_str(u64::MAX, 0), "5124095576030431:00:15");
}

#[test]
fn milliseconds_are_shown_as_hours_minutes_and_seconds() {
    assert_eq!(format_ms_time_as_duration(0), "00:00:00");
    assert_eq!(format_ms_time_as_duration(999), "00:00:00");
    assert_eq!(format_ms_time_as_duration(1000), "00:00:01");
    assert_eq!(format_ms_time_as_duration(3723004), "01:02:03");
    assert_eq!(format_ms_time_as_duration(86400000), "24:00:00");
    assert_eq!(format_avg_duration(Some(61000)), "[avg. 00:01:01]");
    assert_eq!(format_avg_duration(None), "");
}

#[test]
fn the_time_between_two_readings() {
    assert_eq!(get_ms_since(100, 350), 250);
    assert_eq!(get_ms_since(100, 100), 0);
    assert_eq!(get_ms_since(350, 100), 0);
    assert_eq!(get_ms_since(0, u128::MAX), u128::MAX);
}

#[test]
fn the_average_is_that_of_the_jobs_that_have_ended() {
    let mut bar = RsrqProgressBar::new(2, None, None, 0);
    assert_eq!(bar.get_average_duration(), None);
    bar.track_job_start(1, 100);
    bar.track_job_start(2, 200);
    assert_eq!(bar.get_average_duration(), None);
    bar.track_job_end(1, 400);
    assert_eq!(bar.get_average_duration(), Some(300));
    bar.track_job_end(2, 301);
    assert_eq!(bar.get_average_duration(), Some(200));
    bar.track_job_end(2, 900);
    bar.track_job_end(7, 900);
    assert_eq!(bar.get_average_duration(), Some(200));
    bar.track_job_start(3, 1000);
    bar.track_job_start(3, 2000);
    bar.track_job_end(3, 2005);
    assert_eq!(bar.get_average_duration(), Some((300 + 101 + 5) / 3));
}

#[test]
fn durations_that_no_u128_holds_count_for_the_largest() {
    let mut bar = RsrqProgressBar::new(1, None, None, 0);
    bar.track_job_start(1, 0);
    bar.track_job_end(1, u128::MAX);
    bar.track_job_start(2, 0);
    bar.track_job_end(2, u128::MAX);
    assert_eq!(bar.get_average_duration(), Some(u128::MAX / 2));
    assert_eq!(bar.estimate_remaining_time(Some(u128::MAX), 3, 0), Some(u128::MAX));
}

#[test]
fn the_estimate_shares_the_work_that_is_left_among_the_workers() {
    let mut bar = RsrqProgressBar::new(2, None, None, 0);
    assert_eq!(bar.estimate_remaining_time(None, 5, 0), None);
    assert_eq!(bar.estimate_remaining_time(Some(1000), 0, 0), Some(0));
    assert_eq!(bar.estimate_remaining_time(Some(1000), 5, 0), Some(2500));
    bar.track_job_start(1, 0);
    bar.track_job_start(2, 500);
    assert_eq!(bar.estimate_remaining_time(Some(1000), 5, 600), Some((400 + 900 + 5000) / 2));
    assert_eq!(bar.estimate_remaining_time(Some(1000), 5, 1200), Some((0 + 300 + 5000) / 2));
    assert_eq!(bar.estimate_remaining_time(Some(1000), 0, 5000), Some(0));
    assert_eq!(RsrqProgressBar::new(0, None, None, 0).estimate_remaining_time(Some(1000), 5, 0), None);
}

#[test]
fn the_estimate_counts_no_more_jobs_than_may_still_be_started() {
    let mut bar = RsrqProgressBar::new(1, Some(3), None, 0);
    assert_eq!(bar.estimate_remaining_time(Some(1000), 10, 0), Some(3000));
    assert_eq!(bar.estimate_remaining_time(Some(1000), 2, 0), Some(2000));
    bar.track_job_start(1, 0);
    assert_eq!(bar.estimate_remaining_time(Some(1000), 10, 0), Some(1000 + 2000));
    bar.track_job_end(1, 1000);
    bar.track_job_start(2, 1000);
    bar.track_job_start(3, 1000);
    assert_eq!(bar.estimate_remaining_time(Some(1000), 10, 1000), Some(2000));
    bar.track_job_start(4, 1000);
    assert_eq!(bar.estimate_remaining_time(Some(1000), 10, 1000), Some(3000));
}

#[test]
fn the_estimate_is_no_more_than_what_is_left_until_the_deadline() {
    let bar = RsrqProgressBar::new(1, None, Some(10), 1000);
    assert_eq!(bar.estimate_remaining_time(Some(1000), 100, 1000), Some(10000));
    assert_eq!(bar.estimate_remaining_time(Some(1000), 100, 4000), Some(7000));
    assert_eq!(bar.estimate_remaining_time(Some(1000), 3, 4000), Some(3000));
    assert_eq!(bar.estimate_remaining_time(Some(1000), 100, 11000), Some(0));
    assert_eq!(bar.estimate_remaining_time(Some(1000), 100, 20000), Some(0));
}

#[test]
fn the_line_is_written_at_most_once_a_second() {
    let mut bar = RsrqProgressBar::new(1, None, None, 0);
    assert!(bar.allowed_to_check(0));
    assert!(bar.tick_waiting(0, None).is_some());
    assert!(!bar.allowed_to_check(0));
    assert!(!bar.allowed_to_check(1000));
    assert!(bar.allowed_to_check(1001));
    assert!(bar.tick_waiting(1000, None).is_none());
    assert!(bar.tick_running(1, 1, 1000, None).is_none());
    assert!(bar.tick_running(1, 1, 1001, None).is_some());
    assert!(!bar.allowed_to_check(2001));
    assert!(bar.allowed_to_check(2002));
}

#[test]
fn the_waiting_line() {
    let mut bar = RsrqProgressBar::new(1, None, None, 500);
    assert_eq!(bar.tick_waiting(62500, None).unwrap(), "\r[Elapsed: 00:01:02] - Waiting for new jobs...");
    let mut bar = RsrqProgressBar::new(1, None, Some(3723), 0);
    assert_eq!(
        bar.tick_waiting(5000, None).unwrap(),
        "\r[Elapsed: 00:00:05/01:02:03] - Waiting for new jobs..."
    );
}

#[test]
fn the_running_line() {
    let mut bar = RsrqProgressBar::new(2, None, None, 0);
    assert_eq!(
        bar.tick_running(3, 5, 0, None).unwrap(),
        "\r[Elapsed: 00:00:00] [Queued: 3] [Running: 5] [Completed: 0] "
    );
    let mut bar = RsrqProgressBar::new(2, Some(7), Some(60), 0);
    bar.track_job_start(1, 0);
    bar.track_job_end(1, 2000);
    bar.track_job_start(2, 2000);
    assert_eq!(
        bar.tick_running(4, 9, 3000, None).unwrap(),
        "\r[Elapsed: 00:00:03/00:01:00] [Queued: 4] [Running: 9] [Completed: 1/7] [avg. 00:00:02] [ETA: 00:00:04] "
    );
}

#[test]
fn a_line_is_filled_up_to_the_width_of_the_terminal() {
    let mut bar = RsrqProgressBar::new(1, None, None, 0);
    assert_eq!(bar.write("abc", 0, None), "abc");
    assert_eq!(bar.write("abc", 0, Some(6)), "abc   ");
    assert_eq!(bar.write("abc", 0, Some(3)), "abc");
    assert_eq!(bar.write("abc", 0, Some(2)), "abc");
    assert_eq!(bar.write("", 0, Some(0)), "");
    assert_eq!(bar.write("é", 0, Some(4)), "é  ");
    assert!(!bar.allowed_to_check(1000));
    let line = bar.tick_waiting(5000, Some(80)).unwrap();
    assert_eq!(line.len(), 80);
    assert!(line.starts_with("\r[Elapsed: 00:00:05] - Waiting for new jobs..."));
    assert!(line.ends_with(' '));
    assert_eq!(bar.finish_and_clear(), "\r");
}

#[test]
fn a_new_pool_shows_what_is_queued() {
    let (pool, line) = WorkerPool::new(1, "T", None, None, 2, 1000, false, 7, 0, None);
    assert_eq!(line.unwrap(), "\r[Elapsed: 00:00:00] [Queued: 7] [Running: 0] [Completed: 0] ");
    assert_eq!(pool.n_running(), 0);
    assert!(!pool.progress().allowed_to_check(1000));
    let (_, line) = WorkerPool::new(1, "T", Some(3), Some(90), 2, 1000, false, 7, 0, None);
    assert_eq!(
        line.unwrap(),
        "\r[Elapsed: 00:00:00/00:01:30] [Queued: 3] [Running: 0] [Completed: 0/3] "
    );
    let (_, line) = WorkerPool::new(1, "T", Some(3), None, 2, 1000, false, 0, 0, Some(70));
    assert_eq!(
        line.unwrap(),
        format!("{:<70}", "\r[Elapsed: 00:00:00] [Queued: 0] [Running: 0] [Completed: 0/3] ")
    );
}

#[test]
fn a_lease_round_shows_the_jobs_that_are_left() {
    let (mut pool, _) = WorkerPool::new(1, "T", None, None, 2, 1000, false, 3, 0, None);
    assert!(pool.maybe_start_new_jobs(3, &vec![1, 2], 500, None).line.is_none());
    pool.remove_job(1);
    assert_eq!(
        pool.maybe_start_new_jobs(1, &vec![3], 1500, None).line.unwrap(),
        "\r[Elapsed: 00:00:01] [Queued: 1] [Running: 2] [Completed: 0] "
    );
    pool.remove_job(2);
    pool.remove_job(3);
    assert_eq!(
        pool.maybe_start_new_jobs(0, &vec![], 3000, None).line.unwrap(),
        "\r[Elapsed: 00:00:03] - Waiting for new jobs..."
    );
    let (mut burst, _) = WorkerPool::new(1, "T", None, None, 2, 1000, true, 0, 0, None);
    assert!(burst.maybe_start_new_jobs(0, &vec![], 3000, None).line.is_none());
}

#[test]
fn a_machine_without_a_name_is_recorded_as_not_available() {
    assert_eq!(get_hostname(Some("node-1".to_string())), "node-1");
    assert_eq!(get_hostname(None), "N/A");
}
