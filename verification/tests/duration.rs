use rsrq::command::worker::util::{
    duration_from_captures, get_max_runtime, parse_num_workers, parse_time_unit,
};
use rsrq::model::error::RsrqError;

#[test]
fn test_get_max_runtime() {
    fn h2s(hours: u64) -> u64 {
        hours * 60 * 60
    }

    fn m2s(minutes: u64) -> u64 {
        minutes * 60
    }

    assert_eq!(get_max_runtime("1h2m3s").unwrap(), h2s(1) + m2s(2) + 3);
    assert_eq!(get_max_runtime("10h20m30s").unwrap(), h2s(10) + m2s(20) + 30);
    assert_eq!(get_max_runtime("100h200m300s").unwrap(), h2s(100) + m2s(200) + 300);

    // Test only seconds
    assert_eq!(get_max_runtime("1s").unwrap(), h2s(0) + m2s(0) + 1);

    // Test only minutes
    assert_eq!(get_max_runtime("2m").unwrap(), h2s(0) + m2s(2) + 0);

    // Test only hours
    assert_eq!(get_max_runtime("1h").unwrap(), h2s(1) + m2s(0) + 0);

    // Test hours and minutes
    assert_eq!(get_max_runtime("1h2m").unwrap(), h2s(1) + m2s(2) + 0);

    // Test minutes and seconds
    assert_eq!(get_max_runtime("2m3s").unwrap(), h2s(0) + m2s(2) + 3);

    // Test hours and seconds
    assert_eq!(get_max_runtime("1h3s").unwrap(), h2s(1) + m2s(0) + 3);

    // Test hours, minutes, and seconds
    assert_eq!(get_max_runtime("1h2m3s").unwrap(), h2s(1) + m2s(2) + 3);

    // Test with leading zeros
    assert_eq!(get_max_runtime("01h02m03s").unwrap(), h2s(1) + m2s(2) + 3);

    // Test with different orders
    assert_eq!(get_max_runtime("2m1h").unwrap(), h2s(1) + m2s(2) + 0);
    assert_eq!(get_max_runtime("3s1h").unwrap(), h2s(1) + m2s(0) + 3);
    assert_eq!(get_max_runtime("3s2m").unwrap(), h2s(0) + m2s(2) + 3);

    // Test with invalid inputs
    assert!(get_max_runtime("1h2m3x").is_err());
    assert!(get_max_runtime("1j2k3l").is_err());
    assert!(get_max_runtime("").is_err());

    assert_eq!(get_max_runtime("1h2m3s").unwrap(), h2s(1) + m2s(2) + 3);
    assert_eq!(get_max_runtime("1h3s2m").unwrap(), h2s(1) + m2s(2) + 3);
    assert_eq!(get_max_runtime("2m1h3s").unwrap(), h2s(1) + m2s(2) + 3);
    assert_eq!(get_max_runtime("2m3s1h").unwrap(), h2s(1) + m2s(2) + 3);
    assert_eq!(get_max_runtime("2m3s1h").unwrap(), h2s(1) + m2s(2) + 3);

    assert_eq!(get_max_runtime("2m1h3s").unwrap(), h2s(1) + m2s(2) + 3);

    assert_eq!(get_max_runtime("2m3s").unwrap(), h2s(0) + m2s(2) + 3);
    assert_eq!(get_max_runtime("3s2m").unwrap(), h2s(0) + m2s(2) + 3);

    assert_eq!(get_max_runtime("1h2m").unwrap(), h2s(1) + m2s(2) + 0);
    assert_eq!(get_max_runtime("1h2s").unwrap(), h2s(1) + m2s(0) + 2);
    assert_eq!(get_max_runtime("1m2s").unwrap(), h2s(0) + m2s(1) + 2);

    assert_eq!(get_max_runtime("1s2m3h").unwrap(), h2s(3) + m2s(2) + 1);
    assert_eq!(get_max_runtime("2m3h").unwrap(), h2s(3) + m2s(2) + 0);
    assert_eq!(get_max_runtime("2m3h").unwrap(), h2s(3) + m2s(2) + 0);
}

#[test]
fn durations_of_the_examples() {
    assert_eq!(get_max_runtime("1h2m3s").unwrap(), 3723);
    assert_eq!(get_max_runtime("3s2m").unwrap(), 123);
    assert_eq!(get_max_runtime("3s1h").unwrap(), 3603);
    assert_eq!(get_max_runtime("01h02m03s").unwrap(), 3723);
    assert!(get_max_runtime("1h2m3x").is_err());
    assert!(get_max_runtime("").is_err());
}

#[test]
fn every_order_of_three_pairs_gives_the_same_duration() {
    let (x, y, z) = (7u64, 11u64, 13u64);
    let pairs = [format!("{}h", x), format!("{}m", y), format!("{}s", z)];
    let orders = [[0, 1, 2], [0, 2, 1], [1, 0, 2], [1, 2, 0], [2, 0, 1], [2, 1, 0]];
    for order in orders {
        let text: String = order.iter().map(|i| pairs[*i].as_str()).collect();
        assert_eq!(get_max_runtime(&text).unwrap(), 3600 * x + 60 * y + z, "{}", text);
    }
}

#[test]
fn pairs_may_repeat() {
    assert_eq!(get_max_runtime("1h1h").unwrap(), 7200);
    assert_eq!(get_max_runtime("0s").unwrap(), 0);
    assert_eq!(get_max_runtime("1s1m1h1s").unwrap(), 3662);
}

#[test]
fn text_that_belongs_to_no_pair_is_rejected() {
    for text in ["1hx", "1h 2m", "x1h", " 1h", "1h ", "1h2m3", "about 5s", "1h,2m", "1h2m3s\n", "-1h"] {
        let expected = format!("Invalid max duration provided: {}", text);
        assert!(
            matches!(get_max_runtime(text), Err(RsrqError::CmdParserError(ref m)) if *m == expected),
            "{:?}",
            text
        );
    }
}

#[test]
fn durations_without_a_valid_pair_are_rejected() {
    for text in ["", "h", "12", "1", "s1", "1x", "one hour", "1H", "٣h"] {
        let r = get_max_runtime(text);
        assert!(matches!(r, Err(RsrqError::CmdParserError(_))), "{:?}", text);
    }
    assert!(matches!(
        get_max_runtime(""),
        Err(RsrqError::CmdParserError(ref m)) if m == "Invalid max duration provided: "
    ));
    assert!(matches!(
        get_max_runtime("1x"),
        Err(RsrqError::CmdParserError(ref m)) if m == "Invalid time unit provided: x"
    ));
    assert!(matches!(
        get_max_runtime("12"),
        Err(RsrqError::CmdParserError(ref m)) if m == "Invalid time unit provided: 2"
    ));
    assert!(matches!(
        get_max_runtime("2m99999999999999999999h"),
        Err(RsrqError::CmdParserError(ref m)) if m == "Invalid number format: 99999999999999999999"
    ));
}

#[test]
fn durations_that_no_u64_holds_are_rejected() {
    assert_eq!(get_max_runtime("18446744073709551615s").unwrap(), u64::MAX);
    assert!(matches!(
        get_max_runtime("18446744073709551615s1s"),
        Err(RsrqError::CmdParserError(ref m)) if m == "Invalid max duration provided: 18446744073709551615s1s"
    ));
    assert!(matches!(
        get_max_runtime("18446744073709551615h"),
        Err(RsrqError::CmdParserError(ref m)) if m == "Invalid number format: 18446744073709551615"
    ));
    assert_eq!(get_max_runtime("5124095576030431h").unwrap(), 5124095576030431 * 3600);
    assert!(get_max_runtime("5124095576030432h").is_err());
}

#[test]
fn a_time_unit_is_an_hour_a_minute_or_a_second() {
    assert_eq!(parse_time_unit("h", "2").unwrap(), 7200);
    assert_eq!(parse_time_unit("m", "2").unwrap(), 120);
    assert_eq!(parse_time_unit("s", "2").unwrap(), 2);
    assert!(matches!(
        parse_time_unit("d", "2"),
        Err(RsrqError::CmdParserError(ref m)) if m == "Invalid time unit provided: d"
    ));
    assert!(matches!(
        parse_time_unit("d", "two"),
        Err(RsrqError::CmdParserError(ref m)) if m == "Invalid number format: two"
    ));
}

fn hit(num: &str, unit: &str) -> Vec<Option<String>> {
    vec![Some(format!("{}{}", num, unit)), Some(num.to_string()), Some(unit.to_string())]
}

#[test]
fn the_duration_is_the_sum_over_the_matches() {
    assert_eq!(duration_from_captures(&vec![hit("1", "h"), hit("2", "m"), hit("3", "s")], "1h2m3s").unwrap(), 3723);
    assert_eq!(duration_from_captures(&vec![hit("3", "s"), hit("1", "h")], "3s1h").unwrap(), 3603);
    for text in ["1h", "3s1hx", "x3s1h", "3s 1h", "", "1h3s"] {
        let expected = format!("Invalid max duration provided: {}", text);
        assert!(matches!(
            duration_from_captures(&vec![hit("3", "s"), hit("1", "h")], text),
            Err(RsrqError::CmdParserError(ref m)) if *m == expected
        ));
    }
    assert!(matches!(
        duration_from_captures(&vec![], "none"),
        Err(RsrqError::CmdParserError(ref m)) if m == "Invalid max duration provided: none"
    ));
    assert!(matches!(
        duration_from_captures(&vec![hit("1", "h"), vec![Some("2m".to_string())]], "odd"),
        Err(RsrqError::CmdParserError(ref m)) if m == "Invalid max duration provided: odd"
    ));
    assert!(matches!(
        duration_from_captures(&vec![vec![Some("2m".to_string()), None, Some("m".to_string())]], "2m"),
        Err(RsrqError::CmdParserError(ref m)) if m == "Invalid max duration provided: 2m"
    ));
    assert!(matches!(
        duration_from_captures(&vec![vec![Some("2m".to_string()), Some("2".to_string())]], "2m"),
        Err(RsrqError::CmdParserError(ref m)) if m == "Invalid max duration provided: 2m"
    ));
    assert!(matches!(
        duration_from_captures(&vec![vec![None, Some("2".to_string()), Some("m".to_string())]], "2m"),
        Err(RsrqError::CmdParserError(ref m)) if m == "Invalid max duration provided: 2m"
    ));
    assert!(matches!(
        duration_from_captures(&vec![hit("1", "x"), hit("y", "h")], "1xyh"),
        Err(RsrqError::CmdParserError(ref m)) if m == "Invalid time unit provided: x"
    ));
}

#[test]
fn workers_are_no_more_than_the_jobs_to_run() {
    assert_eq!(parse_num_workers(4, None), 4);
    assert_eq!(parse_num_workers(4, Some(2)), 2);
    assert_eq!(parse_num_workers(4, Some(4)), 4);
    assert_eq!(parse_num_workers(4, Some(10)), 4);
    assert_eq!(parse_num_workers(4, Some(0)), 0);
    assert_eq!(parse_num_workers(0, Some(3)), 0);
    assert_eq!(parse_num_workers(u16::MAX, Some(u32::MAX)), 65535);
}
