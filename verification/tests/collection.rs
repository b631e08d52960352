use rsrq::util::collection::deduplicate;

#[test]
fn test_deduplicate() {
    assert_eq!(deduplicate(&[1, 2, 3]), [1, 2, 3]);
    assert_eq!(deduplicate(&[1, 2, 2, 3, 3]), [1, 2, 3]);
    assert_eq!(deduplicate(&[1, 1, 1, 1, 1]), [1]);

    let input: Vec<i32> = (1..=5000).chain(1..=5000).collect();
    let expected: Vec<i32> = (1..=5000).collect();
    assert_eq!(deduplicate(&input), expected);

    let empty: Vec<i32> = Vec::new();
    assert_eq!(deduplicate(&empty), empty);

    assert_eq!(deduplicate(&["a", "b", "c", "a", "b"]), ["a", "b", "c"]);
    assert_eq!(deduplicate(&["hello", "world", "hello"]), ["hello", "world"]);

    assert_eq!(deduplicate(&[1, 3, 2, 3, 4, 1]), [1, 3, 2, 4]);

    assert_eq!(deduplicate(&[3, 1, 2]), [3, 1, 2]);
}

#[test]
fn deduplicate_keeps_first_occurrences_and_the_same_members() {
    let input: Vec<usize> = vec![7, 7, 3, 9, 3, 7, 1, 9, 0];
    let output = deduplicate(&input);
    assert_eq!(output, vec![7, 3, 9, 1, 0]);
    for x in &input {
        assert!(output.contains(x));
    }
    for (i, x) in output.iter().enumerate() {
        assert!(input.contains(x));
        assert!(!output[..i].contains(x));
    }
    assert_eq!(output[0], input[0]);
    assert!(output.len() <= input.len());
    let firsts: Vec<usize> = output.iter().map(|x| input.iter().position(|y| y == x).unwrap()).collect();
    assert!(firsts.windows(2).all(|w| w[0] < w[1]));
}

#[test]
fn deduplicate_of_owned_strings() {
    let input = vec!["b".to_string(), "a".to_string(), "b".to_string()];
    assert_eq!(deduplicate(&input), vec!["b".to_string(), "a".to_string()]);
}
