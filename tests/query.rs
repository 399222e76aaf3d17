use market_api::query::{collect_pairs, parse_query};

#[test]
fn query_decodes_names_and_values() {
    assert_eq!(
        parse_query(b"a+b=c%20d&e"),
        vec![(b"a b".to_vec(), b"c d".to_vec()), (b"e".to_vec(), b"".to_vec())]
    );
}

#[test]
fn empty_query() {
    assert_eq!(parse_query(b""), vec![]);
}

#[test]
fn last_value_wins() {
    assert_eq!(
        parse_query(b"a=1&b=2&a=3"),
        vec![(b"a".to_vec(), b"3".to_vec()), (b"b".to_vec(), b"2".to_vec())]
    );
}

#[test]
fn collect_pairs_keeps_first_position() {
    let pairs = vec![
        (b"x".to_vec(), b"1".to_vec()),
        (b"y".to_vec(), b"2".to_vec()),
        (b"x".to_vec(), b"3".to_vec()),
        (b"z".to_vec(), b"4".to_vec()),
    ];
    assert_eq!(
        collect_pairs(pairs),
        vec![
            (b"x".to_vec(), b"3".to_vec()),
            (b"y".to_vec(), b"2".to_vec()),
            (b"z".to_vec(), b"4".to_vec()),
        ]
    );
}
