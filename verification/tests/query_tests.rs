use yt_raymarch_2d::query::{
    example_from_query, query_has_values, query_names_example, split_query_pairs,
};

fn owned(v: &[(&str, &str)]) -> Vec<(String, String)> {
    v.iter().map(|(k, x)| (k.to_string(), x.to_string())).collect()
}

#[test]
fn splits_pairs_in_order() {
    assert_eq!(
        split_query_pairs("?example=single-sdf-distance-as-circle&debug=1"),
        owned(&[("example", "single-sdf-distance-as-circle"), ("debug", "1")])
    );
}

#[test]
fn drops_every_leading_question_mark() {
    assert_eq!(split_query_pairs("???a=b"), owned(&[("a", "b")]));
    assert_eq!(split_query_pairs("a=b"), owned(&[("a", "b")]));
}

#[test]
fn question_mark_inside_is_kept() {
    assert_eq!(split_query_pairs("?a=?b&?c=d"), owned(&[("a", "?b"), ("?c", "d")]));
}

#[test]
fn value_stops_at_second_equals() {
    assert_eq!(split_query_pairs("?a=b=c"), owned(&[("a", "b")]));
    assert_eq!(split_query_pairs("?a=&=x"), owned(&[("a", ""), ("", "x")]));
}

#[test]
fn empty_query_has_a_piece_without_value() {
    assert!(!query_has_values(""));
    assert!(!query_has_values("?"));
    assert!(!query_names_example(""));
}

#[test]
fn piece_without_equals_is_refused() {
    assert!(!query_has_values("?a=1&flag"));
    assert!(!query_has_values("?a=1&"));
    assert!(!query_has_values("?a=1&&b=2"));
    assert!(query_has_values("?a=1&b="));
    assert!(!query_names_example("?example=a&b"));
}

#[test]
fn keeps_non_ascii_text() {
    assert_eq!(split_query_pairs("?ké=vä&x=ü"), owned(&[("ké", "vä"), ("x", "ü")]));
}

#[test]
fn finds_the_example_name() {
    assert!(query_names_example("?example=single-sdf-distance-as-gradient"));
    assert_eq!(
        example_from_query("?example=single-sdf-distance-as-gradient"),
        "single-sdf-distance-as-gradient".to_string()
    );
    assert_eq!(example_from_query("?x=1&example=abc&y=2"), "abc".to_string());
}

#[test]
fn last_example_pair_wins() {
    assert_eq!(example_from_query("?example=first&example=second"), "second".to_string());
    assert_eq!(
        example_from_query("?example=first&other=1&example=third&more=2"),
        "third".to_string()
    );
}

#[test]
fn no_example_key() {
    assert!(query_has_values("?x=1&examples=2"));
    assert!(!query_names_example("?x=1&examples=2"));
    assert!(!query_names_example("?Example=1"));
}
