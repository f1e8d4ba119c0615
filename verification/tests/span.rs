use coherency::span::{calculate_span, Span};

#[test]
fn no_spans_give_none() {
    assert_eq!(calculate_span(&vec![]), None);
    assert_eq!(calculate_span(&vec![None, None]), None);
}

#[test]
fn one_span_gives_itself() {
    assert_eq!(calculate_span(&vec![None, Some(Span::new(3, 4, 9))]), Some(Span::new(3, 4, 9)));
}

#[test]
fn spans_are_joined_over_the_gaps() {
    let spans = vec![
        Some(Span::new(1, 5, 9)),
        None,
        Some(Span::new(1, 2, 7)),
        Some(Span::new(1, 8, 12)),
    ];
    assert_eq!(calculate_span(&spans), Some(Span::new(1, 2, 12)));
}

#[test]
fn the_first_span_gives_the_source() {
    let spans = vec![None, Some(Span::new(7, 10, 11)), Some(Span::new(8, 0, 3))];
    assert_eq!(calculate_span(&spans), Some(Span::new(7, 0, 11)));
}

#[test]
fn the_builtin_span_is_empty() {
    assert_eq!(Span::builtin(), Span::new(0, 0, 0));
}

#[test]
fn a_span_inside_another_changes_nothing() {
    let spans = vec![Some(Span::new(1, 0, 20)), Some(Span::new(1, 5, 9))];
    assert_eq!(calculate_span(&spans), Some(Span::new(1, 0, 20)));
}
