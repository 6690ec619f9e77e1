use job_similarity::summary::{power_law_input, summarize, PowerLawInput};

#[test]
fn empty_sample_has_no_summary() {
    assert!(summarize(&[]).is_none());
    assert!(matches!(power_law_input(&[]), PowerLawInput::NoPositiveValues));
}

#[test]
fn summary_of_a_sample() {
    let s = summarize(&[3, 0, 7, 2]).unwrap();
    assert_eq!(s.count, 4);
    assert_eq!(s.total, 12);
    assert_eq!(s.min, 0);
    assert_eq!(s.max, 7);
}

#[test]
fn summary_of_huge_values() {
    let s = summarize(&[usize::MAX, usize::MAX, 1]).unwrap();
    assert_eq!(s.total, 2 * (usize::MAX as u128) + 1);
    assert_eq!(s.min, 1);
    assert_eq!(s.max, usize::MAX);
}

#[test]
fn all_zero_sample_has_nothing_to_fit() {
    assert!(matches!(power_law_input(&[0, 0, 0]), PowerLawInput::NoPositiveValues));
    let s = summarize(&[0, 0, 0]).unwrap();
    assert_eq!((s.min, s.max, s.total), (0, 0, 0));
}

#[test]
fn single_positive_value_is_degenerate() {
    assert!(matches!(power_law_input(&[0, 5, 0]), PowerLawInput::SingleValue));
    assert!(matches!(power_law_input(&[1]), PowerLawInput::SingleValue));
}

#[test]
fn positive_values_keep_their_order() {
    match power_law_input(&[4, 0, 2, 9, 0, 3]) {
        PowerLawInput::Sample { values, x_min } => {
            assert_eq!(values, vec![4, 2, 9, 3]);
            assert_eq!(x_min, 2);
        }
        _ => panic!("expected a sample"),
    }
}
