use picker::highlight::highlight_runs;

#[test]
fn empty_row_has_no_runs() {
    let runs = highlight_runs(0, &vec![]);
    assert!(runs.is_empty());
}

#[test]
fn no_matches_is_one_plain_run() {
    let runs = highlight_runs(5, &vec![]);
    assert_eq!(runs, vec![(0, 5, false)]);
}

#[test]
fn adjacent_matches_coalesce_into_one_run() {
    // "abcdef" with b, c and f highlighted.
    let runs = highlight_runs(6, &vec![1, 2, 5]);
    assert_eq!(
        runs,
        vec![(0, 1, false), (1, 3, true), (3, 5, false), (5, 6, true)]
    );
}

#[test]
fn duplicate_and_unordered_indices_change_nothing() {
    let sorted = highlight_runs(6, &vec![1, 2, 5]);
    let shuffled = highlight_runs(6, &vec![5, 2, 1, 2, 2]);
    assert_eq!(sorted, shuffled);
}

#[test]
fn fully_highlighted_row_is_one_run() {
    let runs = highlight_runs(3, &vec![0, 1, 2]);
    assert_eq!(runs, vec![(0, 3, true)]);
}

#[test]
fn out_of_row_indices_are_ignored() {
    let runs = highlight_runs(3, &vec![7, 9]);
    assert_eq!(runs, vec![(0, 3, false)]);
}
