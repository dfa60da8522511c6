use duration_table::infer::detect_duration_columns;
use duration_table::rewrite::convert_duration_columns;
use duration_table::table::RowData;

fn row(fields: &[&str]) -> RowData {
    RowData { fields: fields.iter().map(|s| s.to_string()).collect() }
}

fn column(values: &[&str]) -> Vec<RowData> {
    values.iter().map(|v| row(&[v])).collect()
}

#[test]
fn three_of_four_is_below_the_threshold() {
    let rows = column(&["1:00:00", "2:00:00", "3:00:00", "n/a"]);
    assert_eq!(detect_duration_columns(1, &rows), vec![false]);
}

#[test]
fn four_of_five_meets_the_threshold() {
    let rows = column(&["1:00:00", "2:00:00", "3:00:00", "4:00:00", "n/a"]);
    assert_eq!(detect_duration_columns(1, &rows), vec![true]);
}

#[test]
fn blank_fields_count_for_nothing() {
    let rows = column(&["1:00:00", "", "   ", "2:00:00", "\t", "3:00:00", "4:00:00", "n/a"]);
    assert_eq!(detect_duration_columns(1, &rows), vec![true]);
}

#[test]
fn a_column_of_blanks_is_no_duration_column() {
    let rows = column(&["", "  ", "\t"]);
    assert_eq!(detect_duration_columns(1, &rows), vec![false]);
    assert_eq!(detect_duration_columns(2, &[]), vec![false, false]);
    assert_eq!(detect_duration_columns(0, &rows), Vec::<bool>::new());
}

#[test]
fn short_rows_are_absent_in_the_columns_they_lack() {
    let rows = vec![row(&["a", "1:00:00"]), row(&["b"]), row(&["c", " 0:00:01 "]), row(&[])];
    assert_eq!(detect_duration_columns(3, &rows), vec![false, true, false]);
}

#[test]
fn rewrite_touches_marked_columns_only() {
    let rows = vec![row(&["1:00:00", "1:00:00", "x"]), row(&["0:00:01"]), row(&["n/a", " 2d 0:00:00.5 "])];
    let out = convert_duration_columns(rows, &[false, true]);
    assert_eq!(
        out,
        vec![row(&["1:00:00", "3600.000000", "x"]), row(&["0:00:01"]), row(&["n/a", "172800.500000"])]
    );
}

#[test]
fn rewrite_leaves_fields_that_state_no_duration() {
    let rows = vec![row(&["1:00:00", "n/a"]), row(&[" typo ", ""])];
    let out = convert_duration_columns(rows, &[true, true, true]);
    assert_eq!(out, vec![row(&["3600.000000", "n/a"]), row(&[" typo ", ""])]);
}

#[test]
fn second_run_changes_nothing() {
    let rows = vec![
        row(&["1", "1:00:00", "00:00:59"]),
        row(&["2", "2:00:00", "x"]),
        row(&["3", "3:00:00", "y"]),
        row(&["4", "4:00:00.123", "00:01:00"]),
        row(&["5", "oops", "00:02:00"]),
    ];
    let flags = detect_duration_columns(3, &rows);
    assert_eq!(flags, vec![false, true, false]);
    let once = convert_duration_columns(rows, &flags);
    assert_eq!(once[3], row(&["4", "14400.123000", "00:01:00"]));
    assert_eq!(once[4], row(&["5", "oops", "00:02:00"]));
    let again = detect_duration_columns(3, &once);
    assert_eq!(again, vec![false, false, false]);
    let twice = convert_duration_columns(once.clone(), &again);
    assert_eq!(twice, once);
    let same_flags = convert_duration_columns(once.clone(), &flags);
    assert_eq!(same_flags, once);
}

#[test]
fn id_and_elapsed_columns() {
    let rows = vec![row(&["1", "01:02:03"]), row(&["2", "00:00:00.250"])];
    let flags = detect_duration_columns(2, &rows);
    assert_eq!(flags, vec![false, true]);
    assert_eq!(
        convert_duration_columns(rows, &flags),
        vec![row(&["1", "3723.000000"]), row(&["2", "0.250000"])]
    );
}

#[test]
fn long_day_counts_are_durations_too() {
    let rows = column(&["99999999999999999999d 00:00:00", "213503982335d 00:00:00.000"]);
    let flags = detect_duration_columns(1, &rows);
    assert_eq!(flags, vec![true]);
    assert_eq!(
        convert_duration_columns(rows, &flags),
        column(&["8639999999999999999913600.000000", "18446744073744000.000000"])
    );
}
