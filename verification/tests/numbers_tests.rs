use fractured_json_rs::numbers::format_number_aligned;
use fractured_json_rs::{FracturedJsonOptions, NumberListAlignment};

fn with_alignment(alignment: NumberListAlignment) -> FracturedJsonOptions {
    FracturedJsonOptions { number_list_alignment: alignment, ..FracturedJsonOptions::default() }
}

#[test]
fn unaligned_numbers_are_unchanged() {
    let options = with_alignment(NumberListAlignment::Unaligned);
    assert_eq!(format_number_aligned("1.5", &options, &["1.5", "100.25"]), "1.5");
    assert_eq!(format_number_aligned("7", &options, &[]), "7");
}

#[test]
fn left_alignment_pads_on_the_right() {
    let options = with_alignment(NumberListAlignment::Left);
    let all = ["1", "10", "100", "1000"];
    assert_eq!(format_number_aligned("1", &options, &all), "1   ");
    assert_eq!(format_number_aligned("10", &options, &all), "10  ");
    assert_eq!(format_number_aligned("100", &options, &all), "100 ");
    assert_eq!(format_number_aligned("1000", &options, &all), "1000");
}

#[test]
fn left_alignment_never_shortens() {
    let options = with_alignment(NumberListAlignment::Left);
    assert_eq!(format_number_aligned("123456", &options, &["1", "22"]), "123456");
}

#[test]
fn left_alignment_without_siblings_is_unchanged() {
    let options = with_alignment(NumberListAlignment::Left);
    assert_eq!(format_number_aligned("42", &options, &[]), "42");
}

#[test]
fn decimal_alignment_lines_up_the_points() {
    let options = with_alignment(NumberListAlignment::Decimal);
    let all = ["1.5", "10.25", "100.125"];
    assert_eq!(format_number_aligned("1.5", &options, &all), "  1.5");
    assert_eq!(format_number_aligned("10.25", &options, &all), " 10.25");
    assert_eq!(format_number_aligned("100.125", &options, &all), "100.125");
}

#[test]
fn decimal_alignment_pads_whole_numbers_on_the_left() {
    let options = with_alignment(NumberListAlignment::Decimal);
    let all = ["7", "1234.5", "12"];
    assert_eq!(format_number_aligned("7", &options, &all), "   7");
    assert_eq!(format_number_aligned("12", &options, &all), "  12");
    assert_eq!(format_number_aligned("1234.5", &options, &all), "1234.5");
}

#[test]
fn decimal_alignment_leaves_several_points_alone() {
    let options = with_alignment(NumberListAlignment::Decimal);
    assert_eq!(format_number_aligned("1.2.3", &options, &["1.2.3", "1000"]), "1.2.3");
}

#[test]
fn decimal_alignment_with_bare_points() {
    let options = with_alignment(NumberListAlignment::Decimal);
    let all = [".5", "10", "5."];
    assert_eq!(format_number_aligned(".5", &options, &all), "  .5");
    assert_eq!(format_number_aligned("5.", &options, &all), " 5.");
    assert_eq!(format_number_aligned("10", &options, &all), "10");
}

#[test]
fn decimal_alignment_without_siblings_uses_the_own_length() {
    let options = with_alignment(NumberListAlignment::Decimal);
    assert_eq!(format_number_aligned("12.5", &options, &[]), "  12.5");
    assert_eq!(format_number_aligned("125", &options, &[]), "125");
}

#[test]
fn widths_count_bytes_and_padding_counts_characters() {
    let left = with_alignment(NumberListAlignment::Left);
    assert_eq!(format_number_aligned("é", &left, &["é", "ab"]), "é ");
    assert_eq!(format_number_aligned("é", &left, &["éé"]), "é   ");
}
