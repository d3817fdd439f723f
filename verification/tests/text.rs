use game_of_life::decimal::{append_decimal, append_signed_decimal, parse_usize};
use game_of_life::grid::initialize_grid;
use game_of_life::render::render_grid;
use game_of_life::validation::{validate_grid_size, MAX_GRID_SIZE, MIN_GRID_SIZE};

fn decimal(n: u64) -> String {
    let mut out = String::new();
    append_decimal(&mut out, n);
    out
}

fn signed_decimal(n: i64) -> String {
    let mut out = String::new();
    append_signed_decimal(&mut out, n);
    out
}

#[test]
fn grid_sizes_from_one_to_a_hundred_are_accepted() {
    assert_eq!((MIN_GRID_SIZE, MAX_GRID_SIZE), (1, 100));
    assert_eq!(validate_grid_size("1"), Ok(1));
    assert_eq!(validate_grid_size("30"), Ok(30));
    assert_eq!(validate_grid_size("100"), Ok(100));
    for size in 1..=100usize {
        assert_eq!(validate_grid_size(&format!("{}", size)), Ok(size));
    }
}

#[test]
fn grid_sizes_may_carry_a_plus_or_leading_zeros() {
    assert_eq!(validate_grid_size("+5"), Ok(5));
    assert_eq!(validate_grid_size("007"), Ok(7));
    assert_eq!(validate_grid_size("+0100"), Ok(100));
}

#[test]
fn grid_sizes_out_of_range_are_rejected() {
    assert_eq!(
        validate_grid_size("0"),
        Err(String::from("Grid size must be between 1 and 100, but got 0"))
    );
    assert_eq!(
        validate_grid_size("101"),
        Err(String::from("Grid size must be between 1 and 100, but got 101"))
    );
    assert_eq!(
        validate_grid_size("+000"),
        Err(String::from("Grid size must be between 1 and 100, but got 0"))
    );
    assert_eq!(
        validate_grid_size("4294967295"),
        Err(String::from("Grid size must be between 1 and 100, but got 4294967295"))
    );
}

#[test]
fn texts_that_are_no_numbers_are_rejected() {
    for text in ["", "abc", "-5", "+", "-", "+-5", "++5", " 5", "5 ", "1_0", "3.0", "0x10", "５", "1e2"] {
        assert_eq!(
            validate_grid_size(text),
            Err(format!("`{}` isn't a valid number", text))
        );
    }
}

#[test]
fn numbers_beyond_the_machine_word_are_no_numbers() {
    let text = "99999999999999999999999999999999999999999";
    assert_eq!(validate_grid_size(text), Err(format!("`{}` isn't a valid number", text)));
    assert_eq!(parse_usize(text), None);
}

#[test]
fn parsing_agrees_with_the_standard_library() {
    let longest = format!("{}", usize::MAX);
    let beyond = format!("{}0", usize::MAX);
    let texts = [
        "0", "1", "9", "10", "42", "+42", "0042", "+0", "-0", "", "+", " 1", "1 ", "12a", "a12",
        "1+2", "18446744073709551615", "18446744073709551616", "4294967295", "4294967296",
        "000000000000000000000000000000000000001", longest.as_str(), beyond.as_str(),
    ];
    for text in texts {
        assert_eq!(parse_usize(text), text.parse::<usize>().ok(), "{:?}", text);
    }
}

#[test]
fn decimal_notation_has_no_leading_zeros() {
    assert_eq!(decimal(0), "0");
    assert_eq!(decimal(9), "9");
    assert_eq!(decimal(10), "10");
    assert_eq!(decimal(12345), "12345");
    assert_eq!(decimal(1000000), "1000000");
    assert_eq!(decimal(u64::MAX), "18446744073709551615");
}

#[test]
fn decimal_notation_is_appended_to_what_is_there() {
    let mut out = String::from("n = ");
    append_decimal(&mut out, 42);
    append_signed_decimal(&mut out, -7);
    assert_eq!(out, "n = 42-7");
}

#[test]
fn negative_numbers_carry_a_minus() {
    assert_eq!(signed_decimal(0), "0");
    assert_eq!(signed_decimal(17), "17");
    assert_eq!(signed_decimal(-1), "-1");
    assert_eq!(signed_decimal(-2147483648), "-2147483648");
    assert_eq!(signed_decimal(i64::MAX), "9223372036854775807");
    assert_eq!(signed_decimal(i64::MIN), "-9223372036854775808");
}

#[test]
fn written_numbers_read_back() {
    for n in [0usize, 1, 9, 10, 99, 100, 101, 65535, usize::MAX] {
        assert_eq!(parse_usize(&decimal(n as u64)), Some(n));
    }
}

#[test]
fn grid_is_rendered_row_by_row() {
    let grid = vec![vec![true, false], vec![false, true]];
    assert_eq!(render_grid(&grid, 3), "# . \n. # \nIteration: 3\n");
}

#[test]
fn blinker_is_rendered_with_its_generation() {
    let grid = vec![
        vec![false, true, false],
        vec![false, true, false],
        vec![false, true, false],
    ];
    assert_eq!(render_grid(&grid, 120), ". # . \n. # . \n. # . \nIteration: 120\n");
}

#[test]
fn empty_grid_is_rendered_as_its_generation_line() {
    assert_eq!(render_grid(&initialize_grid(0), 0), "Iteration: 0\n");
}

#[test]
fn generation_numbers_are_rendered_in_full() {
    let grid = initialize_grid(1);
    assert_eq!(render_grid(&grid, i32::MAX), ". \nIteration: 2147483647\n");
    assert_eq!(render_grid(&grid, -12), ". \nIteration: -12\n");
    assert_eq!(render_grid(&grid, i32::MIN), ". \nIteration: -2147483648\n");
}

#[test]
fn ragged_rows_are_rendered_as_they_are() {
    let grid = vec![vec![true], vec![], vec![false, true, true]];
    assert_eq!(render_grid(&grid, 1), "# \n\n. # # \nIteration: 1\n");
}
