//! Tests for padding and the column layout.

use ls_willette::entry::LsFile;
use ls_willette::layout::{display_default, get_filename_display_with_padding, get_padding_length, layout};

fn plain_file(name: &str) -> LsFile {
    LsFile {
        filename: name.to_string(),
        privileges: None,
        last_edit_time: Some(String::from("01/01/2020 00:00:00")),
        size: None,
    }
}

#[test]
fn test_get_filename_display_with_padding() {
    let input = String::from("word");
    let input_padded = get_filename_display_with_padding(input, 10);
    assert_eq!("word      ", input_padded);

    let input = String::from("word");
    let input_padded = get_filename_display_with_padding(input, 2);
    assert_eq!("word", input_padded);
}

#[test]
fn test_display_default() {
    let input: Vec<LsFile> = vec![plain_file("Cargo.toml"), plain_file("example.toml")];
    let _ = display_default(&input, None);
}

#[test]
fn padding_is_longest_name_plus_four() {
    let files = vec![plain_file("a"), plain_file("example.toml"), plain_file("src")];
    assert_eq!(get_padding_length(&files), 16);
    let none: Vec<LsFile> = vec![];
    assert_eq!(get_padding_length(&none), 4);
}

#[test]
fn layout_two_names_one_row() {
    let names = vec![String::from("Cargo.toml"), String::from("example.toml")];
    let rows = layout(&names, 40);
    assert_eq!(rows, vec![String::from("Cargo.toml      example.toml    ")]);
    assert!(rows[0].chars().count() <= 40);
}

#[test]
fn layout_breaks_rows_at_width() {
    let names = vec![String::from("a"), String::from("bb"), String::from("c")];
    let rows = layout(&names, 12);
    assert_eq!(rows, vec![String::from("a     bb    "), String::from("c     ")]);
}

#[test]
fn layout_each_name_in_exactly_one_row_in_order() {
    let names = vec![
        String::from("one"),
        String::from("two"),
        String::from("three"),
        String::from("four"),
        String::from("five"),
    ];
    let rows = layout(&names, 20);
    let joined: String = rows.concat();
    let mut expected = String::new();
    for n in &names {
        expected.push_str(n);
        for _ in n.chars().count().."three".chars().count() + 4 {
            expected.push(' ');
        }
    }
    assert_eq!(joined, expected);
    for row in &rows {
        assert!(row.chars().count() <= 20);
    }
}

#[test]
fn layout_overwide_name_keeps_its_own_row() {
    let names = vec![String::from("tiny"), String::from("a-rather-long-name"), String::from("x")];
    let rows = layout(&names, 10);
    assert_eq!(
        rows,
        vec![
            format!("{:<22}", "tiny"),
            format!("{:<22}", "a-rather-long-name"),
            format!("{:<22}", "x"),
        ]
    );
    assert!(rows[1].chars().count() > 10);
}

#[test]
fn display_default_without_width_is_one_name_per_row() {
    let files = vec![plain_file("alpha"), plain_file("beta")];
    let rows = display_default(&files, None);
    assert_eq!(rows, vec![String::from("alpha    "), String::from("beta     ")]);
}

#[test]
fn display_default_empty_input_emits_final_row() {
    let files: Vec<LsFile> = vec![];
    let rows = display_default(&files, Some(10));
    assert_eq!(rows, vec![String::new()]);
}
