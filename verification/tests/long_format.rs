//! Tests for the long-format rendering.

use ls_willette::entry::LsFile;
use ls_willette::render::{decimal_string, format_long_line, render_files, render_long};
use ls_willette::Cli;

#[test]
fn decimal_rendering_is_exact() {
    assert_eq!(decimal_string(0), "0");
    assert_eq!(decimal_string(7), "7");
    assert_eq!(decimal_string(1234), "1234");
    assert_eq!(decimal_string(u64::MAX), "18446744073709551615");
}

#[test]
fn long_line_with_all_fields() {
    let file = LsFile {
        filename: String::from("a.txt"),
        privileges: Some(String::from("rw-r--r--")),
        last_edit_time: Some(String::from("01/01/2020 00:00:00")),
        size: Some(1234),
    };
    assert_eq!(format_long_line(&file), "rw-r--r-- a.txt 1234 01/01/2020 00:00:00");
}

#[test]
fn long_line_shows_placeholders_for_absent_fields() {
    let file = LsFile {
        filename: String::from("mystery"),
        privileges: None,
        last_edit_time: None,
        size: None,
    };
    assert_eq!(format_long_line(&file), "? mystery ? ?");
}

#[test]
fn render_files_long_mode_gives_one_line_per_entry() {
    let files = vec![
        LsFile {
            filename: String::from("a"),
            privileges: Some(String::from("rwxr-xr-x")),
            last_edit_time: None,
            size: Some(1),
        },
        LsFile {
            filename: String::from("b"),
            privileges: None,
            last_edit_time: None,
            size: None,
        },
    ];
    let cli = Cli { human_readable: false, long: true, filepath: String::from(".") };
    let rows = render_files(&files, &cli, Some(80));
    assert_eq!(rows, vec![String::from("rwxr-xr-x a 1 ?"), String::from("? b ? ?")]);
    assert_eq!(render_long(&files), rows);
}

#[test]
fn render_files_grid_mode_packs_names() {
    let files = vec![
        LsFile {
            filename: String::from("aa"),
            privileges: None,
            last_edit_time: None,
            size: None,
        },
        LsFile {
            filename: String::from("b"),
            privileges: None,
            last_edit_time: None,
            size: None,
        },
    ];
    let cli = Cli { human_readable: false, long: false, filepath: String::from(".") };
    let rows = render_files(&files, &cli, Some(12));
    assert_eq!(rows, vec![String::from("aa    b     ")]);
}
