//! Unit tests for the helpers: name extraction and ordering, hex colors,
//! gutter formatting, cursor arithmetic, and state defaults.

use std::cmp::Ordering;

use filetree::cursor::Cursor;
use filetree::file::{Devicon, File};
use filetree::folder::Folder;
use filetree::names::{compare_names, file_name_of};
use filetree::state::{Config, Mode, Screen};
use filetree::utils::{number_digits, whitespace_padding};

#[test]
fn file_names_come_from_the_last_component() {
    assert_eq!(file_name_of("/project/src/main.rs").as_str(), "main.rs");
    assert_eq!(file_name_of("plain").as_str(), "plain");
    assert_eq!(file_name_of("/project/src/").as_str(), "");
    assert_eq!(file_name_of("").as_str(), "");
}

#[test]
fn records_derive_their_names() {
    let folder = Folder::new("/project/src".to_string());
    assert_eq!(folder.name.as_str(), "src");
    let file = File::new("/project/a.txt".to_string());
    assert_eq!(file.name().as_str(), "a.txt");
    assert_eq!(file.path.as_str(), "/project/a.txt");
}

#[test]
fn compare_names_orders_by_final_component() {
    assert_eq!(compare_names("/d/a", "/d/b"), Ordering::Less);
    assert_eq!(compare_names("/d/b", "/d/a"), Ordering::Greater);
    // Only the raw names count, not the full paths.
    assert_eq!(compare_names("/x/abc", "/y/abc"), Ordering::Equal);
    // Codepoint order: uppercase sorts before lowercase.
    assert_eq!(compare_names("/d/C", "/d/a"), Ordering::Less);
    // A shorter name that is a prefix of a longer one sorts first.
    assert_eq!(compare_names("/d/ab", "/d/abc"), Ordering::Less);
}

#[test]
fn hex_colors_parse_exactly() {
    assert_eq!(
        Devicon::from_parts('*', "#FF0080").rgb,
        Some((0xFF, 0x00, 0x80))
    );
    assert_eq!(
        Devicon::from_parts('*', "#7e8ea8").rgb,
        Some((0x7E, 0x8E, 0xA8))
    );
    // Shorthand duplicates each digit.
    assert_eq!(
        Devicon::from_parts('*', "#abc").rgb,
        Some((0xAA, 0xBB, 0xCC))
    );
    // Alpha digits must be well-formed but are dropped.
    assert_eq!(
        Devicon::from_parts('*', "#0FFF").rgb,
        Some((0x00, 0xFF, 0xFF))
    );
    assert_eq!(
        Devicon::from_parts('*', "#F0FFFF80").rgb,
        Some((0xF0, 0xFF, 0xFF))
    );
    // Inside a two-digit channel the integer parser tolerates a leading plus.
    assert_eq!(
        Devicon::from_parts('*', "#+a0b0c").rgb,
        Some((0x0A, 0x0B, 0x0C))
    );
    // A plus may only lead a channel, never trail its first character.
    assert_eq!(Devicon::from_parts('*', "#0+abcd").rgb, None);
    assert_eq!(Devicon::from_parts('*', "").rgb, None);
    assert_eq!(Devicon::from_parts('*', "FF0080").rgb, None);
    assert_eq!(Devicon::from_parts('*', "#GG0000").rgb, None);
    assert_eq!(Devicon::from_parts('*', "#FF008").rgb, None);
    let icon = Devicon::from_parts('x', "#123456");
    assert_eq!(icon.glyph, 'x');
}

#[test]
fn number_digits_counts_decimal_digits() {
    assert_eq!(number_digits(0), 1);
    assert_eq!(number_digits(9), 1);
    assert_eq!(number_digits(10), 2);
    assert_eq!(number_digits(12345), 5);
}

#[test]
fn whitespace_padding_fills_to_width() {
    assert_eq!(whitespace_padding(7, 3).as_str(), "  ");
    assert_eq!(whitespace_padding(42, 2).as_str(), "");
    assert_eq!(whitespace_padding(12345, 3).as_str(), "");
    assert_eq!(whitespace_padding(0, 4).as_str(), "   ");
}

#[test]
fn cursor_moves_laterally() {
    let mut c = Cursor::default();
    // At the origin nothing moves.
    c.move_left(0);
    assert_eq!((c.x, c.y), (0, 0));
    // Within a line of last valid index 3.
    c.move_right(3, 1);
    c.move_right(3, 1);
    assert_eq!((c.x, c.y, c.preferred_x), (2, 0, 2));
    c.move_left(0);
    assert_eq!((c.x, c.y, c.preferred_x), (1, 0, 1));
    // At the line end with another line below, right wraps.
    let mut c = Cursor {
        x: 3,
        y: 0,
        preferred_x: 3,
    };
    c.move_right(3, 2);
    assert_eq!((c.x, c.y), (0, 1));
    // At the start of a line, left wraps to the previous line's end.
    c.move_left(3);
    assert_eq!((c.x, c.y, c.preferred_x), (3, 0, 3));
}

#[test]
fn cursor_keeps_preferred_column_vertically() {
    let mut c = Cursor {
        x: 7,
        y: 1,
        preferred_x: 7,
    };
    // The destination line is shorter: x clamps, the preference stays.
    c.move_up(4);
    assert_eq!((c.x, c.y, c.preferred_x), (4, 0, 7));
    // Moving back down to a long line restores the preferred column.
    c.move_down(9, 2);
    assert_eq!((c.x, c.y, c.preferred_x), (7, 1, 7));
    // At the last line, down does nothing.
    c.move_down(9, 2);
    assert_eq!((c.x, c.y), (7, 1));
}

#[test]
fn cursor_line_jumps_and_clicks() {
    let mut c = Cursor {
        x: 2,
        y: 3,
        preferred_x: 2,
    };
    c.move_line_end(8);
    assert_eq!((c.x, c.y, c.preferred_x), (8, 3, 8));
    c.move_line_start();
    assert_eq!((c.x, c.y, c.preferred_x), (0, 3, 0));
    // A click past the end of the buffer lands on the last line's end.
    c.set_position(99, 99, 5, 4);
    assert_eq!((c.x, c.y, c.preferred_x), (5, 3, 5));
    // A click inside the buffer clamps the column to the line.
    c.set_position(4, 1, 6, 4);
    assert_eq!((c.x, c.y, c.preferred_x), (4, 1, 4));
    assert_eq!(c.position(), (4, 1));
}

#[test]
fn state_defaults() {
    assert_eq!(Screen::default(), Screen::Alpha);
    assert_eq!(Mode::default(), Mode::Normal);
    assert_eq!(Config::default().cursor_margin_y, 5);
    assert_eq!(Cursor::default(), Cursor {
        x: 0,
        y: 0,
        preferred_x: 0
    });
}
