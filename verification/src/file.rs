//! File records: a non-directory entry, its path, and the icon metadata
//! derived from the path when the record is constructed.

use vstd::prelude::*;
use vstd::string::StringExecFns;

use crate::names::spec_file_name;

verus! {

/// Whether `c` is a hexadecimal digit.
pub open spec fn is_hex_digit(c: char) -> bool {
    ('0' <= c && c <= '9') || ('a' <= c && c <= 'f') || ('A' <= c && c <= 'F')
}

/// Value of the hexadecimal digit `c`.
pub open spec fn hex_digit_val(c: char) -> int {
    if '0' <= c && c <= '9' {
        c as int - '0' as int
    } else if 'a' <= c && c <= 'f' {
        10 + (c as int - 'a' as int)
    } else {
        10 + (c as int - 'A' as int)
    }
}

/// All characters of `s` in `[from, to)` are hexadecimal digits.
pub open spec fn all_hex_digits(s: Seq<char>, from: int, to: int) -> bool {
    forall|j: int| from <= j < to ==> is_hex_digit(s[j])
}

/// A well-formed two-character channel of a full-length hex code, at `i`
/// and `i + 1`: two hexadecimal digits, or a `+` sign followed by one (the
/// integer parser the channels go through tolerates a leading plus).
pub open spec fn hex_pair_ok(s: Seq<char>, i: int) -> bool {
    (is_hex_digit(s[i]) || s[i] == '+') && is_hex_digit(s[i + 1])
}

/// The byte a well-formed two-character channel at `i` denotes.
pub open spec fn hex_pair_val(s: Seq<char>, i: int) -> u8 {
    if s[i] == '+' {
        hex_digit_val(s[i + 1]) as u8
    } else {
        (16 * hex_digit_val(s[i]) + hex_digit_val(s[i + 1])) as u8
    }
}

/// The byte written as the single, duplicated hexadecimal digit at `i`.
pub open spec fn hex_short_val(s: Seq<char>, i: int) -> u8 {
    (17 * hex_digit_val(s[i])) as u8
}

/// The red, green and blue channels denoted by an RGB(A) hex code: a `#`
/// followed by 3 or 4 hexadecimal digits, or by 3 or 4 two-character
/// channels, case-insensitively; alpha channels must be well-formed but are
/// dropped. Anything else denotes nothing.
pub open spec fn spec_hex_rgb(s: Seq<char>) -> Option<(u8, u8, u8)> {
    if s.len() == 0 || s[0] != '#' {
        None
    } else if (s.len() == 4 || s.len() == 5) && all_hex_digits(s, 1, s.len() as int) {
        Some((hex_short_val(s, 1), hex_short_val(s, 2), hex_short_val(s, 3)))
    } else if (s.len() == 7 || s.len() == 9) && hex_pair_ok(s, 1) && hex_pair_ok(s, 3)
        && hex_pair_ok(s, 5) && (s.len() == 7 || hex_pair_ok(s, 7)) {
        Some((hex_pair_val(s, 1), hex_pair_val(s, 3), hex_pair_val(s, 5)))
    } else {
        None
    }
}

/// Relies on `hex_color::HexColor::parse`: it accepts exactly the `#RGB`,
/// `#RGBA`, `#RRGGBB` and `#RRGGBBAA` forms, case-insensitively — with a
/// leading `+` tolerated inside a two-digit channel — and returns the
/// channel values those characters denote.
#[verifier::external_body]
fn parse_hex_rgb(s: &str) -> (r: Option<(u8, u8, u8)>)
    ensures
        r == spec_hex_rgb(s@),
{
    match hex_color::HexColor::parse(s) {
        Ok(c) => Some((c.r, c.g, c.b)),
        Err(_) => None,
    }
}

/// Relies on `devicons::FileIcon::from` to pick a glyph and a hex color
/// string for a path. The lookup may consult the filesystem (to detect
/// directories), so nothing is promised about the choice.
#[verifier::external_body]
fn lookup_file_icon(path: &str) -> (r: (char, String)) {
    let icon = devicons::FileIcon::from(path);
    (icon.icon, icon.color.to_string())
}

/// Presentation metadata for a file: an icon glyph and its color, if the
/// icon table supplied a well-formed hex code for it.
#[derive(Clone, Copy, PartialEq, Eq, Debug)]
pub struct Devicon {
    pub glyph: char,
    pub rgb: Option<(u8, u8, u8)>,
}

impl Devicon {
    /// Builds the icon for `path` from the icon table's choice of glyph and
    /// color.
    pub fn new(path: &str) -> (r: Devicon) {
        let (glyph, color) = lookup_file_icon(path);
        Devicon::from_parts(glyph, color.as_str())
    }

    /// Builds an icon from a glyph and a hex color code, keeping the color
    /// only if the code is well-formed.
    pub fn from_parts(glyph: char, color: &str) -> (r: Devicon)
        ensures
            r.glyph == glyph,
            r.rgb == spec_hex_rgb(color@),
    {
        Devicon { glyph, rgb: parse_hex_rgb(color) }
    }
}

/// Mathematical model of a [`File`] record.
#[verifier::ext_equal]
pub struct FileView {
    pub path: Seq<char>,
    pub icon: Devicon,
}

/// The models of a sequence of file records.
pub open spec fn file_views(s: Seq<File>) -> Seq<FileView> {
    Seq::new(s.len(), |i: int| s[i]@)
}

/// A non-directory entry: its path plus presentation metadata derived from
/// the path at construction time.
#[derive(Debug)]
pub struct File {
    pub path: String,
    pub icon: Devicon,
}

impl View for File {
    type V = FileView;

    open spec fn view(&self) -> FileView {
        FileView { path: self.path@, icon: self.icon }
    }
}

impl File {
    /// Creates the record for the entry at `path`, deriving its icon.
    pub fn new(path: String) -> (r: File)
        ensures
            r@.path == path@,
    {
        let icon = Devicon::new(path.as_str());
        File { path, icon }
    }

    /// The raw name of the file: the final component of its path.
    pub fn name(&self) -> (r: String)
        ensures
            r@ == spec_file_name(self@.path),
    {
        crate::names::file_name_of(self.path.as_str())
    }
}

} // verus!
