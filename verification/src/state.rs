//! Small pieces of global editor state: the current screen, the editor
//! mode, and static configuration.

use vstd::prelude::*;

verus! {

/// Currently displayed screen.
#[derive(Clone, Copy, PartialEq, Eq, Structural, Debug)]
pub enum Screen {
    /// Home page.
    Alpha,
    /// Text editor.
    Editor,
}

impl Default for Screen {
    /// The home page is shown first.
    fn default() -> (r: Screen)
        ensures
            r == Screen::Alpha,
    {
        Screen::Alpha
    }
}

/// Editor mode.
#[derive(Clone, Copy, PartialEq, Eq, Structural, Debug)]
pub enum Mode {
    Normal,
    Insert,
    Visual,
    /// Command line widget open.
    Command,
}

impl Default for Mode {
    /// The editor starts in normal mode.
    fn default() -> (r: Mode)
        ensures
            r == Mode::Normal,
    {
        Mode::Normal
    }
}

/// Static editor configuration.
#[derive(Clone, Copy, PartialEq, Eq, Structural, Debug)]
pub struct Config {
    /// Minimum number of lines between the cursor and the top/bottom of the
    /// screen.
    pub cursor_margin_y: usize,
}

impl Default for Config {
    /// The default keeps five lines of context around the cursor.
    fn default() -> (r: Config)
        ensures
            r == (Config { cursor_margin_y: 5 }),
    {
        Config { cursor_margin_y: 5 }
    }
}

} // verus!
