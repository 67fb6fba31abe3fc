//! Terminal color codes and status tags for user-facing output.

use vstd::prelude::*;

verus! {

/// Terminal color and formatting escape sequences.
pub struct Colors;

impl Colors {
    pub const RESET: &'static str = "\x1b[0m";

    pub const BOLD_GREEN: &'static str = "\x1b[1;32m";

    pub const BOLD_YELLOW: &'static str = "\x1b[1;33m";

    pub const BOLD_BLUE: &'static str = "\x1b[1;34m";
}

/// Status tags for output lines.
pub struct Tags;

impl Tags {
    pub fn ok() -> (r: String)
        ensures
            r@ == "\x1b[1;32m[OK]\x1b[0m"@,
    {
        String::from_str("\x1b[1;32m[OK]\x1b[0m")
    }

    pub fn warn() -> (r: String)
        ensures
            r@ == "\x1b[1;33m[WARN]\x1b[0m"@,
    {
        String::from_str("\x1b[1;33m[WARN]\x1b[0m")
    }

    pub fn skip() -> (r: String)
        ensures
            r@ == "\x1b[1;33m[SKIP]\x1b[0m"@,
    {
        String::from_str("\x1b[1;33m[SKIP]\x1b[0m")
    }

    pub fn detect() -> (r: String)
        ensures
            r@ == "\x1b[1;34m[DETECT]\x1b[0m"@,
    {
        String::from_str("\x1b[1;34m[DETECT]\x1b[0m")
    }

    pub fn interrupt() -> (r: String)
        ensures
            r@ == "\x1b[1;33m[INTERRUPT]\x1b[0m"@,
    {
        String::from_str("\x1b[1;33m[INTERRUPT]\x1b[0m")
    }

    pub fn upload() -> (r: String)
        ensures
            r@ == "\x1b[1;32m[UPLOAD]\x1b[0m"@,
    {
        String::from_str("\x1b[1;32m[UPLOAD]\x1b[0m")
    }

    pub fn download() -> (r: String)
        ensures
            r@ == "\x1b[1;34m[DOWNLOAD]\x1b[0m"@,
    {
        String::from_str("\x1b[1;34m[DOWNLOAD]\x1b[0m")
    }

    pub fn file() -> (r: &'static str)
        ensures
            r@ == "[FILE]"@,
    {
        "[FILE]"
    }

    pub fn folder() -> (r: &'static str)
        ensures
            r@ == "[FOLD]"@,
    {
        "[FOLD]"
    }

    pub fn clip() -> (r: &'static str)
        ensures
            r@ == "[CLIP]"@,
    {
        "[CLIP]"
    }

    pub fn text() -> (r: &'static str)
        ensures
            r@ == "[TEXT]"@,
    {
        "[TEXT]"
    }

    pub fn exec() -> (r: &'static str)
        ensures
            r@ == "[EXEC]"@,
    {
        "[EXEC]"
    }
}

} // verus!
