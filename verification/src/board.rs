//! Board profiles.
//!
//! A profile states facts about one piece of hardware: how programs for it must be linked, which
//! memory they may occupy, and how its loader is reached. Reading the TOML text of a profile is
//! the application's part; what a profile must satisfy once read is decided here.

use vstd::prelude::*;

use crate::order::{sort_texts, text_order};
use crate::text::{
    comma_list, ends_with_chars, has_char, hex, join_names, push_hex, strings_view, text,
    text_ends_with, text_has_char,
};

verus! {

/// A half-open address range, `start..end`.
#[derive(Debug, Clone, Copy)]
pub struct Region {
    pub start: u64,
    pub end: u64,
}

impl Region {
    /// Whether `start..end` lies inside the region.
    pub fn contains_range(&self, start: u64, end: u64) -> (r: bool)
        ensures
            r == (self.start <= start && end <= self.end),
    {
        self.start <= start && end <= self.end
    }
}

/// How programs for the board are linked.
#[derive(Debug, Default)]
pub struct Link {
    /// Extra arguments for the linker, e.g. `--image-base=0x0`.
    pub args: Vec<String>,
}

/// The memory a program may occupy.
#[derive(Debug)]
pub struct Memory {
    /// The range that a program's code and data, including zero-initialised data, must fit in.
    pub program: Region,
}

/// How the board's loader is reached.
#[derive(Debug)]
pub struct Loader {
    /// Serial speed of the board's loader.
    pub baud: u32,
    /// The largest payload, in bytes, that the loader accepts in one download.
    pub max_payload: Option<u64>,
}

/// The serial speed a profile gets when it names none.
pub open spec fn spec_default_baud() -> u32 {
    115_200
}

/// The serial speed a profile gets when it names none.
pub fn default_baud() -> (r: u32)
    ensures
        r == spec_default_baud(),
{
    115_200
}

impl Default for Loader {
    fn default() -> (r: Self)
        ensures
            r.baud == spec_default_baud(),
            r.max_payload is None,
    {
        Loader { baud: default_baud(), max_payload: None }
    }
}

/// A board profile.
#[derive(Debug)]
pub struct Board {
    /// Human-readable description, used in messages.
    pub name: String,
    pub link: Link,
    pub memory: Memory,
    pub loader: Loader,
}

/// The message for a profile whose program region is empty.
pub open spec fn empty_region_message(program: Region) -> Seq<char> {
    "memory.program is empty: start "@ + hex(program.start as nat) + " is not below end "@ + hex(
        program.end as nat,
    )
}

/// Whether a `--board` value names a profile file rather than a profile shipped with the SDK: it
/// ends in `.toml` or holds a path separator.
pub open spec fn names_a_file(value: Seq<char>) -> bool {
    ends_with_chars(value, ".toml"@) || has_char(value, '/') || has_char(value, '\\')
}

/// Whether a `--board` value names a profile file rather than a profile shipped with the SDK.
pub fn looks_like_path(value: &str) -> (r: bool)
    ensures
        r == names_a_file(value@),
{
    text_ends_with(value, ".toml") || text_has_char(value, '/') || text_has_char(value, '\\')
}

/// The message for a board that is neither a profile file nor shipped with the SDK: it lists
/// the shipped boards in order.
pub open spec fn unknown_board_text(value: Seq<char>, known: Seq<Seq<char>>) -> Seq<char> {
    "unknown board `"@ + value + "`; boards shipped with the SDK: "@ + if known.len() == 0 {
        "none"@
    } else {
        comma_list(known.sort_by(text_order()))
    }
}

/// The message for a board that is neither a profile file nor one of the profiles `known` to
/// be shipped with the SDK.
pub fn unknown_board_message(value: &str, known: &Vec<String>) -> (r: String)
    ensures
        r@ == unknown_board_text(value@, strings_view(known@)),
{
    let mut message = text("unknown board `");
    message.append(value);
    message.append("`; boards shipped with the SDK: ");
    if known.len() == 0 {
        message.append("none");
    } else {
        let sorted = sort_texts(known);
        let list = join_names(&sorted);
        message.append(list.as_str());
    }
    message
}

impl Board {
    /// Accepts a profile that has been read, or says why it cannot be used: its program region
    /// must not be empty.
    pub fn validate(self) -> (r: Result<Board, String>)
        ensures
            self.memory.program.start < self.memory.program.end ==> r == Ok::<Board, String>(self),
            self.memory.program.start >= self.memory.program.end ==> (r matches Err(e) && e@
                == empty_region_message(self.memory.program)),
    {
        let program = self.memory.program;
        if program.start >= program.end {
            let mut message = text("memory.program is empty: start ");
            push_hex(&mut message, program.start);
            message.append(" is not below end ");
            push_hex(&mut message, program.end);
            return Err(message);
        }
        Ok(self)
    }
}

} // verus!
