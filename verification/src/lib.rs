//! Library for safely editing the launch arguments of a game inside two
//! foreign launcher configuration files: a JSON file owned by one launcher
//! and an indented, brace-delimited key/value text file ("VDF") owned by
//! another, one per user account.
//!
//! The pieces are: a launch-argument codec over whitespace-separated token
//! strings, a structural locator for nested blocks in the VDF text, a
//! transactional file patcher with bounded-diff verification, and a
//! reconciler that merges per-platform observations of the current state
//! into one aggregate value.

pub mod args;
pub mod backgrounds;
pub mod battle_net;
pub mod config;
pub mod diff;
pub mod locator;
pub mod patcher;
pub mod process;
pub mod reconcile;
pub mod steam;
pub mod text;
pub mod volume;

use vstd::prelude::*;

verus! {

/// A path separator, on either platform convention.
pub open spec fn is_sep_char(c: char) -> bool {
    c == '/' || c == '\\'
}

/// The path's length with trailing separators removed.
pub open spec fn trimmed_len(s: Seq<char>) -> int
    decreases s.len(),
{
    if s.len() == 0 {
        0
    } else if is_sep_char(s.last()) {
        trimmed_len(s.drop_last())
    } else {
        s.len() as int
    }
}

/// Start of the final path component ending at `e`: the position after
/// the last separator before `e`, or the path's start.
pub open spec fn comp_start(s: Seq<char>, e: int) -> int
    decreases e when 0 <= e <= s.len()
{
    if e <= 0 {
        0
    } else if is_sep_char(s[e - 1]) {
        e
    } else {
        comp_start(s, e - 1)
    }
}

/// The file name of a path: its final component, after dropping
/// trailing separators; nothing when the component is empty or names
/// the current or parent directory.
pub open spec fn spec_file_name(s: Seq<char>) -> Option<Seq<char>> {
    let e = trimmed_len(s);
    let st = comp_start(s, e);
    let comp = s.subrange(st, e);
    if comp.len() == 0 || comp == ".."@ || comp == "."@ {
        None
    } else {
        Some(comp)
    }
}

proof fn lemma_comp_start_eq(s: Seq<char>, e: int, st: int)
    requires
        0 <= st <= e <= s.len(),
        forall|k: int| st <= k < e ==> !is_sep_char(s[k]),
        st == 0 || is_sep_char(s[st - 1]),
    ensures
        comp_start(s, e) == st,
    decreases e - st,
{
    if st < e {
        lemma_comp_start_eq(s, e - 1, st);
    }
}

/// The final component of a path, for naming a file in a message.
pub fn get_file_name_from_path(path: &str) -> (r: Option<&str>)
    ensures
        match r {
            Some(v) => spec_file_name(path@) == Some(v@),
            None => spec_file_name(path@) is None,
        },
{
    let n = path.unicode_len();
    let mut e = n;
    while e > 0 && is_sep(path.get_char(e - 1))
        invariant
            0 <= e <= n,
            n == path@.len(),
            forall|k: int| e <= k < n ==> is_sep_char(path@[k]),
        decreases e,
    {
        e = e - 1;
    }
    proof {
        lemma_trimmed_eq(path@, e as int);
    }
    let mut st = e;
    while st > 0 && !is_sep(path.get_char(st - 1))
        invariant
            0 <= st <= e <= n,
            n == path@.len(),
            forall|k: int| st <= k < e ==> !is_sep_char(path@[k]),
        decreases st,
    {
        st = st - 1;
    }
    proof {
        lemma_comp_start_eq(path@, e as int, st as int);
    }
    let comp = path.substring_char(st, e);
    if comp.unicode_len() == 0 {
        return None;
    }
    if crate::text::str_equal(comp, "..") || crate::text::str_equal(comp, ".") {
        return None;
    }
    Some(comp)
}

/// A separator test usable from executable code.
fn is_sep(c: char) -> (r: bool)
    ensures
        r == is_sep_char(c),
{
    c == '/' || c == '\\'
}

proof fn lemma_trimmed_eq(s: Seq<char>, e: int)
    requires
        0 <= e <= s.len(),
        forall|k: int| e <= k < s.len() ==> is_sep_char(s[k]),
        e > 0 ==> !is_sep_char(s[e - 1]),
    ensures
        trimmed_len(s) == e,
    decreases s.len(),
{
    if s.len() > 0 && is_sep_char(s.last()) {
        assert(forall|k: int| 0 <= k < s.len() - 1 ==> s.drop_last()[k] == s[k]);
        lemma_trimmed_eq(s.drop_last(), e);
    }
}

/// Error type for every fallible operation of the library.
///
/// `Custom` carries a human-readable message naming the file or account
/// involved; `Io` marks a failure detected while reading or writing a file.
#[derive(Debug)]
pub enum Error {
    Custom(String),
    Io(String),
}

impl Error {
    /// The human-readable message carried by this error.
    pub fn message(&self) -> (r: &String)
        ensures
            r@ == self.message_spec(),
    {
        match self {
            Error::Custom(m) => m,
            Error::Io(m) => m,
        }
    }

    /// What `message` returns.
    pub open spec fn message_spec(&self) -> Seq<char> {
        match self {
            Error::Custom(m) => m@,
            Error::Io(m) => m@,
        }
    }
}

} // verus!
