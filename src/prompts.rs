use vstd::prelude::*;
use crate::grub_config::{format_parameter, parameter_parts, parameter_text, split_parameter};
use crate::path::{parse_index, parse_index_range};
use crate::search::{lower_of, lowercase};
use crate::text::{chars_of, same_text, trim_text, trimmed};

verus! {

broadcast use vstd::string::group_string_axioms;

/// An answer to the parameter-list menu of the line-oriented editor.
#[derive(Debug, Clone, Copy, PartialEq, Eq, Structural)]
pub enum ListChoice {
    /// Edit the parameter at this (0-based) index.
    Edit(usize),
    Add,
    Delete,
    Save,
    Cancel,
    /// Anything else: ask again.
    Other,
}

/// The answer as the menu reads it: trimmed and lower-cased.
pub open spec fn answer_text(input: Seq<char>) -> Seq<char> {
    lower_of(trimmed(input))
}

/// What an answer selects in a menu over `len` parameters: a number from 1 to `len` edits
/// that parameter, `a` adds, `d` deletes (when there is something to delete), `s` saves,
/// `c` cancels.
pub open spec fn list_choice_of(input: Seq<char>, len: nat) -> ListChoice {
    let t = answer_text(input);
    match parse_index(t) {
        Some(k) => if 1 <= k <= len { ListChoice::Edit((k - 1) as usize) } else { ListChoice::Other },
        None => if t == seq!['a'] {
            ListChoice::Add
        } else if t == seq!['d'] && len > 0 {
            ListChoice::Delete
        } else if t == seq!['s'] {
            ListChoice::Save
        } else if t == seq!['c'] {
            ListChoice::Cancel
        } else {
            ListChoice::Other
        },
    }
}

/// An answer that confirms: `y`, `yes`, or nothing, in any case.
pub open spec fn confirms(input: Seq<char>) -> bool {
    let t = answer_text(input);
    t == seq!['y'] || t == seq!['y', 'e', 's'] || t.len() == 0
}

/// Reads an answer to the parameter-list menu.
pub fn list_menu_choice(input: &str, len: usize) -> (r: ListChoice)
    ensures
        r == list_choice_of(input@, len as nat),
{
    let t = trim_text(input);
    let low = lowercase(t.as_str());
    let cs = chars_of(low.as_str());
    assert(cs@.subrange(0, cs@.len() as int) =~= cs@);
    proof {
        reveal_strlit("a");
        reveal_strlit("d");
        reveal_strlit("s");
        reveal_strlit("c");
        assert("a"@ =~= seq!['a']);
        assert("d"@ =~= seq!['d']);
        assert("s"@ =~= seq!['s']);
        assert("c"@ =~= seq!['c']);
    }
    match parse_index_range(&cs, 0, cs.len()) {
        Some(k) => {
            if 1 <= k && k <= len {
                ListChoice::Edit(k - 1)
            } else {
                ListChoice::Other
            }
        },
        None => {
            if same_text(low.as_str(), "a") {
                ListChoice::Add
            } else if same_text(low.as_str(), "d") && len > 0 {
                ListChoice::Delete
            } else if same_text(low.as_str(), "s") {
                ListChoice::Save
            } else if same_text(low.as_str(), "c") {
                ListChoice::Cancel
            } else {
                ListChoice::Other
            }
        },
    }
}

/// Tells whether an answer confirms.
pub fn is_confirmation(input: &str) -> (r: bool)
    ensures
        r == confirms(input@),
{
    let t = trim_text(input);
    let low = lowercase(t.as_str());
    proof {
        reveal_strlit("y");
        reveal_strlit("yes");
        assert("y"@ =~= seq!['y']);
        assert("yes"@ =~= seq!['y', 'e', 's']);
    }
    same_text(low.as_str(), "y") || same_text(low.as_str(), "yes") || low.as_str().is_empty()
}

/// What an answer to "new value" does to a parameter.
pub enum ValueEdit {
    /// The parameter becomes this text.
    Replace(String),
    /// The answer was empty and the parameter has no value: ask for a new name.
    AskName,
    /// Nothing changes.
    Keep,
}

/// A non-empty answer sets the parameter's value (its name kept); an empty one asks for a
/// new name when the parameter is a bare flag, and keeps it otherwise.
pub fn value_edit(param: &str, answer: &str) -> (r: ValueEdit)
    ensures
        ({
            let t = trimmed(answer@);
            let (name, value) = parameter_parts(param@);
            if t.len() > 0 {
                r matches ValueEdit::Replace(p) && p@ == parameter_text(name, Some(t))
            } else if value is None {
                r is AskName
            } else {
                r is Keep
            }
        }),
{
    let t = trim_text(answer);
    let (name, value) = split_parameter(param);
    if !t.as_str().is_empty() {
        ValueEdit::Replace(format_parameter(name.as_str(), Some(t.as_str())))
    } else if value.is_none() {
        ValueEdit::AskName
    } else {
        ValueEdit::Keep
    }
}

/// A non-empty answer, trimmed.
pub fn nonempty_answer(answer: &str) -> (r: Option<String>)
    ensures
        trimmed(answer@).len() > 0 ==> (r matches Some(t) && t@ == trimmed(answer@)),
        trimmed(answer@).len() == 0 ==> r is None,
{
    let t = trim_text(answer);
    if t.as_str().is_empty() {
        None
    } else {
        Some(t)
    }
}

/// The parameter added from a name and a value answer: the bare name when the value is
/// empty, else `name=value`.
pub fn new_parameter(name: &str, value_answer: &str) -> (r: String)
    ensures
        r@ == (if trimmed(value_answer@).len() == 0 { name@ } else { parameter_text(name@, Some(trimmed(value_answer@))) }),
{
    let v = trim_text(value_answer);
    if v.as_str().is_empty() {
        format_parameter(name, None)
    } else {
        format_parameter(name, Some(v.as_str()))
    }
}

} // verus!
