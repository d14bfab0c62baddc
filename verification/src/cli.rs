//! The decisions behind the questions that a terminal asks: the text of a
//! prompt, and what an answer means.

use crate::text::{eq_ignoring_case, same_ignoring_case, trim, trimmed};
use vstd::prelude::*;
use vstd::string::*;

verus! {

/// What follows from one line of input at a prompt.
#[derive(Debug, Clone, PartialEq, Eq)]
pub enum PromptStep {
    /// Nothing was entered and there is no default: the question is asked
    /// again.
    AskAgain,
    /// This value was entered and has to be repeated for confirmation.
    Confirm(String),
    /// This is the answer.
    Done(String),
}

/// The text of a prompt: the question, the default in square brackets if
/// there is one and it is to be shown, and the suffix.
pub open spec fn prompt_text(
    text: Seq<char>,
    suffix: Seq<char>,
    show_default: bool,
    default: Option<Seq<char>>,
) -> Seq<char> {
    match default {
        Some(value) => if show_default {
            text + " ["@ + value + "]"@ + suffix
        } else {
            text + suffix
        },
        None => text + suffix,
    }
}

/// What an answer to a yes-or-no question means: `y` and `yes` are yes, `n`
/// and `no` are no, in whatever case and with white space around them; an
/// empty answer is the default; anything else is no answer.
pub open spec fn yes_or_no(input: Seq<char>, default: bool) -> Option<bool> {
    let answer = trimmed(input);
    if same_ignoring_case(answer, "y"@) || same_ignoring_case(answer, "yes"@) {
        Some(true)
    } else if same_ignoring_case(answer, "n"@) || same_ignoring_case(answer, "no"@) {
        Some(false)
    } else if answer.len() == 0 {
        Some(default)
    } else {
        None
    }
}

/// Builds the text of a prompt.
pub fn build_prompt_text(text: &str, suffix: &str, show_default: bool, default: Option<&str>) -> (r:
    String)
    ensures
        r@ == prompt_text(
            text@,
            suffix@,
            show_default,
            match default {
                Some(value) => Some(value@),
                None => None,
            },
        ),
{
    let prompt_text = match default {
        Some(value) => {
            if show_default {
                String::from_str(text).concat(" [").concat(value).concat("]")
            } else {
                String::from_str(text)
            }
        },
        None => String::from_str(text),
    };
    prompt_text.concat(suffix)
}

/// Reads the answer to a yes-or-no question. `None` means that the question
/// has to be asked again.
pub fn confirm_answer(input: &str, default: bool) -> (r: Option<bool>)
    ensures
        r == yes_or_no(input@, default),
{
    let answer = trim(input);
    if eq_ignoring_case(answer.as_str(), "y") || eq_ignoring_case(answer.as_str(), "yes") {
        Some(true)
    } else if eq_ignoring_case(answer.as_str(), "n") || eq_ignoring_case(answer.as_str(), "no") {
        Some(false)
    } else if answer.as_str().is_empty() {
        Some(default)
    } else {
        None
    }
}

/// Decides what follows from one line of input at a prompt: an input that
/// is not empty is the answer, or has to be confirmed first; an empty one
/// gives the default, or the question again where there is none.
pub fn prompt_answer(input: &str, default: Option<&str>, confirmation: bool) -> (r: PromptStep)
    ensures
        r is AskAgain == (input@.len() == 0 && default is None),
        r is Confirm == (input@.len() > 0 && confirmation),
        r matches PromptStep::Confirm(value) ==> value@ == input@,
        r matches PromptStep::Done(value) ==> value@ == (if input@.len() > 0 {
            input@
        } else {
            default->0@
        }),
{
    if !input.is_empty() {
        if confirmation {
            PromptStep::Confirm(input.to_owned())
        } else {
            PromptStep::Done(input.to_owned())
        }
    } else {
        match default {
            Some(fallback) => PromptStep::Done(fallback.to_owned()),
            None => PromptStep::AskAgain,
        }
    }
}

/// Compares a repeated input with the first one. `None` means that nothing
/// was entered and the repetition has to be asked for again.
pub fn confirmation_matches(first: &str, repeated: &str) -> (r: Option<bool>)
    ensures
        r == (if repeated@.len() == 0 {
            None
        } else {
            Some(first@ == repeated@)
        }),
{
    if repeated.is_empty() {
        None
    } else {
        Some(String::from_str(first) == String::from_str(repeated))
    }
}

} // verus!
