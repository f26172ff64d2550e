//! Questions that are answered at the terminal, a line at a time.
use vstd::prelude::*;

use crate::text::{
    decimal, decimal_of, join2, join3, lower_of, parse_usize, same_ignoring_case, trim, trim_of,
    unsigned_of,
};

verus! {

/// What is printed before a line is read: whole lines, and the words in front of the answer.
pub struct Question {
    pub lines: Vec<String>,
    pub prompt: String,
}

pub struct QuestionView {
    pub lines: Seq<Seq<char>>,
    pub prompt: Seq<char>,
}

impl DeepView for Question {
    type V = QuestionView;

    open spec fn deep_view(&self) -> QuestionView {
        QuestionView { lines: self.lines.deep_view(), prompt: self.prompt@ }
    }
}

/// Why a question cannot be asked where no one can answer.
pub open spec fn no_terminal_text(action: Seq<char>) -> Seq<char> {
    action
        + " requires an interactive terminal; provide explicit arguments and try again"@
}

/// Whether a question can be asked: the answer comes from a terminal, and a terminal shows the
/// question. Otherwise, why it cannot.
pub fn ensure_interactive_terminal(
    action: &str,
    input_is_terminal: bool,
    output_is_terminal: bool,
    error_is_terminal: bool,
) -> (r: Result<(), String>)
    ensures
        match r {
            Ok(()) => input_is_terminal && (output_is_terminal || error_is_terminal),
            Err(message) => !(input_is_terminal && (output_is_terminal || error_is_terminal))
                && message@ == no_terminal_text(action@),
        },
{
    if !input_is_terminal || (!output_is_terminal && !error_is_terminal) {
        Err(
            join2(
                action,
                " requires an interactive terminal; provide explicit arguments and try again",
            ),
        )
    } else {
        Ok(())
    }
}

// ---------------------------------------------------------------------------------------------
// One of several options
// ---------------------------------------------------------------------------------------------
/// The lines that list the options, with their numbers.
pub open spec fn option_lines(labels: Seq<Seq<char>>) -> Seq<Seq<char>>
    decreases labels.len(),
{
    if labels.len() == 0 {
        seq![]
    } else {
        option_lines(labels.drop_last()).push(
            "  "@ + decimal_of(labels.len()) + ". "@ + labels.last(),
        )
    }
}

/// The words in front of the answer.
pub open spec fn option_prompt(prompt: Seq<char>, count: nat) -> Seq<char> {
    prompt + " [1-"@ + decimal_of(count) + " or q]: "@
}

/// The words in front of the answer.
pub fn ask_option(prompt: &str, count: usize) -> (r: String)
    ensures
        r@ == option_prompt(prompt@, count as nat),
{
    join3(join2(prompt, " [1-").as_str(), decimal(count as u64).as_str(), " or q]: ")
}

/// The question for one of several options.
pub open spec fn option_question(
    title: Seq<char>,
    prompt: Seq<char>,
    labels: Seq<Seq<char>>,
) -> QuestionView {
    QuestionView {
        lines: seq![title] + option_lines(labels),
        prompt: option_prompt(prompt, labels.len()),
    }
}

/// The question for one of several options.
pub fn prompt_option(title: &str, prompt: &str, labels: &Vec<String>) -> (r: Question)
    ensures
        r.deep_view() == option_question(title@, prompt@, labels.deep_view()),
{
    let ghost all = labels.deep_view();
    let mut lines: Vec<String> = Vec::new();
    lines.push(title.to_owned());
    assert(lines.deep_view() == seq![title@] + option_lines(all.take(0)));
    let mut i: usize = 0;
    while i < labels.len()
        invariant
            i <= labels@.len(),
            all == labels.deep_view(),
            lines.deep_view() == seq![title@] + option_lines(all.take(i as int)),
        decreases labels@.len() - i,
    {
        let ghost before = lines.deep_view();
        assert(all.take(i + 1).drop_last() == all.take(i as int));
        assert(all[i as int] == labels@[i as int]@);
        let line = join3(
            join2("  ", decimal(i as u64 + 1).as_str()).as_str(),
            ". ",
            labels[i].as_str(),
        );
        let ghost l = line@;
        lines.push(line);
        assert(lines.deep_view() == before.push(l));
        assert(seq![title@] + option_lines(all.take(i + 1)) == (seq![title@] + option_lines(
            all.take(i as int),
        )).push(l));
        i = i + 1;
    }
    assert(all.take(all.len() as int) == all);
    Question { lines, prompt: ask_option(prompt, labels.len()) }
}

/// What an answer comes to: nothing yet, an end, an option, or no option.
pub enum OptionReply {
    Again,
    Cancel,
    Chosen(usize),
    Invalid,
}

/// Whether two texts are the same but for the case of their letters.
pub open spec fn same_folded(a: Seq<char>, b: Seq<char>) -> bool {
    lower_of(a) == lower_of(b)
}

/// Whether an answer calls the question off.
pub open spec fn cancels(answer: Seq<char>) -> bool {
    same_folded(answer, "q"@) || same_folded(answer, "quit"@) || same_folded(answer, "exit"@)
}

/// Whether an answer calls the question off.
pub fn is_cancel_input(answer: &str) -> (r: bool)
    ensures
        r == cancels(answer@),
{
    same_ignoring_case(answer, "q") || same_ignoring_case(answer, "quit") || same_ignoring_case(
        answer,
        "exit",
    )
}

/// Whether one of the keys of an option is the answer.
pub open spec fn answers_to(keys: Seq<Seq<char>>, answer: Seq<char>) -> bool {
    exists|k: int| 0 <= k < keys.len() && same_folded(#[trigger] keys[k], answer)
}

fn has_key(keys: &Vec<String>, answer: &str) -> (r: bool)
    ensures
        r == answers_to(keys.deep_view(), answer@),
{
    let ghost all = keys.deep_view();
    let mut i: usize = 0;
    while i < keys.len()
        invariant
            i <= keys@.len(),
            all == keys.deep_view(),
            forall|k: int| 0 <= k < i ==> !same_folded(#[trigger] all[k], answer@),
        decreases keys@.len() - i,
    {
        assert(all[i as int] == keys@[i as int]@);
        if same_ignoring_case(keys[i].as_str(), answer) {
            return true;
        }
        i = i + 1;
    }
    false
}

/// The first option from `i` on that has the answer as a key.
pub open spec fn option_named(keys: Seq<Seq<Seq<char>>>, answer: Seq<char>, i: int) -> Option<int>
    decreases keys.len() - i,
{
    if i < 0 || i >= keys.len() {
        None
    } else if answers_to(keys[i], answer) {
        Some(i)
    } else {
        option_named(keys, answer, i + 1)
    }
}

/// What a line comes to, as the answer to a question for one of several options. Options have their
/// number, from one on, and their keys; the end of the input and a few words call the question off.
pub open spec fn option_reply_to(keys: Seq<Seq<Seq<char>>>, line: Option<Seq<char>>) -> OptionReply {
    match line {
        None => OptionReply::Cancel,
        Some(line) => {
            let answer = trim_of(line);
            if answer.len() == 0 {
                OptionReply::Again
            } else if cancels(answer) {
                OptionReply::Cancel
            } else {
                match unsigned_of(answer, usize::MAX as nat) {
                    Some(n) => if 1 <= n <= keys.len() {
                        OptionReply::Chosen((n - 1) as usize)
                    } else {
                        named_reply(keys, answer)
                    },
                    None => named_reply(keys, answer),
                }
            }
        },
    }
}

pub open spec fn named_reply(keys: Seq<Seq<Seq<char>>>, answer: Seq<char>) -> OptionReply {
    match option_named(keys, answer, 0) {
        Some(i) => OptionReply::Chosen(i as usize),
        None => OptionReply::Invalid,
    }
}

fn reply_by_name(keys: &Vec<Vec<String>>, answer: &str) -> (r: OptionReply)
    ensures
        r == named_reply(keys.deep_view(), answer@),
        r matches OptionReply::Chosen(i) ==> i < keys@.len(),
{
    let ghost all = keys.deep_view();
    let mut i: usize = 0;
    while i < keys.len()
        invariant
            i <= keys@.len(),
            all == keys.deep_view(),
            option_named(all, answer@, 0) == option_named(all, answer@, i as int),
        decreases keys@.len() - i,
    {
        assert(all[i as int] == keys@[i as int].deep_view());
        if has_key(&keys[i], answer) {
            return OptionReply::Chosen(i);
        }
        i = i + 1;
    }
    OptionReply::Invalid
}

/// What a line comes to, as the answer to a question for one of several options.
pub fn option_reply(keys: &Vec<Vec<String>>, line: Option<&str>) -> (r: OptionReply)
    ensures
        r == option_reply_to(keys.deep_view(), line.deep_view()),
        r matches OptionReply::Chosen(i) ==> i < keys@.len(),
{
    match line {
        None => OptionReply::Cancel,
        Some(line) => {
            let answer = trim(line);
            if answer.as_str().is_empty() {
                OptionReply::Again
            } else if is_cancel_input(answer.as_str()) {
                OptionReply::Cancel
            } else {
                match parse_usize(answer.as_str()) {
                    Some(n) => if n >= 1 && n <= keys.len() {
                        OptionReply::Chosen(n - 1)
                    } else {
                        reply_by_name(keys, answer.as_str())
                    },
                    None => reply_by_name(keys, answer.as_str()),
                }
            }
        },
    }
}

// ---------------------------------------------------------------------------------------------
// Yes or no, and a text
// ---------------------------------------------------------------------------------------------
/// What an answer comes to: yes, no, or neither.
pub open spec fn confirmed_by(line: Option<Seq<char>>) -> Option<bool> {
    match line {
        None => Some(false),
        Some(line) => {
            let answer = trim_of(line);
            if answer.len() == 0 || same_folded(answer, "n"@) || same_folded(answer, "no"@) {
                Some(false)
            } else if same_folded(answer, "y"@) || same_folded(answer, "yes"@) {
                Some(true)
            } else {
                None
            }
        },
    }
}

/// What a line comes to, as the answer to a question for yes or no; no line is a no.
pub fn prompt_confirmation(line: Option<&str>) -> (r: Option<bool>)
    ensures
        r == confirmed_by(line.deep_view()),
{
    match line {
        None => Some(false),
        Some(line) => {
            let answer = trim(line);
            if answer.as_str().is_empty() || same_ignoring_case(answer.as_str(), "n")
                || same_ignoring_case(answer.as_str(), "no") {
                Some(false)
            } else if same_ignoring_case(answer.as_str(), "y") || same_ignoring_case(
                answer.as_str(),
                "yes",
            ) {
                Some(true)
            } else {
                None
            }
        },
    }
}

/// What an answer comes to: nothing yet, an end, or a text.
pub enum ValueReply {
    Empty,
    Cancel,
    Value(String),
}

/// What a line comes to, as the answer to a question for a text.
pub fn prompt_required_value(line: Option<&str>) -> (r: ValueReply)
    ensures
        match line.deep_view() {
            None => r is Cancel,
            Some(line) => if trim_of(line).len() == 0 {
                r is Empty
            } else if cancels(trim_of(line)) {
                r is Cancel
            } else {
                r matches ValueReply::Value(v) && v@ == trim_of(line)
            },
        },
{
    match line {
        None => ValueReply::Cancel,
        Some(line) => {
            let answer = trim(line);
            if answer.as_str().is_empty() {
                ValueReply::Empty
            } else if is_cancel_input(answer.as_str()) {
                ValueReply::Cancel
            } else {
                ValueReply::Value(answer)
            }
        },
    }
}

} // verus!
