//! The interactive questions of the command-line programmer: their labels
//! and how an answer (a trimmed input line) is read.

use vstd::prelude::*;
use crate::text::{
    decimal, lower_seq, parse_u32, parse_unsigned, parse_usize, push_decimal, push_str, str_eq,
    to_ascii_lowercase, trim, trim_ws,
};

verus! {

/// The answer in an input line: the line without surrounding whitespace.
pub fn answer_text(line: &str) -> (r: String)
    ensures
        r@ == trim_ws(line@),
{
    trim(line).to_owned()
}

/// The label of a question with a default: `label [default]`.
pub open spec fn default_label(label: Seq<char>, default: Seq<char>) -> Seq<char> {
    label + " ["@ + default + "]"@
}

/// The label of a question with a default.
pub fn default_prompt_label(label: &str, default: &str) -> (r: String)
    ensures
        r@ == default_label(label@, default@),
{
    let mut s = String::new();
    push_str(&mut s, label);
    push_str(&mut s, " [");
    push_str(&mut s, default);
    push_str(&mut s, "]");
    s
}

/// The value of a question with a default: the answer, or the default when
/// the answer is empty.
pub fn prompt_default(answer: String, default: &str) -> (r: String)
    ensures
        r@ == if answer@.len() == 0 { default@ } else { answer@ },
{
    if answer.as_str().is_empty() {
        default.to_owned()
    } else {
        answer
    }
}

/// The value of a question that needs an answer: none when it is empty (the
/// question is asked again).
pub fn required_answer(answer: String) -> (r: Option<String>)
    ensures
        answer@.len() == 0 ==> r is None,
        answer@.len() > 0 ==> (r matches Some(v) && v@ == answer@),
{
    if answer.as_str().is_empty() {
        None
    } else {
        Some(answer)
    }
}

/// The label of a yes/no question: the default is shown in upper case.
pub open spec fn yes_no_label(label: Seq<char>, default: bool) -> Seq<char> {
    label + if default { " [Y/n]"@ } else { " [y/N]"@ }
}

/// The label of a yes/no question.
pub fn yes_no_prompt_label(label: &str, default: bool) -> (r: String)
    ensures
        r@ == yes_no_label(label@, default),
{
    let mut s = String::new();
    push_str(&mut s, label);
    push_str(&mut s, if default { " [Y/n]" } else { " [y/N]" });
    s
}

/// The reading of a yes/no answer (ASCII case ignored): empty gives the
/// default, `y`/`yes`/`是` yes, `n`/`no`/`否` no; anything else nothing (the
/// question is asked again).
pub open spec fn yes_no_of(answer: Seq<char>, default: bool) -> Option<bool> {
    let a = lower_seq(answer);
    if a.len() == 0 {
        Some(default)
    } else if a == "y"@ || a == "yes"@ || a == "是"@ {
        Some(true)
    } else if a == "n"@ || a == "no"@ || a == "否"@ {
        Some(false)
    } else {
        None
    }
}

/// Reads a yes/no answer.
pub fn yes_no_answer(answer: &str, default: bool) -> (r: Option<bool>)
    ensures
        r == yes_no_of(answer@, default),
{
    let a = to_ascii_lowercase(answer);
    let s = a.as_str();
    if s.is_empty() {
        Some(default)
    } else if str_eq(s, "y") || str_eq(s, "yes") || str_eq(s, "是") {
        Some(true)
    } else if str_eq(s, "n") || str_eq(s, "no") || str_eq(s, "否") {
        Some(false)
    } else {
        None
    }
}

/// The text shown after an answer that is neither yes nor no.
pub open spec fn yes_no_retry() -> Seq<char> {
    "请输入 y 或 n。 "@
}

/// The reading of a number question: empty means `min` (the default shown);
/// the number must lie in `min..=max`, otherwise nothing (asked again).
pub open spec fn number_of(answer: Seq<char>, min: usize, max: usize) -> Option<usize> {
    let text = if answer.len() == 0 { decimal(min as nat) } else { answer };
    match parse_unsigned(text, 10, usize::MAX as nat) {
        Some(n) => if min <= n <= max { Some(n as usize) } else { None },
        None => None,
    }
}

/// Reads the answer to a number question.
pub fn number_answer(answer: String, min: usize, max: usize) -> (r: Option<usize>)
    ensures
        r == number_of(answer@, min, max),
{
    let mut default = String::new();
    push_decimal(&mut default, min as u64);
    let text = prompt_default(answer, default.as_str());
    match parse_usize(text.as_str()) {
        Some(n) => if min <= n && n <= max { Some(n) } else { None },
        None => None,
    }
}

/// The text shown after an answer outside the range.
pub open spec fn number_retry(min: usize, max: usize) -> Seq<char> {
    "请输入 "@ + decimal(min as nat) + " 到 "@ + decimal(max as nat) + " 之间的数字。 "@
}

/// The text shown after an answer outside the range.
pub fn number_retry_text(min: usize, max: usize) -> (r: String)
    ensures
        r@ == number_retry(min, max),
{
    let mut s = String::new();
    push_str(&mut s, "请输入 ");
    push_decimal(&mut s, min as u64);
    push_str(&mut s, " 到 ");
    push_decimal(&mut s, max as u64);
    push_str(&mut s, " 之间的数字。 ");
    s
}

/// The clock answered interactively: a number of kHz, at least 1.
pub open spec fn clock_answer_of(value: Seq<char>) -> Result<u32, Seq<char>> {
    match parse_unsigned(value, 10, u32::MAX as nat) {
        Some(n) => Ok(if n < 1 { 1u32 } else { n as u32 }),
        None => Err("调试时钟必须是正整数"@),
    }
}

/// Reads the clock answered interactively.
pub fn clock_answer(value: &str) -> (r: Result<u32, String>)
    ensures
        match r {
            Ok(v) => clock_answer_of(value@) == Ok::<u32, Seq<char>>(v),
            Err(e) => clock_answer_of(value@) == Err::<u32, Seq<char>>(e@),
        },
{
    match parse_u32(value) {
        Some(n) => Ok(if n < 1 { 1 } else { n }),
        None => Err("调试时钟必须是正整数".to_owned()),
    }
}

} // verus!
