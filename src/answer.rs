//! What a user typed at the interactive prompt, read as an answer.

use vstd::prelude::*;
use vstd::string::StringExecFns;
use crate::numtext::{decimal, lemma_trim_len, parse_i32, parse_int, push_decimal, trim, trimmed};
use crate::text::{chars_of, string_of};

verus! {

/// An answer at the prompt.
#[derive(Debug)]
pub enum Answer {
    /// Nothing was typed: leave.
    Exit,
    /// A project by its number, counted from 1.
    Index(usize),
    /// A project by its name.
    Name(String),
    /// A project by its path.
    Path(String),
    /// An answer that cannot be used, and why.
    Wrong(String),
    /// Remove the project that the inner answer names.
    Remove(Box<Answer>),
}

/// What an `Answer` holds.
pub enum AnswerModel {
    Exit,
    Index(nat),
    Name(Seq<char>),
    Path(Seq<char>),
    Wrong(Seq<char>),
    Remove(Box<AnswerModel>),
}

pub open spec fn answer_model(a: Answer) -> AnswerModel
    decreases a,
{
    match a {
        Answer::Exit => AnswerModel::Exit,
        Answer::Index(n) => AnswerModel::Index(n as nat),
        Answer::Name(s) => AnswerModel::Name(s@),
        Answer::Path(s) => AnswerModel::Path(s@),
        Answer::Wrong(s) => AnswerModel::Wrong(s@),
        Answer::Remove(b) => AnswerModel::Remove(Box::new(answer_model(*b))),
    }
}

impl View for Answer {
    type V = AnswerModel;

    open spec fn view(&self) -> AnswerModel {
        answer_model(*self)
    }
}

pub open spec fn index_error_text() -> Seq<char> {
    "Invalid index, shoud be greater then zero"@
}

pub open spec fn double_remove_text() -> Seq<char> {
    "rm rm?? Wot??"@
}

pub open spec fn remove_nothing_text() -> Seq<char> {
    "Please consider to specify project"@
}

/// The answer that a line stands for, read from the line without white space
/// at its ends: a number is an index (one not above zero is refused); an
/// empty line is `Exit`; "rm" followed by one more character and an answer
/// removes what that answer names (an inner `Remove` or `Exit` is refused);
/// text holding '/' is a path, any other text a name. (Trimming never
/// lengthens a line; the length test only bounds the recursion.)
pub open spec fn answer_of(line: Seq<char>) -> AnswerModel
    decreases line.len(),
{
    let t = trimmed(line);
    match parse_i32(t) {
        Some(v) => if v <= 0 {
            AnswerModel::Wrong(index_error_text())
        } else {
            AnswerModel::Index(v as nat)
        },
        None => if t.len() == 0 {
            AnswerModel::Exit
        } else if t.len() > 2 && t[0] == 'r' && t[1] == 'm' && t.len() <= line.len() {
            let a = answer_of(t.subrange(3, t.len() as int));
            match a {
                AnswerModel::Remove(_) => AnswerModel::Wrong(double_remove_text()),
                AnswerModel::Exit => AnswerModel::Wrong(remove_nothing_text()),
                _ => AnswerModel::Remove(Box::new(a)),
            }
        } else if t.contains('/') {
            AnswerModel::Path(t)
        } else {
            AnswerModel::Name(t)
        },
    }
}

/// How an answer reads back as text.
pub open spec fn answer_text(a: AnswerModel) -> Seq<char>
    decreases a,
{
    match a {
        AnswerModel::Exit => "Exit"@,
        AnswerModel::Index(n) => decimal(n),
        AnswerModel::Name(s) => s,
        AnswerModel::Path(s) => s,
        AnswerModel::Wrong(s) => s,
        AnswerModel::Remove(b) => "Remove "@ + answer_text(*b),
    }
}

fn contains_slash(c: &Vec<char>) -> (r: bool)
    ensures
        r == c@.contains('/'),
{
    let mut i: usize = 0;
    while i < c.len()
        invariant
            i <= c@.len(),
            forall|k: int| 0 <= k < i ==> c@[k] != '/',
        decreases c@.len() - i,
    {
        if c[i] == '/' {
            assert(c@[i as int] == '/');
            return true;
        }
        i = i + 1;
    }
    false
}

fn tail_from(c: &Vec<char>, start: usize) -> (r: Vec<char>)
    requires
        start <= c@.len(),
    ensures
        r@ == c@.subrange(start as int, c@.len() as int),
{
    let mut out: Vec<char> = Vec::new();
    let mut i = start;
    while i < c.len()
        invariant
            start <= i <= c@.len(),
            out@ == c@.subrange(start as int, i as int),
        decreases c@.len() - i,
    {
        out.push(c[i]);
        i = i + 1;
        assert(out@ =~= c@.subrange(start as int, i as int));
    }
    out
}

impl Answer {
    /// Reads a line typed at the prompt.
    pub fn from(line: &str) -> (r: Answer)
        ensures
            r@ == answer_of(line@),
        decreases line@.len(),
    {
        let t = trim(line);
        proof {
            lemma_trim_len(line@);
        }
        match parse_int(t) {
            Some(index) => {
                if index <= 0 {
                    Answer::Wrong(String::from_str("Invalid index, shoud be greater then zero"))
                } else {
                    Answer::Index(index as usize)
                }
            },
            None => {
                let chars = chars_of(t);
                if chars.len() == 0 {
                    Answer::Exit
                } else if chars.len() > 2 && chars[0] == 'r' && chars[1] == 'm' {
                    let rest = string_of(&tail_from(&chars, 3));
                    let a = Answer::from(rest.as_str());
                    match a {
                        Answer::Remove(_) => Answer::Wrong(String::from_str("rm rm?? Wot??")),
                        Answer::Exit => Answer::Wrong(
                            String::from_str("Please consider to specify project"),
                        ),
                        _ => Answer::Remove(Box::new(a)),
                    }
                } else if contains_slash(&chars) {
                    Answer::Path(t.to_owned())
                } else {
                    Answer::Name(t.to_owned())
                }
            },
        }
    }

    /// The answer as text: "Exit", the index, the name, path or reason as
    /// given, or "Remove " before the inner answer.
    pub fn to_string(&self) -> (r: String)
        ensures
            r@ == answer_text(self@),
        decreases self,
    {
        match self {
            Answer::Exit => String::from_str("Exit"),
            Answer::Index(n) => {
                let mut c: Vec<char> = Vec::new();
                push_decimal(&mut c, *n);
                assert(c@ =~= decimal(*n as nat));
                string_of(&c)
            },
            Answer::Name(s) => s.clone(),
            Answer::Path(s) => s.clone(),
            Answer::Wrong(s) => s.clone(),
            Answer::Remove(b) => {
                let inner = b.to_string();
                String::from_str("Remove ").concat(inner.as_str())
            },
        }
    }
}

} // verus!
