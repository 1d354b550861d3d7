use itertools::Itertools;
use vstd::prelude::*;

use crate::category::Category;
use crate::number::{is_u64_text, parse_u64, u64_text_value};
use crate::text::{text_is, trim_text, trimmed};

verus! {

#[verifier::external_type_specification]
#[verifier::external_body]
pub struct ExIoError(std::io::Error);

/// Why a category file could not be read.
#[allow(inconsistent_fields)]
#[derive(Debug)]
pub enum ReadFileError {
    FileError { err: std::io::Error },
    InvalidFormat,
    InvalidNumber { err: std::num::ParseIntError },
}

/// The size lines of the first `n` complete name/size pairs all hold a size.
pub open spec fn sizes_valid(lines: Seq<String>, n: int) -> bool {
    forall|i: int| 0 <= i < n ==> is_u64_text(#[trigger] lines[2 * i + 1]@)
}

/// Some complete pair of lines holds a size line that is no size.
pub open spec fn some_size_invalid(lines: Seq<String>) -> bool {
    exists|i: int| 0 <= i && 2 * i + 1 < lines.len() && !is_u64_text(#[trigger] lines[2 * i + 1]@)
}

/// The `i`-th category of a file's lines: a name line, then a size line.
pub open spec fn category_at(cats: Seq<Category>, lines: Seq<String>, i: int) -> bool {
    &&& cats[i].name@ == lines[2 * i]@
    &&& cats[i].size == u64_text_value(lines[2 * i + 1]@)
}

/// What reading a category file's lines gives: see `get_categories_from_lines`.
pub open spec fn file_outcome(lines: Seq<String>, r: Result<Vec<Category>, ReadFileError>) -> bool {
    match r {
        Ok(cats) => {
            &&& lines.len() % 2 == 0
            &&& sizes_valid(lines, lines.len() as int / 2)
            &&& cats@.len() == lines.len() / 2
            &&& forall|i: int| 0 <= i < cats@.len() ==> #[trigger] category_at(cats@, lines, i)
        },
        Err(ReadFileError::InvalidNumber { .. }) => some_size_invalid(lines),
        Err(ReadFileError::InvalidFormat) => {
            &&& lines.len() % 2 == 1
            &&& sizes_valid(lines, lines.len() as int / 2)
        },
        Err(ReadFileError::FileError { .. }) => false,
    }
}

/// The lines in groups of two, in order; the last group holds one line when
/// their number is odd.
pub open spec fn is_paired(groups: Seq<Vec<String>>, lines: Seq<String>) -> bool {
    &&& groups.len() == (lines.len() + 1) / 2
    &&& forall|i: int|
        0 <= i < groups.len() ==> (#[trigger] groups[i])@.len() == (if 2 * i + 1 < lines.len() {
            2int
        } else {
            1int
        })
    &&& forall|i: int, j: int|
        0 <= i < groups.len() && 0 <= j < groups[i]@.len() ==> #[trigger] groups[i]@[j] == lines[2
            * i + j]
}

/// Relies on itertools' `Itertools::chunks`: with a size of 2 it hands out the
/// items in order, two at a time, the last chunk holding what is left.
#[verifier::external_body]
fn pair_lines(lines: &[String]) -> (r: Vec<Vec<String>>)
    ensures
        is_paired(r@, lines@),
{
    let chunks = lines.iter().cloned().chunks(2);
    let mut groups = Vec::new();
    for chunk in &chunks {
        groups.push(chunk.collect::<Vec<String>>());
    }
    groups
}

/// Reads categories from the lines of a category file, which alternate a
/// name and a size. A size line that is no number, in the first pair that
/// has one, gives `InvalidNumber`; otherwise a name without a size line gives
/// `InvalidFormat`.
pub fn get_categories_from_lines(lines: &[String]) -> (r: Result<Vec<Category>, ReadFileError>)
    ensures
        file_outcome(lines@, r),
{
    let groups = pair_lines(lines);
    let mut categories: Vec<Category> = Vec::new();
    let mut g: usize = 0;
    while g < groups.len()
        invariant
            is_paired(groups@, lines@),
            g <= groups@.len(),
            2 * g <= lines@.len(),
            g == categories@.len(),
            sizes_valid(lines@, g as int),
            forall|i: int| 0 <= i < categories@.len() ==> #[trigger] category_at(categories@, lines@, i),
        decreases groups@.len() - g,
    {
        let group = &groups[g];
        assert(group@.len() == groups@[g as int]@.len());
        if group.len() < 2 {
            assert(lines@.len() == 2 * g + 1);
            return Err(ReadFileError::InvalidFormat);
        }
        assert(group@[0] == lines@[2 * g as int]);
        assert(group@[1] == lines@[2 * g + 1]);
        let size = match parse_u64(group[1].as_str()) {
            Ok(v) => v,
            Err(err) => {
                assert(!is_u64_text(lines@[2 * (g as int) + 1]@));
                return Err(ReadFileError::InvalidNumber { err });
            },
        };
        let ghost before = categories@;
        categories.push(Category { size, name: group[0].clone() });
        assert forall|i: int| 0 <= i < categories@.len() implies #[trigger] category_at(categories@, lines@, i) by {
            if i < before.len() {
                assert(category_at(before, lines@, i));
            }
        }
        g = g + 1;
    }
    Ok(categories)
}

/// The number that an answer at a prompt holds, white space around it aside.
/// The error tells why the answer is no number.
pub fn read_number(line: &str) -> (r: Result<u64, std::num::ParseIntError>)
    ensures
        r is Ok <==> is_u64_text(trimmed(line@)),
        r matches Ok(v) ==> v == u64_text_value(trimmed(line@)),
{
    let t = trim_text(line);
    parse_u64(t.as_str())
}

/// The first answer at index `from` or after it that holds a number.
pub open spec fn next_number(answers: Seq<String>, from: int) -> Option<int>
    decreases answers.len() - from,
{
    if from < 0 || from >= answers.len() {
        None
    } else if is_u64_text(trimmed(answers[from]@)) {
        Some(from)
    } else {
        next_number(answers, from + 1)
    }
}

/// The number that the answer at `k` holds.
pub open spec fn number_at(answers: Seq<String>, k: int) -> u64 {
    u64_text_value(trimmed(answers[k]@)) as u64
}

/// A category as a name and a size.
pub open spec fn category_view(c: Category) -> (Seq<char>, u64) {
    (c.name@, c.size)
}

pub open spec fn category_views(cats: Seq<Category>) -> Seq<(Seq<char>, u64)> {
    cats.map_values(|c: Category| category_view(c))
}

/// `count` categories answered from index `from` on: each is a name line,
/// then the first later answer that holds a number is its size; answers
/// between them that hold none are passed over. `None` when the answers run
/// out first.
pub open spec fn answered_categories(answers: Seq<String>, from: int, count: nat) -> Option<
    Seq<(Seq<char>, u64)>,
>
    decreases count,
{
    if count == 0 {
        Some(Seq::empty())
    } else if from < 0 || from >= answers.len() {
        None
    } else {
        match next_number(answers, from + 1) {
            None => None,
            Some(k) => match answered_categories(answers, k + 1, (count - 1) as nat) {
                None => None,
                Some(rest) => Some(seq![(answers[from]@, number_at(answers, k))] + rest),
            },
        }
    }
}

/// The categories that a run of prompt answers gives: the first answer that
/// holds a number is the count, then the categories follow.
pub open spec fn answers_categories(answers: Seq<String>) -> Option<Seq<(Seq<char>, u64)>> {
    match next_number(answers, 0) {
        None => None,
        Some(k) => answered_categories(answers, k + 1, number_at(answers, k) as nat),
    }
}

pub open spec fn with_prefix(
    prefix: Seq<(Seq<char>, u64)>,
    rest: Option<Seq<(Seq<char>, u64)>>,
) -> Option<Seq<(Seq<char>, u64)>> {
    match rest {
        None => None,
        Some(r) => Some(prefix + r),
    }
}

/// Finds the first answer from `from` on that holds a number, and the number.
fn find_number(answers: &[String], from: usize) -> (r: Option<(usize, u64)>)
    requires
        from <= answers@.len(),
    ensures
        match r {
            None => next_number(answers@, from as int) is None,
            Some((k, v)) => {
                &&& next_number(answers@, from as int) == Some(k as int)
                &&& k < answers@.len()
                &&& v == number_at(answers@, k as int)
            },
        },
{
    let mut i: usize = from;
    while i < answers.len()
        invariant
            from <= i <= answers@.len(),
            next_number(answers@, from as int) == next_number(answers@, i as int),
        decreases answers@.len() - i,
    {
        match read_number(answers[i].as_str()) {
            Ok(v) => {
                return Some((i, v));
            },
            Err(_) => {},
        }
        i = i + 1;
    }
    None
}

/// Reads categories from the answers given at the prompts, one answer per
/// line: a count, then a name and a size for each category. An answer that
/// should be a number and is none is passed over, as when it is asked again.
/// `None` when the answers run out before the last category is complete.
pub fn get_categories_from_answers(answers: &[String]) -> (r: Option<Vec<Category>>)
    ensures
        match r {
            Some(cats) => answers_categories(answers@) == Some(category_views(cats@)),
            None => answers_categories(answers@) is None,
        },
{
    let n: usize = answers.len();
    let (k, count) = match find_number(answers, 0) {
        None => {
            return None;
        },
        Some(found) => found,
    };
    let mut categories: Vec<Category> = Vec::new();
    let mut pos: usize = k + 1;
    let mut remaining: u64 = count;
    while remaining > 0
        invariant
            pos <= answers@.len(),
            n == answers@.len(),
            answers_categories(answers@) == with_prefix(
                category_views(categories@),
                answered_categories(answers@, pos as int, remaining as nat),
            ),
        decreases remaining,
    {
        if pos >= n {
            return None;
        }
        let (size_at, size) = match find_number(answers, pos + 1) {
            None => {
                return None;
            },
            Some(found) => found,
        };
        let ghost before = categories@;
        let c = Category { size, name: answers[pos].clone() };
        categories.push(c);
        proof {
            assert(category_views(categories@) =~= category_views(before).push(category_view(c)));
            match answered_categories(answers@, size_at + 1, (remaining - 1) as nat) {
                None => {},
                Some(rest) => {
                    assert(category_views(before) + (seq![category_view(c)] + rest)
                        =~= category_views(categories@) + rest);
                },
            }
        }
        pos = size_at + 1;
        remaining = remaining - 1;
    }
    assert(category_views(categories@) + Seq::empty() =~= category_views(categories@));
    Some(categories)
}

/// What the prompts ask for next, while categories are entered one answer
/// at a time.
#[derive(Clone, Copy, Debug, PartialEq, Eq, Structural)]
pub enum Prompt {
    Count,
    Name { index: u64, count: u64 },
    Size { index: u64, count: u64 },
    Done,
}

impl Prompt {
    /// The category being entered is one of those counted.
    pub open spec fn wf(self) -> bool {
        match self {
            Prompt::Name { index, count } => index < count,
            Prompt::Size { index, count } => index < count,
            _ => true,
        }
    }
}

/// The prompt after `answer` is given at `prompt`; `None` when the answer
/// should be a number and is none, and the same prompt is asked again.
pub open spec fn prompt_after(prompt: Prompt, answer: Seq<char>) -> Option<Prompt> {
    let number = u64_text_value(trimmed(answer)) as u64;
    match prompt {
        Prompt::Count => if !is_u64_text(trimmed(answer)) {
            None
        } else if number == 0 {
            Some(Prompt::Done)
        } else {
            Some(Prompt::Name { index: 0, count: number })
        },
        Prompt::Name { index, count } => Some(Prompt::Size { index, count }),
        Prompt::Size { index, count } => if !is_u64_text(trimmed(answer)) {
            None
        } else if index + 1 == count {
            Some(Prompt::Done)
        } else {
            Some(Prompt::Name { index: (index + 1) as u64, count })
        },
        Prompt::Done => Some(Prompt::Done),
    }
}

/// Takes one answer given at a prompt and says what to ask next: first the
/// count, then a name and a size for each category. An answer that should be
/// a number and is none gives the reason, and the prompt is asked again.
pub fn next_prompt(prompt: Prompt, answer: &str) -> (r: Result<Prompt, std::num::ParseIntError>)
    requires
        prompt.wf(),
    ensures
        r is Ok <==> prompt_after(prompt, answer@) is Some,
        r matches Ok(next) ==> prompt_after(prompt, answer@) == Some(next) && next.wf(),
{
    match prompt {
        Prompt::Count => match read_number(answer) {
            Ok(0) => Ok(Prompt::Done),
            Ok(count) => Ok(Prompt::Name { index: 0, count }),
            Err(e) => Err(e),
        },
        Prompt::Name { index, count } => Ok(Prompt::Size { index, count }),
        Prompt::Size { index, count } => match read_number(answer) {
            Ok(_) => if index + 1 == count {
                Ok(Prompt::Done)
            } else {
                Ok(Prompt::Name { index: index + 1, count })
            },
            Err(e) => Err(e),
        },
        Prompt::Done => Ok(Prompt::Done),
    }
}

/// Where the categories come from.
#[derive(Clone, Copy, Debug, PartialEq, Eq, Structural)]
pub enum InputMethod {
    Lines,
    Stdin,
}

/// A text that names no input method.
#[derive(Debug)]
pub enum InputMethodParseError {
    UnknownMethod { method: String },
}

/// Why no categories could be had.
#[allow(inconsistent_fields)]
#[derive(Debug)]
pub enum GetCategoriesError {
    IoError { err: std::io::Error },
    RetrieveFile { err: ReadFileError },
    EndOfInput,
}

impl InputMethod {
    /// Reads an input method's name, white space around it aside: "stdin"
    /// or "file".
    pub fn parse(s: &str) -> (r: Result<InputMethod, InputMethodParseError>)
        ensures
            trimmed(s@) == "stdin"@ ==> r == Ok::<InputMethod, InputMethodParseError>(
                InputMethod::Stdin,
            ),
            trimmed(s@) == "file"@ ==> r == Ok::<InputMethod, InputMethodParseError>(
                InputMethod::Lines,
            ),
            trimmed(s@) != "stdin"@ && trimmed(s@) != "file"@ ==> match r {
                Err(InputMethodParseError::UnknownMethod { method }) => method@ == trimmed(s@),
                Ok(_) => false,
            },
    {
        let t = trim_text(s);
        InputMethod::from_name(&t)
    }

    /// Reads an input method's name that has no white space around it.
    pub fn from_name(t: &String) -> (r: Result<InputMethod, InputMethodParseError>)
        ensures
            t@ == "stdin"@ ==> r == Ok::<InputMethod, InputMethodParseError>(InputMethod::Stdin),
            t@ == "file"@ ==> r == Ok::<InputMethod, InputMethodParseError>(InputMethod::Lines),
            t@ != "stdin"@ && t@ != "file"@ ==> match r {
                Err(InputMethodParseError::UnknownMethod { method }) => method@ == t@,
                Ok(_) => false,
            },
    {
        proof {
            reveal_strlit("stdin");
            reveal_strlit("file");
            assert("stdin"@.len() == 5 && "file"@.len() == 4);
        }
        if text_is(t, "stdin") {
            Ok(InputMethod::Stdin)
        } else if text_is(t, "file") {
            Ok(InputMethod::Lines)
        } else {
            Err(InputMethodParseError::UnknownMethod { method: t.clone() })
        }
    }

    /// Reads the categories from the lines of input: those of a category
    /// file, or the answers given at the prompts.
    pub fn get_categories(&self, lines: &[String]) -> (r: Result<Vec<Category>, GetCategoriesError>)
        ensures
            *self == InputMethod::Lines ==> match r {
                Ok(cats) => file_outcome(lines@, Ok(cats)),
                Err(GetCategoriesError::RetrieveFile { err }) => file_outcome(lines@, Err(err)),
                Err(_) => false,
            },
            *self == InputMethod::Stdin ==> match r {
                Ok(cats) => answers_categories(lines@) == Some(category_views(cats@)),
                Err(GetCategoriesError::EndOfInput) => answers_categories(lines@) is None,
                Err(_) => false,
            },
    {
        match self {
            InputMethod::Lines => match get_categories_from_lines(lines) {
                Ok(cats) => Ok(cats),
                Err(err) => Err(GetCategoriesError::from(err)),
            },
            InputMethod::Stdin => match get_categories_from_answers(lines) {
                Some(cats) => Ok(cats),
                None => Err(GetCategoriesError::EndOfInput),
            },
        }
    }
}

impl From<ReadFileError> for GetCategoriesError {
    fn from(err: ReadFileError) -> GetCategoriesError {
        GetCategoriesError::RetrieveFile { err }
    }
}

impl vstd::std_specs::convert::FromSpecImpl<ReadFileError> for GetCategoriesError {
    open spec fn obeys_from_spec() -> bool {
        true
    }

    open spec fn from_spec(err: ReadFileError) -> GetCategoriesError {
        GetCategoriesError::RetrieveFile { err }
    }
}

impl From<std::io::Error> for GetCategoriesError {
    fn from(err: std::io::Error) -> GetCategoriesError {
        GetCategoriesError::IoError { err }
    }
}

impl vstd::std_specs::convert::FromSpecImpl<std::io::Error> for GetCategoriesError {
    open spec fn obeys_from_spec() -> bool {
        true
    }

    open spec fn from_spec(err: std::io::Error) -> GetCategoriesError {
        GetCategoriesError::IoError { err }
    }
}

impl From<std::io::Error> for ReadFileError {
    fn from(err: std::io::Error) -> ReadFileError {
        ReadFileError::FileError { err }
    }
}

impl vstd::std_specs::convert::FromSpecImpl<std::io::Error> for ReadFileError {
    open spec fn obeys_from_spec() -> bool {
        true
    }

    open spec fn from_spec(err: std::io::Error) -> ReadFileError {
        ReadFileError::FileError { err }
    }
}

impl From<std::num::ParseIntError> for ReadFileError {
    fn from(err: std::num::ParseIntError) -> ReadFileError {
        ReadFileError::InvalidNumber { err }
    }
}

impl vstd::std_specs::convert::FromSpecImpl<std::num::ParseIntError> for ReadFileError {
    open spec fn obeys_from_spec() -> bool {
        true
    }

    open spec fn from_spec(err: std::num::ParseIntError) -> ReadFileError {
        ReadFileError::InvalidNumber { err }
    }
}

impl std::str::FromStr for InputMethod {
    type Err = InputMethodParseError;

    fn from_str(s: &str) -> (r: Result<InputMethod, InputMethodParseError>)
        ensures
            trimmed(s@) == "stdin"@ ==> r == Ok::<InputMethod, InputMethodParseError>(
                InputMethod::Stdin,
            ),
            trimmed(s@) == "file"@ ==> r == Ok::<InputMethod, InputMethodParseError>(
                InputMethod::Lines,
            ),
            trimmed(s@) != "stdin"@ && trimmed(s@) != "file"@ ==> match r {
                Err(InputMethodParseError::UnknownMethod { method }) => method@ == trimmed(s@),
                Ok(_) => false,
            },
    {
        InputMethod::parse(s)
    }
}

} // verus!
