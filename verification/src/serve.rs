//! The rules of a static file server: which file a request path names, and
//! what to answer.
//!
//! A request path is taken relative to the directory that is served. It is
//! joined to that directory and cleaned of `.` and `..` without consulting
//! the file system; what then lies outside the directory is refused. Looking
//! the file up and reading it is left to the caller.

use vstd::prelude::*;
use vstd::string::*;
use crate::paths::{begins_with, clean, cleaned, join, joined, starts_with};

verus! {

/// Why a request path names no file that may be served.
#[derive(Clone, Copy, Debug, PartialEq, Eq, Structural)]
pub enum PathError {
    /// The path leads out of the directory that is served.
    OutOfBounds,
    /// The path leads to nothing.
    NotFound,
}

/// What to answer to a request.
#[derive(Debug)]
pub enum Answer {
    /// Send the file at this path.
    File(String),
    /// Refuse: status 403.
    Forbidden,
    /// Nothing there: status 404.
    NotFound,
}

/// An answer as a mathematical value.
pub enum AnswerView {
    File(Seq<char>),
    Forbidden,
    NotFound,
}

impl View for Answer {
    type V = AnswerView;

    open spec fn view(&self) -> AnswerView {
        match self {
            Answer::File(path) => AnswerView::File(path@),
            Answer::Forbidden => AnswerView::Forbidden,
            Answer::NotFound => AnswerView::NotFound,
        }
    }
}

/// A request path without its leading slash, if it has one. Only one slash
/// is taken off.
pub open spec fn relative_part(input: Seq<char>) -> Seq<char> {
    if input.len() > 0 && input[0] == '/' {
        input.skip(1)
    } else {
        input
    }
}

/// The path in the file system that a request path stands for, before it is
/// known whether it may be served.
pub open spec fn target(root: Seq<char>, input: Seq<char>) -> Seq<char> {
    cleaned(joined(root, relative_part(input)))
}

/// What becomes of a cleaned path, given whether it lies under the root.
pub open spec fn confined(clean_path: Seq<char>, inside: bool) -> Result<Seq<char>, PathError> {
    if inside {
        Ok(clean_path)
    } else {
        Err(PathError::OutOfBounds)
    }
}

/// The answer to a request, given its method and what its path led to.
pub open spec fn answer_spec(is_get: bool, located: Result<Seq<char>, PathError>) -> AnswerView {
    if !is_get {
        AnswerView::NotFound
    } else {
        match located {
            Ok(path) => AnswerView::File(path),
            Err(PathError::OutOfBounds) => AnswerView::Forbidden,
            Err(PathError::NotFound) => AnswerView::NotFound,
        }
    }
}

/// Takes one leading slash off a request path.
pub fn strip_root(input: &str) -> (rel: &str)
    ensures
        rel@ == relative_part(input@),
{
    let len: usize = input.unicode_len();
    if len > 0 && input.get_char(0) == '/' {
        input.substring_char(1, len)
    } else {
        input
    }
}

/// Lets a cleaned path through if it lies under the root, and refuses it as
/// out of bounds if not.
pub fn confine(clean_path: String, inside: bool) -> (r: Result<String, PathError>)
    ensures
        match r {
            Ok(path) => confined(clean_path@, inside) == Ok::<Seq<char>, PathError>(path@),
            Err(e) => confined(clean_path@, inside) == Err::<Seq<char>, PathError>(e),
        },
{
    if inside {
        Ok(clean_path)
    } else {
        Err(PathError::OutOfBounds)
    }
}

/// The path under `root` that the request path `input` names.
///
/// The result is the cleaned join of `root` and `input` if that lies under
/// `root`, and `OutOfBounds` if it does not. `NotFound` is never returned
/// here: whether the file exists is for the caller to find out.
pub fn locate(root: &str, input: &str) -> (r: Result<String, PathError>)
    ensures
        match r {
            Ok(path) => confined(target(root@, input@), begins_with(target(root@, input@), root@))
                == Ok::<Seq<char>, PathError>(path@),
            Err(e) => confined(target(root@, input@), begins_with(target(root@, input@), root@))
                == Err::<Seq<char>, PathError>(e),
        },
        r matches Ok(path) ==> begins_with(path@, root@),
        r matches Err(e) ==> e == PathError::OutOfBounds,
{
    let full: String = join(root, strip_root(input));
    let clean_path: String = clean(full.as_str());
    let inside: bool = starts_with(clean_path.as_str(), root);
    confine(clean_path, inside)
}

/// Decides the answer to a request: a file for a GET whose path was found, a
/// refusal for a GET whose path is out of bounds, and "not found" for
/// everything else, GET or not.
pub fn answer(is_get: bool, located: Result<String, PathError>) -> (a: Answer)
    ensures
        match located {
            Ok(path) => a@ == answer_spec(is_get, Ok(path@)),
            Err(e) => a@ == answer_spec(is_get, Err(e)),
        },
{
    if !is_get {
        return Answer::NotFound;
    }
    match located {
        Ok(path) => Answer::File(path),
        Err(PathError::OutOfBounds) => Answer::Forbidden,
        Err(PathError::NotFound) => Answer::NotFound,
    }
}

impl Answer {
    /// The HTTP status that goes with the answer.
    pub fn status(&self) -> (code: u16)
        ensures
            code == match self@ {
                AnswerView::File(_) => 200u16,
                AnswerView::Forbidden => 403u16,
                AnswerView::NotFound => 404u16,
            },
    {
        match self {
            Answer::File(_) => 200,
            Answer::Forbidden => 403,
            Answer::NotFound => 404,
        }
    }
}

} // verus!
