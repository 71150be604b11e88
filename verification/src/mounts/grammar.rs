//! The grammar of a line of the mount table, stated on sequences of
//! characters.
//!
//! A line has six fields, separated by blanks (spaces and tabs):
//!
//! ```text
//! <device> <mount point> <file system> <options> 0 0
//! ```
//!
//! Device and mount point may hold escapes, and so may each option; the
//! options are separated by commas. The last two fields must both be `0`.
//!
//! Each `*_spec` function takes the input and gives what it read together
//! with the rest of the input, or the error.

use vstd::prelude::*;
use crate::mounts::MountView;

verus! {

/// Why a line, or a part of one, was not accepted.
#[derive(Clone, Copy, Debug, PartialEq, Eq, Structural)]
pub enum ParseError {
    /// A field was expected where the input ends or a blank stands.
    MissingField,
    /// A blank was expected between two fields.
    MissingBlank,
    /// A backslash is the last character of a field.
    DanglingEscape,
    /// What follows a backslash is no known escape.
    UnknownEscape,
    /// One of the two closing fields is not `0`.
    MissingZero,
    /// Something other than blanks follows the last field.
    TrailingInput,
}

/// What ends a run of characters.
#[derive(Clone, Copy, Debug, PartialEq, Eq, Structural)]
pub enum Stop {
    /// A space or a tab: the run is a field.
    AtBlank,
    /// A comma, a space or a tab: the run is one option.
    AtItemEnd,
    /// Anything but a space or a tab: the run is a separator.
    AtNonBlank,
}

/// Whether `c` is a space or a tab.
pub open spec fn is_blank(c: char) -> bool {
    c == ' ' || c == '\t'
}

/// Whether `c` ends a run of the given kind.
pub open spec fn stops(stop: Stop, c: char) -> bool {
    match stop {
        Stop::AtBlank => is_blank(c),
        Stop::AtItemEnd => c == ',' || is_blank(c),
        Stop::AtNonBlank => !is_blank(c),
    }
}

/// The length of the run that begins `s`: the number of characters before the
/// first that stops the run, or all of `s` if none does.
pub open spec fn run_len(stop: Stop, s: Seq<char>) -> nat
    decreases s.len(),
{
    if s.len() == 0 || stops(stop, s[0]) {
        0
    } else {
        1 + run_len(stop, s.drop_first())
    }
}

/// A run is a prefix of its input, holds no character that stops it, and is
/// followed by one that does unless the input ends there.
pub proof fn lemma_run_len(stop: Stop, s: Seq<char>)
    ensures
        run_len(stop, s) <= s.len(),
        forall|k: int| 0 <= k < run_len(stop, s) ==> !stops(stop, #[trigger] s[k]),
        run_len(stop, s) < s.len() ==> stops(stop, s[run_len(stop, s) as int]),
    decreases s.len(),
{
    if s.len() == 0 || stops(stop, s[0]) {
    } else {
        let t = s.drop_first();
        lemma_run_len(stop, t);
        assert forall|k: int| 0 <= k < run_len(stop, s) implies !stops(stop, #[trigger] s[k]) by {
            if k > 0 {
                assert(s[k] == t[k - 1]);
            }
        }
    }
}

/// The length of a run is the only number of which all that
/// [`lemma_run_len`] states is true.
pub proof fn lemma_run_len_unique(stop: Stop, s: Seq<char>, n: nat)
    requires
        n <= s.len(),
        forall|k: int| 0 <= k < n ==> !stops(stop, #[trigger] s[k]),
        n < s.len() ==> stops(stop, s[n as int]),
    ensures
        run_len(stop, s) == n,
    decreases s.len(),
{
    if s.len() == 0 || stops(stop, s[0]) {
        if n > 0 {
            assert(!stops(stop, s[0]));
        }
    } else {
        let t = s.drop_first();
        assert(n > 0);
        assert forall|k: int| 0 <= k < n - 1 implies !stops(stop, #[trigger] t[k]) by {
            assert(t[k] == s[k + 1]);
        }
        lemma_run_len_unique(stop, t, (n - 1) as nat);
    }
}

/// A field: the characters up to the next blank, at least one.
pub open spec fn word_spec(s: Seq<char>) -> Result<(Seq<char>, Seq<char>), ParseError> {
    let n: nat = run_len(Stop::AtBlank, s);
    if n == 0 {
        Err(ParseError::MissingField)
    } else {
        Ok((s.skip(n as int), s.take(n as int)))
    }
}

/// A separator: one blank or more. Gives the rest of the input.
pub open spec fn blanks_spec(s: Seq<char>) -> Result<Seq<char>, ParseError> {
    let n: nat = run_len(Stop::AtNonBlank, s);
    if n == 0 {
        Err(ParseError::MissingBlank)
    } else {
        Ok(s.skip(n as int))
    }
}

/// A closing field: the character `0`. Gives the rest of the input.
pub open spec fn zero_spec(s: Seq<char>) -> Result<Seq<char>, ParseError> {
    if s.len() > 0 && s[0] == '0' {
        Ok(s.skip(1))
    } else {
        Err(ParseError::MissingZero)
    }
}

/// A fixed text: accepts `tag` at the start of the input and gives `value`
/// for it.
pub open spec fn tag_spec(s: Seq<char>, tag: Seq<char>, value: Seq<char>) -> Result<
    (Seq<char>, Seq<char>),
    ParseError,
> {
    if tag.is_prefix_of(s) {
        Ok((s.skip(tag.len() as int), value))
    } else {
        Err(ParseError::UnknownEscape)
    }
}

/// After a backslash, a backslash stands for itself.
pub open spec fn escaped_backslash1_spec(s: Seq<char>) -> Result<
    (Seq<char>, Seq<char>),
    ParseError,
> {
    tag_spec(s, seq!['\\'], seq!['\\'])
}

/// After a backslash, `134` stands for a backslash.
pub open spec fn escaped_backslash2_spec(s: Seq<char>) -> Result<
    (Seq<char>, Seq<char>),
    ParseError,
> {
    tag_spec(s, seq!['1', '3', '4'], seq!['\\'])
}

/// After a backslash, `040` stands for a space.
pub open spec fn escaped_space_spec(s: Seq<char>) -> Result<(Seq<char>, Seq<char>), ParseError> {
    tag_spec(s, seq!['0', '4', '0'], seq![' '])
}

/// A backslash before a semicolon is kept: both stand for themselves.
pub open spec fn escaped_semicolon_spec(s: Seq<char>) -> Result<
    (Seq<char>, Seq<char>),
    ParseError,
> {
    tag_spec(s, seq![';'], seq!['\\', ';'])
}

/// A backslash before a comma is kept: both stand for themselves.
pub open spec fn escaped_comma_spec(s: Seq<char>) -> Result<(Seq<char>, Seq<char>), ParseError> {
    tag_spec(s, seq![','], seq!['\\', ','])
}

/// What may follow a backslash: the first of the five escapes that accepts
/// the input.
pub open spec fn escape_spec(s: Seq<char>) -> Result<(Seq<char>, Seq<char>), ParseError> {
    if escaped_backslash1_spec(s) is Ok {
        escaped_backslash1_spec(s)
    } else if escaped_backslash2_spec(s) is Ok {
        escaped_backslash2_spec(s)
    } else if escaped_space_spec(s) is Ok {
        escaped_space_spec(s)
    } else if escaped_semicolon_spec(s) is Ok {
        escaped_semicolon_spec(s)
    } else {
        escaped_comma_spec(s)
    }
}

/// Puts `head` in front of a text, if there is one.
pub open spec fn prepend(head: Seq<char>, tail: Result<Seq<char>, ParseError>) -> Result<
    Seq<char>,
    ParseError,
> {
    match tail {
        Ok(text) => Ok(head + text),
        Err(e) => Err(e),
    }
}

/// The text that `s` spells once every escape is replaced by what it stands
/// for. The first backslash that begins no escape decides the error.
pub open spec fn unescaped(s: Seq<char>) -> Result<Seq<char>, ParseError>
    decreases s.len(),
{
    if s.len() == 0 {
        Ok(Seq::empty())
    } else if s[0] != '\\' {
        prepend(seq![s[0]], unescaped(s.drop_first()))
    } else if s.len() == 1 {
        Err(ParseError::DanglingEscape)
    } else {
        match escape_spec(s.drop_first()) {
            Ok((rest, value)) => prepend(value, unescaped(rest)),
            Err(e) => Err(e),
        }
    }
}

/// A whole text with its escapes replaced. On success nothing of the input
/// is left.
pub open spec fn transform_escaped_spec(s: Seq<char>) -> Result<
    (Seq<char>, Seq<char>),
    ParseError,
> {
    match unescaped(s) {
        Ok(text) => Ok((Seq::empty(), text)),
        Err(e) => Err(e),
    }
}

/// A field that may hold escapes: the characters up to the next blank, with
/// the escapes replaced.
pub open spec fn field_spec(s: Seq<char>) -> Result<(Seq<char>, Seq<char>), ParseError> {
    match word_spec(s) {
        Ok((rest, word)) => match unescaped(word) {
            Ok(text) => Ok((rest, text)),
            Err(e) => Err(e),
        },
        Err(e) => Err(e),
    }
}

/// One option: the characters up to the next comma or blank, at least one,
/// with the escapes replaced. There is no option where that run is empty or
/// holds a backslash that begins no escape.
pub open spec fn item_spec(s: Seq<char>) -> Option<(Seq<char>, Seq<char>)> {
    let n: nat = run_len(Stop::AtItemEnd, s);
    if n == 0 {
        None
    } else {
        match unescaped(s.take(n as int)) {
            Ok(text) => Some((s.skip(n as int), text)),
            Err(_) => None,
        }
    }
}

/// The options after the first: each a comma and an option. The list ends,
/// before the comma, where no option follows one.
pub open spec fn more_items_spec(s: Seq<char>) -> (Seq<char>, Seq<Seq<char>>)
    decreases s.len(),
{
    if s.len() > 0 && s[0] == ',' {
        match item_spec(s.skip(1)) {
            Some((rest, text)) => {
                proof {
                    lemma_run_len(Stop::AtItemEnd, s.skip(1));
                }
                (more_items_spec(rest).0, seq![text] + more_items_spec(rest).1)
            },
            None => (s, Seq::empty()),
        }
    } else {
        (s, Seq::empty())
    }
}

/// The options: none, or one and then those that [`more_items_spec`] finds.
/// This never fails: where no option begins the input, the list is empty and
/// the input is left as it is.
pub open spec fn mount_opts_spec(s: Seq<char>) -> (Seq<char>, Seq<Seq<char>>) {
    match item_spec(s) {
        Some((rest, text)) => (more_items_spec(rest).0, seq![text] + more_items_spec(rest).1),
        None => (s, Seq::empty()),
    }
}

/// The end of a line: blanks, `0`, blanks, `0`, and then nothing but blanks.
pub open spec fn closing_spec(s: Seq<char>) -> Result<Seq<char>, ParseError> {
    match blanks_spec(s) {
        Ok(s1) => match zero_spec(s1) {
            Ok(s2) => match blanks_spec(s2) {
                Ok(s3) => match zero_spec(s3) {
                    Ok(s4) => {
                        let s5 = s4.skip(run_len(Stop::AtNonBlank, s4) as int);
                        if s5.len() == 0 {
                            Ok(s5)
                        } else {
                            Err(ParseError::TrailingInput)
                        }
                    },
                    Err(e) => Err(e),
                },
                Err(e) => Err(e),
            },
            Err(e) => Err(e),
        },
        Err(e) => Err(e),
    }
}

/// A whole line: device, mount point, file system and options, separated by
/// blanks, and the end of the line. The file system's name is taken as it
/// stands; the other three may hold escapes.
pub open spec fn parse_line_spec(s: Seq<char>) -> Result<(Seq<char>, MountView), ParseError> {
    match field_spec(s) {
        Ok((s1, device)) => match blanks_spec(s1) {
            Ok(s2) => match field_spec(s2) {
                Ok((s3, mount_point)) => match blanks_spec(s3) {
                    Ok(s4) => match word_spec(s4) {
                        Ok((s5, filesystem)) => match blanks_spec(s5) {
                            Ok(s6) => match closing_spec(mount_opts_spec(s6).0) {
                                Ok(rest) => Ok(
                                    (
                                        rest,
                                        MountView {
                                            device,
                                            mount_point,
                                            filesystem,
                                            options: mount_opts_spec(s6).1,
                                        },
                                    ),
                                ),
                                Err(e) => Err(e),
                            },
                            Err(e) => Err(e),
                        },
                        Err(e) => Err(e),
                    },
                    Err(e) => Err(e),
                },
                Err(e) => Err(e),
            },
            Err(e) => Err(e),
        },
        Err(e) => Err(e),
    }
}

/// A line that is accepted was read to its end and has at least one option.
pub proof fn lemma_accepted_line(s: Seq<char>)
    requires
        parse_line_spec(s) is Ok,
    ensures
        parse_line_spec(s)->Ok_0.0.len() == 0,
        parse_line_spec(s)->Ok_0.1.options.len() > 0,
{
    let after_device = field_spec(s)->Ok_0.0;
    let point = blanks_spec(after_device)->Ok_0;
    let after_point = field_spec(point)->Ok_0.0;
    let system = blanks_spec(after_point)->Ok_0;
    let after_system = word_spec(system)->Ok_0.0;
    let options = blanks_spec(after_system)->Ok_0;
    if mount_opts_spec(options).1.len() == 0 {
        // no option was read, so the closing fields would have to begin where
        // the blanks before the options ended
        assert(mount_opts_spec(options).0 == options);
        lemma_run_len(Stop::AtNonBlank, after_system);
        let n: int = run_len(Stop::AtNonBlank, after_system) as int;
        if n < after_system.len() {
            assert(options[0] == after_system[n]);
        }
        assert(run_len(Stop::AtNonBlank, options) == 0);
        assert(closing_spec(options) is Err);
    }
}

} // verus!
