//! A parser for one line of the mount table.
//!
//! Every function here is proved to compute what [`crate::mounts::grammar`]
//! states: the same values, the same rest of the input, the same error. The
//! input is turned into a vector of characters once and then read by
//! position.

use vstd::prelude::*;
use vstd::string::*;
use crate::text::{chars_of, string_of, texts};
use crate::mounts::{Mount, MountView};
use crate::mounts::grammar::{
    blanks_spec, closing_spec, escape_spec, escaped_backslash1_spec, escaped_backslash2_spec,
    escaped_comma_spec, escaped_semicolon_spec, escaped_space_spec, field_spec, item_spec,
    more_items_spec, mount_opts_spec, parse_line_spec, prepend, run_len, stops, tag_spec,
    transform_escaped_spec, unescaped, word_spec, zero_spec, ParseError, Stop,
};

verus! {

/// Whether `c` ends a run of the given kind.
fn is_stop(stop: Stop, c: char) -> (yes: bool)
    ensures
        yes == stops(stop, c),
{
    let blank: bool = c == ' ' || c == '\t';
    match stop {
        Stop::AtBlank => blank,
        Stop::AtItemEnd => c == ',' || blank,
        Stop::AtNonBlank => !blank,
    }
}

/// The end of the run that begins at `from`.
fn scan(chars: &[char], from: usize, stop: Stop) -> (to: usize)
    requires
        from <= chars@.len(),
    ensures
        from <= to <= chars@.len(),
        to - from == run_len(stop, chars@.skip(from as int)),
{
    let mut to: usize = from;
    while to < chars.len() && !is_stop(stop, chars[to])
        invariant
            from <= to <= chars@.len(),
            run_len(stop, chars@.skip(from as int)) == (to - from) + run_len(
                stop,
                chars@.skip(to as int),
            ),
        decreases chars@.len() - to,
    {
        assert(chars@.skip(to as int).drop_first() =~= chars@.skip(to + 1));
        to = to + 1;
    }
    to
}

/// Whether a result of string slices is the result that the grammar states.
pub open spec fn agrees(
    r: Result<(&str, &str), ParseError>,
    stated: Result<(Seq<char>, Seq<char>), ParseError>,
) -> bool {
    match r {
        Ok((rest, out)) => stated == Ok::<(Seq<char>, Seq<char>), ParseError>((rest@, out@)),
        Err(e) => stated == Err::<(Seq<char>, Seq<char>), ParseError>(e),
    }
}

/// Accepts `tag` at the start of `i` and gives `value` for it.
fn tagged<'a>(i: &'a str, tag: &str, value: &'a str) -> (r: Result<(&'a str, &'a str), ParseError>)
    ensures
        agrees(r, tag_spec(i@, tag@, value@)),
{
    let len: usize = i.unicode_len();
    let n: usize = tag.unicode_len();
    if n <= len && *i.substring_char(0, n) == *tag {
        Ok((i.substring_char(n, len), value))
    } else {
        Err(ParseError::UnknownEscape)
    }
}

/// A field: the characters of `i` up to the next blank, at least one.
pub fn not_whitespace(i: &str) -> (r: Result<(&str, &str), ParseError>)
    ensures
        agrees(r, word_spec(i@)),
{
    let chars: Vec<char> = chars_of(i);
    let n: usize = scan(chars.as_slice(), 0, Stop::AtBlank);
    assert(chars@.skip(0) =~= chars@);
    if n == 0 {
        Err(ParseError::MissingField)
    } else {
        Ok((i.substring_char(n, chars.len()), i.substring_char(0, n)))
    }
}

/// The escape `040`, which stands for a space.
pub fn escaped_space(i: &str) -> (r: Result<(&str, &str), ParseError>)
    ensures
        agrees(r, escaped_space_spec(i@)),
{
    proof {
        reveal_strlit("040");
        reveal_strlit(" ");
        assert("040"@ =~= seq!['0', '4', '0']);
        assert(" "@ =~= seq![' ']);
    }
    tagged(i, "040", " ")
}

/// The escape `\`, which stands for itself.
pub fn escaped_backslash1(i: &str) -> (r: Result<(&str, &str), ParseError>)
    ensures
        agrees(r, escaped_backslash1_spec(i@)),
{
    proof {
        reveal_strlit("\\");
        assert("\\"@ =~= seq!['\\']);
    }
    tagged(i, "\\", "\\")
}

/// The escape `134`, which stands for a backslash.
pub fn escaped_backslash2(i: &str) -> (r: Result<(&str, &str), ParseError>)
    ensures
        agrees(r, escaped_backslash2_spec(i@)),
{
    proof {
        reveal_strlit("134");
        reveal_strlit("\\");
        assert("134"@ =~= seq!['1', '3', '4']);
        assert("\\"@ =~= seq!['\\']);
    }
    tagged(i, "134", "\\")
}

/// A semicolon after a backslash: both are kept.
pub fn escaped_semicolon(i: &str) -> (r: Result<(&str, &str), ParseError>)
    ensures
        agrees(r, escaped_semicolon_spec(i@)),
{
    proof {
        reveal_strlit(";");
        reveal_strlit("\\;");
        assert(";"@ =~= seq![';']);
        assert("\\;"@ =~= seq!['\\', ';']);
    }
    tagged(i, ";", "\\;")
}

/// A comma after a backslash: both are kept.
pub fn escaped_comma(i: &str) -> (r: Result<(&str, &str), ParseError>)
    ensures
        agrees(r, escaped_comma_spec(i@)),
{
    proof {
        reveal_strlit(",");
        reveal_strlit("\\,");
        assert(","@ =~= seq![',']);
        assert("\\,"@ =~= seq!['\\', ',']);
    }
    tagged(i, ",", "\\,")
}

/// A text that differs from `tag` at position `k`, or ends before it, does
/// not begin with `tag`.
proof fn lemma_no_tag(s: Seq<char>, tag: Seq<char>, k: int)
    requires
        0 <= k < tag.len(),
        k >= s.len() || s[k] != tag[k],
    ensures
        !tag.is_prefix_of(s),
{
    if tag.is_prefix_of(s) {
        assert(s.subrange(0, tag.len() as int)[k] == tag[k]);
    }
}

/// The escape that begins at `from` in `chars[..to]`: where it ends and what
/// it stands for.
fn escape_at(chars: &[char], from: usize, to: usize) -> (r: Option<(usize, &'static str)>)
    requires
        from <= to <= chars@.len(),
    ensures
        match r {
            Some((next, value)) => from < next <= to && escape_spec(
                chars@.subrange(from as int, to as int),
            ) == Ok::<(Seq<char>, Seq<char>), ParseError>(
                (chars@.subrange(next as int, to as int), value@),
            ),
            None => escape_spec(chars@.subrange(from as int, to as int)) == Err::<
                (Seq<char>, Seq<char>),
                ParseError,
            >(ParseError::UnknownEscape),
        },
{
    let ghost s = chars@.subrange(from as int, to as int);
    let ghost backslash = seq!['\\'];
    let ghost octal_backslash = seq!['1', '3', '4'];
    let ghost octal_space = seq!['0', '4', '0'];
    let ghost semicolon = seq![';'];
    let ghost comma = seq![','];
    proof {
        reveal_strlit("\\");
        reveal_strlit(" ");
        reveal_strlit("\\;");
        reveal_strlit("\\,");
        assert("\\"@ =~= seq!['\\']);
        assert(" "@ =~= seq![' ']);
        assert("\\;"@ =~= seq!['\\', ';']);
        assert("\\,"@ =~= seq!['\\', ',']);
    }
    if from == to {
        proof {
            lemma_no_tag(s, backslash, 0);
            lemma_no_tag(s, octal_backslash, 0);
            lemma_no_tag(s, octal_space, 0);
            lemma_no_tag(s, semicolon, 0);
            lemma_no_tag(s, comma, 0);
        }
        return None;
    }
    let c: char = chars[from];
    assert(s[0] == c);
    assert(s.skip(1) =~= chars@.subrange(from + 1, to as int));
    if c == '\\' {
        assert(backslash.is_prefix_of(s));
        Some((from + 1, "\\"))
    } else if c == ';' {
        proof {
            lemma_no_tag(s, backslash, 0);
            lemma_no_tag(s, octal_backslash, 0);
            lemma_no_tag(s, octal_space, 0);
            assert(semicolon.is_prefix_of(s));
        }
        Some((from + 1, "\\;"))
    } else if c == ',' {
        proof {
            lemma_no_tag(s, backslash, 0);
            lemma_no_tag(s, octal_backslash, 0);
            lemma_no_tag(s, octal_space, 0);
            lemma_no_tag(s, semicolon, 0);
            assert(comma.is_prefix_of(s));
        }
        Some((from + 1, "\\,"))
    } else {
        proof {
            lemma_no_tag(s, backslash, 0);
            lemma_no_tag(s, semicolon, 0);
            lemma_no_tag(s, comma, 0);
        }
        if to - from >= 3 {
            let d: char = chars[from + 1];
            let e: char = chars[from + 2];
            assert(s[1] == d && s[2] == e);
            assert(s.skip(3) =~= chars@.subrange(from + 3, to as int));
            if c == '1' && d == '3' && e == '4' {
                assert(octal_backslash.is_prefix_of(s));
                Some((from + 3, "\\"))
            } else if c == '0' && d == '4' && e == '0' {
                proof {
                    lemma_no_tag(s, octal_backslash, 0);
                    assert(octal_space.is_prefix_of(s));
                }
                Some((from + 3, " "))
            } else {
                proof {
                    lemma_no_tag(
                        s,
                        octal_backslash,
                        if c != '1' {
                            0
                        } else if d != '3' {
                            1
                        } else {
                            2
                        },
                    );
                    lemma_no_tag(
                        s,
                        octal_space,
                        if c != '0' {
                            0
                        } else if d != '4' {
                            1
                        } else {
                            2
                        },
                    );
                }
                None
            }
        } else {
            proof {
                lemma_no_tag(s, octal_backslash, 2);
                lemma_no_tag(s, octal_space, 2);
            }
            None
        }
    }
}

/// The text that `chars[from..to]` spells once its escapes are replaced.
fn unescape(chars: &[char], from: usize, to: usize) -> (r: Result<String, ParseError>)
    requires
        from <= to <= chars@.len(),
    ensures
        match r {
            Ok(text) => unescaped(chars@.subrange(from as int, to as int)) == Ok::<
                Seq<char>,
                ParseError,
            >(text@),
            Err(e) => unescaped(chars@.subrange(from as int, to as int)) == Err::<
                Seq<char>,
                ParseError,
            >(e),
        },
{
    let mut text: String = String::new();
    let mut i: usize = from;
    assert(Seq::<char>::empty() + Seq::<char>::empty() =~= Seq::<char>::empty());
    while i < to
        invariant
            from <= i <= to <= chars@.len(),
            unescaped(chars@.subrange(from as int, to as int)) == prepend(
                text@,
                unescaped(chars@.subrange(i as int, to as int)),
            ),
        decreases to - i,
    {
        let ghost here = chars@.subrange(i as int, to as int);
        let ghost before = text@;
        let c: char = chars[i];
        assert(here[0] == c);
        if c != '\\' {
            let ghost tail = unescaped(here.drop_first());
            assert(here.drop_first() =~= chars@.subrange(i + 1, to as int));
            text.push(c);
            proof {
                if let Ok(rest) = tail {
                    assert(before + (seq![c] + rest) =~= before.push(c) + rest);
                }
            }
            i = i + 1;
        } else if i + 1 == to {
            return Err(ParseError::DanglingEscape);
        } else {
            assert(here.drop_first() =~= chars@.subrange(i + 1, to as int));
            match escape_at(chars, i + 1, to) {
                Some((next, value)) => {
                    let ghost tail = unescaped(chars@.subrange(next as int, to as int));
                    text.append(value);
                    proof {
                        if let Ok(rest) = tail {
                            assert(before + (value@ + rest) =~= (before + value@) + rest);
                        }
                    }
                    i = next;
                },
                None => {
                    return Err(ParseError::UnknownEscape);
                },
            }
        }
    }
    assert(text@ + Seq::<char>::empty() =~= text@);
    Ok(text)
}

/// A whole text with its escapes replaced: `\\` and `\134` give a backslash,
/// `\040` gives a space, `\;` and `\,` are kept as they are. On success
/// nothing of the input is left.
pub fn transform_escaped(i: &str) -> (r: Result<(&str, String), ParseError>)
    ensures
        match r {
            Ok((rest, text)) => transform_escaped_spec(i@) == Ok::<
                (Seq<char>, Seq<char>),
                ParseError,
            >((rest@, text@)),
            Err(e) => transform_escaped_spec(i@) == Err::<(Seq<char>, Seq<char>), ParseError>(e),
        },
{
    let chars: Vec<char> = chars_of(i);
    assert(chars@.subrange(0, chars@.len() as int) =~= chars@);
    match unescape(chars.as_slice(), 0, chars.len()) {
        Ok(text) => {
            proof {
                reveal_strlit("");
                assert(""@ =~= Seq::<char>::empty());
            }
            Ok(("", text))
        },
        Err(e) => Err(e),
    }
}

/// What lies between two positions of a text, and what lies after the second,
/// in terms of what lies after the first.
proof fn lemma_split(s: Seq<char>, from: int, to: int)
    requires
        0 <= from <= to <= s.len(),
    ensures
        s.skip(from).take(to - from) == s.subrange(from, to),
        s.skip(from).skip(to - from) == s.skip(to),
{
    assert(s.skip(from).take(to - from) =~= s.subrange(from, to));
    assert(s.skip(from).skip(to - from) =~= s.skip(to));
}

/// The field that begins at `from`: where it ends.
fn word(chars: &[char], from: usize) -> (r: Result<usize, ParseError>)
    requires
        from <= chars@.len(),
    ensures
        match r {
            Ok(to) => from < to <= chars@.len() && word_spec(chars@.skip(from as int)) == Ok::<
                (Seq<char>, Seq<char>),
                ParseError,
            >((chars@.skip(to as int), chars@.subrange(from as int, to as int))),
            Err(e) => word_spec(chars@.skip(from as int)) == Err::<
                (Seq<char>, Seq<char>),
                ParseError,
            >(e),
        },
{
    let to: usize = scan(chars, from, Stop::AtBlank);
    if to == from {
        Err(ParseError::MissingField)
    } else {
        proof {
            lemma_split(chars@, from as int, to as int);
        }
        Ok(to)
    }
}

/// The separator that begins at `from`: where it ends.
fn blanks(chars: &[char], from: usize) -> (r: Result<usize, ParseError>)
    requires
        from <= chars@.len(),
    ensures
        match r {
            Ok(to) => from < to <= chars@.len() && blanks_spec(chars@.skip(from as int)) == Ok::<
                Seq<char>,
                ParseError,
            >(chars@.skip(to as int)),
            Err(e) => blanks_spec(chars@.skip(from as int)) == Err::<Seq<char>, ParseError>(e),
        },
{
    let to: usize = scan(chars, from, Stop::AtNonBlank);
    if to == from {
        Err(ParseError::MissingBlank)
    } else {
        proof {
            lemma_split(chars@, from as int, to as int);
        }
        Ok(to)
    }
}

/// The closing field at `from`: where it ends.
fn zero(chars: &[char], from: usize) -> (r: Result<usize, ParseError>)
    requires
        from <= chars@.len(),
    ensures
        match r {
            Ok(to) => from < to <= chars@.len() && zero_spec(chars@.skip(from as int)) == Ok::<
                Seq<char>,
                ParseError,
            >(chars@.skip(to as int)),
            Err(e) => zero_spec(chars@.skip(from as int)) == Err::<Seq<char>, ParseError>(e),
        },
{
    if from < chars.len() && chars[from] == '0' {
        proof {
            lemma_split(chars@, from as int, from + 1);
        }
        Ok(from + 1)
    } else {
        Err(ParseError::MissingZero)
    }
}

/// The field with escapes that begins at `from`: where it ends and what it
/// spells.
fn field(chars: &[char], from: usize) -> (r: Result<(usize, String), ParseError>)
    requires
        from <= chars@.len(),
    ensures
        match r {
            Ok((to, text)) => from < to <= chars@.len() && field_spec(chars@.skip(from as int))
                == Ok::<(Seq<char>, Seq<char>), ParseError>((chars@.skip(to as int), text@)),
            Err(e) => field_spec(chars@.skip(from as int)) == Err::<
                (Seq<char>, Seq<char>),
                ParseError,
            >(e),
        },
{
    match word(chars, from) {
        Ok(to) => match unescape(chars, from, to) {
            Ok(text) => Ok((to, text)),
            Err(e) => Err(e),
        },
        Err(e) => Err(e),
    }
}

/// The option that begins at `from`: where it ends and what it spells.
fn item(chars: &[char], from: usize) -> (r: Option<(usize, String)>)
    requires
        from <= chars@.len(),
    ensures
        match r {
            Some((to, text)) => from < to <= chars@.len() && item_spec(chars@.skip(from as int))
                == Some((chars@.skip(to as int), text@)),
            None => item_spec(chars@.skip(from as int)) is None,
        },
{
    let to: usize = scan(chars, from, Stop::AtItemEnd);
    if to == from {
        None
    } else {
        proof {
            lemma_split(chars@, from as int, to as int);
        }
        match unescape(chars, from, to) {
            Ok(text) => Some((to, text)),
            Err(_) => None,
        }
    }
}

/// The options that begin at `from`: where the list ends and what it holds.
fn items(chars: &[char], from: usize) -> (r: (usize, Vec<String>))
    requires
        from <= chars@.len(),
    ensures
        from <= r.0 <= chars@.len(),
        mount_opts_spec(chars@.skip(from as int)) == (chars@.skip(r.0 as int), texts(r.1@)),
{
    let mut list: Vec<String> = Vec::new();
    let mut pos: usize = from;
    match item(chars, from) {
        Some((to, text)) => {
            list.push(text);
            pos = to;
            assert(texts(list@) =~= seq![text@]);
        },
        None => {
            assert(texts(list@) =~= Seq::<Seq<char>>::empty());
            return (from, list);
        },
    }
    loop
        invariant
            from <= pos <= chars@.len(),
            mount_opts_spec(chars@.skip(from as int)) == (
                more_items_spec(chars@.skip(pos as int)).0,
                texts(list@) + more_items_spec(chars@.skip(pos as int)).1,
            ),
        decreases chars@.len() - pos,
    {
        let ghost here = chars@.skip(pos as int);
        let ghost before = texts(list@);
        if pos < chars.len() && chars[pos] == ',' {
            proof {
                lemma_split(chars@, pos as int, pos + 1);
            }
            match item(chars, pos + 1) {
                Some((to, text)) => {
                    list.push(text);
                    pos = to;
                    proof {
                        let after = more_items_spec(chars@.skip(to as int)).1;
                        assert(texts(list@) =~= before.push(text@));
                        assert(before + (seq![text@] + after) =~= before.push(text@) + after);
                    }
                },
                None => {
                    assert(before + Seq::<Seq<char>>::empty() =~= before);
                    return (pos, list);
                },
            }
        } else {
            assert(before + Seq::<Seq<char>>::empty() =~= before);
            return (pos, list);
        }
    }
}

/// Checks that the line ends at `from` as it should.
fn closing(chars: &[char], from: usize) -> (r: Result<(), ParseError>)
    requires
        from <= chars@.len(),
    ensures
        match r {
            Ok(_) => closing_spec(chars@.skip(from as int)) == Ok::<Seq<char>, ParseError>(
                Seq::empty(),
            ),
            Err(e) => closing_spec(chars@.skip(from as int)) == Err::<Seq<char>, ParseError>(e),
        },
{
    let first_zero: usize = match blanks(chars, from) {
        Ok(to) => to,
        Err(e) => {
            return Err(e);
        },
    };
    let gap: usize = match zero(chars, first_zero) {
        Ok(to) => to,
        Err(e) => {
            return Err(e);
        },
    };
    let second_zero: usize = match blanks(chars, gap) {
        Ok(to) => to,
        Err(e) => {
            return Err(e);
        },
    };
    let tail: usize = match zero(chars, second_zero) {
        Ok(to) => to,
        Err(e) => {
            return Err(e);
        },
    };
    let end: usize = scan(chars, tail, Stop::AtNonBlank);
    proof {
        lemma_split(chars@, tail as int, end as int);
    }
    if end == chars.len() {
        assert(chars@.skip(end as int) =~= Seq::<char>::empty());
        Ok(())
    } else {
        Err(ParseError::TrailingInput)
    }
}

/// The options at the start of `i`, separated by commas, each with its
/// escapes replaced, and the input that follows them. The list ends where no
/// further option can be read; this never fails.
pub fn mount_opts(i: &str) -> (r: Result<(&str, Vec<String>), ParseError>)
    ensures
        r matches Ok((rest, list)) && mount_opts_spec(i@) == (rest@, texts(list@)),
{
    let chars: Vec<char> = chars_of(i);
    assert(chars@.skip(0) =~= chars@);
    let (end, list): (usize, Vec<String>) = items(chars.as_slice(), 0);
    proof {
        assert(chars@.skip(end as int) =~= i@.subrange(end as int, i@.len() as int));
    }
    Ok((i.substring_char(end, chars.len()), list))
}

/// Parses one line of the mount table.
///
/// On success the whole line was read: the rest that is returned is empty.
pub fn parse_line(i: &str) -> (r: Result<(&str, Mount), ParseError>)
    ensures
        match r {
            Ok((rest, mount)) => parse_line_spec(i@) == Ok::<(Seq<char>, MountView), ParseError>(
                (rest@, mount@),
            ) && rest@.len() == 0,
            Err(e) => parse_line_spec(i@) == Err::<(Seq<char>, MountView), ParseError>(e),
        },
{
    let line: Vec<char> = chars_of(i);
    let chars: &[char] = line.as_slice();
    assert(chars@.skip(0) =~= chars@);
    let (device_end, device): (usize, String) = match field(chars, 0) {
        Ok(found) => found,
        Err(e) => {
            return Err(e);
        },
    };
    let point_start: usize = match blanks(chars, device_end) {
        Ok(to) => to,
        Err(e) => {
            return Err(e);
        },
    };
    let (point_end, mount_point): (usize, String) = match field(chars, point_start) {
        Ok(found) => found,
        Err(e) => {
            return Err(e);
        },
    };
    let system_start: usize = match blanks(chars, point_end) {
        Ok(to) => to,
        Err(e) => {
            return Err(e);
        },
    };
    let system_end: usize = match word(chars, system_start) {
        Ok(to) => to,
        Err(e) => {
            return Err(e);
        },
    };
    let filesystem: String = string_of(chars, system_start, system_end);
    let options_start: usize = match blanks(chars, system_end) {
        Ok(to) => to,
        Err(e) => {
            return Err(e);
        },
    };
    let (options_end, options): (usize, Vec<String>) = items(chars, options_start);
    match closing(chars, options_end) {
        Ok(_) => {},
        Err(e) => {
            return Err(e);
        },
    }
    proof {
        reveal_strlit("");
        assert(""@ =~= Seq::<char>::empty());
    }
    Ok(("", Mount { device, mount_point, filesystem, options }))
}

} // verus!
