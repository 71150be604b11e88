//! The parser is held against the same grammar written with nom's
//! combinators: both must accept the same inputs, produce the same values and
//! leave the same rest, and fail for the same kind of reason.

use nom::branch::alt;
use nom::bytes::complete::{escaped_transform, is_not, tag};
use nom::character::complete::{char, space0, space1};
use nom::combinator::{all_consuming, map_parser, recognize, value};
use nom::error::ErrorKind;
use nom::multi::separated_list0;
use nom::sequence::tuple;
use nom::IResult;
use toolbox::mounts::grammar::ParseError;
use toolbox::mounts::parser::{mount_opts, not_whitespace, parse_line, transform_escaped};

fn nom_not_whitespace(i: &str) -> IResult<&str, &str> {
    is_not(" \t")(i)
}

fn nom_escaped_space(i: &str) -> IResult<&str, &str> {
    value(" ", tag("040"))(i)
}

fn nom_escaped_backslash1(i: &str) -> IResult<&str, &str> {
    recognize(char('\\'))(i)
}

fn nom_escaped_backslash2(i: &str) -> IResult<&str, &str> {
    value("\\", tag("134"))(i)
}

fn nom_escaped_semicolon(i: &str) -> IResult<&str, &str> {
    value("\\;", tag(";"))(i)
}

fn nom_escaped_comma(i: &str) -> IResult<&str, &str> {
    value("\\,", tag(","))(i)
}

fn nom_transform_escaped(i: &str) -> IResult<&str, String> {
    escaped_transform(
        is_not("\\"),
        '\\',
        alt((
            nom_escaped_backslash1,
            nom_escaped_backslash2,
            nom_escaped_space,
            nom_escaped_semicolon,
            nom_escaped_comma,
        )),
    )(i)
}

fn nom_mount_opts(i: &str) -> IResult<&str, Vec<String>> {
    separated_list0(char(','), map_parser(is_not(", \t"), nom_transform_escaped))(i)
}

struct Fields {
    device: String,
    mount_point: String,
    filesystem: String,
    options: Vec<String>,
}

fn nom_parse_line(i: &str) -> IResult<&str, Fields> {
    let (i, device) = map_parser(nom_not_whitespace, nom_transform_escaped)(i)?;
    let (i, _) = space1(i)?;
    let (i, mount_point) = map_parser(nom_not_whitespace, nom_transform_escaped)(i)?;
    let (i, _) = space1(i)?;
    let (i, filesystem) = nom_not_whitespace(i)?;
    let (i, _) = space1(i)?;
    let (i, options) = nom_mount_opts(i)?;
    let (i, _) = all_consuming(tuple((space1, char('0'), space1, char('0'), space0)))(i)?;
    Ok((
        i,
        Fields {
            device,
            mount_point,
            filesystem: filesystem.to_string(),
            options,
        },
    ))
}

fn kind_of<T>(r: &IResult<&str, T>) -> Option<ParseError> {
    match r {
        Ok(_) => None,
        Err(nom::Err::Error(e)) | Err(nom::Err::Failure(e)) => Some(match e.code {
            ErrorKind::IsNot => ParseError::MissingField,
            ErrorKind::Space => ParseError::MissingBlank,
            ErrorKind::EscapedTransform => ParseError::DanglingEscape,
            ErrorKind::Tag => ParseError::UnknownEscape,
            ErrorKind::Char => ParseError::MissingZero,
            ErrorKind::Eof => ParseError::TrailingInput,
            other => panic!("unexpected kind {:?}", other),
        }),
        Err(nom::Err::Incomplete(_)) => panic!("incomplete"),
    }
}

const ALPHABET: [char; 11] = ['a', ' ', '\t', ',', ';', '\\', '0', '1', '3', '4', 'é'];

/// Every string over the alphabet with at most `max` characters.
fn all_strings(max: usize) -> Vec<String> {
    let mut out = vec![String::new()];
    let mut last = vec![String::new()];
    for _ in 0..max {
        let mut next = Vec::new();
        for s in &last {
            for c in ALPHABET {
                let mut t = s.clone();
                t.push(c);
                next.push(t);
            }
        }
        out.extend(next.iter().cloned());
        last = next;
    }
    out
}

#[test]
fn not_whitespace_agrees_with_nom() {
    for s in all_strings(4) {
        let theirs = nom_not_whitespace(&s);
        match not_whitespace(&s) {
            Ok(pair) => assert_eq!(theirs, Ok(pair), "{:?}", s),
            Err(e) => assert_eq!(kind_of(&theirs), Some(e), "{:?}", s),
        }
    }
}

#[test]
fn transform_escaped_agrees_with_nom() {
    for s in all_strings(5) {
        let theirs = nom_transform_escaped(&s);
        match transform_escaped(&s) {
            Ok((rest, text)) => assert_eq!(theirs, Ok((rest, text)), "{:?}", s),
            Err(e) => assert_eq!(kind_of(&theirs), Some(e), "{:?}", s),
        }
    }
}

#[test]
fn mount_opts_agrees_with_nom() {
    for s in all_strings(5) {
        let theirs = nom_mount_opts(&s);
        let ours = mount_opts(&s);
        match ours {
            Ok((rest, list)) => assert_eq!(theirs, Ok((rest, list)), "{:?}", s),
            Err(e) => panic!("{:?} on {:?}", e, s),
        }
    }
}

fn same_line(line: &str) {
    let theirs = nom_parse_line(line);
    match parse_line(line) {
        Ok((rest, m)) => {
            let (their_rest, f) = match theirs {
                Ok(found) => found,
                Err(e) => panic!("accepted {:?}, nom says {:?}", line, e),
            };
            assert_eq!(rest, their_rest, "{:?}", line);
            assert_eq!(m.device, f.device, "{:?}", line);
            assert_eq!(m.mount_point, f.mount_point, "{:?}", line);
            assert_eq!(m.filesystem, f.filesystem, "{:?}", line);
            assert_eq!(m.options, f.options, "{:?}", line);
        }
        Err(e) => assert_eq!(kind_of(&theirs), Some(e), "{:?}", line),
    }
}

#[test]
fn parse_line_agrees_with_nom_on_short_inputs() {
    for s in all_strings(4) {
        same_line(&s);
    }
}

#[test]
fn parse_line_agrees_with_nom_on_assembled_lines() {
    let devices = ["/dev/sda1", "C:\\134", "a\\040b", "x\\", "x\\q", "", "é\\\\", "a\\;b\\,c"];
    let blanks = [" ", "\t", " \t ", ""];
    let points = ["/", "/mnt/my\\040disk", "/mnt/\\04", "m\\"];
    let systems = ["ext4", "9p\\040", ""];
    let options = [
        "rw",
        "rw,relatime",
        "a,b=c,d\\040e,f=abc;path=C:\\;uid=1000",
        "",
        ",rw",
        "rw,",
        "rw,,x",
        "a\\,b",
        "rw,a\\x",
        "0",
    ];
    let closings = [" 0 0", "\t0\t0\t ", " 0 0 x", " 0 1", " 1 0", " 0", " 00", "", " 0 0\n", "0 0"];
    for d in devices {
        for b in blanks {
            for p in points {
                for s in systems {
                    for o in options {
                        for c in closings {
                            let line = format!("{d}{b}{p}{b}{s} {o}{c}");
                            same_line(&line);
                        }
                    }
                }
            }
        }
    }
}

#[test]
fn parse_line_agrees_with_nom_on_scrambled_lines() {
    // A fixed pseudo-random sequence: lines that are nearly right.
    let base: Vec<char> = "d\\040ev /m\\134nt fs rw,a=b\\040c,x 0 0 ".chars().collect();
    let mut state: u64 = 0x2545F491;
    let mut next = move || {
        state = state
            .wrapping_mul(6364136223846793005)
            .wrapping_add(1442695040888963407);
        (state >> 33) as usize
    };
    for _ in 0..20000 {
        let mut line = base.clone();
        for _ in 0..(1 + next() % 3) {
            let at = next() % (line.len() + 1);
            match next() % 3 {
                0 if at < line.len() => {
                    line.remove(at);
                }
                1 if at < line.len() => line[at] = ALPHABET[next() % ALPHABET.len()],
                _ => line.insert(at, ALPHABET[next() % ALPHABET.len()]),
            }
        }
        let line: String = line.into_iter().collect();
        same_line(&line);
    }
}
