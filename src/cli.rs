//! The command line: which flags set which part of the configuration.
//! A style flag replaces any earlier one; a flag whose value is missing or
//! malformed is ignored; the first word that is not a flag ends the list.

use crate::number::{color_of, parse_color, parse_decimal, parsed_u32};
use crate::paper::{Paper, Style};
use crate::text::same_text;
use vstd::prelude::*;

verus! {

/// What a command line asks for.
pub struct Options {
    pub paper: Paper,
    /// The usage text was asked for.
    pub help: bool,
}

/// The flags, each with its short and long spelling.
#[derive(PartialEq, Eq, Structural, Clone, Copy)]
pub enum Flag {
    Color,
    Image,
    Tiled,
    Dir,
    Output,
    Border,
    Help,
    Unknown,
}

/// The flag that the word `s` spells.
pub open spec fn flag_of(s: Seq<char>) -> Flag {
    if s == "-c"@ || s == "--color"@ {
        Flag::Color
    } else if s == "-i"@ || s == "--image"@ {
        Flag::Image
    } else if s == "-t"@ || s == "--tiled"@ {
        Flag::Tiled
    } else if s == "-d"@ || s == "--dir"@ {
        Flag::Dir
    } else if s == "-o"@ || s == "--output"@ {
        Flag::Output
    } else if s == "-b"@ || s == "--border"@ {
        Flag::Border
    } else if s == "-h"@ || s == "--help"@ {
        Flag::Help
    } else {
        Flag::Unknown
    }
}

/// `o` with its style replaced by `style`.
pub open spec fn with_style(o: Options, style: Style) -> Options {
    Options { paper: Paper { style, ..o.paper }, ..o }
}

/// What the words of `args` from position `i` on make of `o`.
pub open spec fn parse_from(args: Seq<String>, i: int, o: Options) -> Options
    decreases args.len() - i,
{
    if i < 0 || i >= args.len() {
        o
    } else {
        let v = i + 1;
        let has_value = v < args.len();
        match flag_of(args[i]@) {
            Flag::Unknown => o,
            Flag::Help => parse_from(args, v, Options { help: true, ..o }),
            Flag::Output => if has_value {
                parse_from(args, v + 1, Options { paper: Paper { output: Some(args[v]), ..o.paper }, ..o })
            } else {
                Options { paper: Paper { output: None, ..o.paper }, ..o }
            },
            Flag::Color => if has_value {
                parse_from(
                    args,
                    v + 1,
                    match color_of(args[v]@) {
                        Some(c) => with_style(o, Style::Color(c)),
                        None => o,
                    },
                )
            } else {
                o
            },
            Flag::Image => if has_value {
                parse_from(args, v + 1, with_style(o, Style::Image(args[v])))
            } else {
                o
            },
            Flag::Tiled => if has_value {
                parse_from(args, v + 1, with_style(o, Style::Tiled(args[v])))
            } else {
                o
            },
            Flag::Dir => if has_value {
                parse_from(args, v + 1, with_style(o, Style::Directory(args[v])))
            } else {
                o
            },
            Flag::Border => if has_value {
                match parsed_u32(args[v]@, 10) {
                    Some(gap) => if v + 1 < args.len() {
                        parse_from(
                            args,
                            v + 2,
                            match color_of(args[v + 1]@) {
                                Some(c) => Options {
                                    paper: Paper { border: Some((gap, c)), ..o.paper },
                                    ..o
                                },
                                None => o,
                            },
                        )
                    } else {
                        o
                    },
                    None => parse_from(args, v + 1, o),
                }
            } else {
                o
            },
        }
    }
}

/// The flag that the word `s` spells.
pub fn classify_flag(s: &str) -> (r: Flag)
    ensures
        r == flag_of(s@),
{
    if same_text(s, "-c") || same_text(s, "--color") {
        Flag::Color
    } else if same_text(s, "-i") || same_text(s, "--image") {
        Flag::Image
    } else if same_text(s, "-t") || same_text(s, "--tiled") {
        Flag::Tiled
    } else if same_text(s, "-d") || same_text(s, "--dir") {
        Flag::Dir
    } else if same_text(s, "-o") || same_text(s, "--output") {
        Flag::Output
    } else if same_text(s, "-b") || same_text(s, "--border") {
        Flag::Border
    } else if same_text(s, "-h") || same_text(s, "--help") {
        Flag::Help
    } else {
        Flag::Unknown
    }
}

/// Reads the command line `args`, the program's name left out.
pub fn parse_args(args: &Vec<String>) -> (r: Options)
    ensures
        r == parse_from(
            args@,
            0,
            Options { paper: Paper { style: Style::Blank, border: None, output: None }, help: false },
        ),
{
    let ghost start = Options {
        paper: Paper { style: Style::Blank, border: None, output: None },
        help: false,
    };
    let mut o = Options { paper: Paper::default(), help: false };
    let n: usize = args.len();
    let mut i: usize = 0;
    while i < n
        invariant
            i <= n,
            n == args@.len(),
            parse_from(args@, i as int, o) == parse_from(args@, 0, start),
            start == (Options {
                paper: Paper { style: Style::Blank, border: None, output: None },
                help: false,
            }),
        decreases n - i,
    {
        let v: usize = i + 1;
        match classify_flag(args[i].as_str()) {
            Flag::Unknown => {
                return o;
            },
            Flag::Help => {
                o.help = true;
                i = v;
            },
            Flag::Output => {
                if v < n {
                    o.paper.output = Some(args[v].clone());
                    i = v + 1;
                } else {
                    o.paper.output = None;
                    return o;
                }
            },
            Flag::Color => {
                if v < n {
                    if let Some(c) = parse_color(args[v].as_str()) {
                        o.paper.style(Style::Color(c));
                    }
                    i = v + 1;
                } else {
                    return o;
                }
            },
            Flag::Image => {
                if v < n {
                    o.paper.style(Style::Image(args[v].clone()));
                    i = v + 1;
                } else {
                    return o;
                }
            },
            Flag::Tiled => {
                if v < n {
                    o.paper.style(Style::Tiled(args[v].clone()));
                    i = v + 1;
                } else {
                    return o;
                }
            },
            Flag::Dir => {
                if v < n {
                    o.paper.style(Style::Directory(args[v].clone()));
                    i = v + 1;
                } else {
                    return o;
                }
            },
            Flag::Border => {
                if v < n {
                    match parse_decimal(args[v].as_str()) {
                        Some(gap) => {
                            if v + 1 < n {
                                if let Some(c) = parse_color(args[v + 1].as_str()) {
                                    o.paper.border(gap, c);
                                }
                                i = v + 2;
                            } else {
                                return o;
                            }
                        },
                        None => {
                            i = v + 1;
                        },
                    }
                } else {
                    return o;
                }
            },
        }
    }
    o
}

} // verus!
