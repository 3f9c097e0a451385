//! Removing comments from JSON-with-comments configuration text.
use vstd::prelude::*;
use crate::text::{chars_of, string_of};

verus! {

/// Where a left-to-right scan of JSON-with-comments text stands.
pub struct JsoncScan {
    /// How many block comments are open (a stray `*/` never makes it negative).
    pub depth: nat,
    /// Whether the scan is inside a string literal.
    pub in_string: bool,
    /// The character read but not yet written out.
    pub last: Option<char>,
    /// Whether the rest of the current line is a line comment.
    pub skip: bool,
    /// What the current line has produced so far.
    pub line: Seq<char>,
    /// What the finished lines have produced.
    pub out: Seq<char>,
}

pub open spec fn jsonc_start() -> JsoncScan {
    JsoncScan { depth: 0, in_string: false, last: None, skip: false, line: Seq::empty(), out: Seq::empty() }
}

/// Two blanks in place of a comment marker, when locations are kept.
pub open spec fn marker_blanks(keep: bool) -> Seq<char> {
    if keep {
        seq![' ', ' ']
    } else {
        Seq::empty()
    }
}

/// The pending character leaves the scan: written out outside comments,
/// replaced by a blank inside one when locations are kept.
pub open spec fn flush_last(s: JsoncScan, keep: bool) -> Seq<char> {
    if s.depth == 0 {
        match s.last {
            Some(l) => s.line.push(l),
            None => s.line,
        }
    } else if keep {
        s.line.push(' ')
    } else {
        s.line
    }
}

/// One character that is not a line break.
pub open spec fn jsonc_char(s: JsoncScan, c: char, keep: bool) -> JsoncScan {
    if s.skip {
        s
    } else {
        let in_string = if s.depth == 0 && s.last != Some('\\') && c == '"' {
            !s.in_string
        } else {
            s.in_string
        };
        let s1 = JsoncScan { in_string, ..s };
        if !in_string && s.last == Some('/') && c == '/' {
            JsoncScan { skip: true, last: None, line: s.line + marker_blanks(keep), ..s1 }
        } else if !in_string && s.last == Some('/') && c == '*' {
            JsoncScan { depth: s.depth + 1, last: None, line: s.line + marker_blanks(keep), ..s1 }
        } else if !in_string && s.last == Some('*') && c == '/' {
            JsoncScan {
                depth: if s.depth > 0 { (s.depth - 1) as nat } else { 0 },
                last: None,
                line: s.line + marker_blanks(keep),
                ..s1
            }
        } else {
            JsoncScan {
                line: if s.depth == 0 {
                    match s.last {
                        Some(l) => s.line.push(l),
                        None => s.line,
                    }
                } else if keep {
                    s.line.push(' ')
                } else {
                    s.line
                },
                last: Some(c),
                ..s1
            }
        }
    }
}

/// `l` without its trailing blanks.
pub open spec fn trim_blanks(l: Seq<char>) -> Seq<char>
    decreases l.len(),
{
    if l.len() > 0 && l.last() == ' ' {
        trim_blanks(l.drop_last())
    } else {
        l
    }
}

/// The end of a line: the pending character is flushed, trailing blanks are
/// dropped and a line break is written.
pub open spec fn jsonc_line_end(s: JsoncScan, keep: bool) -> JsoncScan {
    JsoncScan {
        last: None,
        skip: false,
        line: Seq::empty(),
        out: s.out + trim_blanks(flush_last(s, keep)) + seq!['\n'],
        ..s
    }
}

/// The scan after reading all of `input`.
pub open spec fn jsonc_scan(input: Seq<char>, keep: bool) -> JsoncScan
    decreases input.len(),
{
    if input.len() == 0 {
        jsonc_start()
    } else {
        let s = jsonc_scan(input.drop_last(), keep);
        if input.last() == '\n' {
            jsonc_line_end(s, keep)
        } else {
            jsonc_char(s, input.last(), keep)
        }
    }
}

/// The text with its comments removed; every line, the last one included,
/// ends with a line break.
pub open spec fn strip_jsonc_spec(input: Seq<char>, keep: bool) -> Seq<char> {
    jsonc_line_end(jsonc_scan(input, keep), keep).out
}

proof fn lemma_scan_depth(input: Seq<char>, keep: bool)
    ensures
        jsonc_scan(input, keep).depth <= input.len(),
        jsonc_scan(input, keep).last is Some ==> !jsonc_scan(input, keep).skip,
    decreases input.len(),
{
    if input.len() > 0 {
        lemma_scan_depth(input.drop_last(), keep);
    }
}

/// Ends the line held in `line`: writes the pending character as the scan
/// says, drops trailing blanks and appends the line and a line break to `out`.
fn end_line(out: &mut Vec<char>, line: &mut Vec<char>, depth: usize, last: Option<char>, keep: bool)
    ensures
        final(out)@ == old(out)@ + trim_blanks(
            flush_last(
                JsoncScan { depth: depth as nat, in_string: false, last, skip: false, line: old(line)@, out: Seq::empty() },
                keep,
            ),
        ) + seq!['\n'],
        final(line)@.len() == 0,
{
    let ghost flushed = flush_last(
        JsoncScan { depth: depth as nat, in_string: false, last, skip: false, line: line@, out: Seq::empty() },
        keep,
    );
    if depth == 0 {
        match last {
            Some(l) => line.push(l),
            None => {},
        }
    } else if keep {
        line.push(' ');
    }
    assert(line@ == flushed);
    while line.len() > 0 && line[line.len() - 1] == ' '
        invariant
            trim_blanks(line@) == trim_blanks(flushed),
        decreases line.len(),
    {
        line.pop();
    }
    out.append(line);
    out.push('\n');
}

/// Takes JSON-with-comments text and returns it without comments, so that it
/// parses as plain JSON. Block comments nest. With `preserve_locations`,
/// comments become blanks, so that positions in the result match the input.
pub fn strip_jsonc_comments(jsonc_input: &str, preserve_locations: bool) -> (r: String)
    ensures
        r@ == strip_jsonc_spec(jsonc_input@, preserve_locations),
{
    let input = chars_of(jsonc_input);
    let keep = preserve_locations;
    let mut out: Vec<char> = Vec::new();
    let mut line: Vec<char> = Vec::new();
    let mut depth: usize = 0;
    let mut in_string = false;
    let mut last: Option<char> = None;
    let mut skip = false;
    let mut i: usize = 0;
    while i < input.len()
        invariant
            i <= input@.len(),
            input@ == jsonc_input@,
            ({
                let s = jsonc_scan(input@.take(i as int), keep);
                &&& s.depth == depth as nat
                &&& s.in_string == in_string
                &&& s.last == last
                &&& s.skip == skip
                &&& s.line == line@
                &&& s.out == out@
            }),
        decreases input.len() - i,
    {
        let c = input[i];
        proof {
            assert(input@.take(i + 1).drop_last() =~= input@.take(i as int));
            lemma_scan_depth(input@.take(i as int), keep);
        }
        if c == '\n' {
            end_line(&mut out, &mut line, depth, last, keep);
            last = None;
            skip = false;
        } else if !skip {
            if depth == 0 && last != Some('\\') && c == '"' {
                in_string = !in_string;
            }
            if !in_string && last == Some('/') && c == '/' {
                last = None;
                if keep {
                    line.push(' ');
                    line.push(' ');
                }
                skip = true;
            } else if !in_string && last == Some('/') && c == '*' {
                depth = depth + 1;
                last = None;
                if keep {
                    line.push(' ');
                    line.push(' ');
                }
            } else if !in_string && last == Some('*') && c == '/' {
                depth = if depth > 0 { depth - 1 } else { 0 };
                last = None;
                if keep {
                    line.push(' ');
                    line.push(' ');
                }
            } else {
                if depth == 0 {
                    match last {
                        Some(l) => line.push(l),
                        None => {},
                    }
                } else if keep {
                    line.push(' ');
                }
                last = Some(c);
            }
        }
        proof {
            let s = jsonc_scan(input@.take(i + 1), keep);
            assert(s.line =~= line@);
            assert(s.out =~= out@);
        }
        i = i + 1;
    }
    proof {
        assert(input@.take(input@.len() as int) =~= input@);
    }
    end_line(&mut out, &mut line, depth, last, keep);
    string_of(out.as_slice())
}

} // verus!
