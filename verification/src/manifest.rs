//! Manifest parsing: newline-separated `SOURCE -> TARGET` lines into an
//! ordered sequence of normalized link pairs.

use crate::paths::normalize_component;
use crate::paths::spec_normalize;
use crate::paths::PathError;
use crate::render::dec_rep;
use crate::render::usize_to_string;
use vstd::prelude::*;
use vstd::string::StrSliceExecFns;
use vstd::string::StringExecFns;

verus! {

/// One desired link: a normalized (source, target) pair.
pub type SymPair = (String, String);

/// The segments of `s` delimited by newline characters.  The empty text is
/// one empty segment; a trailing newline contributes a final empty segment.
pub open spec fn split_lines(s: Seq<char>) -> Seq<Seq<char>>
    decreases s.len(),
{
    if s.len() == 0 {
        seq![Seq::<char>::empty()]
    } else {
        let rest = split_lines(s.drop_last());
        if s.last() == '\n' {
            rest.push(Seq::<char>::empty())
        } else {
            rest.update(rest.len() - 1, rest.last().push(s.last()))
        }
    }
}

proof fn lemma_split_lines_nonempty(s: Seq<char>)
    ensures
        split_lines(s).len() >= 1,
    decreases s.len(),
{
    if s.len() > 0 {
        lemma_split_lines_nonempty(s.drop_last());
    }
}

fn split_lines_exec(s: &str) -> (lines: Vec<String>)
    ensures
        lines.deep_view() == split_lines(s@),
{
    let n = s.unicode_len();
    let mut done: Vec<String> = Vec::new();
    let mut cur = String::new();
    let mut i: usize = 0;
    proof {
        assert(done.deep_view().push(cur@) =~= split_lines(s@.subrange(0, 0)));
    }
    while i < n
        invariant
            n == s@.len(),
            i <= n,
            done.deep_view().push(cur@) == split_lines(s@.subrange(0, i as int)),
        decreases n - i,
    {
        let c = s.get_char(i);
        proof {
            let ext = s@.subrange(0, i + 1);
            assert(ext.drop_last() =~= s@.subrange(0, i as int));
            assert(ext.last() == s@[i as int]);
            lemma_split_lines_nonempty(s@.subrange(0, i as int));
        }
        let ghost prev = done.deep_view();
        let ghost prev_cur = cur@;
        let ghost rest = split_lines(s@.subrange(0, i as int));
        if c == '\n' {
            done.push(cur);
            cur = String::new();
            proof {
                assert(done.deep_view() =~= prev.push(prev_cur));
                assert(split_lines(s@.subrange(0, i + 1)) == rest.push(Seq::<char>::empty()));
                assert(done.deep_view().push(cur@) =~= rest.push(Seq::<char>::empty()));
            }
        } else {
            let piece = s.substring_char(i, i + 1);
            proof {
                assert(piece@ =~= seq![s@[i as int]]);
            }
            cur.append(piece);
            proof {
                assert(prev_cur + seq![s@[i as int]] =~= prev_cur.push(s@[i as int]));
                assert(cur@ == prev_cur.push(s@[i as int]));
                assert(split_lines(s@.subrange(0, i + 1)) == rest.update(
                    rest.len() - 1,
                    rest.last().push(s@[i as int]),
                ));
                assert(rest.last() == prev_cur);
                assert(done.deep_view().push(cur@) =~= rest.update(rest.len() - 1, cur@));
            }
        }
        i = i + 1;
    }
    proof {
        assert(s@.subrange(0, n as int) =~= s@);
    }
    done.push(cur);
    proof {
        assert(done.deep_view() =~= split_lines(s@));
    }
    done
}

/// The delimiter that separates the two sides of a manifest line.
pub open spec fn arrow() -> Seq<char> {
    seq![' ', '-', '>', ' ']
}

/// Whether the delimiter occurs in `line` at position `i`.
pub open spec fn arrow_at(line: Seq<char>, i: int) -> bool {
    0 <= i && i + 4 <= line.len() && line.subrange(i, i + 4) == arrow()
}

/// The position of the first delimiter occurrence in `line`, if any.
pub open spec fn first_arrow(line: Seq<char>) -> Option<int>
    decreases line.len(),
{
    if line.len() < 4 {
        None
    } else if arrow_at(line, 0) {
        Some(0)
    } else {
        match first_arrow(line.skip(1)) {
            Some(i) => Some(i + 1),
            None => None,
        }
    }
}

proof fn lemma_arrow_shift(line: Seq<char>, j: int)
    requires
        line.len() >= 1,
        0 <= j,
    ensures
        arrow_at(line, j + 1) == arrow_at(line.skip(1), j),
{
    if 0 <= j && j + 4 <= line.skip(1).len() {
        assert(line.subrange(j + 1, j + 5) =~= line.skip(1).subrange(j, j + 4));
    }
}

proof fn lemma_first_arrow(line: Seq<char>)
    ensures
        match first_arrow(line) {
            Some(i) => arrow_at(line, i) && (forall|j: int| 0 <= j < i ==> !arrow_at(line, j)),
            None => forall|j: int| !arrow_at(line, j),
        },
    decreases line.len(),
{
    if line.len() < 4 {
    } else if arrow_at(line, 0) {
    } else {
        lemma_first_arrow(line.skip(1));
        match first_arrow(line.skip(1)) {
            Some(i) => {
                lemma_arrow_shift(line, i);
                assert(arrow_at(line, i + 1));
                assert forall|j: int| 0 <= j < i + 1 implies !arrow_at(line, j) by {
                    if j > 0 {
                        lemma_arrow_shift(line, j - 1);
                        assert(!arrow_at(line.skip(1), j - 1));
                    }
                }
            },
            None => {
                assert forall|j: int| !arrow_at(line, j) by {
                    if j > 0 {
                        lemma_arrow_shift(line, j - 1);
                        assert(!arrow_at(line.skip(1), j - 1));
                    }
                }
            },
        }
    }
}

fn find_arrow(line: &str) -> (r: Option<usize>)
    ensures
        match r {
            Some(i) => first_arrow(line@) == Some(i as int),
            None => first_arrow(line@) is None,
        },
{
    proof {
        lemma_first_arrow(line@);
    }
    let n = line.unicode_len();
    if n < 4 {
        proof {
            match first_arrow(line@) {
                Some(k) => {
                    assert(arrow_at(line@, k));
                    assert(false);
                },
                None => {},
            }
        }
        return None;
    }
    let mut i: usize = 0;
    while i <= n - 4
        invariant
            n == line@.len(),
            4 <= n,
            i <= n - 3,
            forall|j: int| 0 <= j < i ==> !arrow_at(line@, j),
        decreases n - i,
    {
        let c0 = line.get_char(i);
        let c1 = line.get_char(i + 1);
        let c2 = line.get_char(i + 2);
        let c3 = line.get_char(i + 3);
        if c0 == ' ' && c1 == '-' && c2 == '>' && c3 == ' ' {
            proof {
                lemma_first_arrow(line@);
                assert(line@.subrange(i as int, i + 4) =~= arrow());
                assert(arrow_at(line@, i as int));
                match first_arrow(line@) {
                    Some(k) => {
                        if k < i {
                            assert(!arrow_at(line@, k));
                            assert(false);
                        }
                        if k > i {
                            assert(!arrow_at(line@, i as int));
                            assert(false);
                        }
                    },
                    None => {
                        assert(!arrow_at(line@, i as int));
                        assert(false);
                    },
                }
            }
            return Some(i);
        }
        proof {
            if arrow_at(line@, i as int) {
                let sub = line@.subrange(i as int, i + 4);
                assert(sub[0] == line@[i as int]);
                assert(sub[1] == line@[i + 1]);
                assert(sub[2] == line@[i + 2]);
                assert(sub[3] == line@[i + 3]);
                assert(sub == arrow());
                assert(false);
            }
        }
        i = i + 1;
    }
    proof {
        match first_arrow(line@) {
            Some(k) => {
                assert(arrow_at(line@, k));
                assert(k < i);
                assert(false);
            },
            None => {},
        }
    }
    None
}

/// A parse failure description, over mathematical values.
pub enum SpecParseError {
    /// A non-empty line without the ` -> ` delimiter, with its 1-based
    /// number and its text.
    Syntax { line: int, found: Seq<char> },
    /// A side of a pair that could not be normalized.
    Path { err: PathError },
}

/// Why manifest text could not be parsed.
#[derive(Debug)]
pub enum ParseError {
    /// A non-empty line without the ` -> ` delimiter, with its 1-based
    /// number and its text.
    Syntax { line: usize, found: String },
    /// A side of a pair that could not be normalized.
    Path { err: PathError },
}

impl View for ParseError {
    type V = SpecParseError;

    open spec fn view(&self) -> SpecParseError {
        match self {
            ParseError::Syntax { line, found } => SpecParseError::Syntax {
                line: *line as int,
                found: found@,
            },
            ParseError::Path { err } => SpecParseError::Path { err: *err },
        }
    }
}

/// The parse of one non-empty manifest line numbered `num`: the text on
/// each side of the first delimiter occurrence, each side normalized, the
/// source side first.
pub open spec fn spec_parse_line(line: Seq<char>, num: int, home: Seq<char>, cwd: Seq<char>) -> Result<
    (Seq<char>, Seq<char>),
    SpecParseError,
> {
    match first_arrow(line) {
        None => Err(SpecParseError::Syntax { line: num, found: line }),
        Some(i) => {
            let src_raw = line.subrange(0, i);
            let dst_raw = line.subrange(i + 4, line.len() as int);
            if src_raw.len() == 0 {
                Err(SpecParseError::Path { err: PathError::EmptyPath })
            } else if dst_raw.len() == 0 {
                Err(SpecParseError::Path { err: PathError::EmptyPath })
            } else {
                Ok((spec_normalize(src_raw, home, cwd), spec_normalize(dst_raw, home, cwd)))
            }
        },
    }
}

/// `l` without its trailing carriage return, if it has one — the remnant
/// a CRLF line ending leaves once the text is split at newlines.
pub open spec fn strip_cr(l: Seq<char>) -> Seq<char> {
    if l.len() > 0 && l.last() == '\r' {
        l.drop_last()
    } else {
        l
    }
}

/// The parse of the lines numbered from `base + 1` on: empty lines are
/// skipped, every other line must parse, and the first failing line aborts
/// the whole parse.
pub open spec fn spec_parse_lines(
    lines: Seq<Seq<char>>,
    base: int,
    home: Seq<char>,
    cwd: Seq<char>,
) -> Result<Seq<(Seq<char>, Seq<char>)>, SpecParseError>
    decreases lines.len(),
{
    if lines.len() == 0 {
        Ok(Seq::empty())
    } else if strip_cr(lines[0]).len() == 0 {
        spec_parse_lines(lines.skip(1), base + 1, home, cwd)
    } else {
        match spec_parse_line(strip_cr(lines[0]), base + 1, home, cwd) {
            Err(e) => Err(e),
            Ok(pair) => match spec_parse_lines(lines.skip(1), base + 1, home, cwd) {
                Err(e) => Err(e),
                Ok(rest) => Ok(seq![pair] + rest),
            },
        }
    }
}

/// The parse of whole manifest text.
pub open spec fn spec_parse(text: Seq<char>, home: Seq<char>, cwd: Seq<char>) -> Result<
    Seq<(Seq<char>, Seq<char>)>,
    SpecParseError,
> {
    spec_parse_lines(split_lines(text), 0, home, cwd)
}

spec fn merge_parsed(
    acc: Seq<(Seq<char>, Seq<char>)>,
    r: Result<Seq<(Seq<char>, Seq<char>)>, SpecParseError>,
) -> Result<Seq<(Seq<char>, Seq<char>)>, SpecParseError> {
    match r {
        Ok(rest) => Ok(acc + rest),
        Err(e) => Err(e),
    }
}

/// Splits manifest text into normalized link pairs, one per non-empty
/// line, in file order.
///
/// A non-empty line without the ` -> ` delimiter fails the whole parse
/// with a syntax error carrying that line's 1-based number and text; a
/// side that normalization rejects fails it with that path error, the
/// source side being tried before the target side.
pub fn parse_links(file: String, home: &str, cwd: &str) -> (r: Result<Vec<SymPair>, ParseError>)
    ensures
        (match r {
            Ok(v) => spec_parse(file@, home@, cwd@) matches Ok(ps) && v.deep_view() == ps,
            Err(e) => spec_parse(file@, home@, cwd@) matches Err(se) && e@ == se,
        }),
{
    let lines = split_lines_exec(file.as_str());
    let ghost all = split_lines(file@);
    let ghost full = spec_parse_lines(all, 0, home@, cwd@);
    let mut acc: Vec<SymPair> = Vec::new();
    let n = lines.len();
    let mut i: usize = 0;
    proof {
        assert(all.skip(0) =~= all);
        match full {
            Ok(ps) => {
                assert(acc.deep_view() + ps =~= ps);
            },
            Err(_) => {},
        }
    }
    while i < n
        invariant
            n == lines.len(),
            i <= n,
            all == split_lines(file@),
            lines.deep_view() == all,
            full == spec_parse_lines(all, 0, home@, cwd@),
            merge_parsed(
                acc.deep_view(),
                spec_parse_lines(all.skip(i as int), i as int, home@, cwd@),
            ) == full,
        decreases n - i,
    {
        let ghost cur = spec_parse_lines(all.skip(i as int), i as int, home@, cwd@);
        proof {
            assert(all.skip(i as int)[0] == all[i as int]);
            assert(all.skip(i as int).skip(1) =~= all.skip(i + 1));
            assert(lines.deep_view()[i as int] == lines[i as int]@);
        }
        let raw_line = &lines[i];
        proof {
            assert(raw_line@ == all[i as int]);
        }
        let raw_len = raw_line.as_str().unicode_len();
        let line: &str = if raw_len > 0 && raw_line.as_str().get_char(raw_len - 1) == '\r' {
            raw_line.as_str().substring_char(0, raw_len - 1)
        } else {
            raw_line.as_str()
        };
        proof {
            if raw_len > 0 && raw_line@.last() == '\r' {
                assert(line@ =~= all[i as int].drop_last());
            }
            assert(line@ == strip_cr(all[i as int]));
        }
        if line.unicode_len() == 0 {
            proof {
                assert(cur == spec_parse_lines(all.skip(i + 1), i + 1, home@, cwd@));
            }
            i = i + 1;
            continue;
        }
        let ghost lparse = spec_parse_line(strip_cr(all[i as int]), i + 1, home@, cwd@);
        match find_arrow(line) {
            None => {
                let e = ParseError::Syntax { line: i + 1, found: line.to_owned() };
                proof {
                    assert(lparse == Result::<(Seq<char>, Seq<char>), SpecParseError>::Err(
                        SpecParseError::Syntax { line: i + 1, found: strip_cr(all[i as int]) },
                    ));
                    assert(cur == Result::<Seq<(Seq<char>, Seq<char>)>, SpecParseError>::Err(
                        SpecParseError::Syntax { line: i + 1, found: strip_cr(all[i as int]) },
                    ));
                    assert(e@ == SpecParseError::Syntax {
                        line: i + 1,
                        found: strip_cr(all[i as int]),
                    });
                }
                return Err(e);
            },
            Some(a) => {
                proof {
                    lemma_first_arrow(line@);
                    assert(arrow_at(line@, a as int));
                }
                let len = line.unicode_len();
                let src_raw = line.substring_char(0, a);
                let dst_raw = line.substring_char(a + 4, len);
                proof {
                    assert(src_raw@ == strip_cr(all[i as int]).subrange(0, a as int));
                    assert(dst_raw@ == strip_cr(all[i as int]).subrange(
                        a + 4,
                        strip_cr(all[i as int]).len() as int,
                    ));
                }
                let src = match normalize_component(src_raw, home, cwd) {
                    Ok(s) => s,
                    Err(err) => {
                        proof {
                            assert(src_raw@.len() == 0);
                            assert(lparse == Result::<(Seq<char>, Seq<char>), SpecParseError>::Err(
                                SpecParseError::Path { err: PathError::EmptyPath },
                            ));
                            assert(cur == Result::<
                                Seq<(Seq<char>, Seq<char>)>,
                                SpecParseError,
                            >::Err(SpecParseError::Path { err: PathError::EmptyPath }));
                        }
                        return Err(ParseError::Path { err });
                    },
                };
                let dst = match normalize_component(dst_raw, home, cwd) {
                    Ok(s) => s,
                    Err(err) => {
                        proof {
                            assert(dst_raw@.len() == 0);
                            assert(src_raw@.len() != 0);
                            assert(lparse == Result::<(Seq<char>, Seq<char>), SpecParseError>::Err(
                                SpecParseError::Path { err: PathError::EmptyPath },
                            ));
                            assert(cur == Result::<
                                Seq<(Seq<char>, Seq<char>)>,
                                SpecParseError,
                            >::Err(SpecParseError::Path { err: PathError::EmptyPath }));
                        }
                        return Err(ParseError::Path { err });
                    },
                };
                let ghost pair = (src@, dst@);
                let ghost rest = spec_parse_lines(all.skip(i + 1), i + 1, home@, cwd@);
                let ghost prev = acc.deep_view();
                proof {
                    assert(lparse == Result::<(Seq<char>, Seq<char>), SpecParseError>::Ok(pair));
                }
                acc.push((src, dst));
                proof {
                    assert(acc.deep_view() =~= prev.push(pair));
                    match rest {
                        Ok(rs) => {
                            assert(cur == Result::<Seq<(Seq<char>, Seq<char>)>, SpecParseError>::Ok(
                                seq![pair] + rs,
                            ));
                            assert(prev.push(pair) + rs =~= prev + (seq![pair] + rs));
                        },
                        Err(_) => {
                            assert(cur == rest);
                        },
                    }
                }
                i = i + 1;
            },
        }
    }
    proof {
        assert(all.skip(n as int) =~= Seq::<Seq<char>>::empty());
        assert(acc.deep_view() + Seq::<(Seq<char>, Seq<char>)>::empty() =~= acc.deep_view());
    }
    Ok(acc)
}

/// The message text for a syntax failure: the 1-based line number and the
/// offending line, with the expected pattern.
pub open spec fn syntax_message(num: int, found: Seq<char>) -> Seq<char> {
    "Syntax error in line "@ + dec_rep(num as nat)
        + ". Expected the following pattern: SRC_PATH -> DEST_PATH. Found: "@ + found
}

/// The message text for a side that could not be normalized.
pub open spec fn empty_path_message() -> Seq<char> {
    "Empty path"@
}

/// The message text of a parse failure.
pub open spec fn parse_error_message(e: SpecParseError) -> Seq<char> {
    match e {
        SpecParseError::Syntax { line, found } => syntax_message(line, found),
        SpecParseError::Path { err: _ } => empty_path_message(),
    }
}

/// Renders a parse failure as its human-readable message.
pub fn parse_error_text(e: &ParseError) -> (s: String)
    ensures
        s@ == parse_error_message(e@),
{
    match e {
        ParseError::Syntax { line, found } => {
            let mut s = "Syntax error in line ".to_owned();
            let num = usize_to_string(*line);
            s.append(num.as_str());
            s.append(". Expected the following pattern: SRC_PATH -> DEST_PATH. Found: ");
            s.append(found.as_str());
            s
        },
        ParseError::Path { err: _ } => "Empty path".to_owned(),
    }
}

/// Parses manifest text into the link pairs to apply, rendering any parse
/// failure as its message; the pairs are then handed, one by one, to the
/// link planner.
pub fn run(file: String, home: &str, cwd: &str) -> (r: Result<Vec<SymPair>, String>)
    ensures
        (match r {
            Ok(v) => spec_parse(file@, home@, cwd@) matches Ok(ps) && v.deep_view() == ps,
            Err(m) => spec_parse(file@, home@, cwd@) matches Err(se) && m@
                == parse_error_message(se),
        }),
{
    match parse_links(file, home, cwd) {
        Ok(v) => Ok(v),
        Err(e) => Err(parse_error_text(&e)),
    }
}

} // verus!
