//! The line filter: select the lines of a text that contain a literal query
//! (optionally case-insensitively) or that a regular expression matches, and
//! parse the command-line arguments that choose between the two.

use vstd::prelude::*;
use vstd::string::*;
use crate::text::contains_at;
use crate::text::contains_seq;
use crate::text::fold_case;
use crate::text::line_contains;
use crate::text::line_matches;
use crate::text::lines_of;
use crate::text::split_lines;
use crate::text::str_eq;
use crate::text::views_of;
use crate::text::lemma_lines_of_ascii;
use vstd::utf8::is_ascii_chars;
use crate::text::lemma_filter_push;

verus! {

// --- trusted interface to the regex engine ---

#[verifier::external_type_specification]
#[verifier::external_body]
pub struct ExRegex(regex::Regex);

#[verifier::external_type_specification]
#[verifier::external_body]
pub struct ExRegexError(regex::Error);

/// Whether the regex engine accepts `pattern` as a well-formed pattern.
pub uninterp spec fn regex_accepts(pattern: Seq<char>) -> bool;

/// Whether `pattern`, as a regular expression, matches anywhere in `text`.
pub uninterp spec fn regex_matches(pattern: Seq<char>, text: Seq<char>) -> bool;

/// Characters that regular-expression syntax treats as themselves: anything
/// that is not one of the engine's metacharacters.
pub open spec fn plain_char(c: char) -> bool {
    c != '.' && c != '^' && c != '$' && c != '*' && c != '+' && c != '?' && c != '(' && c != ')'
        && c != '[' && c != ']' && c != '{' && c != '}' && c != '|' && c != '\\'
}

/// A pattern of plain characters only: such a pattern is a well-formed
/// regular expression and matches exactly its own occurrences.
pub open spec fn plain_pattern(p: Seq<char>) -> bool {
    forall|i: int| 0 <= i < p.len() ==> plain_char(#[trigger] p[i])
}

/// A compiled pattern, kept together with its source text.  The fields stay
/// private so that only [`compile_pattern`] builds values: `source` is then
/// always the very text the engine compiled.
pub struct CompiledPattern {
    re: regex::Regex,
    source: String,
}

impl CompiledPattern {
    /// The pattern this value was compiled from.
    pub closed spec fn spec_source(&self) -> Seq<char> {
        self.source@
    }
}

/// Relies on regex::Regex::new: compilation fails exactly on malformed or
/// oversized patterns, and a short pattern of plain characters is neither.
#[verifier::external_body]
fn compile_pattern(pattern: &str) -> (r: Result<CompiledPattern, regex::Error>)
    ensures
        r is Ok <==> regex_accepts(pattern@),
        r matches Ok(p) ==> p.spec_source() == pattern@,
        plain_pattern(pattern@) && pattern@.len() <= 4096 ==> r is Ok,
{
    match regex::Regex::new(pattern) {
        Ok(re) => Ok(CompiledPattern { re, source: pattern.to_owned() }),
        Err(e) => Err(e),
    }
}

/// Relies on regex::Regex::is_match: true exactly when the pattern matches
/// somewhere in the haystack; a pattern of plain characters matches exactly
/// where it occurs as a substring.
#[verifier::external_body]
fn pattern_is_match(p: &CompiledPattern, line: &str) -> (b: bool)
    ensures
        b == regex_matches(p.spec_source(), line@),
        plain_pattern(p.spec_source()) ==> b == contains_seq(line@, p.spec_source()),
{
    p.re.is_match(line)
}

// --- filtering lines ---

/// The lines of `contents` that match `query` in literal mode, in order.
pub open spec fn search_spec(query: Seq<char>, contents: Seq<char>, ignore_case: bool) -> Seq<
    Seq<char>,
> {
    lines_of(contents).filter(|l: Seq<char>| line_matches(l, query, ignore_case))
}

/// All lines of `contents` that contain `query`, in their original order
/// and in their original spelling; with `ignore_case`, both sides are
/// compared after Unicode case folding.  An empty query matches every line,
/// and on ASCII inputs the case-insensitive result has at least as many
/// lines as the case-sensitive one.
pub fn search<'a>(query: &str, contents: &'a str, ignore_case: bool) -> (r: Vec<&'a str>)
    ensures
        views_of(r@) == search_spec(query@, contents@, ignore_case),
        query@.len() == 0 ==> views_of(r@) == lines_of(contents@),
        ignore_case && is_ascii_chars(query@) && is_ascii_chars(contents@) ==> views_of(
            r@,
        ).len() >= search_spec(query@, contents@, false).len(),
{
    let lines = split_lines(contents);
    let mut r: Vec<&'a str> = Vec::new();
    proof {
        reveal(Seq::filter);
        assert(views_of(lines@).subrange(0, 0) =~= Seq::<Seq<char>>::empty());
        assert(views_of(r@) =~= views_of(lines@).subrange(0, 0).filter(
            |l: Seq<char>| line_matches(l, query@, ignore_case),
        ));
        assert(views_of(r@) =~= views_of(lines@).subrange(0, 0).filter(
            |l: Seq<char>| line_matches(l, query@, false),
        ));
    }
    let mut i: usize = 0;
    while i < lines.len()
        invariant
            views_of(lines@) == lines_of(contents@),
            i <= lines@.len(),
            views_of(r@) == views_of(lines@).subrange(0, i as int).filter(
                |l: Seq<char>| line_matches(l, query@, ignore_case),
            ),
            query@.len() == 0 ==> views_of(r@) == views_of(lines@).subrange(0, i as int),
            ignore_case && is_ascii_chars(query@) && is_ascii_chars(contents@) ==> views_of(
                r@,
            ).len() >= views_of(lines@).subrange(0, i as int).filter(
                |l: Seq<char>| line_matches(l, query@, false),
            ).len(),
        decreases lines@.len() - i,
    {
        let line = lines[i];
        let ghost prefix = views_of(lines@).subrange(0, i as int);
        let ghost r0 = r@;
        let matched = line_contains(line, query, ignore_case);
        if matched {
            r.push(line);
        }
        proof {
            lemma_filter_push(prefix, line@, |l: Seq<char>| line_matches(l, query@, ignore_case));
            assert(views_of(lines@).subrange(0, i as int + 1) =~= prefix.push(line@));
            if matched {
                assert(views_of(r@) =~= views_of(r0) + seq![line@]);
            } else {
                assert(views_of(r@) =~= views_of(r0) + Seq::<Seq<char>>::empty());
            }
            if ignore_case && is_ascii_chars(query@) && is_ascii_chars(contents@) {
                lemma_lines_of_ascii(contents@);
                assert(views_of(lines@)[i as int] == line@);
                assert(is_ascii_chars(line@));
                lemma_filter_push(prefix, line@, |l: Seq<char>| line_matches(l, query@, false));
                if line_matches(line@, query@, false) {
                    assert(contains_seq(line@, query@));
                    assert(matched);
                }
            }
        }
        i += 1;
    }
    proof {
        assert(views_of(lines@).subrange(0, lines@.len() as int) =~= views_of(lines@));
    }
    r
}

/// The lines of `contents` that the pattern matches, in order.
pub open spec fn regex_search_spec(pattern: Seq<char>, contents: Seq<char>) -> Seq<Seq<char>> {
    lines_of(contents).filter(|l: Seq<char>| regex_matches(pattern, l))
}

/// The error a malformed regular-expression query raises.
#[derive(Debug, Clone, Copy, PartialEq, Eq, Structural)]
pub struct PatternError;

/// All lines of `contents` that the regular expression `query` matches, in
/// their original order, or `PatternError` exactly when the pattern is
/// malformed.  For a pattern of plain characters the result agrees with
/// case-sensitive literal search.
pub fn regex_search<'a>(query: &str, contents: &'a str) -> (r: Result<
    Vec<&'a str>,
    PatternError,
>)
    ensures
        r is Ok <==> regex_accepts(query@),
        r matches Ok(v) ==> views_of(v@) == regex_search_spec(query@, contents@),
        plain_pattern(query@) ==> (r matches Ok(v) ==> views_of(v@) == search_spec(
            query@,
            contents@,
            false,
        )),
        plain_pattern(query@) && query@.len() <= 4096 ==> r is Ok,
{
    let p = match compile_pattern(query) {
        Ok(p) => p,
        Err(_) => {
            return Err(PatternError);
        },
    };
    let lines = split_lines(contents);
    let mut out: Vec<&'a str> = Vec::new();
    proof {
        reveal(Seq::filter);
        assert(views_of(lines@).subrange(0, 0) =~= Seq::<Seq<char>>::empty());
        assert(views_of(out@) =~= views_of(lines@).subrange(0, 0).filter(
            |l: Seq<char>| regex_matches(query@, l),
        ));
        assert(views_of(out@) =~= views_of(lines@).subrange(0, 0).filter(
            |l: Seq<char>| line_matches(l, query@, false),
        ));
    }
    let mut i: usize = 0;
    while i < lines.len()
        invariant
            p.spec_source() == query@,
            views_of(lines@) == lines_of(contents@),
            i <= lines@.len(),
            views_of(out@) == views_of(lines@).subrange(0, i as int).filter(
                |l: Seq<char>| regex_matches(query@, l),
            ),
            plain_pattern(query@) ==> views_of(out@) == views_of(lines@).subrange(
                0,
                i as int,
            ).filter(|l: Seq<char>| line_matches(l, query@, false)),
        decreases lines@.len() - i,
    {
        let line = lines[i];
        let ghost prefix = views_of(lines@).subrange(0, i as int);
        let ghost o0 = out@;
        let matched = pattern_is_match(&p, line);
        if matched {
            out.push(line);
        }
        proof {
            lemma_filter_push(prefix, line@, |l: Seq<char>| regex_matches(query@, l));
            assert(views_of(lines@).subrange(0, i as int + 1) =~= prefix.push(line@));
            if matched {
                assert(views_of(out@) =~= views_of(o0) + seq![line@]);
            } else {
                assert(views_of(out@) =~= views_of(o0) + Seq::<Seq<char>>::empty());
            }
            if plain_pattern(query@) {
                lemma_filter_push(prefix, line@, |l: Seq<char>| line_matches(l, query@, false));
                assert(fold_case(line@, false) == line@);
                assert(fold_case(query@, false) == query@);
                assert(line_matches(line@, query@, false) == contains_seq(line@, query@));
                assert(matched == line_matches(line@, query@, false));
            }
        }
        i += 1;
    }
    proof {
        assert(views_of(lines@).subrange(0, lines@.len() as int) =~= views_of(lines@));
    }
    Ok(out)
}

// --- the unified filter ---

/// How the filter is to interpret the query.
#[derive(Debug, Clone, Copy, PartialEq, Eq, Structural)]
pub enum Mode {
    Literal { ignore_case: bool },
    Regex,
}

/// What the filter returns for each input; `None` stands for a pattern
/// error, which regex mode raises exactly on patterns the engine rejects.
pub open spec fn filter_spec(query: Seq<char>, content: Seq<char>, mode: Mode) -> Option<
    Seq<Seq<char>>,
> {
    match mode {
        Mode::Literal { ignore_case } => Some(search_spec(query, content, ignore_case)),
        Mode::Regex => if regex_accepts(query) {
            Some(regex_search_spec(query, content))
        } else {
            None
        },
    }
}

/// Filters the lines of `content` by `query` under `mode`.  In regex mode
/// with a plain-character query the result agrees with literal mode.
pub fn filter<'a>(query: &str, content: &'a str, mode: Mode) -> (r: Result<
    Vec<&'a str>,
    PatternError,
>)
    ensures
        r matches Ok(v) ==> filter_spec(query@, content@, mode) == Some(views_of(v@)),
        r is Err <==> filter_spec(query@, content@, mode) is None,
        mode == Mode::Regex && plain_pattern(query@) ==> (r matches Ok(v) ==> views_of(v@)
            == search_spec(query@, content@, false)),
{
    match mode {
        Mode::Literal { ignore_case } => Ok(search(query, content, ignore_case)),
        Mode::Regex => regex_search(query, content),
    }
}

// --- laws ---

/// Filtering by an always-true predicate keeps the whole sequence.
pub proof fn lemma_filter_all<A>(s: Seq<A>, pred: spec_fn(A) -> bool)
    requires
        forall|i: int| 0 <= i < s.len() ==> pred(#[trigger] s[i]),
    ensures
        s.filter(pred) == s,
    decreases s.len(),
{
    if s.len() == 0 {
        reveal(Seq::filter);
        assert(s.filter(pred) =~= s);
    } else {
        lemma_filter_all(s.drop_last(), pred);
        assert(pred(s.last()));
        lemma_filter_push(s.drop_last(), s.last(), pred);
        assert(s.drop_last().push(s.last()) =~= s);
        assert(s.filter(pred) =~= s);
    }
}

/// Every line contains the empty query, so an empty query in case-sensitive
/// literal mode returns every line of the content.  With `ignore_case` set
/// the same holds; it is stated as an `ensures` of [`search`], where the
/// case folding is in hand.
pub proof fn lemma_empty_query_matches_all(contents: Seq<char>)
    ensures
        search_spec(Seq::empty(), contents, false) == lines_of(contents),
{
    assert forall|l: Seq<char>| #[trigger] line_matches(l, Seq::empty(), false) by {
        assert(l.subrange(0, 0) =~= Seq::<char>::empty());
        assert(contains_at(l, Seq::<char>::empty(), 0));
    }
    lemma_filter_all(lines_of(contents), |l: Seq<char>| line_matches(l, Seq::empty(), false));
}

/// Determinism: the filter's outcome is a function of its inputs alone, so
/// any two results admitted by its contract for the same query, content and
/// mode are the same sequence of lines, in the same order.
pub proof fn lemma_filter_deterministic(
    query: Seq<char>,
    content: Seq<char>,
    mode: Mode,
    r1: Option<Seq<Seq<char>>>,
    r2: Option<Seq<Seq<char>>>,
)
    requires
        r1 == filter_spec(query, content, mode),
        r2 == filter_spec(query, content, mode),
    ensures
        r1 == r2,
{
}

/// On empty content, literal mode returns the empty sequence, and any mode
/// that produces a result produces the empty sequence.
pub proof fn lemma_empty_content(query: Seq<char>, mode: Mode)
    ensures
        filter_spec(query, Seq::empty(), mode) matches Some(v) ==> v == Seq::<Seq<char>>::empty(),
        mode matches Mode::Literal { ignore_case } ==> filter_spec(query, Seq::empty(), mode)
            == Some(Seq::<Seq<char>>::empty()),
{
    reveal(Seq::filter);
    let e = Seq::<char>::empty();
    assert(lines_of(e) == Seq::<Seq<char>>::empty());
    match mode {
        Mode::Literal { ignore_case } => {
            assert(search_spec(query, e, ignore_case) =~= Seq::<Seq<char>>::empty());
        },
        Mode::Regex => {
            assert(regex_search_spec(query, e) =~= Seq::<Seq<char>>::empty());
        },
    }
}

// --- command-line configuration ---

/// The parsed command-line configuration.
pub struct Config {
    pub query: String,
    pub filepath: String,
    pub regex: bool,
    pub ignore_case: bool,
}

/// The tagged outcome of parsing: either the help text was asked for, or
/// there is a configuration to run with.
pub enum ParseOutcome {
    ShowHelp,
    Parsed(Config),
}

/// One argument's effect on the partially parsed state
/// `(query, filepath, regex, ignore_case, help)`.
pub open spec fn parse_step(
    st: (Seq<char>, Seq<char>, bool, bool, bool),
    arg: Seq<char>,
    is_path: bool,
) -> (Seq<char>, Seq<char>, bool, bool, bool) {
    if arg == "-h"@ || arg == "--help"@ {
        (st.0, st.1, st.2, st.3, true)
    } else if arg == "-r"@ || arg == "--regex"@ {
        (st.0, st.1, true, st.3, st.4)
    } else if arg == "-i"@ || arg == "--ignore-case"@ {
        (st.0, st.1, st.2, true, st.4)
    } else if is_path {
        (st.0, arg, st.2, st.3, st.4)
    } else {
        (arg, st.1, st.2, st.3, st.4)
    }
}

/// The parse state after the first `i` arguments; argument 0 is the program
/// name and is skipped.
pub open spec fn parse_state(args: Seq<Seq<char>>, is_path: Seq<bool>, i: int) -> (
    Seq<char>,
    Seq<char>,
    bool,
    bool,
    bool,
)
    decreases i,
{
    if i <= 1 {
        (Seq::<char>::empty(), Seq::<char>::empty(), false, false, false)
    } else {
        parse_step(parse_state(args, is_path, i - 1), args[i - 1], is_path[i - 1])
    }
}

impl Config {
    /// Parses the argument list.  `is_path[i]` says whether argument `i`
    /// names an existing file; the caller, who can look at the file system,
    /// supplies it.  Flags may come in any order; a non-flag argument is the
    /// file path if it names an existing file, else the query.  The help
    /// text is asked for when a help flag appears anywhere, or when no
    /// query and no file path were given at all.
    pub fn new(args: &Vec<String>, is_path: &Vec<bool>) -> (r: Result<ParseOutcome, &'static str>)
        requires
            args@.len() == is_path@.len(),
        ensures
            r is Err <==> args@.len() == 1,
            r matches Err(e) ==> e@ == "No arguments provided"@,
            ({
                let st = parse_state(
                    args@.map_values(|a: String| a@),
                    is_path@,
                    args@.len() as int,
                );
                &&& (r matches Ok(o) ==> (o is ShowHelp <==> st.4 || (st.0.len() == 0
                    && st.1.len() == 0)))
                &&& (r matches Ok(o) ==> match o {
                    ParseOutcome::Parsed(c) => c.query@ == st.0 && c.filepath@ == st.1 && c.regex
                        == st.2 && c.ignore_case == st.3,
                    ParseOutcome::ShowHelp => true,
                })
            }),
    {
        if args.len() == 1 {
            return Err("No arguments provided");
        }
        if args.len() == 0 {
            return Ok(ParseOutcome::ShowHelp);
        }
        let ghost argviews = args@.map_values(|a: String| a@);
        let mut query = String::new();
        let mut filepath = String::new();
        let mut regex_flag = false;
        let mut ignore_case = false;
        let mut help_flag = false;
        let mut i: usize = 1;
        while i < args.len()
            invariant
                args@.len() == is_path@.len(),
                2 <= args@.len(),
                1 <= i <= args@.len(),
                argviews == args@.map_values(|a: String| a@),
                (query@, filepath@, regex_flag, ignore_case, help_flag) == parse_state(
                    argviews,
                    is_path@,
                    i as int,
                ),
            decreases args@.len() - i,
        {
            let a: &String = &args[i];
            proof {
                assert(argviews[i as int] == a@);
            }
            if str_eq(a.as_str(), "-h") || str_eq(a.as_str(), "--help") {
                help_flag = true;
            } else if str_eq(a.as_str(), "-r") || str_eq(a.as_str(), "--regex") {
                regex_flag = true;
            } else if str_eq(a.as_str(), "-i") || str_eq(a.as_str(), "--ignore-case") {
                ignore_case = true;
            } else if is_path[i] {
                filepath = a.clone();
            } else {
                query = a.clone();
            }
            i += 1;
        }
        if help_flag || (query.as_str().is_empty() && filepath.as_str().is_empty()) {
            Ok(ParseOutcome::ShowHelp)
        } else {
            Ok(
                ParseOutcome::Parsed(
                    Config { query, filepath, regex: regex_flag, ignore_case },
                ),
            )
        }
    }
}

} // verus!
