//! File selection: brace expansion of a hook's pattern, glob matching, and
//! the choice of files among the candidates that a walk of the working tree
//! produced.
//!
//! Walking the tree is the caller's part. The caller hands in each entry it
//! found as a [`Candidate`]; the library decides which of them the hook
//! applies to.

use crate::text::{
    chars_of, find_char, first_index, has_char, join, lemma_first_index, lemma_first_index_is,
    lemma_has_char, lemma_split_join, split, string_of, trim_bounds, trimmed,
};
use vstd::prelude::*;
use vstd::slice::slice_subrange;

verus! {

broadcast use {vstd::string::group_string_axioms, vstd::seq_lib::group_seq_properties};

/// The positions of the braces of the one group that is expanded: the first
/// `{` and the first `}` of the pattern, where the first comes before the
/// second.
pub open spec fn brace_group(s: Seq<char>) -> Option<(int, int)> {
    let start = first_index(s, '{');
    let end = first_index(s, '}');
    if start < s.len() && end < s.len() && start < end {
        Some((start, end))
    } else {
        None
    }
}

/// The literal patterns that `s` stands for. A pattern with a brace group
/// stands for one pattern per alternative of the group, each alternative
/// trimmed and set between what precedes and what follows the group. Any
/// other pattern stands for itself. Further groups are left as they are.
pub open spec fn expansions(s: Seq<char>) -> Seq<Seq<char>> {
    match brace_group(s) {
        Some((start, end)) => {
            let pieces = split(s.subrange(start + 1, end), ',');
            Seq::new(pieces.len(), |i: int| s.take(start) + trimmed(pieces[i]) + s.skip(end + 1))
        },
        None => seq![s],
    }
}

/// Expands the brace group of `pattern`, if it has one.
pub fn expand_pattern(pattern: &str) -> (out: Vec<String>)
    ensures
        out.deep_view() == expansions(pattern@),
{
    let chars = chars_of(pattern);
    let v = chars.as_slice();
    let n = v.len();
    let start = find_char(v, 0, n, '{');
    let end = find_char(v, 0, n, '}');
    proof {
        assert(v@.subrange(0, n as int) =~= pattern@);
    }
    let mut out: Vec<String> = Vec::new();
    if start < n && end < n && start < end {
        let ghost inner = pattern@.subrange(start + 1, end as int);
        let ghost before = pattern@.take(start as int);
        let ghost after = pattern@.skip(end + 1);
        let ghost mut done: Seq<Seq<char>> = Seq::empty();
        let mut pos: usize = start + 1;
        proof {
            assert(v@.subrange(pos as int, end as int) =~= inner);
            assert(out.deep_view() =~= Seq::<Seq<char>>::empty());
        }
        loop
            invariant_except_break
                start < pos <= end < n,
                n == v@.len(),
                v@ == pattern@,
                split(inner, ',') == done + split(v@.subrange(pos as int, end as int), ','),
                out.deep_view() == Seq::new(done.len(), |i: int| before + trimmed(done[i]) + after),
                before == pattern@.take(start as int),
                after == pattern@.skip(end + 1),
            ensures
                out.deep_view() == Seq::new(
                    split(inner, ',').len(),
                    |i: int| before + trimmed(split(inner, ',')[i]) + after,
                ),
            decreases end - pos,
        {
            let k = find_char(v, pos, end, ',');
            let bounds = trim_bounds(v, pos, k);
            let mut s = string_of(slice_subrange(v, 0, start));
            let alt = string_of(slice_subrange(v, bounds.0, bounds.1));
            s.append(alt.as_str());
            let tail = string_of(slice_subrange(v, end + 1, n));
            s.append(tail.as_str());
            let ghost rest = v@.subrange(pos as int, end as int);
            let ghost piece = v@.subrange(pos as int, k as int);
            let ghost prev = out.deep_view();
            out.push(s);
            proof {
                lemma_first_index(rest, ',');
                assert(rest.take(k - pos) =~= piece);
                assert(s@ =~= before + trimmed(piece) + after);
                assert(out.deep_view() =~= prev.push(s@));
                assert(out.deep_view() =~= Seq::new(
                    done.push(piece).len(),
                    |i: int| before + trimmed(done.push(piece)[i]) + after,
                ));
                if k < end {
                    assert(rest.skip(k - pos + 1) =~= v@.subrange(k + 1, end as int));
                    assert(done + (seq![piece] + split(v@.subrange(k + 1, end as int), ','))
                        =~= done.push(piece) + split(v@.subrange(k + 1, end as int), ','));
                } else {
                    assert(piece =~= rest);
                    assert(done + seq![rest] =~= done.push(piece));
                }
                done = done.push(piece);
            }
            if k == end {
                break ;
            }
            pos = k + 1;
        }
        out
    } else {
        out.push(pattern.to_owned());
        proof {
            assert(out.deep_view() =~= seq![pattern@]);
        }
        out
    }
}

/// A pattern that lacks an opening or a closing brace expands to itself
/// alone.
pub proof fn lemma_expand_plain(s: Seq<char>)
    requires
        !has_char(s, '{') || !has_char(s, '}'),
    ensures
        expansions(s) == seq![s],
{
    lemma_first_index(s, '{');
    lemma_first_index(s, '}');
}

/// Text that is put together from two parts holds a character only where
/// one of the parts does.
proof fn lemma_has_char_concat(a: Seq<char>, b: Seq<char>, c: char)
    ensures
        has_char(a + b, c) <==> has_char(a, c) || has_char(b, c),
{
    lemma_has_char(a + b, c);
    lemma_has_char(a, c);
    lemma_has_char(b, c);
    if has_char(a, c) {
        let j = choose|j: int| 0 <= j < a.len() && a[j] == c;
        assert((a + b)[j] == c);
    }
    if has_char(b, c) {
        let j = choose|j: int| 0 <= j < b.len() && b[j] == c;
        assert((a + b)[a.len() + j] == c);
    }
    if has_char(a + b, c) {
        let j = choose|j: int| 0 <= j < (a + b).len() && (a + b)[j] == c;
        if j < a.len() {
            assert(a[j] == c);
        } else {
            assert(b[j - a.len()] == c);
        }
    }
}

/// Joined pieces hold no character that is neither the separator nor in one
/// of the pieces.
proof fn lemma_join_lacks(parts: Seq<Seq<char>>, sep: char, c: char)
    requires
        c != sep,
        forall|i: int| 0 <= i < parts.len() ==> !has_char(#[trigger] parts[i], c),
    ensures
        !has_char(join(parts, sep), c),
    decreases parts.len(),
{
    if parts.len() == 0 {
        lemma_first_index(Seq::<char>::empty(), c);
    } else if parts.len() > 1 {
        let rest = parts.drop_first();
        assert forall|i: int| 0 <= i < rest.len() implies !has_char(#[trigger] rest[i], c) by {
            assert(rest[i] == parts[i + 1]);
        }
        lemma_join_lacks(rest, sep, c);
        lemma_has_char(seq![sep], c);
        lemma_has_char_concat(parts[0], seq![sep], c);
        lemma_has_char_concat(parts[0] + seq![sep], join(rest, sep), c);
    }
}

/// A brace pattern expands to one pattern per alternative. For every prefix
/// `p` free of braces, every non-empty list of alternatives free of commas
/// and closing braces, and every suffix `q`, the pattern `p{a1,..,an}q`
/// expands to `p a1' q, .., p an' q`, in this order, where `ai'` is `ai`
/// trimmed.
pub proof fn lemma_expand_alternatives(p: Seq<char>, alts: Seq<Seq<char>>, q: Seq<char>)
    requires
        !has_char(p, '{'),
        !has_char(p, '}'),
        alts.len() > 0,
        forall|i: int| 0 <= i < alts.len() ==> !has_char(#[trigger] alts[i], ','),
        forall|i: int| 0 <= i < alts.len() ==> !has_char(#[trigger] alts[i], '}'),
    ensures
        expansions(p + seq!['{'] + join(alts, ',') + seq!['}'] + q) == Seq::new(
            alts.len(),
            |i: int| p + trimmed(alts[i]) + q,
        ),
{
    let inner = join(alts, ',');
    let s = p + seq!['{'] + inner + seq!['}'] + q;
    let start = p.len() as int;
    let end = start + 1 + inner.len();
    lemma_first_index(p, '{');
    lemma_first_index(p, '}');
    assert forall|j: int| 0 <= j < start implies #[trigger] s[j] != '{' by {
        assert(s[j] == p[j]);
    }
    assert(s[start] == '{');
    lemma_first_index_is(s, '{', start);
    lemma_join_lacks(alts, ',', '}');
    lemma_first_index(inner, '}');
    assert forall|j: int| 0 <= j < end implies #[trigger] s[j] != '}' by {
        if j < start {
            assert(s[j] == p[j]);
        } else if j > start {
            assert(s[j] == inner[j - start - 1]);
        }
    }
    assert(s[end] == '}');
    lemma_first_index_is(s, '}', end);
    assert(s.subrange(start + 1, end) =~= inner);
    assert(s.take(start) =~= p);
    assert(s.skip(end + 1) =~= q);
    lemma_split_join(alts, ',');
    assert(expansions(s) =~= Seq::new(alts.len(), |i: int| p + trimmed(alts[i]) + q));
}

/// The pattern `p{a,b}q` expands to exactly `paq` and `pbq`, for a prefix
/// free of braces and alternatives that are free of commas and closing
/// braces and carry no white space at their ends.
pub proof fn lemma_expand_pair(p: Seq<char>, a: Seq<char>, b: Seq<char>, q: Seq<char>)
    requires
        !has_char(p, '{'),
        !has_char(p, '}'),
        !has_char(a, ','),
        !has_char(a, '}'),
        !has_char(b, ','),
        !has_char(b, '}'),
        trimmed(a) == a,
        trimmed(b) == b,
    ensures
        expansions(p + seq!['{'] + a + seq![','] + b + seq!['}'] + q) == seq![p + a + q, p + b + q],
{
    let alts = seq![a, b];
    assert(alts.drop_first() =~= seq![b]);
    assert(join(alts, ',') =~= a + seq![','] + b) by {
        reveal_with_fuel(join, 3);
    }
    lemma_expand_alternatives(p, alts, q);
    assert(p + seq!['{'] + join(alts, ',') + seq!['}'] + q =~= p + seq!['{'] + a + seq![','] + b
        + seq!['}'] + q);
    assert(Seq::new(alts.len(), |i: int| p + trimmed(alts[i]) + q) =~= seq![p + a + q, p + b + q]);
}

/// Trusted declaration of `glob::Pattern`, a compiled glob pattern. The
/// library carries such values and never looks inside them.
#[verifier::external_type_specification]
#[verifier::external_body]
pub struct ExPattern(glob::Pattern);

/// Trusted declaration of `glob::PatternError`, the error of a pattern that
/// does not compile.
#[verifier::external_type_specification]
#[verifier::external_body]
pub struct ExPatternError(glob::PatternError);

/// Whether `glob::Pattern::new` accepts the pattern text, for the path
/// separators of the build target.
pub uninterp spec fn glob_valid(pattern: Seq<char>) -> bool;

/// Whether the pattern compiled from `pattern` matches `text`, as
/// `glob::Pattern::matches` decides it with its default options, for the
/// path separators of the build target.
pub uninterp spec fn glob_matches(pattern: Seq<char>, text: Seq<char>) -> bool;

/// The pattern text that a compiled pattern was made from and holds.
pub uninterp spec fn glob_source(compiled: glob::Pattern) -> Seq<char>;

/// Trusted: `glob::Pattern::new`. It reads the pattern text alone and
/// either compiles it or reports a syntax error; the compiled pattern keeps
/// the text it was made from. The contract gives the outcome a name,
/// [`glob_valid`], and says nothing of which texts are valid.
#[verifier::external_body]
fn glob_compile(pattern: &str) -> (r: Result<glob::Pattern, glob::PatternError>)
    ensures
        r is Ok == glob_valid(pattern@),
        r matches Ok(p) ==> glob_source(p) == pattern@,
{
    glob::Pattern::new(pattern)
}

/// Trusted: `glob::Pattern::matches`. The answer depends on the compiled
/// pattern, which its text determines, and on the text that is tested; the
/// contract gives it the name [`glob_matches`].
#[verifier::external_body]
fn glob_test(compiled: &glob::Pattern, text: &str) -> (r: bool)
    ensures
        r == glob_matches(glob_source(*compiled), text@),
{
    compiled.matches(text)
}

/// Trusted: reads the two public fields of a `glob::PatternError`, the
/// approximate position of the error and its message. Nothing is claimed of
/// them.
#[verifier::external_body]
fn glob_error_parts(error: &glob::PatternError) -> (r: (usize, String)) {
    (error.pos, error.msg.to_string())
}

/// Why file selection failed.
#[derive(Debug)]
pub enum MatchError {
    /// One of the expanded patterns is not a valid glob.
    InvalidPattern {
        /// The expanded pattern that was refused.
        pattern: String,
        /// Roughly where in the pattern the error lies.
        position: usize,
        /// What is wrong, in the words of the glob compiler.
        reason: String,
    },
}

/// The texts of a list of compiled patterns.
pub open spec fn sources(compiled: Seq<glob::Pattern>) -> Seq<Seq<char>> {
    Seq::new(compiled.len(), |i: int| glob_source(compiled[i]))
}

/// The position of the first pattern that does not compile, or the length
/// of the list where all do.
pub open spec fn first_invalid(patterns: Seq<Seq<char>>) -> int
    decreases patterns.len(),
{
    if patterns.len() == 0 {
        0
    } else if !glob_valid(patterns[0]) {
        0
    } else {
        1 + first_invalid(patterns.drop_first())
    }
}

/// What [`first_invalid`] returns: every pattern before it compiles, and
/// the one at it, if there is one, does not.
pub proof fn lemma_first_invalid(patterns: Seq<Seq<char>>)
    ensures
        0 <= first_invalid(patterns) <= patterns.len(),
        forall|j: int| 0 <= j < first_invalid(patterns) ==> glob_valid(#[trigger] patterns[j]),
        first_invalid(patterns) < patterns.len() ==> !glob_valid(patterns[first_invalid(patterns)]),
    decreases patterns.len(),
{
    if patterns.len() > 0 && glob_valid(patterns[0]) {
        let t = patterns.drop_first();
        lemma_first_invalid(t);
        assert forall|j: int| 0 <= j < first_invalid(patterns) implies glob_valid(
            #[trigger] patterns[j],
        ) by {
            if j > 0 {
                assert(t[j - 1] == patterns[j]);
            }
        }
    }
}

/// A position before which every pattern compiles, and which holds one that
/// does not or is the length, is the one [`first_invalid`] returns.
pub proof fn lemma_first_invalid_is(patterns: Seq<Seq<char>>, k: int)
    requires
        0 <= k <= patterns.len(),
        forall|j: int| 0 <= j < k ==> glob_valid(#[trigger] patterns[j]),
        k < patterns.len() ==> !glob_valid(patterns[k]),
    ensures
        first_invalid(patterns) == k,
    decreases patterns.len(),
{
    if patterns.len() > 0 && k > 0 {
        let t = patterns.drop_first();
        assert forall|j: int| 0 <= j < k - 1 implies glob_valid(#[trigger] t[j]) by {
            assert(t[j] == patterns[j + 1]);
        }
        assert(glob_valid(patterns[0]));
        lemma_first_invalid_is(t, k - 1);
    }
}

/// Expands `pattern` and compiles each expansion, in order. The first
/// expansion that is not a valid glob is reported; where all are valid, the
/// compiled patterns stand for exactly the expansions.
pub fn compile_patterns(pattern: &str) -> (r: Result<Vec<glob::Pattern>, MatchError>)
    ensures
        match r {
            Ok(compiled) => {
                &&& first_invalid(expansions(pattern@)) == expansions(pattern@).len()
                &&& sources(compiled@) == expansions(pattern@)
            },
            Err(MatchError::InvalidPattern { pattern: refused, .. }) => {
                &&& first_invalid(expansions(pattern@)) < expansions(pattern@).len()
                &&& refused@ == expansions(pattern@)[first_invalid(expansions(pattern@))]
            },
        },
{
    let expanded = expand_pattern(pattern);
    let ghost texts = expansions(pattern@);
    let mut compiled: Vec<glob::Pattern> = Vec::new();
    let mut i: usize = 0;
    proof {
        assert(sources(compiled@) =~= texts.take(0));
    }
    while i < expanded.len()
        invariant
            i <= expanded@.len(),
            texts == expansions(pattern@),
            expanded.deep_view() == texts,
            sources(compiled@) == texts.take(i as int),
            forall|j: int| 0 <= j < i ==> glob_valid(#[trigger] texts[j]),
        decreases expanded@.len() - i,
    {
        let text = expanded[i].as_str();
        assert(text@ == texts[i as int]);
        match glob_compile(text) {
            Ok(p) => {
                let ghost prev = compiled@;
                compiled.push(p);
                proof {
                    assert(sources(compiled@) =~= sources(prev).push(text@));
                    assert(texts.take(i + 1) =~= texts.take(i as int).push(text@));
                }
            },
            Err(error) => {
                let parts = glob_error_parts(&error);
                proof {
                    lemma_first_invalid_is(texts, i as int);
                }
                return Err(
                    MatchError::InvalidPattern {
                        pattern: text.to_owned(),
                        position: parts.0,
                        reason: parts.1,
                    },
                );
            },
        }
        i = i + 1;
    }
    proof {
        lemma_first_invalid_is(texts, i as int);
        assert(texts.take(i as int) =~= texts);
    }
    Ok(compiled)
}

/// One entry that a walk of the working tree produced.
#[derive(Debug)]
pub struct Candidate {
    /// Whether the entry is a regular file.
    pub is_file: bool,
    /// The path under which the walk reported the entry.
    pub path: String,
    /// The same path, relative to the root of the walk.
    pub relative: String,
}

/// The mathematical content of a [`Candidate`].
pub struct CandidateView {
    pub is_file: bool,
    pub path: Seq<char>,
    pub relative: Seq<char>,
}

impl View for Candidate {
    type V = CandidateView;

    open spec fn view(&self) -> CandidateView {
        CandidateView { is_file: self.is_file, path: self.path@, relative: self.relative@ }
    }
}

impl DeepView for Candidate {
    type V = CandidateView;

    open spec fn deep_view(&self) -> CandidateView {
        self@
    }
}

/// Whether one of the patterns matches `text`.
pub open spec fn matches_any(patterns: Seq<Seq<char>>, text: Seq<char>) -> bool {
    exists|k: int| 0 <= k < patterns.len() && glob_matches(#[trigger] patterns[k], text)
}

/// Whether the hook applies to the candidate: it is a file, and one of the
/// patterns matches its relative path or the path as the walk reported it.
pub open spec fn accepts(patterns: Seq<Seq<char>>, candidate: CandidateView) -> bool {
    candidate.is_file && (matches_any(patterns, candidate.relative) || matches_any(
        patterns,
        candidate.path,
    ))
}

/// The path of the candidate where the hook applies to it.
pub open spec fn pick(patterns: Seq<Seq<char>>) -> spec_fn(CandidateView) -> Option<Seq<char>> {
    |candidate: CandidateView|
        if accepts(patterns, candidate) {
            Some(candidate.path)
        } else {
            None
        }
}

/// The paths of the candidates that the hook applies to, in the order of
/// the walk.
pub open spec fn selected(patterns: Seq<Seq<char>>, candidates: Seq<CandidateView>) -> Seq<
    Seq<char>,
> {
    candidates.filter_map(pick(patterns))
}

/// Whether one of the compiled patterns matches `text`.
fn any_matches(compiled: &Vec<glob::Pattern>, text: &str) -> (r: bool)
    ensures
        r == matches_any(sources(compiled@), text@),
{
    let mut k: usize = 0;
    while k < compiled.len()
        invariant
            k <= compiled@.len(),
            forall|j: int| 0 <= j < k ==> !glob_matches(#[trigger] sources(compiled@)[j], text@),
        decreases compiled@.len() - k,
    {
        if glob_test(&compiled[k], text) {
            assert(glob_matches(sources(compiled@)[k as int], text@));
            return true;
        }
        k = k + 1;
    }
    false
}

/// Chooses, among the candidates of a walk, the files that the compiled
/// patterns select.
pub fn select_files(compiled: &Vec<glob::Pattern>, candidates: &Vec<Candidate>) -> (out: Vec<
    String,
>)
    ensures
        out.deep_view() == selected(sources(compiled@), candidates.deep_view()),
{
    let ghost patterns = sources(compiled@);
    let ghost all = candidates.deep_view();
    let mut out: Vec<String> = Vec::new();
    let mut i: usize = 0;
    proof {
        assert(all.take(0) =~= Seq::<CandidateView>::empty());
        assert(out.deep_view() =~= selected(patterns, all.take(0)));
    }
    while i < candidates.len()
        invariant
            i <= candidates@.len(),
            patterns == sources(compiled@),
            all == candidates.deep_view(),
            out.deep_view() == selected(patterns, all.take(i as int)),
        decreases candidates@.len() - i,
    {
        let candidate = &candidates[i];
        let ghost prev = out.deep_view();
        proof {
            assert(all[i as int] == candidate@);
            all.lemma_filter_map_take_succ(pick(patterns), i as int);
        }
        if candidate.is_file && (any_matches(compiled, candidate.relative.as_str()) || any_matches(
            compiled,
            candidate.path.as_str(),
        )) {
            out.push(candidate.path.clone());
            proof {
                assert(out.deep_view() =~= prev + seq![candidate@.path]);
            }
        }
        i = i + 1;
    }
    proof {
        assert(all.take(i as int) =~= all);
    }
    out
}

/// What file resolution yields for a hook's pattern and the candidates of a
/// walk, or `None` where an expansion of the pattern is not a valid glob.
/// A hook without a pattern resolves to the one path `.`, whatever the
/// candidates are.
pub open spec fn collected(pattern: Option<Seq<char>>, candidates: Seq<CandidateView>) -> Option<
    Seq<Seq<char>>,
> {
    match pattern {
        None => Some(seq!["."@]),
        Some(p) => if first_invalid(expansions(p)) < expansions(p).len() {
            None
        } else {
            Some(selected(expansions(p), candidates))
        },
    }
}

/// Resolves the files of a hook. The result may be empty: a pattern that
/// matches nothing is no error.
pub fn collect_files(pattern: Option<&String>, candidates: &Vec<Candidate>) -> (r: Result<
    Vec<String>,
    MatchError,
>)
    ensures
        match r {
            Ok(paths) => collected(pattern.deep_view(), candidates.deep_view()) == Some(
                paths.deep_view(),
            ),
            Err(MatchError::InvalidPattern { pattern: refused, .. }) => {
                &&& collected(pattern.deep_view(), candidates.deep_view()) is None
                &&& pattern matches Some(p)
                &&& refused@ == expansions(p@)[first_invalid(expansions(p@))]
            },
        },
{
    match pattern {
        Some(p) => {
            proof {
                lemma_first_invalid(expansions(p@));
            }
            match compile_patterns(p.as_str()) {
                Ok(compiled) => Ok(select_files(&compiled, candidates)),
                Err(e) => Err(e),
            }
        },
        None => {
            let mut out: Vec<String> = Vec::new();
            out.push(String::from_str("."));
            proof {
                assert(out.deep_view() =~= seq!["."@]);
            }
            Ok(out)
        },
    }
}

} // verus!
