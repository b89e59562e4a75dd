//! Character-level helpers shared by the rest of the library.
//!
//! Strings are modelled by their view, a `Seq<char>`. Executable code works
//! on a slice of `char` obtained once from the string, so that every scan is
//! linear.

use vstd::prelude::*;

verus! {

broadcast use vstd::string::group_string_axioms;

/// The characters of `s`, in order.
pub fn chars_of(s: &str) -> (out: Vec<char>)
    ensures
        out@ == s@,
{
    let mut out: Vec<char> = Vec::new();
    let chars = s.chars();
    for c in it: chars
        invariant
            it.seq() == s@,
            out@ == it.seq().take(it.index()),
    {
        out.push(c);
    }
    out
}

/// Trusted: `String::from_iter` over the characters of a slice. The standard
/// library documents that collecting `char`s into a `String` appends them in
/// order, so the result reads back as exactly the given characters.
#[verifier::external_body]
pub(crate) fn string_of(chars: &[char]) -> (out: String)
    ensures
        out@ == chars@,
{
    chars.iter().collect()
}

/// Appends a copy of `s` to a list of texts.
pub fn push_text(list: &mut Vec<String>, s: &str)
    ensures
        final(list).deep_view() == old(list).deep_view().push(s@),
{
    list.push(s.to_owned());
    proof {
        assert(list.deep_view() =~= old(list).deep_view().push(s@));
    }
}

/// Appends copies of the texts of `more` to a list of texts.
pub fn extend_texts(list: &mut Vec<String>, more: &[String])
    ensures
        final(list).deep_view() == old(list).deep_view() + more.deep_view(),
{
    let mut i: usize = 0;
    proof {
        assert(more.deep_view().take(0) =~= Seq::<Seq<char>>::empty());
        assert(list.deep_view() =~= old(list).deep_view() + more.deep_view().take(0));
    }
    while i < more.len()
        invariant
            i <= more@.len(),
            list.deep_view() == old(list).deep_view() + more.deep_view().take(i as int),
        decreases more@.len() - i,
    {
        let ghost prev = list.deep_view();
        list.push(more[i].clone());
        proof {
            assert(list.deep_view() =~= prev.push(more@[i as int]@));
            assert(more.deep_view().take(i + 1) =~= more.deep_view().take(i as int).push(
                more@[i as int]@,
            ));
        }
        i = i + 1;
    }
    proof {
        assert(more.deep_view().take(i as int) =~= more.deep_view());
    }
}

/// A copy of a list of pairs of texts.
pub fn copy_pairs(pairs: &Vec<(String, String)>) -> (out: Vec<(String, String)>)
    ensures
        out.deep_view() == pairs.deep_view(),
{
    let mut out: Vec<(String, String)> = Vec::new();
    let mut i: usize = 0;
    while i < pairs.len()
        invariant
            i <= pairs@.len(),
            out@.len() == i,
            forall|j: int| 0 <= j < i ==> out@[j].deep_view() == pairs@[j].deep_view(),
        decreases pairs@.len() - i,
    {
        let pair = &pairs[i];
        out.push((pair.0.clone(), pair.1.clone()));
        i = i + 1;
    }
    proof {
        assert(out.deep_view() =~= pairs.deep_view());
    }
    out
}

/// `a` followed by `b`.
pub fn joined(a: &str, b: &str) -> (out: String)
    ensures
        out@ == a@ + b@,
{
    let mut out = String::from_str(a);
    out.append(b);
    out
}

/// `a`, `b` and `c` in a row.
pub fn joined3(a: &str, b: &str, c: &str) -> (out: String)
    ensures
        out@ == a@ + b@ + c@,
{
    let mut out = String::from_str(a);
    out.append(b);
    out.append(c);
    out
}

/// Appends the characters `from[start..end]` to `out`.
pub fn append_chars(out: &mut Vec<char>, from: &[char], start: usize, end: usize)
    requires
        start <= end <= from@.len(),
    ensures
        final(out)@ == old(out)@ + from@.subrange(start as int, end as int),
{
    let mut k: usize = start;
    proof {
        assert(out@ =~= old(out)@ + from@.subrange(start as int, start as int));
    }
    while k < end
        invariant
            start <= k <= end <= from@.len(),
            out@ == old(out)@ + from@.subrange(start as int, k as int),
        decreases end - k,
    {
        out.push(from[k]);
        proof {
            assert(out@ =~= old(out)@ + from@.subrange(start as int, k + 1));
        }
        k = k + 1;
    }
}

/// Whether `c` carries the Unicode `White_Space` property.
pub open spec fn is_whitespace(c: char) -> bool {
    ||| c == '\u{9}'
    ||| c == '\u{A}'
    ||| c == '\u{B}'
    ||| c == '\u{C}'
    ||| c == '\u{D}'
    ||| c == '\u{20}'
    ||| c == '\u{85}'
    ||| c == '\u{A0}'
    ||| c == '\u{1680}'
    ||| c == '\u{2000}'
    ||| c == '\u{2001}'
    ||| c == '\u{2002}'
    ||| c == '\u{2003}'
    ||| c == '\u{2004}'
    ||| c == '\u{2005}'
    ||| c == '\u{2006}'
    ||| c == '\u{2007}'
    ||| c == '\u{2008}'
    ||| c == '\u{2009}'
    ||| c == '\u{200A}'
    ||| c == '\u{2028}'
    ||| c == '\u{2029}'
    ||| c == '\u{202F}'
    ||| c == '\u{205F}'
    ||| c == '\u{3000}'
}

/// Executable form of [`is_whitespace`].
pub fn is_whitespace_char(c: char) -> (r: bool)
    ensures
        r == is_whitespace(c),
{
    c == '\u{9}' || c == '\u{A}' || c == '\u{B}' || c == '\u{C}' || c == '\u{D}' || c == '\u{20}'
        || c == '\u{85}' || c == '\u{A0}' || c == '\u{1680}' || c == '\u{2000}' || c == '\u{2001}'
        || c == '\u{2002}' || c == '\u{2003}' || c == '\u{2004}' || c == '\u{2005}' || c
        == '\u{2006}' || c == '\u{2007}' || c == '\u{2008}' || c == '\u{2009}' || c == '\u{200A}'
        || c == '\u{2028}' || c == '\u{2029}' || c == '\u{202F}' || c == '\u{205F}' || c
        == '\u{3000}'
}

/// The sets of characters that the library strips from the ends of text.
#[derive(Clone, Copy, Debug)]
pub enum CharClass {
    /// Unicode white space.
    Whitespace,
    /// Line feed and carriage return.
    LineBreak,
    /// Space and horizontal tab.
    Blank,
}

/// Membership of `c` in `class`.
pub open spec fn in_class(class: CharClass, c: char) -> bool {
    match class {
        CharClass::Whitespace => is_whitespace(c),
        CharClass::LineBreak => c == '\n' || c == '\r',
        CharClass::Blank => c == ' ' || c == '\t',
    }
}

/// Executable form of [`in_class`].
pub fn class_has(class: CharClass, c: char) -> (r: bool)
    ensures
        r == in_class(class, c),
{
    match class {
        CharClass::Whitespace => is_whitespace_char(c),
        CharClass::LineBreak => c == '\n' || c == '\r',
        CharClass::Blank => c == ' ' || c == '\t',
    }
}

/// The number of characters of `class` at the end of `s`.
pub open spec fn trailing_run(s: Seq<char>, class: CharClass) -> nat
    decreases s.len(),
{
    if s.len() > 0 && in_class(class, s.last()) {
        1 + trailing_run(s.drop_last(), class)
    } else {
        0
    }
}

/// The number of characters of `class` at the start of `s`.
pub open spec fn leading_run(s: Seq<char>, class: CharClass) -> nat
    decreases s.len(),
{
    if s.len() > 0 && in_class(class, s[0]) {
        1 + leading_run(s.drop_first(), class)
    } else {
        0
    }
}

/// `s` without the characters of `class` at its end.
pub open spec fn strip_end(s: Seq<char>, class: CharClass) -> Seq<char> {
    s.take(s.len() - trailing_run(s, class))
}

/// `s` without the characters of `class` at its start.
pub open spec fn strip_start(s: Seq<char>, class: CharClass) -> Seq<char> {
    s.skip(leading_run(s, class) as int)
}

/// `s` without white space at either end.
pub open spec fn trimmed(s: Seq<char>) -> Seq<char> {
    strip_end(strip_start(s, CharClass::Whitespace), CharClass::Whitespace)
}

/// A run of `class` characters that reaches from `k` to the end of `s`, and
/// cannot be extended to the left, is the trailing run.
pub proof fn lemma_trailing_run_from(s: Seq<char>, class: CharClass, k: int)
    requires
        0 <= k <= s.len(),
        forall|j: int| k <= j < s.len() ==> in_class(class, #[trigger] s[j]),
        k == 0 || !in_class(class, s[k - 1]),
    ensures
        trailing_run(s, class) == s.len() - k,
    decreases s.len() - k,
{
    if k < s.len() {
        let t = s.drop_last();
        assert forall|j: int| k <= j < t.len() implies in_class(class, #[trigger] t[j]) by {
            assert(t[j] == s[j]);
        }
        lemma_trailing_run_from(t, class, k);
    }
}

/// A run of `class` characters that covers the first `k` positions of `s`,
/// and cannot be extended to the right, is the leading run.
pub proof fn lemma_leading_run_to(s: Seq<char>, class: CharClass, k: int)
    requires
        0 <= k <= s.len(),
        forall|j: int| 0 <= j < k ==> in_class(class, #[trigger] s[j]),
        k == s.len() || !in_class(class, s[k]),
    ensures
        leading_run(s, class) == k,
    decreases k,
{
    if k > 0 {
        let t = s.drop_first();
        assert forall|j: int| 0 <= j < k - 1 implies in_class(class, #[trigger] t[j]) by {
            assert(t[j] == s[j + 1]);
        }
        lemma_leading_run_to(t, class, k - 1);
    }
}

/// No run is longer than the text it lies in.
pub proof fn lemma_runs_bounded(s: Seq<char>, class: CharClass)
    ensures
        trailing_run(s, class) <= s.len(),
        leading_run(s, class) <= s.len(),
    decreases s.len(),
{
    if s.len() > 0 {
        lemma_runs_bounded(s.drop_last(), class);
        lemma_runs_bounded(s.drop_first(), class);
    }
}

/// Text that neither starts nor ends with white space is its own trimmed
/// form.
pub proof fn lemma_trimmed_identity(s: Seq<char>)
    requires
        s.len() == 0 || (!is_whitespace(s[0]) && !is_whitespace(s.last())),
    ensures
        trimmed(s) == s,
{
    assert(leading_run(s, CharClass::Whitespace) == 0);
    assert(strip_start(s, CharClass::Whitespace) =~= s);
    assert(trailing_run(s, CharClass::Whitespace) == 0);
    assert(s.take(s.len() as int) =~= s);
}

/// The length of the trailing run of `class` in `v[..end]`.
pub fn trailing_len(v: &[char], end: usize, class: CharClass) -> (n: usize)
    requires
        end <= v@.len(),
    ensures
        n == trailing_run(v@.take(end as int), class),
        n <= end,
{
    let mut k: usize = end;
    loop
        invariant_except_break
            k <= end <= v@.len(),
            forall|j: int| k <= j < end ==> in_class(class, #[trigger] v@[j]),
        ensures
            k <= end <= v@.len(),
            forall|j: int| k <= j < end ==> in_class(class, #[trigger] v@[j]),
            k == 0 || !in_class(class, v@[k - 1]),
        decreases k,
    {
        if k == 0 {
            break ;
        }
        if !class_has(class, v[k - 1]) {
            break ;
        }
        k = k - 1;
    }
    proof {
        lemma_trailing_run_from(v@.take(end as int), class, k as int);
    }
    end - k
}

/// The length of the leading run of `class` in `v[start..]`.
pub fn leading_len(v: &[char], start: usize, class: CharClass) -> (n: usize)
    requires
        start <= v@.len(),
    ensures
        n == leading_run(v@.skip(start as int), class),
        start + n <= v@.len(),
{
    let mut k: usize = start;
    loop
        invariant_except_break
            start <= k <= v@.len(),
            forall|j: int| start <= j < k ==> in_class(class, #[trigger] v@[j]),
        ensures
            start <= k <= v@.len(),
            forall|j: int| start <= j < k ==> in_class(class, #[trigger] v@[j]),
            k == v@.len() || !in_class(class, v@[k as int]),
        decreases v@.len() - k,
    {
        if k == v.len() {
            break ;
        }
        if !class_has(class, v[k]) {
            break ;
        }
        k = k + 1;
    }
    proof {
        let t = v@.skip(start as int);
        assert forall|j: int| 0 <= j < k - start implies in_class(class, #[trigger] t[j]) by {
            assert(t[j] == v@[start + j]);
        }
        lemma_leading_run_to(t, class, k - start);
    }
    k - start
}

/// The bounds `(from, to)` of the trimmed form of `v[start..end]` within `v`.
pub fn trim_bounds(v: &[char], start: usize, end: usize) -> (r: (usize, usize))
    requires
        start <= end <= v@.len(),
    ensures
        start <= r.0 <= r.1 <= end,
        v@.subrange(r.0 as int, r.1 as int) == trimmed(v@.subrange(start as int, end as int)),
{
    let piece = vstd::slice::slice_subrange(v, start, end);
    let lead = leading_len(piece, 0, CharClass::Whitespace);
    proof {
        assert(piece@.skip(0) =~= piece@);
    }
    let rest = vstd::slice::slice_subrange(piece, lead, end - start);
    let trail = trailing_len(rest, end - start - lead, CharClass::Whitespace);
    proof {
        assert(rest@ =~= strip_start(piece@, CharClass::Whitespace));
        assert(rest@.take((end - start - lead) as int) =~= rest@);
        assert(v@.subrange((start + lead) as int, (end - trail) as int) =~= rest@.take(
            rest@.len() - trail,
        ));
    }
    (start + lead, end - trail)
}

/// The position of the first `c` in `s`, or the length of `s` where it holds
/// none.
pub open spec fn first_index(s: Seq<char>, c: char) -> int
    decreases s.len(),
{
    if s.len() == 0 {
        0
    } else if s[0] == c {
        0
    } else {
        1 + first_index(s.drop_first(), c)
    }
}

/// Whether `c` occurs in `s`.
pub open spec fn has_char(s: Seq<char>, c: char) -> bool {
    first_index(s, c) < s.len()
}

/// What [`first_index`] returns: a position that holds `c`, with no `c`
/// before it, or the length.
pub proof fn lemma_first_index(s: Seq<char>, c: char)
    ensures
        0 <= first_index(s, c) <= s.len(),
        forall|j: int| 0 <= j < first_index(s, c) ==> #[trigger] s[j] != c,
        first_index(s, c) < s.len() ==> s[first_index(s, c)] == c,
    decreases s.len(),
{
    if s.len() > 0 && s[0] != c {
        let t = s.drop_first();
        lemma_first_index(t, c);
        assert forall|j: int| 0 <= j < first_index(s, c) implies #[trigger] s[j] != c by {
            if j > 0 {
                assert(t[j - 1] == s[j]);
            }
        }
    }
}

/// A position with no `c` before it, which holds `c` or is the length, is
/// the one [`first_index`] returns.
pub proof fn lemma_first_index_is(s: Seq<char>, c: char, k: int)
    requires
        0 <= k <= s.len(),
        forall|j: int| 0 <= j < k ==> #[trigger] s[j] != c,
        k < s.len() ==> s[k] == c,
    ensures
        first_index(s, c) == k,
    decreases s.len(),
{
    if s.len() > 0 && k > 0 {
        let t = s.drop_first();
        assert forall|j: int| 0 <= j < k - 1 implies #[trigger] t[j] != c by {
            assert(t[j] == s[j + 1]);
        }
        lemma_first_index_is(t, c, k - 1);
    }
}

/// Text without `c` has no first position of it, and the other way round.
pub proof fn lemma_has_char(s: Seq<char>, c: char)
    ensures
        has_char(s, c) <==> exists|j: int| 0 <= j < s.len() && s[j] == c,
{
    lemma_first_index(s, c);
    if exists|j: int| 0 <= j < s.len() && s[j] == c {
        let j = choose|j: int| 0 <= j < s.len() && s[j] == c;
        if first_index(s, c) >= s.len() {
            assert(s[j] != c);
        }
    }
}

/// The first position at or after `from` that holds `c`, or `end`.
pub fn find_char(v: &[char], from: usize, end: usize, c: char) -> (k: usize)
    requires
        from <= end <= v@.len(),
    ensures
        from <= k <= end,
        k - from == first_index(v@.subrange(from as int, end as int), c),
{
    let mut k: usize = from;
    while k < end && v[k] != c
        invariant
            from <= k <= end <= v@.len(),
            forall|j: int| from <= j < k ==> #[trigger] v@[j] != c,
        decreases end - k,
    {
        k = k + 1;
    }
    proof {
        let t = v@.subrange(from as int, end as int);
        assert forall|j: int| 0 <= j < k - from implies #[trigger] t[j] != c by {
            assert(t[j] == v@[from + j]);
        }
        lemma_first_index_is(t, c, k - from);
    }
    k
}

/// The pieces of `s` between occurrences of `sep`. There is always at least
/// one piece; text that ends in `sep` has an empty last piece.
pub open spec fn split(s: Seq<char>, sep: char) -> Seq<Seq<char>>
    decreases s.len(),
{
    let k = first_index(s, sep);
    if 0 <= k < s.len() {
        seq![s.take(k)] + split(s.skip(k + 1), sep)
    } else {
        seq![s]
    }
}

/// Text without the separator is a single piece.
pub proof fn lemma_split_without(s: Seq<char>, sep: char)
    requires
        !has_char(s, sep),
    ensures
        split(s, sep) == seq![s],
{
    lemma_first_index(s, sep);
}

/// Splitting `a + [sep] + rest`, where `a` holds no separator, yields `a`
/// followed by the pieces of `rest`.
pub proof fn lemma_split_first(a: Seq<char>, sep: char, rest: Seq<char>)
    requires
        !has_char(a, sep),
    ensures
        split(a + seq![sep] + rest, sep) == seq![a] + split(rest, sep),
{
    let s = a + seq![sep] + rest;
    lemma_first_index(a, sep);
    assert forall|j: int| 0 <= j < a.len() implies #[trigger] s[j] != sep by {
        assert(s[j] == a[j]);
    }
    assert(s[a.len() as int] == sep);
    lemma_first_index_is(s, sep, a.len() as int);
    assert(s.take(a.len() as int) =~= a);
    assert(s.skip(a.len() as int + 1) =~= rest);
}

/// The pieces written one after another with `sep` between them.
pub open spec fn join(parts: Seq<Seq<char>>, sep: char) -> Seq<char>
    decreases parts.len(),
{
    if parts.len() == 0 {
        Seq::empty()
    } else if parts.len() == 1 {
        parts[0]
    } else {
        parts[0] + seq![sep] + join(parts.drop_first(), sep)
    }
}

/// Splitting undoes joining, where no piece holds the separator.
pub proof fn lemma_split_join(parts: Seq<Seq<char>>, sep: char)
    requires
        parts.len() > 0,
        forall|i: int| 0 <= i < parts.len() ==> !has_char(#[trigger] parts[i], sep),
    ensures
        split(join(parts, sep), sep) == parts,
    decreases parts.len(),
{
    if parts.len() == 1 {
        lemma_split_without(parts[0], sep);
        assert(seq![parts[0]] =~= parts);
    } else {
        let rest = parts.drop_first();
        assert forall|i: int| 0 <= i < rest.len() implies !has_char(#[trigger] rest[i], sep) by {
            assert(rest[i] == parts[i + 1]);
        }
        lemma_split_join(rest, sep);
        lemma_split_first(parts[0], sep, join(rest, sep));
        assert(seq![parts[0]] + rest =~= parts);
    }
}

/// Whether `s` holds `a` directly followed by `b`.
pub open spec fn has_pair(s: Seq<char>, a: char, b: char) -> bool {
    exists|j: int| 0 <= j && j + 1 < s.len() && s[j] == a && #[trigger] s[j + 1] == b
}

/// Executable form of [`has_pair`].
pub fn contains_pair(v: &[char], a: char, b: char) -> (r: bool)
    ensures
        r == has_pair(v@, a, b),
{
    let n = v.len();
    if n < 2 {
        return false;
    }
    let mut k: usize = 0;
    while k + 1 < n
        invariant
            n == v@.len(),
            k + 1 <= n,
            forall|j: int| 0 <= j < k ==> !(v@[j] == a && #[trigger] v@[j + 1] == b),
        decreases v@.len() - k,
    {
        if v[k] == a && v[k + 1] == b {
            return true;
        }
        k = k + 1;
    }
    false
}

/// Lexicographic order of text by Unicode scalar value, the order of `str`.
pub open spec fn lex_le(a: Seq<char>, b: Seq<char>) -> bool
    decreases a.len(),
{
    if a.len() == 0 {
        true
    } else if b.len() == 0 {
        false
    } else if a[0] != b[0] {
        (a[0] as u32) < (b[0] as u32)
    } else {
        lex_le(a.drop_first(), b.drop_first())
    }
}

/// Of two texts, one precedes the other or they are equal.
pub proof fn lemma_lex_total(a: Seq<char>, b: Seq<char>)
    ensures
        lex_le(a, b) || lex_le(b, a),
    decreases a.len(),
{
    if a.len() > 0 && b.len() > 0 {
        if a[0] == b[0] {
            lemma_lex_total(a.drop_first(), b.drop_first());
        } else {
            vstd::utf8::char_u32_cast(a[0], a[0] as u32);
            vstd::utf8::char_u32_cast(b[0], b[0] as u32);
        }
    }
}

/// The order is transitive.
pub proof fn lemma_lex_transitive(a: Seq<char>, b: Seq<char>, c: Seq<char>)
    requires
        lex_le(a, b),
        lex_le(b, c),
    ensures
        lex_le(a, c),
    decreases a.len(),
{
    if a.len() > 0 && b.len() > 0 && c.len() > 0 && a[0] == b[0] && b[0] == c[0] {
        lemma_lex_transitive(a.drop_first(), b.drop_first(), c.drop_first());
    }
}

/// Texts that precede each other are equal.
pub proof fn lemma_lex_antisymmetric(a: Seq<char>, b: Seq<char>)
    requires
        lex_le(a, b),
        lex_le(b, a),
    ensures
        a == b,
    decreases a.len(),
{
    if a.len() > 0 && b.len() > 0 {
        lemma_lex_antisymmetric(a.drop_first(), b.drop_first());
        assert(a =~= seq![a[0]] + a.drop_first());
        assert(b =~= seq![b[0]] + b.drop_first());
    } else {
        assert(a =~= b);
    }
}

/// Whether `a` precedes or equals `b` in the order of `str`.
pub fn text_le(a: &str, b: &str) -> (r: bool)
    ensures
        r == lex_le(a@, b@),
{
    let x = chars_of(a);
    let y = chars_of(b);
    let mut k: usize = 0;
    proof {
        assert(x@.skip(0) =~= x@);
        assert(y@.skip(0) =~= y@);
    }
    loop
        invariant
            k <= x@.len(),
            k <= y@.len(),
            x@ == a@,
            y@ == b@,
            lex_le(a@, b@) == lex_le(x@.skip(k as int), y@.skip(k as int)),
        decreases x@.len() - k,
    {
        if k == x.len() {
            return true;
        }
        if k == y.len() {
            return false;
        }
        proof {
            assert(x@.skip(k as int).drop_first() =~= x@.skip(k + 1));
            assert(y@.skip(k as int).drop_first() =~= y@.skip(k + 1));
        }
        if x[k] != y[k] {
            return (x[k] as u32) < (y[k] as u32);
        }
        k = k + 1;
    }
}

/// Whether `whole` begins with `head`.
pub fn has_prefix(whole: &[char], head: &[char]) -> (r: bool)
    ensures
        r == head@.is_prefix_of(whole@),
{
    let n = head.len();
    if whole.len() < n {
        return false;
    }
    let mut k: usize = 0;
    while k < n
        invariant
            k <= n,
            n == head@.len(),
            n <= whole@.len(),
            forall|j: int| 0 <= j < k ==> whole@[j] == head@[j],
        decreases n - k,
    {
        if whole[k] != head[k] {
            proof {
                if head@.is_prefix_of(whole@) {
                    assert(whole@.subrange(0, n as int)[k as int] == head@[k as int]);
                }
            }
            return false;
        }
        k = k + 1;
    }
    proof {
        assert(head@ =~= whole@.subrange(0, n as int));
    }
    true
}

/// Whether the two slices hold the same characters.
pub fn same_chars(x: &[char], y: &[char]) -> (r: bool)
    ensures
        r == (x@ == y@),
{
    let n = x.len();
    if n != y.len() {
        return false;
    }
    let mut k: usize = 0;
    while k < n
        invariant
            k <= n,
            n == x@.len(),
            x@.len() == y@.len(),
            forall|j: int| 0 <= j < k ==> x@[j] == y@[j],
        decreases n - k,
    {
        if x[k] != y[k] {
            return false;
        }
        k = k + 1;
    }
    proof {
        assert(x@ =~= y@);
    }
    true
}

/// Whether the two texts hold the same characters.
pub fn text_eq(a: &str, b: &str) -> (r: bool)
    ensures
        r == (a@ == b@),
{
    let x = chars_of(a);
    let y = chars_of(b);
    same_chars(x.as_slice(), y.as_slice())
}

/// The value of a decimal digit.
pub open spec fn digit_of(c: char) -> Option<nat> {
    if c == '0' {
        Some(0)
    } else if c == '1' {
        Some(1)
    } else if c == '2' {
        Some(2)
    } else if c == '3' {
        Some(3)
    } else if c == '4' {
        Some(4)
    } else if c == '5' {
        Some(5)
    } else if c == '6' {
        Some(6)
    } else if c == '7' {
        Some(7)
    } else if c == '8' {
        Some(8)
    } else if c == '9' {
        Some(9)
    } else {
        None
    }
}

/// Executable form of [`digit_of`].
pub fn digit_value(c: char) -> (r: Option<u64>)
    ensures
        match r {
            Some(d) => digit_of(c) == Some(d as nat) && d <= 9,
            None => digit_of(c) is None,
        },
{
    if c == '0' {
        Some(0)
    } else if c == '1' {
        Some(1)
    } else if c == '2' {
        Some(2)
    } else if c == '3' {
        Some(3)
    } else if c == '4' {
        Some(4)
    } else if c == '5' {
        Some(5)
    } else if c == '6' {
        Some(6)
    } else if c == '7' {
        Some(7)
    } else if c == '8' {
        Some(8)
    } else if c == '9' {
        Some(9)
    } else {
        None
    }
}

/// Whether the text holds decimal digits only.
pub open spec fn all_digits(s: Seq<char>) -> bool {
    forall|i: int| 0 <= i < s.len() ==> digit_of(#[trigger] s[i]) is Some
}

/// The number that the digits write in base ten.
pub open spec fn decimal_value(s: Seq<char>) -> nat
    decreases s.len(),
{
    if s.len() == 0 {
        0
    } else {
        decimal_value(s.drop_last()) * 10 + match digit_of(s.last()) {
            Some(d) => d,
            None => 0,
        }
    }
}

/// The number that the text writes: decimal digits, at least one, after an
/// optional `+`, and a value that fits 64 bits. Anything else is no number.
pub open spec fn parsed_u64(s: Seq<char>) -> Option<u64> {
    let digits = if s.len() > 0 && s[0] == '+' {
        s.skip(1)
    } else {
        s
    };
    if digits.len() > 0 && all_digits(digits) && decimal_value(digits) <= u64::MAX {
        Some(decimal_value(digits) as u64)
    } else {
        None
    }
}

/// A number written with more digits is no smaller.
pub proof fn lemma_decimal_grows(s: Seq<char>, k: int)
    requires
        0 <= k <= s.len(),
    ensures
        decimal_value(s.take(k)) <= decimal_value(s),
    decreases s.len() - k,
{
    if k < s.len() {
        lemma_decimal_grows(s.drop_last(), k);
        assert(s.drop_last().take(k) =~= s.take(k));
    } else {
        assert(s.take(k) =~= s);
    }
}

/// Reads an unsigned 64-bit number as `str::parse` does.
pub fn parse_u64(text: &str) -> (r: Option<u64>)
    ensures
        r == parsed_u64(text@),
{
    let chars = chars_of(text);
    let n = chars.len();
    let start: usize = if n > 0 && chars[0] == '+' {
        1
    } else {
        0
    };
    if start == n {
        return None;
    }
    let ghost digits = chars@.skip(start as int);
    let mut value: u64 = 0;
    let mut i: usize = start;
    proof {
        assert(digits.take(0) =~= Seq::<char>::empty());
        if start == 0 {
            assert(digits =~= text@);
        }
    }
    while i < n
        invariant
            start <= i <= n,
            start < n,
            n == chars@.len(),
            chars@ == text@,
            digits == chars@.skip(start as int),
            digits == if text@.len() > 0 && text@[0] == '+' {
                text@.skip(1)
            } else {
                text@
            },
            forall|j: int| 0 <= j < i - start ==> digit_of(#[trigger] digits[j]) is Some,
            value == decimal_value(digits.take(i - start)),
        decreases n - i,
    {
        let ghost next = digits.take(i - start + 1);
        proof {
            assert(digits[i - start] == chars@[i as int]);
            assert(next.drop_last() =~= digits.take(i - start));
            assert(next.last() == digits[i - start]);
            lemma_decimal_grows(digits, i - start + 1);
        }
        let d = match digit_value(chars[i]) {
            Some(d) => d,
            None => {
                return None;
            },
        };
        assert(decimal_value(next) == value * 10 + d);
        let tens = match value.checked_mul(10) {
            Some(t) => t,
            None => {
                return None;
            },
        };
        value = match tens.checked_add(d) {
            Some(v) => v,
            None => {
                return None;
            },
        };
        i = i + 1;
    }
    proof {
        assert(digits.take(n - start) =~= digits);
    }
    Some(value)
}

/// The character that writes a decimal digit.
pub open spec fn digit_char(d: nat) -> char {
    if d == 0 {
        '0'
    } else if d == 1 {
        '1'
    } else if d == 2 {
        '2'
    } else if d == 3 {
        '3'
    } else if d == 4 {
        '4'
    } else if d == 5 {
        '5'
    } else if d == 6 {
        '6'
    } else if d == 7 {
        '7'
    } else if d == 8 {
        '8'
    } else {
        '9'
    }
}

/// The number in base ten, without leading zeros.
pub open spec fn decimal_of(n: nat) -> Seq<char>
    decreases n,
{
    if n < 10 {
        seq![digit_char(n)]
    } else {
        decimal_of(n / 10) + seq![digit_char(n % 10)]
    }
}

/// Executable form of [`digit_char`].
fn digit_to_char(d: u64) -> (c: char)
    requires
        d < 10,
    ensures
        c == digit_char(d as nat),
{
    if d == 0 {
        '0'
    } else if d == 1 {
        '1'
    } else if d == 2 {
        '2'
    } else if d == 3 {
        '3'
    } else if d == 4 {
        '4'
    } else if d == 5 {
        '5'
    } else if d == 6 {
        '6'
    } else if d == 7 {
        '7'
    } else if d == 8 {
        '8'
    } else {
        '9'
    }
}

/// Writes a number in base ten.
pub fn decimal_text(n: u64) -> (out: String)
    ensures
        out@ == decimal_of(n as nat),
{
    let mut digits: Vec<char> = Vec::new();
    digits.push(digit_to_char(n % 10));
    let mut rest: u64 = n / 10;
    while rest > 0
        invariant
            decimal_of(n as nat) == if rest > 0 {
                decimal_of(rest as nat) + digits@
            } else {
                digits@
            },
        decreases rest,
    {
        let ghost before = digits@;
        digits.insert(0, digit_to_char(rest % 10));
        proof {
            assert(digits@ =~= seq![digit_char((rest % 10) as nat)] + before);
            if rest >= 10 {
                assert(decimal_of(rest as nat) + before =~= decimal_of((rest / 10) as nat)
                    + digits@);
            }
        }
        rest = rest / 10;
    }
    string_of(digits.as_slice())
}

} // verus!
