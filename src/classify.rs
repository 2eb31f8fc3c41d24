//! What the highlighter computes, stated over sequences of characters.

use crate::filetype::OptionsView;
use crate::highlighting::Type;
use crate::text::{digit, graphemes_of, separator};
use vstd::prelude::*;

verus! {

/// `n` copies of the class `t`.
pub open spec fn span(n: int, t: Type) -> Seq<Type> {
    Seq::new(n as nat, |_j: int| t)
}

/// A line comment: `//` at `i` claims the rest of the row.
pub open spec fn comment_rule(cs: Seq<char>, o: OptionsView, i: int) -> Option<Seq<Type>> {
    if o.comments && 0 <= i && i + 1 < cs.len() && cs[i] == '/' && cs[i + 1] == '/' {
        Some(span(cs.len() - i, Type::Comment))
    } else {
        None
    }
}

/// A character literal: `'x'`, or `'\x'` with one escaped character.
pub open spec fn character_rule(cs: Seq<char>, o: OptionsView, i: int) -> Option<Seq<Type>> {
    if o.characters && 0 <= i < cs.len() && cs[i] == '\'' {
        if i + 1 < cs.len() && cs[i + 1] == '\\' {
            if i + 3 < cs.len() && cs[i + 3] == '\'' {
                Some(span(4, Type::Character))
            } else {
                None
            }
        } else if i + 2 < cs.len() && cs[i + 2] == '\'' {
            Some(span(3, Type::Character))
        } else {
            None
        }
    } else {
        None
    }
}

/// The classes of a string literal's body from `j` up to and including its
/// closing quote, or to the end of the row when it is not closed.
pub open spec fn string_body(cs: Seq<char>, j: int) -> Seq<Type>
    decreases cs.len() - j,
{
    if j < 0 || j >= cs.len() {
        Seq::empty()
    } else if cs[j] == '"' {
        seq![Type::String]
    } else if cs[j] == '\\' {
        if j + 1 < cs.len() {
            seq![Type::Escape, Type::Escape] + string_body(cs, j + 2)
        } else {
            seq![Type::Escape]
        }
    } else {
        seq![Type::String] + string_body(cs, j + 1)
    }
}

/// Whether the string literal's body from `j` has a closing quote.
pub open spec fn string_closed(cs: Seq<char>, j: int) -> bool
    decreases cs.len() - j,
{
    if j < 0 || j >= cs.len() {
        false
    } else if cs[j] == '"' {
        true
    } else if cs[j] == '\\' {
        j + 1 < cs.len() && string_closed(cs, j + 2)
    } else {
        string_closed(cs, j + 1)
    }
}

/// A string literal opened by `"` at `i`.
pub open spec fn string_rule(cs: Seq<char>, o: OptionsView, i: int) -> Option<Seq<Type>> {
    if o.strings && 0 <= i < cs.len() && cs[i] == '"' {
        Some(seq![Type::String] + string_body(cs, i + 1))
    } else {
        None
    }
}

/// The end of the number run that has reached position `j`: digits, and a `.`
/// right after a digit.
pub open spec fn number_end(cs: Seq<char>, j: int) -> int
    decreases cs.len() - j,
{
    if 0 <= j && j + 1 < cs.len() && (digit(cs[j + 1]) || (cs[j + 1] == '.' && digit(cs[j]))) {
        number_end(cs, j + 1)
    } else {
        j + 1
    }
}

/// A number: a digit at the start of a token, and the run that follows it.
pub open spec fn number_rule(cs: Seq<char>, o: OptionsView, i: int) -> Option<Seq<Type>> {
    if o.numbers && 0 <= i < cs.len() && digit(cs[i]) && (i == 0 || separator(cs[i - 1])) {
        Some(span(number_end(cs, i) - i, Type::Number))
    } else {
        None
    }
}

/// Whether the word `kw` stands at `i`, with a separator (or the row's edge)
/// on each side.
pub open spec fn keyword_at(cs: Seq<char>, kw: Seq<char>, i: int) -> bool {
    &&& kw.len() > 0
    &&& 0 <= i
    &&& i + kw.len() <= cs.len()
    &&& (i == 0 || separator(cs[i - 1]))
    &&& (i + kw.len() == cs.len() || separator(cs[i + kw.len()]))
    &&& cs.subrange(i, i + kw.len()) == kw
}

/// The first keyword of `keys`, from the `k`-th on, that stands at `i`.
pub open spec fn keyword_from(cs: Seq<char>, keys: Seq<Seq<char>>, i: int, k: int, t: Type) -> Option<
    Seq<Type>,
>
    decreases keys.len() - k,
{
    if k < 0 || k >= keys.len() {
        None
    } else if keyword_at(cs, keys[k], i) {
        Some(span(keys[k].len() as int, t))
    } else {
        keyword_from(cs, keys, i, k + 1, t)
    }
}

/// The classes claimed at `i` by the first rule that applies, in the fixed
/// order comment, character, string, number, primary keyword, secondary
/// keyword. Each rule is tried only where the pass stands: a `//` inside a
/// string literal is never seen as a comment, since the string rule has
/// already claimed the literal from its opening quote.
pub open spec fn step(cs: Seq<char>, o: OptionsView, i: int) -> Seq<Type> {
    if let Some(t) = comment_rule(cs, o, i) {
        t
    } else if let Some(t) = character_rule(cs, o, i) {
        t
    } else if let Some(t) = string_rule(cs, o, i) {
        t
    } else if let Some(t) = number_rule(cs, o, i) {
        t
    } else if let Some(t) = keyword_from(cs, o.primary_keys, i, 0, Type::PrimaryKey) {
        t
    } else if let Some(t) = keyword_from(cs, o.secondary_keys, i, 0, Type::SecondaryKey) {
        t
    } else {
        seq![Type::Normal]
    }
}

/// The classes of the characters from `i` on, in one left-to-right pass.
pub open spec fn classify_from(cs: Seq<char>, o: OptionsView, i: int) -> Seq<Type>
    decreases cs.len() - i,
{
    if 0 <= i < cs.len() {
        let t = step(cs, o, i);
        if t.len() > 0 && i + t.len() <= cs.len() {
            t + classify_from(cs, o, i + t.len())
        } else {
            t
        }
    } else {
        Seq::empty()
    }
}

/// The classes of all the characters of a row.
pub open spec fn classify(cs: Seq<char>, o: OptionsView) -> Seq<Type> {
    classify_from(cs, o, 0)
}

/// Whether `q` occurs in `w` at character offset `p`.
pub open spec fn occurs_at(w: Seq<char>, q: Seq<char>, p: int) -> bool {
    0 <= p && p + q.len() <= w.len() && w.subrange(p, p + q.len()) == q
}

/// The first offset from `p` on at which `q` occurs in `w`.
pub open spec fn first_from(w: Seq<char>, q: Seq<char>, p: int) -> Option<int>
    decreases w.len() + 1 - p,
{
    if p < 0 || p + q.len() > w.len() {
        None
    } else if occurs_at(w, q, p) {
        Some(p)
    } else {
        first_from(w, q, p + 1)
    }
}

/// The last offset up to `p` at which `q` occurs in `w`.
pub open spec fn last_from(w: Seq<char>, q: Seq<char>, p: int) -> Option<int>
    decreases p + 1,
{
    if p < 0 {
        None
    } else if occurs_at(w, q, p) {
        Some(p)
    } else {
        last_from(w, q, p - 1)
    }
}

/// The index of the cluster of `g` that starts at character offset `p` of
/// `g.flatten()`, if one does.
pub open spec fn cluster_at(g: Seq<Seq<char>>, p: int) -> Option<int>
    decreases g.len(),
{
    if g.len() == 0 {
        None
    } else if p == 0 {
        Some(0)
    } else if p < g[0].len() {
        None
    } else {
        match cluster_at(g.drop_first(), p - g[0].len()) {
            Some(k) => Some(k + 1),
            None => None,
        }
    }
}

/// Where `q` is found among the clusters `g` searching from cluster `at`:
/// forward among clusters `at..`, the first occurrence; backward among
/// clusters `..at`, the last. The result is the index of the cluster where
/// the occurrence starts; none when the occurrence starts inside a cluster.
pub open spec fn find_among(g: Seq<Seq<char>>, q: Seq<char>, at: int, forward: bool) -> Option<int> {
    if at < 0 || at > g.len() || q.len() == 0 {
        None
    } else {
        let start = if forward { at } else { 0 };
        let end = if forward { g.len() as int } else { at };
        let gw = g.subrange(start, end);
        let w = gw.flatten();
        let p = if forward {
            first_from(w, q, 0)
        } else {
            last_from(w, q, w.len() - q.len())
        };
        match p {
            Some(p) => match cluster_at(gw, p) {
                Some(k) => Some(start + k),
                None => None,
            },
            None => None,
        }
    }
}

/// Where `q` is found in the text `s` searching from cluster `at`.
pub open spec fn find_in(s: Seq<char>, q: Seq<char>, at: int, forward: bool) -> Option<int> {
    find_among(graphemes_of(s), q, at, forward)
}

/// `h` with the entries `from..to` that it has set to `Match`.
pub open spec fn mark(h: Seq<Type>, from: int, to: int) -> Seq<Type> {
    Seq::new(h.len(), |j: int| if from <= j < to { Type::Match } else { h[j] })
}

/// `h` with every occurrence of `q` among the clusters `g` found forward
/// from cluster `from` marked over `m` entries; each search resumes after
/// the previous match.
pub open spec fn overlay(h: Seq<Type>, g: Seq<Seq<char>>, q: Seq<char>, from: int, m: int) -> Seq<
    Type,
>
    decreases (if from <= g.len() {
        g.len() + 1 - from
    } else {
        0
    }),
{
    if from < 0 || from > g.len() || m <= 0 {
        h
    } else {
        match find_among(g, q, from, true) {
            Some(k) => if k < from || k + m > usize::MAX {
                h
            } else {
                overlay(mark(h, k, k + m), g, q, k + m, m)
            },
            None => h,
        }
    }
}

/// One round of `overlay`: a match at `k` is marked and the search resumes
/// after it.
pub proof fn lemma_overlay_found(
    h: Seq<Type>,
    g: Seq<Seq<char>>,
    q: Seq<char>,
    from: int,
    m: int,
    k: int,
)
    requires
        0 <= from <= k < g.len(),
        m > 0,
        k + m <= usize::MAX,
        find_among(g, q, from, true) == Some(k),
    ensures
        overlay(h, g, q, from, m) == overlay(mark(h, k, k + m), g, q, k + m, m),
{
}

/// `overlay` stops when the search finds nothing more, or the next start
/// would not fit in a `usize`.
pub proof fn lemma_overlay_done(h: Seq<Type>, g: Seq<Seq<char>>, q: Seq<char>, from: int, m: int)
    requires
        0 <= from,
        m > 0,
        match find_among(g, q, from, true) {
            Some(k) => k + m > usize::MAX,
            None => true,
        },
    ensures
        overlay(h, g, q, from, m) == h,
{
}

/// The highlighting of a row with text `s`: its classes, then the matches of
/// a non-empty query overlaid, each over as many entries as the query has
/// clusters.
pub open spec fn highlight_of(s: Seq<char>, o: OptionsView, query: Option<Seq<char>>) -> Seq<
    Type,
> {
    match query {
        Some(q) => if q.len() > 0 {
            overlay(classify(s, o), graphemes_of(s), q, 0, graphemes_of(q).len() as int)
        } else {
            classify(s, o)
        },
        None => classify(s, o),
    }
}

} // verus!
