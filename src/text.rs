//! Characters, strings and grapheme clusters.

use unicode_segmentation::UnicodeSegmentation;
use vstd::prelude::*;
use vstd::std_specs::iter::IteratorSpec;

verus! {

/// The extended grapheme clusters of a text, in order (Unicode UAX #29).
pub uninterp spec fn graphemes_of(s: Seq<char>) -> Seq<Seq<char>>;

/// Relies on `UnicodeSegmentation::graphemes(s, true)`: it yields consecutive,
/// non-empty slices of `s` that together cover all of `s`.
#[verifier::external_body]
fn grapheme_slices<'a>(s: &'a str) -> (r: Vec<&'a str>)
    ensures
        r@.map_values(|g: &str| g@) == graphemes_of(s@),
        r@.map_values(|g: &str| g@).flatten() == s@,
        forall|i: int| 0 <= i < r@.len() ==> (#[trigger] r@[i])@.len() > 0,
{
    s.graphemes(true).collect()
}

/// Relies on `String::push`: appends one character.
#[verifier::external_body]
pub(crate) fn push_char(s: &mut String, c: char)
    ensures
        final(s)@ == old(s)@.push(c),
{
    s.push(c)
}

/// The characters of a string slice.
pub fn chars_of(s: &str) -> (r: Vec<char>)
    ensures
        r@ == s@,
{
    let mut out: Vec<char> = Vec::new();
    for c in it: s.chars()
        invariant
            out@ == it.seq().take(it.index() as int),
            it.seq() == s@,
    {
        out.push(c);
    }
    out
}

/// Grapheme clusters given as character vectors, viewed as sequences.
pub open spec fn clusters_view(g: Seq<Vec<char>>) -> Seq<Seq<char>> {
    g.map_values(|v: Vec<char>| v@)
}

/// The grapheme clusters of `s`, each as its characters.
pub fn graphemes(s: &str) -> (r: Vec<Vec<char>>)
    ensures
        clusters_view(r@) == graphemes_of(s@),
        graphemes_of(s@).flatten() == s@,
        forall|i: int| 0 <= i < graphemes_of(s@).len() ==> #[trigger] graphemes_of(s@)[i].len() > 0,
{
    let slices = grapheme_slices(s);
    let mut out: Vec<Vec<char>> = Vec::new();
    let mut i: usize = 0;
    while i < slices.len()
        invariant
            i <= slices@.len(),
            out@.len() == i,
            forall|k: int| 0 <= k < i ==> (#[trigger] out@[k])@ == slices@[k]@,
        decreases slices@.len() - i,
    {
        let cs = chars_of(slices[i]);
        out.push(cs);
        i += 1;
    }
    assert(clusters_view(out@) =~= slices@.map_values(|g: &str| g@));
    proof {
        assert forall|k: int| 0 <= k < graphemes_of(s@).len() implies #[trigger] graphemes_of(s@)[k].len() > 0 by {
            assert(graphemes_of(s@)[k] == slices@[k]@);
        }
    }
    out
}

/// The number of grapheme clusters of `s`.
pub fn grapheme_count(s: &str) -> (r: usize)
    ensures
        r == graphemes_of(s@).len(),
        graphemes_of(s@).flatten() == s@,
{
    let slices = grapheme_slices(s);
    assert(slices@.len() == slices@.map_values(|g: &str| g@).len());
    slices.len()
}

/// A string holding the given characters.
pub fn string_of(cs: &Vec<char>) -> (r: String)
    ensures
        r@ == cs@,
{
    let mut out = String::new();
    push_chars(&mut out, cs);
    out
}

/// Appends the given characters to `s`.
pub fn push_chars(s: &mut String, cs: &Vec<char>)
    ensures
        final(s)@ == old(s)@ + cs@,
{
    let mut i: usize = 0;
    while i < cs.len()
        invariant
            i <= cs@.len(),
            s@ == old(s)@ + cs@.take(i as int),
        decreases cs@.len() - i,
    {
        push_char(s, cs[i]);
        i += 1;
        assert(s@ =~= old(s)@ + cs@.take(i as int));
    }
    assert(cs@.take(i as int) =~= cs@);
}

/// The characters `from..to` of `cs`.
pub fn slice_chars(cs: &Vec<char>, from: usize, to: usize) -> (r: Vec<char>)
    requires
        from <= to <= cs@.len(),
    ensures
        r@ == cs@.subrange(from as int, to as int),
{
    let mut out: Vec<char> = Vec::new();
    let mut k = from;
    while k < to
        invariant
            from <= k <= to <= cs@.len(),
            out@ == cs@.subrange(from as int, k as int),
        decreases to - k,
    {
        out.push(cs[k]);
        k += 1;
        assert(out@ =~= cs@.subrange(from as int, k as int));
    }
    out
}

/// Appends the characters of `t` to `s`.
pub fn push_str(s: &mut String, t: &str)
    ensures
        final(s)@ == old(s)@ + t@,
{
    let cs = chars_of(t);
    push_chars(s, &cs);
}

/// `flatten` of a slice of clusters grows by one cluster at a time.
pub proof fn lemma_flatten_extend(g: Seq<Seq<char>>, from: int, to: int)
    requires
        0 <= from <= to < g.len(),
    ensures
        g.subrange(from, to + 1).flatten() == g.subrange(from, to).flatten() + g[to],
{
    assert(g.subrange(from, to + 1) =~= g.subrange(from, to).push(g[to]));
    g.subrange(from, to).lemma_flatten_push(g[to]);
}

/// Splitting a sequence of clusters splits its `flatten`.
pub proof fn lemma_flatten_split(g: Seq<Seq<char>>, k: int)
    requires
        0 <= k <= g.len(),
    ensures
        g.flatten() == g.take(k).flatten() + g.skip(k).flatten(),
{
    assert(g =~= g.take(k) + g.skip(k));
    vstd::seq_lib::lemma_flatten_concat(g.take(k), g.skip(k));
}

/// Appends clusters `from..to` of `g` to `s`.
pub fn push_clusters(s: &mut String, g: &Vec<Vec<char>>, from: usize, to: usize)
    requires
        from <= to <= g@.len(),
    ensures
        final(s)@ == old(s)@ + clusters_view(g@).subrange(from as int, to as int).flatten(),
{
    let ghost gv = clusters_view(g@);
    let mut i: usize = from;
    assert(gv.subrange(from as int, from as int) =~= Seq::<Seq<char>>::empty());
    while i < to
        invariant
            from <= i <= to <= g@.len(),
            gv == clusters_view(g@),
            s@ == old(s)@ + gv.subrange(from as int, i as int).flatten(),
        decreases to - i,
    {
        push_chars(s, &g[i]);
        proof {
            lemma_flatten_extend(gv, from as int, i as int);
        }
        i += 1;
        assert(s@ =~= old(s)@ + gv.subrange(from as int, i as int).flatten());
    }
}

/// ASCII whitespace, as `char::is_ascii_whitespace` defines it.
pub open spec fn is_ascii_whitespace(c: char) -> bool {
    c == ' ' || c == '\t' || c == '\n' || c == '\x0C' || c == '\r'
}

/// ASCII punctuation, as `char::is_ascii_punctuation` defines it.
pub open spec fn is_ascii_punctuation(c: char) -> bool {
    ('!' <= c && c <= '/') || (':' <= c && c <= '@') || ('[' <= c && c <= '`') || ('{' <= c
        && c <= '~')
}

/// Characters that end a word: ASCII whitespace or punctuation.
pub open spec fn separator(c: char) -> bool {
    is_ascii_whitespace(c) || is_ascii_punctuation(c)
}

/// An ASCII decimal digit.
pub open spec fn digit(c: char) -> bool {
    '0' <= c && c <= '9'
}

/// Whether `c` is ASCII whitespace or punctuation.
pub fn is_separator(c: char) -> (r: bool)
    ensures
        r == separator(c),
{
    c == ' ' || c == '\t' || c == '\n' || c == '\x0C' || c == '\r' || ('!' <= c && c <= '/') || (
    ':' <= c && c <= '@') || ('[' <= c && c <= '`') || ('{' <= c && c <= '~')
}

/// Whether `c` is an ASCII decimal digit.
pub fn is_digit(c: char) -> (r: bool)
    ensures
        r == digit(c),
{
    '0' <= c && c <= '9'
}

} // verus!
