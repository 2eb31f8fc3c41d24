//! One line of text with its highlighting.

use crate::classify::{
    character_rule, classify, classify_from, comment_rule, find_in, highlight_of, keyword_at,
    keyword_from, number_end, number_rule, overlay, span, step, string_body, string_closed,
    string_rule,
};
use crate::clusters::{
    as_int, find_in_clusters, head_of, mark_matches, occurs, remove_cluster, removed, render_among,
    render_clusters, splice, spliced, split_at_cluster, tail_of,
};
use crate::filetype::{strings_view, HighlightingOptions};
use crate::highlighting::Type;
use crate::position::SearchDirection;
use crate::text::{
    chars_of, grapheme_count, graphemes, graphemes_of, is_digit, is_separator, lemma_flatten_split,
    push_char, push_chars, separator,
};
use vstd::prelude::*;

verus! {

/// One line of a document: its text, the class of each of its characters,
/// and its length in grapheme clusters.
pub struct Row {
    content: String,
    highlighting: Vec<Type>,
    len: usize,
}

/// The abstract value of a `Row`.
pub struct RowView {
    pub content: Seq<char>,
    pub highlighting: Seq<Type>,
    pub len: nat,
}

impl View for Row {
    type V = RowView;

    closed spec fn view(&self) -> RowView {
        RowView { content: self.content@, highlighting: self.highlighting@, len: self.len as nat }
    }
}

/// The text `s` with `c` put before cluster `at`, or after the last one.
pub open spec fn inserted(s: Seq<char>, at: int, c: char) -> Seq<char> {
    spliced(graphemes_of(s), at, c)
}

/// The text `s` without cluster `at`; all of `s` when there is none.
pub open spec fn deleted(s: Seq<char>, at: int) -> Seq<char> {
    removed(graphemes_of(s), at)
}

/// The clusters of `s` before `at`.
pub open spec fn split_head(s: Seq<char>, at: int) -> Seq<char> {
    head_of(graphemes_of(s), at)
}

/// The clusters of `s` from `at` on.
pub open spec fn split_tail(s: Seq<char>, at: int) -> Seq<char> {
    tail_of(graphemes_of(s), at)
}

/// The cached length is the number of clusters, which cover the text.
pub open spec fn row_wf(r: RowView) -> bool {
    &&& r.len == graphemes_of(r.content).len()
    &&& graphemes_of(r.content).flatten() == r.content
}

/// A row with text `s` and no highlighting.
pub open spec fn plain_row(r: RowView, s: Seq<char>) -> bool {
    r.content == s && r.highlighting.len() == 0 && r.len == graphemes_of(s).len()
}

/// Two rows with the same text and length.
pub open spec fn same_text(a: RowView, b: RowView) -> bool {
    a.content == b.content && a.len == b.len
}

/// The effect of a rule that claimed `t`, or that did not apply: the
/// highlighting grows by `t` and the index moves past it, or both stay.
pub open spec fn ruled(
    rule: Option<Seq<Type>>,
    h0: Seq<Type>,
    i0: usize,
    h1: Seq<Type>,
    i1: usize,
    n: nat,
) -> bool {
    match rule {
        Some(t) => h1 == h0 + t && i1 == i0 + t.len() && i0 < i1 <= n,
        None => h1 == h0 && i1 == i0,
    }
}

/// The rule that claims the word `kw` at `i` as class `t`.
pub open spec fn target_rule(cs: Seq<char>, kw: Seq<char>, i: int, t: Type) -> Option<Seq<Type>> {
    if keyword_at(cs, kw, i) {
        Some(span(kw.len() as int, t))
    } else {
        None
    }
}

/// The display of clusters `start..end` of a row, clipped to the row, with
/// the default colour set first and reset last.
pub open spec fn rendered(r: RowView, start: int, end: int) -> Seq<char> {
    render_among(graphemes_of(r.content), r.highlighting, start, end)
}

impl Row {
    /// See `row_wf`.
    pub open spec fn wf(&self) -> bool {
        row_wf(self@)
    }

    /// A row holding `value`, not yet highlighted.
    pub fn from(value: &str) -> (r: Row)
        ensures
            r.wf(),
            plain_row(r@, value@),
    {
        let content = value.to_owned();
        let len = grapheme_count(content.as_str());
        Row { content, highlighting: Vec::new(), len }
    }

    /// The row's text.
    pub fn text(&self) -> (r: &str)
        ensures
            r@ == self@.content,
    {
        self.content.as_str()
    }

    /// The class of each character, as last computed.
    pub fn highlighting(&self) -> (r: &Vec<Type>)
        ensures
            r@ == self@.highlighting,
    {
        &self.highlighting
    }

    /// The number of grapheme clusters.
    pub fn len(&self) -> (r: usize)
        ensures
            r == self@.len,
    {
        self.len
    }

    pub fn is_empty(&self) -> (r: bool)
        ensures
            r == (self@.len == 0),
    {
        self.len == 0
    }

    /// The text encoded as UTF-8.
    pub fn as_bytes(&self) -> (r: &[u8])
        ensures
            r@ == vstd::utf8::encode_utf8(self@.content),
    {
        self.content.as_str().as_bytes()
    }

    /// Puts `c` before cluster `at`, or after the last cluster when `at` is
    /// past it, and counts the clusters again. The highlighting is left as
    /// it was.
    pub fn insert(&mut self, at: usize, c: char)
        requires
            old(self).wf(),
        ensures
            final(self).wf(),
            final(self)@.content == inserted(old(self)@.content, at as int, c),
            final(self)@.highlighting == old(self)@.highlighting,
    {
        if at >= self.len {
            push_char(&mut self.content, c);
        } else {
            let g = graphemes(self.content.as_str());
            self.content = splice(&g, at, c);
        }
        self.len = grapheme_count(self.content.as_str());
    }

    /// Removes cluster `at`; nothing happens when there is none.
    pub fn delete(&mut self, at: usize)
        requires
            old(self).wf(),
        ensures
            final(self).wf(),
            final(self)@.content == deleted(old(self)@.content, at as int),
            final(self)@.highlighting == old(self)@.highlighting,
    {
        if at >= self.len {
            return;
        }
        let g = graphemes(self.content.as_str());
        self.content = remove_cluster(&g, at);
        self.len = grapheme_count(self.content.as_str());
    }

    /// Keeps the clusters before `at` and returns a row, not highlighted,
    /// holding the rest.
    pub fn split(&mut self, at: usize) -> (r: Row)
        requires
            old(self).wf(),
        ensures
            final(self).wf(),
            r.wf(),
            final(self)@.content == split_head(old(self)@.content, at as int),
            final(self)@.highlighting == old(self)@.highlighting,
            plain_row(r@, split_tail(old(self)@.content, at as int)),
    {
        let g = graphemes(self.content.as_str());
        let (head, tail) = split_at_cluster(&g, at);
        self.content = head;
        self.len = grapheme_count(self.content.as_str());
        let tail_len = grapheme_count(tail.as_str());
        Row { content: tail, highlighting: Vec::new(), len: tail_len }
    }

    /// Where `query` is found from cluster `at`: forward among the clusters
    /// `at..`, the first occurrence; backward among the clusters `..at`, the
    /// last. The index returned is that of the cluster where it starts.
    pub fn find(&self, query: &str, at: usize, direction: SearchDirection) -> (r: Option<usize>)
        requires
            self.wf(),
        ensures
            as_int(r) == find_in(self@.content, query@, at as int, direction == SearchDirection::Forward),
            r matches Some(k) ==> k < self@.len && (direction == SearchDirection::Forward ==> at <= k),
    {
        let g = graphemes(self.content.as_str());
        let q = chars_of(query);
        find_in_clusters(&g, &q, at, direction == SearchDirection::Forward)
    }

    /// Recomputes the class of every character, then marks the matches of
    /// `query` when it is given and not empty.
    pub fn highlight(&mut self, query: Option<&str>, hl_opts: &HighlightingOptions)
        requires
            old(self).wf(),
        ensures
            same_text(final(self)@, old(self)@),
            final(self)@.highlighting == highlight_of(
                old(self)@.content,
                hl_opts@,
                match query {
                    Some(q) => Some(q@),
                    None => None,
                },
            ),
    {
        self.highlighting = Vec::new();
        let chars = chars_of(self.content.as_str());
        let ghost cs = chars@;
        let ghost o = hl_opts@;
        let mut index: usize = 0;
        while index < chars.len()
            invariant
                cs == chars@,
                o == hl_opts@,
                cs == old(self)@.content,
                index <= cs.len(),
                same_text(self@, old(self)@),
                self.highlighting@ + classify_from(cs, o, index as int) == classify(cs, o),
            decreases cs.len() - index,
        {
            let start = index;
            let ghost hb = self.highlighting@;
            if !self.highlight_comment(&chars, hl_opts, &mut index) && !self.highlight_character(
                &chars,
                hl_opts,
                &mut index,
            ) {
                self.highlight_strings(&chars, hl_opts, &mut index);
                if index == start && !self.highlight_number(&chars, hl_opts, &mut index)
                    && !self.highlight_primary_keys(&chars, hl_opts, &mut index)
                    && !self.highlight_secondary_keys(&chars, hl_opts, &mut index) {
                    self.highlighting.push(Type::Normal);
                    index += 1;
                }
            }
            let ghost t = step(cs, o, start as int);
            assert(self.highlighting@ == hb + t);
            assert(index == start + t.len());
            assert(classify_from(cs, o, start as int) == t + classify_from(cs, o, index as int));
            assert(self.highlighting@ + classify_from(cs, o, index as int) =~= hb + classify_from(
                cs,
                o,
                start as int,
            ));
        }
        assert(self.highlighting@ + classify_from(cs, o, index as int) =~= self.highlighting@);
        self.highlight_match(query);
    }

    /// Marks as `Match` each occurrence of `query` found forward from the
    /// start of the row, over as many entries as `query` has clusters. The
    /// entries marked are those at the cluster indices of the match, although
    /// the highlighting holds one entry per character: the two agree on text
    /// whose clusters are single characters.
    pub fn highlight_match(&mut self, query: Option<&str>)
        requires
            old(self).wf(),
        ensures
            same_text(final(self)@, old(self)@),
            final(self)@.highlighting == match query {
                Some(q) => if q@.len() > 0 {
                    overlay(
                        old(self)@.highlighting,
                        graphemes_of(old(self)@.content),
                        q@,
                        0,
                        graphemes_of(q@).len() as int,
                    )
                } else {
                    old(self)@.highlighting
                },
                None => old(self)@.highlighting,
            },
    {
        if let Some(query) = query {
            if query.is_empty() {
                return;
            }
            let g = graphemes(self.content.as_str());
            let q = chars_of(query);
            let m = grapheme_count(query);
            mark_matches(&mut self.highlighting, &g, &q, m);
        }
    }

    /// The clusters `start..end`, clipped to the row, ready for a terminal:
    /// a colour change wherever the class changes, tabs shown as spaces, and
    /// the colour reset at the end.
    pub fn render(&self, start: usize, end: usize) -> (r: String)
        requires
            self.wf(),
        ensures
            r@ == rendered(self@, start as int, end as int),
    {
        let g = graphemes(self.content.as_str());
        render_clusters(&g, &self.highlighting, start, end)
    }

    /// Appends `n` entries of class `t` and moves `index` past them.
    fn push_span(&mut self, t: Type, n: usize, index: &mut usize)
        requires
            *old(index) + n <= usize::MAX,
        ensures
            same_text(final(self)@, old(self)@),
            final(self)@.highlighting == old(self)@.highlighting + span(n as int, t),
            *final(index) == *old(index) + n,
    {
        let ghost h0 = self.highlighting@;
        let mut k: usize = 0;
        while k < n
            invariant
                k <= n,
                *index == *old(index) + k,
                *old(index) + n <= usize::MAX,
                same_text(self@, old(self)@),
                self.highlighting@ == h0 + span(k as int, t),
            decreases n - k,
        {
            self.highlighting.push(t);
            k += 1;
            *index += 1;
            assert(self.highlighting@ =~= h0 + span(k as int, t));
        }
    }

    /// Claims the rest of the row as a comment when `//` stands at `index`.
    pub fn highlight_comment(
        &mut self,
        chars: &Vec<char>,
        hl_opts: &HighlightingOptions,
        index: &mut usize,
    ) -> (r: bool)
        ensures
            same_text(final(self)@, old(self)@),
            r == comment_rule(chars@, hl_opts@, *old(index) as int) is Some,
            ruled(
                comment_rule(chars@, hl_opts@, *old(index) as int),
                old(self)@.highlighting,
                *old(index),
                final(self)@.highlighting,
                *final(index),
                chars@.len(),
            ),
    {
        let i = *index;
        if hl_opts.comments() && i < chars.len() && 1 < chars.len() - i && chars[i] == '/' && chars[i
            + 1] == '/' {
            self.push_span(Type::Comment, chars.len() - i, index);
            true
        } else {
            false
        }
    }

    /// Claims a character literal, `'x'` or `'\x'`, that opens at `index`.
    pub fn highlight_character(
        &mut self,
        chars: &Vec<char>,
        hl_opts: &HighlightingOptions,
        index: &mut usize,
    ) -> (r: bool)
        ensures
            same_text(final(self)@, old(self)@),
            r == character_rule(chars@, hl_opts@, *old(index) as int) is Some,
            ruled(
                character_rule(chars@, hl_opts@, *old(index) as int),
                old(self)@.highlighting,
                *old(index),
                final(self)@.highlighting,
                *final(index),
                chars@.len(),
            ),
    {
        let i = *index;
        if !hl_opts.characters() || i >= chars.len() || chars[i] != '\'' {
            return false;
        }
        let n = chars.len();
        if 1 < n - i && chars[i + 1] == '\\' {
            if 3 < n - i && chars[i + 3] == '\'' {
                self.push_span(Type::Character, 4, index);
                true
            } else {
                false
            }
        } else if 2 < n - i && chars[i + 2] == '\'' {
            self.push_span(Type::Character, 3, index);
            true
        } else {
            false
        }
    }

    /// Claims a string literal that opens at `index`, up to its closing
    /// quote or the end of the row; `\` and the character after it are
    /// escapes. Returns whether the literal was closed.
    pub fn highlight_strings(
        &mut self,
        chars: &Vec<char>,
        hl_opts: &HighlightingOptions,
        index: &mut usize,
    ) -> (r: bool)
        ensures
            same_text(final(self)@, old(self)@),
            r == (string_rule(chars@, hl_opts@, *old(index) as int) is Some && string_closed(
                chars@,
                *old(index) + 1,
            )),
            ruled(
                string_rule(chars@, hl_opts@, *old(index) as int),
                old(self)@.highlighting,
                *old(index),
                final(self)@.highlighting,
                *final(index),
                chars@.len(),
            ),
    {
        let i = *index;
        if !hl_opts.strings() || i >= chars.len() || chars[i] != '"' {
            return false;
        }
        let ghost cs = chars@;
        let ghost t = seq![Type::String] + string_body(cs, i + 1);
        assert(string_rule(cs, hl_opts@, i as int) == Some(t));
        let ghost full = self.highlighting@ + t;
        let ghost h0 = self.highlighting@;
        self.highlighting.push(Type::String);
        *index += 1;
        assert(self.highlighting@ + string_body(cs, i + 1) =~= full);
        while *index < chars.len()
            invariant
                cs == chars@,
                i < *index <= cs.len(),
                i == *old(index),
                string_rule(cs, hl_opts@, i as int) == Some(t),
                full == h0 + t,
                h0 == old(self)@.highlighting,
                same_text(self@, old(self)@),
                self.highlighting@ + string_body(cs, *index as int) == full,
                *index - i == self.highlighting@.len() - h0.len(),
                string_closed(cs, i + 1) == string_closed(cs, *index as int),
            decreases cs.len() - *index,
        {
            let j = *index;
            let ghost hb = self.highlighting@;
            if chars[j] == '"' {
                self.highlighting.push(Type::String);
                *index += 1;
                assert(string_body(cs, j as int) == seq![Type::String]);
                assert(string_closed(cs, j as int));
                assert(self.highlighting@ =~= hb + string_body(cs, j as int));
                assert(hb + string_body(cs, j as int) == full);
                return true;
            } else if chars[j] == '\\' {
                if j + 1 < chars.len() {
                    self.highlighting.push(Type::Escape);
                    self.highlighting.push(Type::Escape);
                    *index += 2;
                    assert(hb + string_body(cs, j as int) =~= self.highlighting@ + string_body(
                        cs,
                        *index as int,
                    ));
                } else {
                    self.highlighting.push(Type::Escape);
                    *index += 1;
                    assert(self.highlighting@ =~= hb + string_body(cs, j as int));
                    assert(string_body(cs, *index as int) =~= Seq::<Type>::empty());
                    assert(self.highlighting@ + string_body(cs, *index as int) =~= self.highlighting@);
                }
            } else {
                self.highlighting.push(Type::String);
                *index += 1;
                assert(hb + string_body(cs, j as int) =~= self.highlighting@ + string_body(
                    cs,
                    *index as int,
                ));
            }
        }
        assert(self.highlighting@ + string_body(cs, *index as int) =~= self.highlighting@);
        false
    }

    /// Claims a number that starts a token at `index`: its digits, and each
    /// `.` that follows a digit.
    pub fn highlight_number(
        &mut self,
        chars: &Vec<char>,
        hl_opts: &HighlightingOptions,
        index: &mut usize,
    ) -> (r: bool)
        ensures
            same_text(final(self)@, old(self)@),
            r == number_rule(chars@, hl_opts@, *old(index) as int) is Some,
            ruled(
                number_rule(chars@, hl_opts@, *old(index) as int),
                old(self)@.highlighting,
                *old(index),
                final(self)@.highlighting,
                *final(index),
                chars@.len(),
            ),
    {
        let i = *index;
        if !hl_opts.numbers() || i >= chars.len() || !is_digit(chars[i]) || (i > 0
            && !is_separator(chars[i - 1])) {
            return false;
        }
        let mut j = i;
        while j < chars.len() - 1 && (is_digit(chars[j + 1]) || (chars[j + 1] == '.' && is_digit(
            chars[j],
        )))
            invariant
                i <= j < chars@.len(),
                number_end(chars@, i as int) == number_end(chars@, j as int),
            decreases chars@.len() - j,
        {
            j += 1;
        }
        self.push_span(Type::Number, j + 1 - i, index);
        true
    }

    /// Claims the word `target` as class `hl_type` when it stands at `index`
    /// between separators.
    pub fn highlight_target_str(
        &mut self,
        chars: &Vec<char>,
        target: &str,
        index: &mut usize,
        hl_type: Type,
    ) -> (r: bool)
        ensures
            same_text(final(self)@, old(self)@),
            r == target_rule(chars@, target@, *old(index) as int, hl_type) is Some,
            ruled(
                target_rule(chars@, target@, *old(index) as int, hl_type),
                old(self)@.highlighting,
                *old(index),
                final(self)@.highlighting,
                *final(index),
                chars@.len(),
            ),
    {
        let i = *index;
        let kw = chars_of(target);
        let n = chars.len();
        if kw.len() == 0 || i > n || kw.len() > n - i {
            return false;
        }
        if i > 0 && !is_separator(chars[i - 1]) {
            return false;
        }
        if kw.len() < n - i && !is_separator(chars[i + kw.len()]) {
            return false;
        }
        if !occurs(chars, &kw, i) {
            return false;
        }
        self.push_span(hl_type, kw.len(), index);
        true
    }

    /// Claims the first word of `keys` that stands at `index`.
    fn highlight_keys(
        &mut self,
        chars: &Vec<char>,
        keys: &Vec<String>,
        index: &mut usize,
        hl_type: Type,
    ) -> (r: bool)
        ensures
            same_text(final(self)@, old(self)@),
            r == keyword_from(chars@, strings_view(keys@), *old(index) as int, 0, hl_type) is Some,
            ruled(
                keyword_from(chars@, strings_view(keys@), *old(index) as int, 0, hl_type),
                old(self)@.highlighting,
                *old(index),
                final(self)@.highlighting,
                *final(index),
                chars@.len(),
            ),
    {
        let ghost ks = strings_view(keys@);
        let mut k: usize = 0;
        while k < keys.len()
            invariant
                k <= keys@.len(),
                ks == strings_view(keys@),
                *index == *old(index),
                self@ == old(self)@,
                keyword_from(chars@, ks, *old(index) as int, 0, hl_type) == keyword_from(
                    chars@,
                    ks,
                    *old(index) as int,
                    k as int,
                    hl_type,
                ),
            decreases keys@.len() - k,
        {
            if self.highlight_target_str(chars, keys[k].as_str(), index, hl_type) {
                return true;
            }
            k += 1;
        }
        false
    }

    /// Claims the first primary keyword that stands at `index`.
    pub fn highlight_primary_keys(
        &mut self,
        chars: &Vec<char>,
        hl_opts: &HighlightingOptions,
        index: &mut usize,
    ) -> (r: bool)
        ensures
            same_text(final(self)@, old(self)@),
            r == keyword_from(chars@, hl_opts@.primary_keys, *old(index) as int, 0, Type::PrimaryKey) is Some,
            ruled(
                keyword_from(chars@, hl_opts@.primary_keys, *old(index) as int, 0, Type::PrimaryKey),
                old(self)@.highlighting,
                *old(index),
                final(self)@.highlighting,
                *final(index),
                chars@.len(),
            ),
    {
        self.highlight_keys(chars, hl_opts.primary_keys(), index, Type::PrimaryKey)
    }

    /// Claims the first secondary keyword that stands at `index`.
    pub fn highlight_secondary_keys(
        &mut self,
        chars: &Vec<char>,
        hl_opts: &HighlightingOptions,
        index: &mut usize,
    ) -> (r: bool)
        ensures
            same_text(final(self)@, old(self)@),
            r == keyword_from(chars@, hl_opts@.secondary_keys, *old(index) as int, 0, Type::SecondaryKey) is Some,
            ruled(
                keyword_from(chars@, hl_opts@.secondary_keys, *old(index) as int, 0, Type::SecondaryKey),
                old(self)@.highlighting,
                *old(index),
                final(self)@.highlighting,
                *final(index),
                chars@.len(),
            ),
    {
        self.highlight_keys(chars, hl_opts.secondary_keys(), index, Type::SecondaryKey)
    }

    /// Whether `ch` ends a word: ASCII whitespace or punctuation.
    pub fn is_separator(&self, ch: char) -> (r: bool)
        ensures
            r == separator(ch),
    {
        is_separator(ch)
    }

    /// Appends the text of `row`. The length is counted again, since the
    /// last cluster of this row and the first of `row` may join into one.
    /// The highlighting is left as it was.
    pub fn append(&mut self, row: &Row)
        requires
            old(self).wf(),
        ensures
            final(self).wf(),
            final(self)@.content == old(self)@.content + row@.content,
            final(self)@.highlighting == old(self)@.highlighting,
    {
        let cs = chars_of(row.content.as_str());
        push_chars(&mut self.content, &cs);
        self.len = grapheme_count(self.content.as_str());
    }
}

impl Default for Row {
    /// An empty row.
    fn default() -> (r: Row)
        ensures
            r.wf(),
            plain_row(r@, Seq::empty()),
    {
        let content = String::new();
        let len = grapheme_count(content.as_str());
        Row { content, highlighting: Vec::new(), len }
    }
}

/// Splitting a row's text at any cluster index and appending the part split
/// off gives back the text, and so its length.
pub proof fn split_then_append(r: Row, at: usize)
    requires
        r.wf(),
    ensures
        split_head(r@.content, at as int) + split_tail(r@.content, at as int) == r@.content,
        graphemes_of(split_head(r@.content, at as int) + split_tail(r@.content, at as int)).len()
            == r@.len,
{
    let g = graphemes_of(r@.content);
    if at < g.len() {
        lemma_flatten_split(g, at as int);
    } else {
        assert(split_tail(r@.content, at as int) =~= Seq::<char>::empty());
        assert(g.flatten() + Seq::<char>::empty() =~= g.flatten());
    }
}

/// Inserting a character at cluster index `at` and then deleting cluster
/// `at` gives back the text and its length, whenever the inserted character
/// forms a cluster of its own: it is cluster `at` of the new text, and the
/// clusters before it hold as many characters as before.
pub proof fn insert_then_delete(r: Row, inserted_row: Row, at: usize, c: char)
    requires
        r.wf(),
        inserted_row.wf(),
        at <= r@.len,
        inserted_row@.content == inserted(r@.content, at as int, c),
        at < inserted_row@.len,
        graphemes_of(inserted_row@.content)[at as int] == seq![c],
        graphemes_of(inserted_row@.content).take(at as int).flatten().len() == graphemes_of(
            r@.content,
        ).take(at as int).flatten().len(),
    ensures
        deleted(inserted_row@.content, at as int) == r@.content,
        graphemes_of(deleted(inserted_row@.content, at as int)).len() == r@.len,
{
    let s = r@.content;
    let t = inserted_row@.content;
    let g = graphemes_of(s);
    let g2 = graphemes_of(t);
    let h = g.take(at as int).flatten();
    let tl = g.skip(at as int).flatten();
    lemma_flatten_split(g, at as int);
    if at as int == g.len() {
        assert(g.take(at as int) =~= g);
        assert(g.skip(at as int) =~= Seq::<Seq<char>>::empty());
        assert(tl =~= Seq::<char>::empty());
    }
    assert(t =~= h.push(c) + tl);
    lemma_flatten_split(g2, at as int);
    let a = g2.take(at as int).flatten();
    let b = g2.skip(at + 1).flatten();
    assert(g2.skip(at as int) =~= seq![g2[at as int]] + g2.skip(at + 1));
    vstd::seq_lib::lemma_flatten_concat(seq![g2[at as int]], g2.skip(at + 1));
    seq![g2[at as int]].lemma_flatten_one_element();
    assert(t =~= a + seq![c] + b);
    assert(a =~= t.subrange(0, h.len() as int));
    assert(h =~= t.subrange(0, h.len() as int));
    assert(b =~= t.subrange((h.len() + 1) as int, t.len() as int));
    assert(tl =~= t.subrange((h.len() + 1) as int, t.len() as int));
    assert(deleted(t, at as int) =~= s);
}

} // verus!
