//! Per-filetype highlighting options.

use crate::text::{chars_of, slice_chars};
use vstd::prelude::*;

verus! {

/// Which lexical classes a filetype highlights, and its keyword lists.
#[derive(Clone, Debug)]
pub struct HighlightingOptions {
    numbers: bool,
    strings: bool,
    characters: bool,
    comments: bool,
    primary_keys: Vec<String>,
    secondary_keys: Vec<String>,
}

/// The abstract value of a `HighlightingOptions`.
pub struct OptionsView {
    pub numbers: bool,
    pub strings: bool,
    pub characters: bool,
    pub comments: bool,
    pub primary_keys: Seq<Seq<char>>,
    pub secondary_keys: Seq<Seq<char>>,
}

/// The views of a list of strings.
pub open spec fn strings_view(v: Seq<String>) -> Seq<Seq<char>> {
    v.map_values(|s: String| s@)
}

impl View for HighlightingOptions {
    type V = OptionsView;

    closed spec fn view(&self) -> OptionsView {
        OptionsView {
            numbers: self.numbers,
            strings: self.strings,
            characters: self.characters,
            comments: self.comments,
            primary_keys: strings_view(self.primary_keys@),
            secondary_keys: strings_view(self.secondary_keys@),
        }
    }
}

impl Default for HighlightingOptions {
    /// Options that highlight nothing.
    fn default() -> (r: Self)
        ensures
            !r@.numbers && !r@.strings && !r@.characters && !r@.comments,
            r@.primary_keys.len() == 0,
            r@.secondary_keys.len() == 0,
    {
        HighlightingOptions::new(false, false, false, false, Vec::new(), Vec::new())
    }
}

impl HighlightingOptions {
    /// Options with the given flags and keyword lists.
    pub fn new(
        numbers: bool,
        strings: bool,
        characters: bool,
        comments: bool,
        primary_keys: Vec<String>,
        secondary_keys: Vec<String>,
    ) -> (r: Self)
        ensures
            r@.numbers == numbers,
            r@.strings == strings,
            r@.characters == characters,
            r@.comments == comments,
            r@.primary_keys == strings_view(primary_keys@),
            r@.secondary_keys == strings_view(secondary_keys@),
    {
        HighlightingOptions { numbers, strings, characters, comments, primary_keys, secondary_keys }
    }

    pub fn numbers(&self) -> (r: bool)
        ensures
            r == self@.numbers,
    {
        self.numbers
    }

    pub fn strings(&self) -> (r: bool)
        ensures
            r == self@.strings,
    {
        self.strings
    }

    pub fn characters(&self) -> (r: bool)
        ensures
            r == self@.characters,
    {
        self.characters
    }

    pub fn comments(&self) -> (r: bool)
        ensures
            r == self@.comments,
    {
        self.comments
    }

    pub fn primary_keys(&self) -> (r: &Vec<String>)
        ensures
            strings_view(r@) == self@.primary_keys,
    {
        &self.primary_keys
    }

    pub fn secondary_keys(&self) -> (r: &Vec<String>)
        ensures
            strings_view(r@) == self@.secondary_keys,
    {
        &self.secondary_keys
    }
}


/// A filetype: its name and how it is highlighted.
pub struct FileType {
    name: String,
    hl_opts: HighlightingOptions,
}

/// The abstract value of a `FileType`.
pub struct FileTypeView {
    pub name: Seq<char>,
    pub opts: OptionsView,
}

impl View for FileType {
    type V = FileTypeView;

    closed spec fn view(&self) -> FileTypeView {
        FileTypeView { name: self.name@, opts: self.hl_opts@ }
    }
}

/// Options that highlight nothing.
pub open spec fn no_options() -> OptionsView {
    OptionsView {
        numbers: false,
        strings: false,
        characters: false,
        comments: false,
        primary_keys: Seq::empty(),
        secondary_keys: Seq::empty(),
    }
}

/// The primary keywords of Rust.
pub open spec fn rust_primary_keys() -> Seq<Seq<char>> {
    seq![
        "as", "async", "await", "break", "const", "continue", "crate", "dyn", "else", "enum",
        "false", "fn", "for", "if", "impl", "in", "let", "loop", "match", "mod", "move", "mut",
        "pub", "ref", "return", "self", "Self", "struct", "super", "trait", "true", "type", "use",
        "where", "while",
    ].map_values(|w: &str| w@)
}

/// The secondary keywords of Rust: its primitive types.
pub open spec fn rust_secondary_keys() -> Seq<Seq<char>> {
    seq![
        "bool", "char", "str", "i8", "i16", "i32", "i64", "i128", "isize", "u8", "u16", "u32",
        "u64", "u128", "usize",
    ].map_values(|w: &str| w@)
}

/// The options for Rust: every class, and its keywords.
pub open spec fn rust_options() -> OptionsView {
    OptionsView {
        numbers: true,
        strings: true,
        characters: true,
        comments: true,
        primary_keys: rust_primary_keys(),
        secondary_keys: rust_secondary_keys(),
    }
}

/// The index of the last `c` in `s`, or -1.
pub open spec fn last_index(s: Seq<char>, c: char) -> int
    decreases s.len(),
{
    if s.len() == 0 {
        -1
    } else if s.last() == c {
        s.len() - 1
    } else {
        last_index(s.drop_last(), c)
    }
}

/// A path without the `/` separators that end it.
pub open spec fn trim_slashes(path: Seq<char>) -> Seq<char>
    decreases path.len(),
{
    if path.len() > 0 && path.last() == '/' {
        trim_slashes(path.drop_last())
    } else {
        path
    }
}

/// The last component of a path, ignoring separators at its end.
pub open spec fn file_name(path: Seq<char>) -> Seq<char> {
    let t = trim_slashes(path);
    t.skip(last_index(t, '/') + 1)
}

/// The extension of a path: what follows the last `.` of its last
/// component, unless that `.` starts the component or there is none.
pub open spec fn extension_of(path: Seq<char>) -> Option<Seq<char>> {
    let name = file_name(path);
    let d = last_index(name, '.');
    if d > 0 {
        Some(name.skip(d + 1))
    } else {
        None
    }
}

/// The filetype that a file name selects.
pub open spec fn filetype_of(path: Seq<char>) -> FileTypeView {
    if extension_of(path) == Some(seq!['r', 's']) {
        FileTypeView { name: "rs"@, opts: rust_options() }
    } else {
        FileTypeView { name: "No file type"@, opts: no_options() }
    }
}

/// The index of the last `c` in `s`.
fn find_last(s: &Vec<char>, c: char) -> (r: Option<usize>)
    ensures
        match r {
            Some(k) => k == last_index(s@, c) && k < s@.len(),
            None => last_index(s@, c) == -1,
        },
{
    let mut k = s.len();
    assert(s@.take(k as int) =~= s@);
    while k > 0
        invariant
            k <= s@.len(),
            last_index(s@, c) == last_index(s@.take(k as int), c),
        decreases k,
    {
        assert(s@.take(k as int).drop_last() =~= s@.take(k - 1));
        if s[k - 1] == c {
            return Some(k - 1);
        }
        k -= 1;
    }
    None
}

/// The characters of `s` from `start` on.
fn suffix(s: &Vec<char>, start: usize) -> (r: Vec<char>)
    requires
        start <= s@.len(),
    ensures
        r@ == s@.skip(start as int),
{
    let mut out: Vec<char> = Vec::new();
    let mut k = start;
    while k < s.len()
        invariant
            start <= k <= s@.len(),
            out@ == s@.subrange(start as int, k as int),
        decreases s@.len() - k,
    {
        out.push(s[k]);
        k += 1;
        assert(out@ =~= s@.subrange(start as int, k as int));
    }
    assert(out@ =~= s@.skip(start as int));
    out
}

/// Owned copies of the given words.
fn word_list(ws: &[&str]) -> (r: Vec<String>)
    ensures
        strings_view(r@) == ws@.map_values(|w: &str| w@),
{
    let mut out: Vec<String> = Vec::new();
    let mut k: usize = 0;
    while k < ws.len()
        invariant
            k <= ws@.len(),
            out@.len() == k,
            forall|j: int| 0 <= j < k ==> (#[trigger] out@[j])@ == ws@[j]@,
        decreases ws@.len() - k,
    {
        out.push(ws[k].to_owned());
        k += 1;
    }
    assert(strings_view(out@) =~= ws@.map_values(|w: &str| w@));
    out
}

impl Default for FileType {
    /// The filetype of files that are not recognised.
    fn default() -> (r: Self)
        ensures
            r@ == filetype_of(Seq::empty()),
    {
        let hl_opts = HighlightingOptions::default();
        assert(hl_opts@.primary_keys =~= Seq::empty());
        assert(hl_opts@.secondary_keys =~= Seq::empty());
        assert(last_index(Seq::<char>::empty(), '/') == -1);
        assert(Seq::<char>::empty().skip(0) =~= Seq::<char>::empty());
        assert(last_index(Seq::<char>::empty(), '.') == -1);
        FileType { name: "No file type".to_owned(), hl_opts }
    }
}

impl FileType {
    /// A filetype with the given name and options.
    pub fn new(name: String, hl_opts: HighlightingOptions) -> (r: Self)
        ensures
            r@.name == name@,
            r@.opts == hl_opts@,
    {
        FileType { name, hl_opts }
    }

    /// The filetype that `filename`'s extension selects.
    pub fn from(filename: &str) -> (r: Self)
        ensures
            r@ == filetype_of(filename@),
    {
        let all = chars_of(filename);
        let mut end = all.len();
        assert(all@.take(end as int) =~= all@);
        while end > 0 && all[end - 1] == '/'
            invariant
                end <= all@.len(),
                trim_slashes(all@) == trim_slashes(all@.take(end as int)),
            decreases end,
        {
            assert(all@.take(end as int).drop_last() =~= all@.take(end - 1));
            end -= 1;
        }
        let cs = slice_chars(&all, 0, end);
        assert(cs@ =~= all@.take(end as int));
        assert(trim_slashes(cs@) == cs@);
        let n = cs.len();
        let start = match find_last(&cs, '/') {
            Some(k) => {
                assert(k < n);
                k + 1
            },
            None => 0,
        };
        let name = suffix(&cs, start);
        if let Some(d) = find_last(&name, '.') {
            if d > 0 && name.len() - d == 3 && name[d + 1] == 'r' && name[d + 2] == 's' {
                let primary = word_list(
                    &[
                        "as", "async", "await", "break", "const", "continue", "crate", "dyn",
                        "else", "enum", "false", "fn", "for", "if", "impl", "in", "let", "loop",
                        "match", "mod", "move", "mut", "pub", "ref", "return", "self", "Self",
                        "struct", "super", "trait", "true", "type", "use", "where", "while",
                    ],
                );
                let secondary = word_list(
                    &[
                        "bool", "char", "str", "i8", "i16", "i32", "i64", "i128", "isize", "u8",
                        "u16", "u32", "u64", "u128", "usize",
                    ],
                );
                assert(name@.skip(d + 1) =~= seq!['r', 's']);
                return FileType {
                    name: "rs".to_owned(),
                    hl_opts: HighlightingOptions::new(true, true, true, true, primary, secondary),
                };
            }
            if d > 0 {
                assert(name@.skip(d + 1) != seq!['r', 's']) by {
                    if name@.skip(d + 1) =~= seq!['r', 's'] {
                        assert(name@.skip(d + 1).len() == 2);
                        assert(name@.skip(d + 1)[0] == name@[d + 1]);
                        assert(name@.skip(d + 1)[1] == name@[d + 2]);
                    }
                }
            }
        }
        FileType::default()
    }

    pub fn name(&self) -> (r: String)
        ensures
            r@ == self@.name,
    {
        self.name.clone()
    }

    pub fn highlighting_opts(&self) -> (r: &HighlightingOptions)
        ensures
            r@ == self@.opts,
    {
        &self.hl_opts
    }
}

} // verus!
