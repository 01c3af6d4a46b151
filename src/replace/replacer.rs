use crate::text::{
    is_whitespace, is_ws, lemma_split_nonempty, lemma_trim_start_suffix, push_str, same_text,
    split_on, split_seq, strings_view, trim_start, trim_start_seq,
};
use vstd::prelude::*;
use vstd::string::StrSliceExecFns;

verus! {

/// A library that `%lib` lines can pull in: its name and its text.
pub struct Library {
    pub name: String,
    pub contents: String,
}

/// Why a source could not be expanded.
pub enum ReplaceError {
    /// A `%lib` line names no library.
    MissingLibraryName,
    /// A `%lib` line names a library that is not available.
    LibraryNotFound(String),
}

/// A `ReplaceError`, with its name as a character sequence.
pub enum ReplaceFailure {
    MissingLibraryName,
    LibraryNotFound(Seq<char>),
}

impl View for ReplaceError {
    type V = ReplaceFailure;

    open spec fn view(&self) -> ReplaceFailure {
        match self {
            ReplaceError::MissingLibraryName => ReplaceFailure::MissingLibraryName,
            ReplaceError::LibraryNotFound(n) => ReplaceFailure::LibraryNotFound(n@),
        }
    }
}

pub open spec fn expansion_view(r: Result<String, ReplaceError>) -> Result<Seq<char>, ReplaceFailure> {
    match r {
        Ok(s) => Ok(s@),
        Err(e) => Err(e@),
    }
}

pub open spec fn libraries_view(v: Seq<Library>) -> Seq<(Seq<char>, Seq<char>)> {
    v.map_values(|l: Library| (l.name@, l.contents@))
}

/// `s` without one final carriage return.
pub open spec fn strip_cr(s: Seq<char>) -> Seq<char> {
    if s.len() > 0 && s.last() == '\r' {
        s.drop_last()
    } else {
        s
    }
}

/// How many lines the pieces `p` of a text split at `\n` make: all of them, but
/// for an empty last piece.
pub open spec fn line_count(p: Seq<Seq<char>>) -> nat {
    if p.len() > 0 && p.last().len() == 0 {
        (p.len() - 1) as nat
    } else {
        p.len()
    }
}

/// Line `i` of the pieces `p`: a piece that a `\n` ended loses a final `\r`.
pub open spec fn line_at(p: Seq<Seq<char>>, i: int) -> Seq<char> {
    if i + 1 < p.len() {
        strip_cr(p[i])
    } else {
        p[i]
    }
}

/// The lines of `s` as `str::lines` gives them: split at `\n`, a `\r` before
/// the `\n` dropped, and no empty last line after a final `\n`.
pub open spec fn lines_seq(s: Seq<char>) -> Seq<Seq<char>> {
    let p = split_seq(s, '\n');
    Seq::new(line_count(p), |i: int| line_at(p, i))
}

/// The whitespace a line starts with, or nothing for a line that is all whitespace.
pub open spec fn indent_of(line: Seq<char>) -> Seq<char> {
    let t = trim_start_seq(line);
    if t.len() == 0 {
        Seq::empty()
    } else {
        line.subrange(0, line.len() - t.len())
    }
}

/// Whether a line, without its indentation, starts with `%lib`.
pub open spec fn is_directive(t: Seq<char>) -> bool {
    t.len() >= 4 && t[0] == '%' && t[1] == 'l' && t[2] == 'i' && t[3] == 'b'
}

/// The first index from `i` on that holds whitespace, or the length.
pub open spec fn next_ws(s: Seq<char>, i: int) -> int
    decreases s.len() - i,
{
    if i < 0 || i >= s.len() {
        s.len() as int
    } else if is_ws(s[i]) {
        i
    } else {
        next_ws(s, i + 1)
    }
}

/// The first index from `i` on that holds no whitespace, or the length.
pub open spec fn next_non_ws(s: Seq<char>, i: int) -> int
    decreases s.len() - i,
{
    if i < 0 || i >= s.len() {
        s.len() as int
    } else if !is_ws(s[i]) {
        i
    } else {
        next_non_ws(s, i + 1)
    }
}

/// The second whitespace-separated word of `t`, which starts with a word.
pub open spec fn second_word(t: Seq<char>) -> Option<Seq<char>> {
    let b = next_non_ws(t, next_ws(t, 0));
    if b >= t.len() {
        None
    } else {
        Some(t.subrange(b, next_ws(t, b)))
    }
}

/// The text of the first library from position `i` on named `name`.
pub open spec fn find_library(libs: Seq<(Seq<char>, Seq<char>)>, name: Seq<char>, i: int) -> Option<
    Seq<char>,
>
    decreases libs.len() - i,
{
    if i < 0 || i >= libs.len() {
        None
    } else if libs[i].0 == name {
        Some(libs[i].1)
    } else {
        find_library(libs, name, i + 1)
    }
}

/// Each line, after `indent`, ended by a newline.
pub open spec fn indented(indent: Seq<char>, lines: Seq<Seq<char>>) -> Seq<char>
    decreases lines.len(),
{
    if lines.len() == 0 {
        Seq::empty()
    } else {
        indented(indent, lines.drop_last()) + indent + lines.last() + "\n"@
    }
}

/// What a `%lib` line naming `name` with text `text` becomes.
pub open spec fn library_block(indent: Seq<char>, name: Seq<char>, text: Seq<char>) -> Seq<char> {
    "\n"@ + "/// Library "@ + name + ".mh ///"@ + "\n"@ + indented(indent, lines_seq(text))
        + "/// Library end ///"@ + "\n"@
}

/// What one line of source becomes.
pub open spec fn expand_line(line: Seq<char>, libs: Seq<(Seq<char>, Seq<char>)>) -> Result<
    Seq<char>,
    ReplaceFailure,
> {
    let t = trim_start_seq(line);
    let indent = indent_of(line);
    if !is_directive(t) {
        Ok(indent + t + "\n"@)
    } else {
        match second_word(t) {
            None => Err(ReplaceFailure::MissingLibraryName),
            Some(name) => match find_library(libs, name, 0) {
                None => Err(ReplaceFailure::LibraryNotFound(name)),
                Some(text) => Ok(library_block(indent, name, text)),
            },
        }
    }
}

/// What a sequence of lines becomes: the expansions one after the other, or
/// the failure of the first line that fails.
pub open spec fn expand_lines(lines: Seq<Seq<char>>, libs: Seq<(Seq<char>, Seq<char>)>) -> Result<
    Seq<char>,
    ReplaceFailure,
>
    decreases lines.len(),
{
    if lines.len() == 0 {
        Ok(Seq::empty())
    } else {
        match expand_lines(lines.drop_last(), libs) {
            Err(e) => Err(e),
            Ok(done) => match expand_line(lines.last(), libs) {
                Err(e) => Err(e),
                Ok(x) => Ok(done + x),
            },
        }
    }
}

/// The note closing every expanded source.
pub open spec fn trailer() -> Seq<char> {
    "\n\n// Compiled with moonstone"@ + "\n// Tool made by peony#6666"@
        + "\n// https://github.com/peonii/moonstone"@
}

/// The expanded source, or the failure of its first failing line.
pub open spec fn expanded(text: Seq<char>, libs: Seq<(Seq<char>, Seq<char>)>) -> Result<
    Seq<char>,
    ReplaceFailure,
> {
    match expand_lines(lines_seq(text), libs) {
        Ok(x) => Ok(x + trailer()),
        Err(e) => Err(e),
    }
}

proof fn lemma_failure_persists(
    lines: Seq<Seq<char>>,
    libs: Seq<(Seq<char>, Seq<char>)>,
    i: int,
)
    requires
        0 <= i <= lines.len(),
        expand_lines(lines.subrange(0, i), libs) is Err,
    ensures
        expand_lines(lines, libs) == expand_lines(lines.subrange(0, i), libs),
    decreases lines.len() - i,
{
    if i < lines.len() {
        let next = lines.subrange(0, i + 1);
        assert(next.drop_last() =~= lines.subrange(0, i));
        lemma_failure_persists(lines, libs, i + 1);
    } else {
        assert(lines.subrange(0, i) =~= lines);
    }
}

fn strip_cr_exec(s: &str) -> (r: String)
    ensures
        r@ == strip_cr(s@),
{
    let n = s.unicode_len();
    if n > 0 && s.get_char(n - 1) == '\r' {
        let r = s.substring_char(0, n - 1).to_owned();
        assert(r@ =~= s@.drop_last());
        r
    } else {
        s.to_owned()
    }
}

/// The lines of `s`, as `str::lines` gives them.
pub fn lines(s: &str) -> (r: Vec<String>)
    ensures
        strings_view(r@) == lines_seq(s@),
{
    let parts = split_on(s, '\n');
    proof {
        lemma_split_nonempty(s@, '\n');
    }
    let ghost p = split_seq(s@, '\n');
    let n = parts.len();
    assert(strings_view(parts@)[n - 1] == parts@[n - 1]@);
    let m = if parts[n - 1].as_str().unicode_len() == 0 {
        n - 1
    } else {
        n
    };
    assert(line_count(p) == m);
    assert(lines_seq(s@) =~= Seq::new(m as nat, |i: int| line_at(p, i)));
    let mut out: Vec<String> = Vec::new();
    let mut i: usize = 0;
    while i < m
        invariant
            n == parts@.len(),
            p == strings_view(parts@),
            m <= n,
            i <= m,
            strings_view(out@) == lines_seq(s@).subrange(0, i as int),
            lines_seq(s@) == Seq::new(m as nat, |i: int| line_at(p, i)),
        decreases m - i,
    {
        assert(p[i as int] == parts@[i as int]@);
        let line = if i + 1 < n {
            strip_cr_exec(parts[i].as_str())
        } else {
            parts[i].clone()
        };
        assert(p.len() == n);
        assert(lines_seq(s@)[i as int] == line_at(p, i as int));
        assert(line@ == lines_seq(s@)[i as int]);
        let ghost before = out@;
        out.push(line);
        assert(strings_view(out@) =~= strings_view(before).push(line@));
        assert(strings_view(out@) =~= lines_seq(s@).subrange(0, i as int + 1));
        i = i + 1;
    }
    assert(lines_seq(s@).subrange(0, m as int) =~= lines_seq(s@));
    out
}

fn next_ws_exec(s: &str, i: usize) -> (r: usize)
    requires
        i <= s@.len(),
    ensures
        r == next_ws(s@, i as int),
        i <= r <= s@.len(),
{
    let n = s.unicode_len();
    let mut j = i;
    while j < n
        invariant
            n == s@.len(),
            i <= j <= n,
            next_ws(s@, i as int) == next_ws(s@, j as int),
        decreases n - j,
    {
        if is_whitespace(s.get_char(j)) {
            return j;
        }
        j = j + 1;
    }
    j
}

fn next_non_ws_exec(s: &str, i: usize) -> (r: usize)
    requires
        i <= s@.len(),
    ensures
        r == next_non_ws(s@, i as int),
        i <= r <= s@.len(),
{
    let n = s.unicode_len();
    let mut j = i;
    while j < n
        invariant
            n == s@.len(),
            i <= j <= n,
            next_non_ws(s@, i as int) == next_non_ws(s@, j as int),
        decreases n - j,
    {
        if !is_whitespace(s.get_char(j)) {
            return j;
        }
        j = j + 1;
    }
    j
}

fn second_word_exec(t: &str) -> (r: Option<String>)
    ensures
        match second_word(t@) {
            None => r is None,
            Some(w) => r is Some && r->Some_0@ == w,
        },
{
    let a = next_ws_exec(t, 0);
    let b = next_non_ws_exec(t, a);
    if b >= t.unicode_len() {
        None
    } else {
        let c = next_ws_exec(t, b);
        Some(t.substring_char(b, c).to_owned())
    }
}

fn find_library_exec(libs: &Vec<Library>, name: &str) -> (r: Option<usize>)
    ensures
        match find_library(libraries_view(libs@), name@, 0) {
            None => r is None,
            Some(text) => r is Some && r->Some_0 < libs@.len() && libs@[r->Some_0 as int].contents@
                == text && libs@[r->Some_0 as int].name@ == name@,
        },
{
    let ghost lv = libraries_view(libs@);
    let n = libs.len();
    let mut i: usize = 0;
    while i < n
        invariant
            n == libs@.len(),
            lv == libraries_view(libs@),
            i <= n,
            find_library(lv, name@, 0) == find_library(lv, name@, i as int),
        decreases n - i,
    {
        assert(lv[i as int] == (libs@[i as int].name@, libs@[i as int].contents@));
        if same_text(libs[i].name.as_str(), name) {
            return Some(i);
        }
        i = i + 1;
    }
    None
}

fn push_indented(out: &mut String, indent: &str, text: &str)
    ensures
        final(out)@ == old(out)@ + indented(indent@, lines_seq(text@)),
{
    let ls = lines(text);
    let ghost lv = lines_seq(text@);
    let ghost start = out@;
    let mut i: usize = 0;
    assert(lv.subrange(0, 0).len() == 0);
    assert(out@ =~= start + indented(indent@, lv.subrange(0, 0)));
    while i < ls.len()
        invariant
            strings_view(ls@) == lv,
            i <= ls@.len(),
            out@ == start + indented(indent@, lv.subrange(0, i as int)),
        decreases ls@.len() - i,
    {
        assert(lv[i as int] == ls@[i as int]@);
        push_str(out, indent);
        push_str(out, ls[i].as_str());
        push_str(out, "\n");
        let ghost next = lv.subrange(0, i as int + 1);
        assert(next.drop_last() =~= lv.subrange(0, i as int));
        assert(out@ =~= start + indented(indent@, next));
        i = i + 1;
    }
    assert(lv.subrange(0, ls@.len() as int) =~= lv);
}

fn expand_line_exec(line: &str, libs: &Vec<Library>) -> (r: Result<String, ReplaceError>)
    ensures
        expansion_view(r) == expand_line(line@, libraries_view(libs@)),
{
    let t = trim_start(line);
    let tl = t.as_str().unicode_len();
    let n = line.unicode_len();
    proof {
        lemma_trim_start_suffix(line@);
    }
    let indent: String = if tl == 0 {
        String::new()
    } else {
        line.substring_char(0, n - tl).to_owned()
    };
    assert(indent@ =~= indent_of(line@));
    let directive = tl >= 4 && t.as_str().get_char(0) == '%' && t.as_str().get_char(1) == 'l'
        && t.as_str().get_char(2) == 'i' && t.as_str().get_char(3) == 'b';
    if !directive {
        let mut out = indent;
        push_str(&mut out, t.as_str());
        push_str(&mut out, "\n");
        return Ok(out);
    }
    let name = match second_word_exec(t.as_str()) {
        None => {
            return Err(ReplaceError::MissingLibraryName);
        },
        Some(w) => w,
    };
    match find_library_exec(libs, name.as_str()) {
        None => Err(ReplaceError::LibraryNotFound(name)),
        Some(k) => {
            let mut out = String::new();
            push_str(&mut out, "\n");
            push_str(&mut out, "/// Library ");
            push_str(&mut out, name.as_str());
            push_str(&mut out, ".mh ///");
            push_str(&mut out, "\n");
            push_indented(&mut out, indent.as_str(), libs[k].contents.as_str());
            push_str(&mut out, "/// Library end ///");
            push_str(&mut out, "\n");
            assert(out@ =~= library_block(indent@, name@, libs@[k as int].contents@));
            Ok(out)
        },
    }
}

/// A source text whose `%lib <name>` lines are to be replaced by the named
/// libraries.
pub struct Replacer {
    contents: String,
}

impl View for Replacer {
    type V = Seq<char>;

    closed spec fn view(&self) -> Seq<char> {
        self.contents@
    }
}

impl std::str::FromStr for Replacer {
    type Err = ReplaceError;

    fn from_str(s: &str) -> Result<Replacer, ReplaceError> {
        Ok(Replacer::from_text(s))
    }
}

impl Replacer {
    pub fn from_text(s: &str) -> (r: Replacer)
        ensures
            r@ == s@,
    {
        Replacer { contents: s.to_owned() }
    }

    /// The source with each `%lib <name>` line replaced by the lines of that
    /// library, indented as the `%lib` line was, and closed by a note. Fails at
    /// the first `%lib` line, in source order, that names no library or one
    /// that `libraries` does not hold.
    pub fn replace(&self, libraries: &Vec<Library>) -> (r: Result<String, ReplaceError>)
        ensures
            expansion_view(r) == expanded(self@, libraries_view(libraries@)),
    {
        let ls = lines(self.contents.as_str());
        let ghost lv = lines_seq(self@);
        let ghost libs = libraries_view(libraries@);
        let mut out = String::new();
        let mut i: usize = 0;
        assert(lv.subrange(0, 0).len() == 0);
        assert(out@ =~= Seq::<char>::empty());
        while i < ls.len()
            invariant
                strings_view(ls@) == lv,
                lv == lines_seq(self@),
                libs == libraries_view(libraries@),
                i <= ls@.len(),
                expand_lines(lv.subrange(0, i as int), libs) == Ok::<Seq<char>, ReplaceFailure>(
                    out@,
                ),
            decreases ls@.len() - i,
        {
            assert(lv[i as int] == ls@[i as int]@);
            let ghost next = lv.subrange(0, i as int + 1);
            assert(next.drop_last() =~= lv.subrange(0, i as int));
            match expand_line_exec(ls[i].as_str(), libraries) {
                Err(e) => {
                    proof {
                        lemma_failure_persists(lv, libs, i as int + 1);
                    }
                    return Err(e);
                },
                Ok(x) => {
                    push_str(&mut out, x.as_str());
                },
            }
            i = i + 1;
        }
        assert(lv.subrange(0, ls@.len() as int) =~= lv);
        push_str(&mut out, "\n\n// Compiled with moonstone");
        push_str(&mut out, "\n// Tool made by peony#6666");
        push_str(&mut out, "\n// https://github.com/peonii/moonstone");
        assert(out@ =~= (expand_lines(lv, libs)->Ok_0 + trailer()));
        Ok(out)
    }
}

} // verus!
