//! Splitting text: runs of characters up to a delimiter, lines, and
//! white-space-separated words.

use crate::text::is_space;
use crate::text::is_whitespace;
use vstd::prelude::*;

verus! {

/// What ends a run of characters.
#[derive(Clone, Copy, Debug)]
pub enum Stop {
    /// A line feed.
    Newline,
    /// A colon.
    Colon,
    /// Any white-space character.
    Space,
}

impl Stop {
    /// Whether `c` ends a run.
    pub open spec fn hits(self, c: char) -> bool {
        match self {
            Stop::Newline => c == '\n',
            Stop::Colon => c == ':',
            Stop::Space => is_space(c),
        }
    }

    /// Whether `c` ends a run.
    pub fn ends_at(&self, c: char) -> (b: bool)
        ensures
            b == self.hits(c),
    {
        match self {
            Stop::Newline => c == '\n',
            Stop::Colon => c == ':',
            Stop::Space => is_whitespace(c),
        }
    }
}

/// The number of characters at the start of `s` before the first one that
/// `stop` hits; the whole length where it hits none.
pub open spec fn run_len(s: Seq<char>, stop: Stop) -> nat
    decreases s.len(),
{
    if s.len() == 0 || stop.hits(s[0]) {
        0
    } else {
        1 + run_len(s.drop_first(), stop)
    }
}

/// `run_len` is the least index that `stop` hits, or the length.
pub proof fn lemma_run_len(s: Seq<char>, stop: Stop)
    ensures
        run_len(s, stop) <= s.len(),
        forall|k: int| 0 <= k < run_len(s, stop) ==> !stop.hits(#[trigger] s[k]),
        run_len(s, stop) < s.len() ==> stop.hits(s[run_len(s, stop) as int]),
    decreases s.len(),
{
    if s.len() == 0 || stop.hits(s[0]) {
    } else {
        let rest = s.drop_first();
        lemma_run_len(rest, stop);
        assert forall|k: int| 0 <= k < run_len(s, stop) implies !stop.hits(#[trigger] s[k]) by {
            if k > 0 {
                assert(s[k] == rest[k - 1]);
            }
        }
        if run_len(s, stop) < s.len() {
            assert(s[run_len(s, stop) as int] == rest[run_len(rest, stop) as int]);
        }
    }
}

/// An index with nothing hit before it, and a hit or the end at it, is
/// where the run ends.
pub proof fn lemma_run_len_is(s: Seq<char>, stop: Stop, n: int)
    requires
        0 <= n <= s.len(),
        forall|k: int| 0 <= k < n ==> !stop.hits(#[trigger] s[k]),
        n < s.len() ==> stop.hits(s[n]),
    ensures
        run_len(s, stop) == n,
    decreases s.len(),
{
    if s.len() == 0 || n == 0 {
    } else {
        let rest = s.drop_first();
        assert(!stop.hits(s[0]));
        assert forall|k: int| 0 <= k < n - 1 implies !stop.hits(#[trigger] rest[k]) by {
            assert(rest[k] == s[k + 1]);
        }
        if n - 1 < rest.len() {
            assert(rest[n - 1] == s[n]);
        }
        lemma_run_len_is(rest, stop, n - 1);
    }
}

/// The end of the run that starts at `from`.
pub fn scan(text: &Vec<char>, from: usize, stop: Stop) -> (end: usize)
    requires
        from <= text.len(),
    ensures
        from <= end <= text.len(),
        end - from == run_len(text@.skip(from as int), stop),
        forall|k: int| from <= k < end ==> !stop.hits(#[trigger] text@[k]),
        end < text.len() ==> stop.hits(text@[end as int]),
{
    let mut end: usize = from;
    while end < text.len() && !stop.ends_at(text[end])
        invariant
            from <= end <= text.len(),
            forall|k: int| from <= k < end ==> !stop.hits(#[trigger] text@[k]),
        decreases text.len() - end,
    {
        end += 1;
    }
    proof {
        let rest = text@.skip(from as int);
        assert forall|k: int| 0 <= k < end - from implies !stop.hits(#[trigger] rest[k]) by {
            assert(rest[k] == text@[from + k]);
        }
        lemma_run_len_is(rest, stop, end - from);
    }
    end
}

/// A copy of the characters of `text` from `from` up to `to`.
pub fn copy_range(text: &Vec<char>, from: usize, to: usize) -> (out: Vec<char>)
    requires
        from <= to <= text.len(),
    ensures
        out@ == text@.subrange(from as int, to as int),
{
    let mut out: Vec<char> = Vec::new();
    let mut i: usize = from;
    while i < to
        invariant
            from <= i <= to <= text.len(),
            out@ == text@.subrange(from as int, i as int),
        decreases to - i,
    {
        out.push(text[i]);
        i += 1;
    }
    out
}

/// The texts that a vector of character vectors holds.
pub open spec fn texts(v: Seq<Vec<char>>) -> Seq<Seq<char>> {
    v.map_values(|item: Vec<char>| item@)
}

/// The lines of `s`: the pieces between line feeds. A line feed at the very
/// end opens no further line.
pub open spec fn lines(s: Seq<char>) -> Seq<Seq<char>>
    decreases s.len(),
{
    let n = run_len(s, Stop::Newline);
    if s.len() == 0 {
        Seq::empty()
    } else if n >= s.len() {
        seq![s]
    } else {
        seq![s.take(n as int)] + lines(s.skip(n as int + 1))
    }
}

/// The words of `s`: its maximal runs of characters that are not white space.
pub open spec fn words(s: Seq<char>) -> Seq<Seq<char>>
    decreases s.len(),
{
    let n = run_len(s, Stop::Space);
    if s.len() == 0 {
        Seq::empty()
    } else if is_space(s[0]) {
        words(s.drop_first())
    } else if n >= s.len() {
        seq![s]
    } else {
        seq![s.take(n as int)] + words(s.skip(n as int))
    }
}

/// The part of `word` before its first colon; all of it where it has none.
pub open spec fn host_part(word: Seq<char>) -> Seq<char> {
    let n = run_len(word, Stop::Colon);
    if n >= word.len() {
        word
    } else {
        word.take(n as int)
    }
}

/// The lines of `text`.
pub fn split_lines(text: &Vec<char>) -> (out: Vec<Vec<char>>)
    ensures
        texts(out@) == lines(text@),
{
    let mut out: Vec<Vec<char>> = Vec::new();
    let mut start: usize = 0;
    assert(text@.skip(0) =~= text@);
    while start < text.len()
        invariant
            start <= text.len(),
            lines(text@) == texts(out@) + lines(text@.skip(start as int)),
        decreases text.len() - start,
    {
        let end = scan(text, start, Stop::Newline);
        let line = copy_range(text, start, end);
        let ghost rest = text@.skip(start as int);
        let ghost before = texts(out@);
        out.push(line);
        assert(texts(out@) =~= before.push(line@));
        assert(line@ =~= rest.take(end - start));
        if end == text.len() {
            assert(line@ =~= rest);
            start = end;
            assert(lines(text@.skip(start as int)) =~= Seq::<Seq<char>>::empty());
        } else {
            start = end + 1;
            assert(text@.skip(start as int) =~= rest.skip(run_len(rest, Stop::Newline) as int + 1));
        }
        assert(lines(text@) =~= texts(out@) + lines(text@.skip(start as int)));
    }
    assert(lines(text@.skip(start as int)) =~= Seq::<Seq<char>>::empty());
    out
}

/// The words of `text`.
pub fn split_words(text: &Vec<char>) -> (out: Vec<Vec<char>>)
    ensures
        texts(out@) == words(text@),
{
    let mut out: Vec<Vec<char>> = Vec::new();
    let mut start: usize = 0;
    assert(text@.skip(0) =~= text@);
    while start < text.len()
        invariant
            start <= text.len(),
            words(text@) == texts(out@) + words(text@.skip(start as int)),
        decreases text.len() - start,
    {
        let ghost rest = text@.skip(start as int);
        if is_whitespace(text[start]) {
            start += 1;
            assert(text@.skip(start as int) =~= rest.drop_first());
        } else {
            let end = scan(text, start, Stop::Space);
            let word = copy_range(text, start, end);
            let ghost before = texts(out@);
            out.push(word);
            assert(texts(out@) =~= before.push(word@));
            assert(word@ =~= rest.take(end - start));
            if end == text.len() {
                assert(word@ =~= rest);
            } else {
                assert(text@.skip(end as int) =~= rest.skip(run_len(rest, Stop::Space) as int));
            }
            start = end;
            assert(words(text@.skip(text.len() as int)) =~= Seq::<Seq<char>>::empty());
            assert(words(text@) =~= texts(out@) + words(text@.skip(start as int)));
        }
    }
    assert(words(text@.skip(start as int)) =~= Seq::<Seq<char>>::empty());
    out
}

/// The host part of an endpoint such as `1.2.3.4:443`: what stands before
/// the first colon.
pub fn host_of(word: &Vec<char>) -> (out: Vec<char>)
    ensures
        out@ == host_part(word@),
{
    assert(word@.skip(0) =~= word@);
    let end = scan(word, 0, Stop::Colon);
    let out = copy_range(word, 0, end);
    assert(out@ =~= host_part(word@));
    out
}

/// Whether `pattern` stands in `s` at index `at`.
pub open spec fn occurs_at(s: Seq<char>, pattern: Seq<char>, at: int) -> bool {
    &&& 0 <= at
    &&& at + pattern.len() <= s.len()
    &&& s.subrange(at, at + pattern.len()) == pattern
}

/// Whether `pattern` stands somewhere in `s`.
pub open spec fn contains_text(s: Seq<char>, pattern: Seq<char>) -> bool {
    exists|at: int| occurs_at(s, pattern, at)
}

fn matches_at(text: &Vec<char>, pattern: &Vec<char>, at: usize) -> (found: bool)
    requires
        at + pattern.len() <= text.len(),
    ensures
        found == occurs_at(text@, pattern@, at as int),
{
    let mut k: usize = 0;
    while k < pattern.len()
        invariant
            k <= pattern.len(),
            at + pattern.len() <= text.len(),
            forall|j: int| 0 <= j < k ==> text@[at + j] == pattern@[j],
        decreases pattern.len() - k,
    {
        if text[at + k] != pattern[k] {
            assert(text@.subrange(at as int, at + pattern.len())[k as int] != pattern@[k as int]);
            return false;
        }
        k += 1;
    }
    assert(text@.subrange(at as int, at + pattern.len()) =~= pattern@);
    true
}

/// Whether `pattern` stands somewhere in `text`.
pub fn contains(text: &Vec<char>, pattern: &Vec<char>) -> (found: bool)
    ensures
        found == contains_text(text@, pattern@),
{
    if pattern.len() > text.len() {
        return false;
    }
    let last: usize = text.len() - pattern.len();
    let mut at: usize = 0;
    while at < last
        invariant
            at <= last,
            last == text.len() - pattern.len(),
            pattern.len() <= text.len(),
            forall|j: int| 0 <= j < at ==> !occurs_at(text@, pattern@, j),
        decreases last - at,
    {
        if matches_at(text, pattern, at) {
            return true;
        }
        at += 1;
    }
    matches_at(text, pattern, last)
}

} // verus!
