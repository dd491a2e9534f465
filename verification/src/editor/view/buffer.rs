//! The line buffer: the lines of a document, in file order.

use vstd::prelude::*;
use vstd::pervasive::unreached;
use vstd::std_specs::iter::IteratorSpec;
use vstd::string::*;

verus! {

/// How many characters of `s` stand before its first line feed.
pub open spec fn line_end(s: Seq<char>) -> nat
    decreases s.len(),
{
    if s.len() == 0 || s[0] == '\n' {
        0
    } else {
        1 + line_end(s.drop_first())
    }
}

/// A line without the carriage return that stood before its line feed.
pub open spec fn strip_cr(line: Seq<char>) -> Seq<char> {
    if line.len() > 0 && line.last() == '\r' {
        line.drop_last()
    } else {
        line
    }
}

/// The lines of a text. A line ends at a line feed; the line feed, and a
/// carriage return directly before it, are not part of the line. Text after
/// the last line feed is a line of its own, kept as it is; an empty rest is
/// no line.
pub open spec fn split_lines(s: Seq<char>) -> Seq<Seq<char>>
    decreases s.len(),
{
    if s.len() == 0 {
        Seq::empty()
    } else {
        let end = line_end(s);
        if end >= s.len() {
            seq![s]
        } else {
            seq![strip_cr(s.take(end as int))] + split_lines(s.skip(end as int + 1))
        }
    }
}

/// The text of each string, in order.
pub open spec fn texts_of(lines: Seq<String>) -> Seq<Seq<char>> {
    lines.map_values(|line: String| line@)
}

/// The first line feed of `s` is at `k` if none stands before `k` and either
/// one stands at `k` or `s` ends there.
pub proof fn lemma_line_end(s: Seq<char>, k: nat)
    requires
        k <= s.len(),
        forall|j: int| 0 <= j < k ==> s[j] != '\n',
        k < s.len() ==> s[k as int] == '\n',
    ensures
        line_end(s) == k,
    decreases k,
{
    if k > 0 {
        let rest = s.drop_first();
        assert forall|j: int| 0 <= j < k - 1 implies rest[j] != '\n' by {
            assert(rest[j] == s[j + 1]);
        }
        lemma_line_end(rest, (k - 1) as nat);
    }
}

/// No line of a text holds a line feed.
pub proof fn lemma_lines_hold_no_line_feed(s: Seq<char>, i: int, j: int)
    requires
        0 <= i < split_lines(s).len(),
        0 <= j < split_lines(s)[i].len(),
    ensures
        split_lines(s)[i][j] != '\n',
    decreases s.len(),
{
    lemma_line_end_bounds(s);
    let end = line_end(s);
    if end >= s.len() {
    } else if i == 0 {
    } else {
        lemma_lines_hold_no_line_feed(s.skip(end as int + 1), i - 1, j);
    }
}

/// What `line_end` counts: characters other than a line feed, up to a line
/// feed or the end of the text.
pub proof fn lemma_line_end_bounds(s: Seq<char>)
    ensures
        line_end(s) <= s.len(),
        forall|j: int| 0 <= j < line_end(s) ==> s[j] != '\n',
        line_end(s) < s.len() ==> s[line_end(s) as int] == '\n',
    decreases s.len(),
{
    if s.len() == 0 || s[0] == '\n' {
    } else {
        let rest = s.drop_first();
        lemma_line_end_bounds(rest);
        assert forall|j: int| 0 <= j < line_end(s) implies s[j] != '\n' by {
            if j > 0 {
                assert(s[j] == rest[j - 1]);
            }
        }
        if line_end(s) < s.len() {
            assert(s[line_end(s) as int] == rest[line_end(rest) as int]);
        }
    }
}

/// How many line feeds a text holds.
pub open spec fn line_feeds(s: Seq<char>) -> nat
    decreases s.len(),
{
    if s.len() == 0 {
        0
    } else if s[0] == '\n' {
        1 + line_feeds(s.drop_first())
    } else {
        line_feeds(s.drop_first())
    }
}

/// The lines, each followed by a line feed, in one text.
pub open spec fn rejoined(lines: Seq<Seq<char>>) -> Seq<char>
    decreases lines.len(),
{
    if lines.len() == 0 {
        Seq::empty()
    } else {
        lines[0] + seq!['\n'] + rejoined(lines.drop_first())
    }
}

proof fn lemma_line_feeds_after(s: Seq<char>, k: nat)
    requires
        k <= s.len(),
        forall|j: int| 0 <= j < k ==> s[j] != '\n',
    ensures
        line_feeds(s) == line_feeds(s.skip(k as int)),
    decreases k,
{
    if k == 0 {
        assert(s.skip(0) =~= s);
    } else {
        let rest = s.drop_first();
        assert forall|j: int| 0 <= j < k - 1 implies rest[j] != '\n' by {
            assert(rest[j] == s[j + 1]);
        }
        lemma_line_feeds_after(rest, (k - 1) as nat);
        assert(rest.skip(k - 1) =~= s.skip(k as int));
    }
}

/// A text has one line for each line feed, and one more where text follows
/// the last line feed. A text without characters has no line.
pub proof fn lemma_line_count(s: Seq<char>)
    ensures
        split_lines(s).len() == line_feeds(s) + if s.len() > 0 && s.last() != '\n' {
            1nat
        } else {
            0nat
        },
        s.len() == 0 ==> split_lines(s).len() == 0,
    decreases s.len(),
{
    if s.len() > 0 {
        let end = line_end(s);
        lemma_line_end_bounds(s);
        lemma_line_feeds_after(s, end);
        if end < s.len() {
            let tail = s.skip(end as int + 1);
            assert(s.skip(end as int).drop_first() =~= tail);
            lemma_line_count(tail);
            if tail.len() > 0 {
                assert(tail.last() == s.last());
            }
        }
    }
}

/// Of a text without carriage returns nothing is lost but the line feeds:
/// the lines, each followed by a line feed, make up the text again, with a
/// line feed at its end where it had none.
pub proof fn lemma_lines_rejoin(s: Seq<char>)
    requires
        forall|j: int| 0 <= j < s.len() ==> s[j] != '\r',
    ensures
        rejoined(split_lines(s)) == if s.len() == 0 || s.last() == '\n' {
            s
        } else {
            s.push('\n')
        },
    decreases s.len(),
{
    if s.len() > 0 {
        let end = line_end(s);
        lemma_line_end_bounds(s);
        if end >= s.len() {
            let none = seq![s].drop_first();
            assert(none.len() == 0);
            assert(rejoined(none) =~= Seq::<char>::empty());
            assert(rejoined(seq![s]) == seq![s][0] + seq!['\n'] + rejoined(none));
            assert(rejoined(seq![s]) =~= s.push('\n'));
        } else {
            let first = s.take(end as int);
            let tail = s.skip(end as int + 1);
            let lines = split_lines(s);
            assert(strip_cr(first) == first);
            assert(lines.drop_first() =~= split_lines(tail));
            lemma_lines_rejoin(tail);
            if tail.len() > 0 {
                assert(tail.last() == s.last());
            }
            assert(s =~= first + seq!['\n'] + tail);
            assert(s.push('\n') =~= first + seq!['\n'] + tail.push('\n'));
        }
    }
}

/// `String::push` of the standard library, which is called as it is and
/// whose code is not verified here. Going by its documentation, it appends
/// the character to the end of the string: the text afterwards is the text
/// before, followed by `c`.
pub assume_specification[ String::push ](text: &mut String, c: char)
    ensures
        final(text)@ == old(text)@.push(c),
;

/// The lines of a document. Nothing changes them once they are loaded.
pub struct Buffer {
    lines: Vec<String>,
}

impl View for Buffer {
    type V = Seq<Seq<char>>;

    closed spec fn view(&self) -> Seq<Seq<char>> {
        texts_of(self.lines@)
    }
}

impl Default for Buffer {
    fn default() -> (r: Buffer)
        ensures
            r@ == Seq::<Seq<char>>::empty(),
    {
        let r = Buffer { lines: Vec::new() };
        assert(r@ =~= Seq::<Seq<char>>::empty());
        r
    }
}

impl Buffer {
    /// Splits the contents of a file into its lines, in one pass.
    pub fn load(contents: &str) -> (r: Buffer)
        ensures
            r@ == split_lines(contents@),
    {
        let n: usize = contents.unicode_len();
        let mut lines: Vec<String> = Vec::new();
        let mut rest = contents.chars();
        let mut line = String::new();
        let mut held_cr = false;
        let mut start: usize = 0;
        let mut i: usize = 0;
        assert(texts_of(lines@) =~= Seq::<Seq<char>>::empty());
        assert(contents@.skip(0) =~= contents@);
        assert(line@ =~= contents@.subrange(0, 0));
        while i < n
            invariant
                n == contents@.len(),
                start <= i <= n,
                rest.obeys_prophetic_iter_laws(),
                rest.remaining() == contents@.skip(i as int),
                held_cr <==> i > start && contents@[i - 1] == '\r',
                held_cr ==> line@.push('\r') == contents@.subrange(start as int, i as int),
                !held_cr ==> line@ == contents@.subrange(start as int, i as int),
                forall|j: int| start <= j < i ==> contents@[j] != '\n',
                texts_of(lines@) + split_lines(contents@.skip(start as int)) == split_lines(
                    contents@,
                ),
            decreases n - i,
        {
            let c = match rest.next() {
                Some(c) => c,
                None => unreached(),
            };
            let ghost seen = contents@.subrange(start as int, i as int);
            assert(c == contents@[i as int]);
            assert(contents@.skip(i as int).drop_first() =~= contents@.skip(i + 1));
            assert(seen.push(c) =~= contents@.subrange(start as int, i + 1));
            if c == '\n' {
                proof {
                    let tail = contents@.skip(start as int);
                    let k = (i - start) as nat;
                    lemma_line_end(tail, k);
                    assert(tail.take(k as int) =~= seen);
                    assert(strip_cr(seen) =~= line@);
                    assert(tail.skip(k as int + 1) =~= contents@.skip(i + 1));
                    assert(texts_of(lines@.push(line)) =~= texts_of(lines@) + seq![line@]);
                }
                lines.push(line);
                line = String::new();
                held_cr = false;
                start = i + 1;
                assert(line@ =~= contents@.subrange(start as int, i + 1));
            } else {
                if held_cr {
                    line.push('\r');
                }
                if c == '\r' {
                    held_cr = true;
                } else {
                    line.push(c);
                    held_cr = false;
                }
            }
            i += 1;
        }
        if start < n {
            if held_cr {
                line.push('\r');
            }
            proof {
                let tail = contents@.skip(start as int);
                lemma_line_end(tail, (n - start) as nat);
                assert(tail =~= line@);
                assert(texts_of(lines@.push(line)) =~= texts_of(lines@) + seq![line@]);
            }
            lines.push(line);
        } else {
            assert(contents@.skip(start as int).len() == 0);
        }
        Buffer { lines }
    }

    /// Whether the document has no line at all.
    pub fn is_empty(&self) -> (r: bool)
        ensures
            r <==> self@.len() == 0,
    {
        self.lines.len() == 0
    }

    /// The lines, in file order.
    pub fn lines(&self) -> (r: &Vec<String>)
        ensures
            texts_of(r@) == self@,
    {
        &self.lines
    }

    /// The number of lines.
    pub fn len(&self) -> (r: usize)
        ensures
            r == self@.len(),
    {
        self.lines.len()
    }
}

} // verus!
