//! The buffer itself: its lines, cursor, viewport and number bar, and the
//! invariant every operation preserves.

use vstd::prelude::*;

use crate::buffer::types::{BufferPosition, FileLine, Selection};
use crate::json::dec_digits;
use crate::text::push_char;

verus! {

/// The height the status bar takes from the viewport.
pub const STATUSBAR_SPACE: usize = 1;

/// A generous bound on every dimension the buffer computes with, so that
/// the sums and products below stay inside the machine.
pub const DIM_LIMIT: usize = 0x10000000;

/// The index of the first line feed at or after `i`, or the end.
pub open spec fn line_break(s: Seq<char>, i: int) -> int
    decreases s.len() - i,
{
    if i < 0 || i >= s.len() {
        i
    } else if s[i] == '\n' {
        i
    } else {
        line_break(s, i + 1)
    }
}

/// A line's text without its trailing carriage return, if one is there.
pub open spec fn strip_cr(l: Seq<char>) -> Seq<char> {
    if l.len() > 0 && l.last() == '\r' {
        l.drop_last()
    } else {
        l
    }
}

/// The lines of `s` from `i` on: split at line feeds, each line without
/// its line ending, and no final empty line for a trailing line feed.
pub open spec fn lines_of(s: Seq<char>, i: int) -> Seq<Seq<char>>
    decreases s.len() - i,
{
    if i < 0 || i >= s.len() {
        Seq::empty()
    } else {
        let e = line_break(s, i);
        if e < i {
            Seq::empty()
        } else if e >= s.len() {
            seq![strip_cr(s.subrange(i, s.len() as int))]
        } else {
            seq![strip_cr(s.subrange(i, e))] + lines_of(s, e + 1)
        }
    }
}

/// The character sequences held by a vector of lines, elementwise.
pub open spec fn line_views(v: Seq<FileLine>) -> Seq<Seq<char>>
    decreases v.len(),
{
    if v.len() == 0 {
        Seq::empty()
    } else {
        line_views(v.drop_last()).push(v.last().content@)
    }
}

pub broadcast proof fn lemma_line_views(v: Seq<FileLine>)
    ensures
        (#[trigger] line_views(v)).len() == v.len(),
        forall|i: int| 0 <= i < v.len() ==> line_views(v)[i] == v[i].content@,
    decreases v.len(),
{
    if v.len() > 0 {
        lemma_line_views(v.drop_last());
        assert(forall|i: int| 0 <= i < v.len() - 1 ==> v.drop_last()[i] == v[i]);
    }
}

/// Every line of a text is at most as long as the text, and there are at
/// most as many lines as characters.
pub proof fn lemma_lines_bounds(s: Seq<char>, i: int)
    requires
        0 <= i <= s.len(),
    ensures
        lines_of(s, i).len() <= s.len() - i + 1,
        forall|k: int|
            0 <= k < lines_of(s, i).len() ==> (#[trigger] lines_of(s, i)[k]).len() <= s.len() - i,
    decreases s.len() - i,
{
    if i < s.len() {
        lemma_line_break_bounds(s, i);
        let e = line_break(s, i);
        if e >= s.len() {
            assert(lines_of(s, i)[0].len() <= s.len() - i);
        } else {
            lemma_lines_bounds(s, e + 1);
            assert(forall|k: int|
                0 <= k < lines_of(s, e + 1).len() ==> (#[trigger] lines_of(s, e + 1)[k]).len()
                    <= s.len() - e - 1);
            assert(lines_of(s, i)[0].len() <= e - i);
            assert(forall|k: int|
                1 <= k < lines_of(s, i).len() ==> lines_of(s, i)[k] == #[trigger] lines_of(
                    s,
                    e + 1,
                )[k - 1]);
        }
    }
}

pub proof fn lemma_line_break_bounds(s: Seq<char>, i: int)
    requires
        0 <= i <= s.len(),
    ensures
        i <= line_break(s, i) <= s.len(),
        forall|t: int| i <= t < line_break(s, i) ==> s[t] != '\n',
        line_break(s, i) < s.len() ==> s[line_break(s, i)] == '\n',
    decreases s.len() - i,
{
    if i < s.len() && s[i] != '\n' {
        lemma_line_break_bounds(s, i + 1);
    }
}

/// The modal editor's buffer: the document's lines, the cursor, the
/// viewport window and the number-bar width, plus the visual selection.
pub struct Buffer {
    pub file_path: Option<String>,
    pub file_lines: Vec<FileLine>,
    pub viewport_width: usize,
    pub viewport_height: usize,
    pub vertical_scroll: usize,
    pub horizontal_scroll: usize,
    pub current_position: BufferPosition,
    pub numbar_space: usize,
    pub selection: Option<Selection>,
    pub selected_string: Option<String>,
}

impl Buffer {
    /// The character count of the cursor's line.
    pub open spec fn cur_line_len(&self) -> int {
        self.file_lines@[self.current_position.line as int].content@.len() as int
    }

    /// The buffer's dimensional soundness: at least one line, every
    /// recorded length the true character count, the cursor on a line and
    /// between the number bar and the line's end, and every dimension
    /// bounded.  The number bar's width may be momentarily stale between a
    /// line-count change and its recomputation.
    pub open spec fn wf_dims(&self) -> bool {
        &&& 1 <= self.file_lines@.len() <= DIM_LIMIT
        &&& forall|i: int|
            0 <= i < self.file_lines@.len() ==> (#[trigger] self.file_lines@[i]).length
                == self.file_lines@[i].content@.len()
        &&& forall|i: int|
            0 <= i < self.file_lines@.len() ==> (#[trigger] self.file_lines@[i]).content@.len()
                <= DIM_LIMIT
        &&& 1 <= self.numbar_space <= 2 * DIM_LIMIT
        &&& 1 <= self.viewport_width <= DIM_LIMIT
        &&& 1 <= self.viewport_height <= DIM_LIMIT
        &&& (self.current_position.line as int) < self.file_lines@.len()
        &&& self.numbar_space <= self.current_position.character
        &&& self.current_position.character as int <= self.numbar_space + self.cur_line_len()
        &&& self.vertical_scroll <= 3 * DIM_LIMIT
        &&& self.horizontal_scroll <= 3 * DIM_LIMIT
    }

    /// The buffer's invariant: dimensionally sound, with the number bar
    /// exactly wide enough for the current line count.
    pub open spec fn wf(&self) -> bool {
        &&& self.wf_dims()
        &&& self.numbar_space as int == dec_digits(self.file_lines@.len() as int).len() + 1
    }

    /// The cursor lies inside the viewport window.
    pub open spec fn cursor_visible(&self) -> bool {
        &&& self.vertical_scroll <= self.current_position.line < self.vertical_scroll
            + self.viewport_height
        &&& self.horizontal_scroll + self.numbar_space <= self.current_position.character
            < self.horizontal_scroll + self.viewport_width + self.numbar_space
    }

    /// Open a buffer over `file_text`: one `FileLine` per line of the
    /// text, the number bar wide enough for the last line number, and the
    /// cursor at the start.
    pub fn new(
        file_path: Option<String>,
        file_text: String,
        viewport_width: usize,
        viewport_height: usize,
    ) -> (r: Buffer)
        requires
            file_text@.len() < DIM_LIMIT,
            lines_of(file_text@, 0).len() >= 1,
            viewport_height >= 1 + STATUSBAR_SPACE,
            viewport_height <= DIM_LIMIT,
            viewport_width <= DIM_LIMIT,
            viewport_width >= dec_digits(lines_of(file_text@, 0).len() as int).len() + 2,
        ensures
            r.wf(),
            line_views(r.file_lines@) == lines_of(file_text@, 0),
            r.file_path == file_path,
            r.numbar_space == dec_digits(lines_of(file_text@, 0).len() as int).len() + 1,
            r.viewport_width as int == viewport_width - r.numbar_space,
            r.viewport_height as int == viewport_height - STATUSBAR_SPACE,
            r.vertical_scroll == 0,
            r.horizontal_scroll == 0,
            r.current_position.line == 0,
            r.current_position.character == r.numbar_space,
            r.selection is None,
            r.selected_string is None,
    {
        let lines = split_into_lines(file_text.as_str());
        proof {
            broadcast use lemma_line_views;

        }
        let count = lines.len();
        let numbar_space = digit_count(count) + 1;
        Buffer {
            file_path,
            file_lines: lines,
            viewport_width: viewport_width - numbar_space,
            viewport_height: viewport_height - STATUSBAR_SPACE,
            vertical_scroll: 0,
            horizontal_scroll: 0,
            current_position: BufferPosition { line: 0, character: numbar_space },
            numbar_space,
            selection: None,
            selected_string: None,
        }
    }
}

proof fn lemma_line_break_at(s: Seq<char>, i: int, j: int)
    requires
        0 <= i <= j < s.len(),
        forall|t: int| i <= t < j ==> s[t] != '\n',
        s[j] == '\n',
    ensures
        line_break(s, i) == j,
    decreases j - i,
{
    if i < j {
        lemma_line_break_at(s, i + 1, j);
    }
}

proof fn lemma_line_break_none(s: Seq<char>, i: int)
    requires
        0 <= i <= s.len(),
        forall|t: int| i <= t < s.len() ==> s[t] != '\n',
    ensures
        line_break(s, i) == s.len(),
    decreases s.len() - i,
{
    if i < s.len() {
        lemma_line_break_none(s, i + 1);
    }
}

/// The number of decimal digits of `n`.
pub fn digit_count(n: usize) -> (r: usize)
    ensures
        r == dec_digits(n as int).len(),
        1 <= r <= n + 1,
    decreases n,
{
    if n < 10 {
        1
    } else {
        let rq = digit_count(n / 10);
        proof {
            assert(dec_digits(n as int) == dec_digits(n as int / 10).push(
                crate::json::dec_digit_char(n as int % 10),
            ));
        }
        1 + rq
    }
}

/// Split `text` into its lines, one `FileLine` per line, each length the
/// line's character count.
#[verifier::loop_isolation(false)]
pub fn split_into_lines(text: &str) -> (r: Vec<FileLine>)
    ensures
        line_views(r@) == lines_of(text@, 0),
        forall|k: int|
            0 <= k < r@.len() ==> (#[trigger] r@[k]).length == r@[k].content@.len(),
        forall|k: int|
            0 <= k < r@.len() ==> (#[trigger] r@[k]).content@.len() <= text@.len(),
        r@.len() <= text@.len(),
{

    let n = text.unicode_len();
    let mut cs: Vec<char> = Vec::new();
    let mut i: usize = 0;
    while i < n
        invariant
            n == text@.len(),
            i <= n,
            cs@ == text@.subrange(0, i as int),
        decreases n - i,
    {
        let c = text.get_char(i);
        cs.push(c);
        proof {
            assert(cs@ =~= text@.subrange(0, i + 1));
        }
        i = i + 1;
    }
    proof {
        assert(cs@ =~= text@);
        lemma_lines_bounds(text@, 0);
    }
    let mut lines: Vec<FileLine> = Vec::new();
    let mut p: usize = 0;
    proof {
        broadcast use lemma_line_views;

        assert(line_views(lines@) + lines_of(text@, 0) =~= lines_of(text@, 0));
    }
    while p < n
        invariant
            n == text@.len() == cs@.len(),
            cs@ == text@,
            p <= n,
            line_views(lines@) + lines_of(text@, p as int) == lines_of(text@, 0),
            lines@.len() <= p,
            forall|k: int|
                0 <= k < lines@.len() ==> (#[trigger] lines@[k]).length
                    == lines@[k].content@.len(),
            forall|k: int|
                0 <= k < lines@.len() ==> (#[trigger] lines@[k]).content@.len() <= n,
        decreases n - p,
    {
        proof {
            lemma_line_break_bounds(text@, p as int);
        }
        // Find the end of this line.
        let mut e: usize = p;
        while e < n && cs[e] != '\n'
            invariant
                p <= e <= n,
                n == cs@.len(),
                cs@ == text@,
                forall|t: int| p <= t < e ==> text@[t] != '\n',
            decreases n - e,
        {
            e = e + 1;
        }
        proof {
            if e < n {
                assert(line_break(text@, p as int) == e as int) by {
                    lemma_line_break_at(text@, p as int, e as int);
                }
            } else {
                lemma_line_break_none(text@, p as int);
            }
        }
        // Drop a trailing carriage return from the line's text.
        let mut stop = e;
        if stop > p && cs[stop - 1] == '\r' {
            stop = stop - 1;
        }
        let mut content = String::new();
        let mut k: usize = p;
        while k < stop
            invariant
                p <= k <= stop <= n,
                n == cs@.len(),
                cs@ == text@,
                content@ == text@.subrange(p as int, k as int),
            decreases stop - k,
        {
            let c = cs[k];
            push_char(&mut content, c);
            proof {
                assert(content@ =~= text@.subrange(p as int, k + 1));
            }
            k = k + 1;
        }
        let len = stop - p;
        proof {
            assert(content@ =~= strip_cr(text@.subrange(p as int, e as int))) by {
                let l = text@.subrange(p as int, e as int);
                if stop < e {
                    assert(l.last() == text@[e - 1]);
                    assert(l.drop_last() =~= text@.subrange(p as int, stop as int));
                } else {
                    assert(l.len() == 0 || l.last() == text@[e - 1]);
                }
            }
        }
        let ghost prev = line_views(lines@);
        let ghost lines_before = lines@;
        lines.push(FileLine { content, length: len });
        proof {
            assert(lines@.drop_last() =~= lines_before);
            assert(line_views(lines@) =~= prev.push(lines@.last().content@));
        }
        if e < n {
            proof {
                assert(lines_of(text@, p as int) == seq![
                    strip_cr(text@.subrange(p as int, e as int)),
                ] + lines_of(text@, e + 1));
                assert(line_views(lines@) + lines_of(text@, e + 1) =~= lines_of(
                    text@,
                    0,
                ));
            }
            p = e + 1;
        } else {
            proof {
                assert(lines_of(text@, p as int) =~= seq![
                    strip_cr(text@.subrange(p as int, n as int)),
                ]);
                assert(lines_of(text@, n as int) =~= Seq::<Seq<char>>::empty());
                assert(line_views(lines@) + lines_of(text@, n as int) =~= lines_of(
                    text@,
                    0,
                ));
            }
            p = n;
        }
    }
    proof {
        assert(lines_of(text@, p as int) =~= Seq::<Seq<char>>::empty());
        assert(line_views(lines@) =~= lines_of(text@, 0));
    }
    lines
}

} // verus!
