//! Editing: inserting and deleting characters, breaking lines, pasting,
//! and keeping the number bar wide enough for the line count.

use vstd::prelude::*;

use crate::buffer::base::{digit_count, line_views, lines_of, split_into_lines, Buffer,
    DIM_LIMIT};
use crate::buffer::types::FileLine;
use crate::json::dec_digits;
use crate::text::push_char;

verus! {

broadcast use crate::buffer::base::lemma_line_views;

/// A character a word or identifier runs over.
pub open spec fn is_word_char_spec(c: char) -> bool {
    crate::text::is_alphanumeric_char(c) || c == '_'
}

/// Whether `c` continues a word or identifier.
pub fn is_word_char(c: char) -> (r: bool)
    ensures
        r == is_word_char_spec(c),
{
    crate::text::char_is_alphanumeric(c) || c == '_'
}

/// The start of the word-character run that ends just before `idx`.
pub open spec fn word_start_before(s: Seq<char>, idx: int) -> int
    decreases idx,
{
    if idx <= 0 || idx > s.len() {
        0
    } else if !is_word_char_spec(s[idx - 1]) {
        idx
    } else {
        word_start_before(s, idx - 1)
    }
}

proof fn lemma_word_start_before(s: Seq<char>, idx: int, start: int)
    requires
        0 <= start <= idx <= s.len(),
        forall|k: int| start <= k < idx ==> is_word_char_spec(#[trigger] s[k]),
        start == 0 || !is_word_char_spec(s[start - 1]),
    ensures
        word_start_before(s, idx) == start,
    decreases idx - start,
{
    if idx > start {
        lemma_word_start_before(s, idx - 1, start);
    }
}

/// The document's lines from `i` on, joined by line feeds.
pub open spec fn joined_lines(ls: Seq<FileLine>, i: int) -> Seq<char>
    decreases ls.len() - i,
{
    if i < 0 || i >= ls.len() {
        Seq::empty()
    } else if i == ls.len() - 1 {
        ls[i].content@
    } else {
        ls[i].content@ + seq!['\n'] + joined_lines(ls, i + 1)
    }
}

impl Buffer {
    /// Recompute the number bar's width from the line count; the cursor is
    /// clamped into the bar and its line where the new width demands it.
    pub fn update_numbar_space(&mut self)
        requires
            old(self).wf_dims(),
        ensures
            final(self).wf(),
            final(self).numbar_space == dec_digits(old(self).file_lines@.len() as int).len() + 1,
            final(self).file_lines == old(self).file_lines,
            final(self).current_position.line == old(self).current_position.line,
            final(self).vertical_scroll == old(self).vertical_scroll,
            final(self).horizontal_scroll == old(self).horizontal_scroll,
            final(self).viewport_width == old(self).viewport_width,
            final(self).viewport_height == old(self).viewport_height,
            final(self).selection == old(self).selection,
            final(self).selected_string == old(self).selected_string,
            final(self).file_path == old(self).file_path,
            final(self).current_position.character as int == ({
                let nb = dec_digits(old(self).file_lines@.len() as int).len() + 1;
                let ll = old(self).cur_line_len();
                if old(self).current_position.character < nb {
                    nb as int
                } else if old(self).current_position.character > nb + ll {
                    nb + ll
                } else {
                    old(self).current_position.character as int
                }
            }),
    {
        let numbar_space = digit_count(self.file_lines.len()) + 1;
        self.numbar_space = numbar_space;
        let line = self.current_position.line;
        let ll = self.file_lines[line].content.as_str().unicode_len();
        if self.current_position.character < numbar_space {
            self.current_position.character = numbar_space;
        } else if self.current_position.character > numbar_space + ll {
            self.current_position.character = numbar_space + ll;
        }
    }

    /// Insert `ch` at the cursor and step past it; the viewport follows.
    pub fn insert_char(&mut self, ch: char)
        requires
            old(self).wf(),
            old(self).cur_line_len() < DIM_LIMIT,
        ensures
            final(self).wf(),
            final(self).cursor_visible(),
            final(self).file_lines@.len() == old(self).file_lines@.len(),
            final(self).numbar_space == old(self).numbar_space,
            *final(self) == (Buffer {
                file_lines: final(self).file_lines,
                current_position: final(self).current_position,
                vertical_scroll: final(self).vertical_scroll,
                horizontal_scroll: final(self).horizontal_scroll,
                ..*old(self)
            }),
            ({
                let line = old(self).current_position.line as int;
                let idx = old(self).current_position.character - old(self).numbar_space;
                let s = old(self).file_lines@[line].content@;
                &&& final(self).file_lines@[line].content@ == s.subrange(0, idx).push(ch).add(
                    s.subrange(idx, s.len() as int),
                )
                &&& forall|k: int|
                    0 <= k < old(self).file_lines@.len() && k != line ==> final(self).file_lines@[k] == old(self).file_lines@[k]
                &&& final(self).current_position.line == line
                &&& final(self).current_position.character == old(self).current_position.character + 1
            }),
    {
        let line = self.current_position.line;
        let insert_index = self.current_position.character - self.numbar_space;
        let s = self.file_lines[line].content.as_str();
        let n = s.unicode_len();
        let left = s.substring_char(0, insert_index);
        let right = s.substring_char(insert_index, n);
        let mut content = String::from_str(left);
        push_char(&mut content, ch);
        content.append(right);
        let new_len = n + 1;
        proof {
            let old_s = old(self).file_lines@[line as int].content@;
            assert(content@ =~= old_s.subrange(0, insert_index as int).push(ch).add(
                old_s.subrange(insert_index as int, old_s.len() as int),
            ));
        }
        self.file_lines[line] = FileLine { content, length: new_len };
        self.current_position.character = self.current_position.character + 1;
        self.ensure_cursor_visible();
    }

    /// Delete at the cursor: the character before it when one is there,
    /// and, when the cursor then rests against the number bar, the line
    /// itself — an empty line is dropped, a non-empty one joined onto the
    /// line above, the cursor landing where the upper line used to end.
    /// The number bar is recomputed and the viewport follows.
    pub fn remove_char(&mut self)
        requires
            old(self).wf(),
            old(self).current_position.line >= 1 ==> old(self).file_lines@[old(
                self,
            ).current_position.line - 1].content@.len() + old(self).cur_line_len() <= DIM_LIMIT,
        ensures
            final(self).wf(),
            final(self).cursor_visible(),
            ({
                let line = old(self).current_position.line as int;
                let nb = old(self).numbar_space as int;
                let ch = old(self).current_position.character as int;
                let ls = old(self).file_lines@;
                let s = ls[line].content@;
                // What deleting one character leaves of the cursor's line.
                let ls1 = if ch > nb {
                    ls.update(
                        line,
                        FileLine {
                            content: final(self).file_lines@[line].content,
                            length: final(self).file_lines@[line].length,
                        },
                    )
                } else {
                    ls
                };
                let ch1 = if ch > nb {
                    ch - 1
                } else {
                    ch
                };
                if ch1 == nb && line > 0 {
                    // The line goes: dropped if empty, else joined above.
                    let s1 = if ch > nb {
                        s.subrange(0, ch - 1 - nb).add(s.subrange(ch - nb, s.len() as int))
                    } else {
                        s
                    };
                    let top = ls[line - 1].content@;
                    &&& final(self).file_lines@.len() == ls.len() - 1
                    &&& final(self).file_lines@[line - 1].content@ == if s1.len() == 0 {
                        top
                    } else {
                        top + s1
                    }
                    &&& forall|k: int|
                        0 <= k < line - 1 ==> final(self).file_lines@[k] == ls[k]
                    &&& forall|k: int|
                        line <= k < final(self).file_lines@.len() ==> final(self).file_lines@[k] == ls[k + 1]
                    &&& final(self).current_position.line == line - 1
                    &&& final(self).current_position.character == final(self).numbar_space
                        + top.len()
                } else {
                    // Only the character went, if any did.
                    &&& final(self).file_lines@.len() == ls.len()
                    &&& final(self).file_lines@[line].content@ == if ch > nb {
                        s.subrange(0, ch - 1 - nb).add(s.subrange(ch - nb, s.len() as int))
                    } else {
                        s
                    }
                    &&& forall|k: int|
                        0 <= k < ls.len() && k != line ==> final(self).file_lines@[k] == ls[k]
                    &&& final(self).current_position.line == line
                    &&& final(self).current_position.character == ch1
                }
            }),
    {
        let line = self.current_position.line;
        let nb = self.numbar_space;
        if self.current_position.character > nb {
            let string_index = self.current_position.character - 1 - nb;
            let s = self.file_lines[line].content.as_str();
            let n = s.unicode_len();
            let left = s.substring_char(0, string_index);
            let right = s.substring_char(string_index + 1, n);
            let mut content = String::from_str(left);
            content.append(right);
            proof {
                let old_s = old(self).file_lines@[line as int].content@;
                assert(content@ =~= old_s.subrange(0, string_index as int).add(
                    old_s.subrange(string_index + 1, old_s.len() as int),
                ));
            }
            self.file_lines[line] = FileLine { content, length: n - 1 };
            self.current_position.character = self.current_position.character - 1;
        }
        if self.current_position.character == nb && line > 0 {
            let top_old_len = self.file_lines[line - 1].content.as_str().unicode_len();
            let cur_len = self.file_lines[line].content.as_str().unicode_len();
            if cur_len == 0 {
                self.file_lines.remove(line);
            } else {
                let top = self.file_lines[line - 1].content.as_str();
                let cur = self.file_lines[line].content.as_str();
                let mut joined = String::from_str(top);
                joined.append(cur);
                let jl = top_old_len + cur_len;
                proof {
                    assert(joined@ =~= old(self).file_lines@[line - 1].content@
                        + self.file_lines@[line as int].content@);
                }
                self.file_lines[line - 1] = FileLine { content: joined, length: jl };
                self.file_lines.remove(line);
            }
            self.current_position.line = line - 1;
            self.current_position.character = nb;
            self.update_numbar_space();
            self.current_position.character = top_old_len + self.numbar_space;
        }
        self.ensure_cursor_visible();
    }

    /// Break the line at the cursor: at the line's end an empty line opens
    /// below; anywhere inside it the tail from the cursor on moves to a new
    /// line below.  The cursor lands at the start of the next line; the
    /// number bar is recomputed and the viewport follows.
    pub fn enter_key(&mut self)
        requires
            old(self).wf(),
            old(self).file_lines@.len() < DIM_LIMIT,
        ensures
            final(self).wf(),
            final(self).cursor_visible(),
            ({
                let line = old(self).current_position.line as int;
                let nb = old(self).numbar_space as int;
                let ch = old(self).current_position.character as int;
                let ls = old(self).file_lines@;
                let s = ls[line].content@;
                if ch - nb == s.len() {
                    &&& final(self).file_lines@.len() == ls.len() + 1
                    &&& final(self).file_lines@[line + 1].content@ == Seq::<char>::empty()
                    &&& forall|k: int| 0 <= k <= line ==> final(self).file_lines@[k] == ls[k]
                    &&& forall|k: int|
                        line + 1 < k < final(self).file_lines@.len() ==> final(self).file_lines@[k] == ls[k - 1]
                    &&& final(self).current_position.line == line + 1
                    &&& final(self).current_position.character == final(self).numbar_space
                } else {
                    &&& final(self).file_lines@.len() == ls.len() + 1
                    &&& final(self).file_lines@[line].content@ == s.subrange(0, ch - nb)
                    &&& final(self).file_lines@[line + 1].content@ == s.subrange(
                        ch - nb,
                        s.len() as int,
                    )
                    &&& forall|k: int| 0 <= k < line ==> final(self).file_lines@[k] == ls[k]
                    &&& forall|k: int|
                        line + 1 < k < final(self).file_lines@.len() ==> final(self).file_lines@[k] == ls[k - 1]
                    &&& final(self).current_position.line == line + 1
                    &&& final(self).current_position.character == final(self).numbar_space
                }
            }),
    {
        let line = self.current_position.line;
        let nb = self.numbar_space;
        let ch = self.current_position.character;
        let s_len = self.file_lines[line].content.as_str().unicode_len();
        if ch - nb == s_len {
            self.file_lines.insert(line + 1, FileLine { content: String::new(), length: 0 });
            self.update_numbar_space();
            self.current_position.line = line + 1;
            self.current_position.character = self.numbar_space;
        } else {
            let idx = ch - nb;
            let s = self.file_lines[line].content.as_str();
            let head = String::from_str(s.substring_char(0, idx));
            let tail = String::from_str(s.substring_char(idx, s_len));
            proof {
                let old_s = old(self).file_lines@[line as int].content@;
                assert(head@ =~= old_s.subrange(0, idx as int));
                assert(tail@ =~= old_s.subrange(idx as int, old_s.len() as int));
            }
            self.file_lines[line] = FileLine { content: head, length: idx };
            self.file_lines.insert(line + 1, FileLine { content: tail, length: s_len - idx });
            self.update_numbar_space();
            self.current_position.line = line + 1;
            self.current_position.character = self.numbar_space;
        }
        self.ensure_cursor_visible();
    }

    /// Paste at the cursor: a single-line string is spliced into the line;
    /// a multi-line one breaks the line at the cursor, keeps its head with
    /// the first pasted line, opens one line per middle pasted line, and
    /// ends with the last pasted line joined to the tail.  The number bar
    /// is recomputed and the viewport follows.
    pub fn paste(&mut self, paste_string: String)
        requires
            old(self).wf(),
            old(self).cur_line_len() + paste_string@.len() < DIM_LIMIT,
            old(self).file_lines@.len() + paste_string@.len() < DIM_LIMIT,
        ensures
            final(self).wf(),
            ({
                let line = old(self).current_position.line as int;
                let cc = old(self).current_position.character - old(self).numbar_space;
                let ls = old(self).file_lines@;
                let s = ls[line].content@;
                let before = s.subrange(0, cc);
                let after = s.subrange(cc, s.len() as int);
                let pl = lines_of(paste_string@, 0);
                if pl.len() == 0 {
                    final(self).file_lines == old(self).file_lines
                } else if pl.len() == 1 {
                    &&& final(self).file_lines@.len() == ls.len()
                    &&& final(self).file_lines@[line].content@ == before + paste_string@ + after
                    &&& forall|k: int|
                        0 <= k < ls.len() && k != line ==> final(self).file_lines@[k] == ls[k]
                } else {
                    &&& final(self).file_lines@.len() == ls.len() + pl.len() - 1
                    &&& final(self).file_lines@[line].content@ == before + pl[0]
                    &&& forall|k: int|
                        0 < k < pl.len() - 1 ==> final(self).file_lines@[line + k].content@
                            == pl[k]
                    &&& final(self).file_lines@[line + pl.len() - 1].content@ == pl[pl.len() - 1]
                        + after
                    &&& forall|k: int| 0 <= k < line ==> final(self).file_lines@[k] == ls[k]
                    &&& forall|k: int|
                        line + pl.len() - 1 < k < final(self).file_lines@.len() ==> final(self).file_lines@[k] == ls[k - pl.len() + 1]
                }
            }),
            final(self).current_position.line == old(self).current_position.line,
            ({
                let pl = lines_of(paste_string@, 0);
                if pl.len() == 0 {
                    *final(self) == *old(self)
                } else {
                    &&& final(self).cursor_visible()
                    &&& final(self).current_position.character as int == ({
                        let nb2 = dec_digits(final(self).file_lines@.len() as int).len() + 1;
                        let ll2 = final(self).cur_line_len();
                        let ch = old(self).current_position.character as int;
                        if ch < nb2 {
                            nb2 as int
                        } else if ch > nb2 + ll2 {
                            nb2 + ll2
                        } else {
                            ch
                        }
                    })
                    &&& *final(self) == (Buffer {
                        file_lines: final(self).file_lines,
                        current_position: final(self).current_position,
                        numbar_space: final(self).numbar_space,
                        vertical_scroll: final(self).vertical_scroll,
                        horizontal_scroll: final(self).horizontal_scroll,
                        ..*old(self)
                    })
                }
            }),
    {
        let line = self.current_position.line;
        let cc = self.current_position.character - self.numbar_space;
        let s = self.file_lines[line].content.as_str();
        let n = s.unicode_len();
        let before = String::from_str(s.substring_char(0, cc));
        let after = String::from_str(s.substring_char(cc, n));
        proof {
            let old_s = old(self).file_lines@[line as int].content@;
            assert(before@ =~= old_s.subrange(0, cc as int));
            assert(after@ =~= old_s.subrange(cc as int, old_s.len() as int));
        }
        let newlines = split_into_lines(paste_string.as_str());
        let nl = newlines.len();
        if nl == 0 {
            return ;
        }
        if nl == 1 {
            let mut content = before;
            content.append(paste_string.as_str());
            content.append(after.as_str());
            let total = content.as_str().unicode_len();
            self.file_lines[line] = FileLine { content, length: total };
            self.update_numbar_space();
            self.ensure_cursor_visible();
            return ;
        }
        // Multi-line: head of the line plus the first pasted line.
        let ghost pl = lines_of(paste_string@, 0);
        let ghost ls = old(self).file_lines@;
        let mut first = before;
        first.append(newlines[0].content.as_str());
        let flen = first.as_str().unicode_len();
        proof {
            assert(line_views(newlines@)[0] == newlines@[0].content@);
            assert(first@ =~= ls[line as int].content@.subrange(
                0,
                cc as int,
            ) + pl[0]);
        }
        self.file_lines[line] = FileLine { content: first, length: flen };
        // One line per middle pasted line.
        let mut i: usize = 1;
        while i < nl - 1
            invariant
                1 <= i <= nl - 1,
                nl == newlines@.len(),
                nl < DIM_LIMIT,
                ls.len() <= DIM_LIMIT,
                line < ls.len(),
                pl == line_views(newlines@),
                line < self.file_lines@.len(),
                self.file_lines@.len() == ls.len() + i - 1,
                forall|k: int| 0 <= k < nl ==> (#[trigger] newlines@[k]).content@ == pl[k],
                forall|k: int| 0 <= k < line ==> self.file_lines@[k] == ls[k],
                self.file_lines@[line as int].content@ == ls[line as int].content@.subrange(
                    0,
                    cc as int,
                ) + pl[0],
                self.file_lines@[line as int].length == self.file_lines@[line as int].content@.len(),
                forall|k: int|
                    0 < k < i ==> (#[trigger] self.file_lines@[line + k]).content@ == pl[k]
                        && self.file_lines@[line + k].length == self.file_lines@[line
                        + k].content@.len(),
                forall|k: int|
                    line + i <= k < self.file_lines@.len() ==> #[trigger] self.file_lines@[k]
                        == ls[k - i + 1],
                forall|k: int|
                    0 <= k < nl ==> (#[trigger] newlines@[k]).length
                        == newlines@[k].content@.len(),
                forall|k: int|
                    0 <= k < nl ==> (#[trigger] newlines@[k]).content@.len()
                        <= paste_string@.len(),
                self.current_position == old(self).current_position,
                self.numbar_space == old(self).numbar_space,
                self.viewport_width == old(self).viewport_width,
                self.viewport_height == old(self).viewport_height,
                self.vertical_scroll == old(self).vertical_scroll,
                self.horizontal_scroll == old(self).horizontal_scroll,
                self.selection == old(self).selection,
                self.selected_string == old(self).selected_string,
                self.file_path == old(self).file_path,
            decreases nl - i,
        {
            let item = &newlines[i];
            let copy = FileLine { content: item.content.clone(), length: item.length };
            self.file_lines.insert(line + i, copy);
            i = i + 1;
        }
        // The last pasted line carries the tail of the original line.
        let mut last = String::new();
        last.append(newlines[nl - 1].content.as_str());
        last.append(after.as_str());
        let llen = last.as_str().unicode_len();
        proof {
            assert(last@ =~= pl[nl - 1] + ls[line as int].content@.subrange(
                cc as int,
                ls[line as int].content@.len() as int,
            ));
        }
        let ghost pre = self.file_lines@;
        self.file_lines.insert(line + nl - 1, FileLine { content: last, length: llen });
        proof {
            let fl = self.file_lines@;
            assert forall|k: int|
                0 <= k < fl.len() implies (#[trigger] fl[k]).length == fl[k].content@.len()
                && fl[k].content@.len() <= DIM_LIMIT by {
                if k < line + nl - 1 {
                    assert(fl[k] == pre[k]);
                    if line < k < line + nl - 1 {
                        let u = k - line;
                        assert(pre[line + u].content@ == pl[u]);
                    } else if k != line {
                        assert(pre[k] == ls[k]);
                    }
                } else if k > line + nl - 1 {
                    assert(fl[k] == pre[k - 1]);
                    assert(pre[k - 1] == ls[k - 1 - (nl - 1) + 1]);
                }
            }
        }
        self.update_numbar_space();
        self.ensure_cursor_visible();
    }

    /// The whole document as one text, lines joined by line feeds: what
    /// saving writes back.
    pub fn full_text(&self) -> (r: String)
        requires
            self.wf(),
        ensures
            r@ == joined_lines(self.file_lines@, 0),
    {
        let mut out = String::new();
        let n = self.file_lines.len();
        let mut i: usize = 0;
        while i < n
            invariant
                n == self.file_lines@.len(),
                i <= n,
                out@ + joined_lines(self.file_lines@, i as int) == joined_lines(
                    self.file_lines@,
                    0,
                ),
            decreases n - i,
        {
            let piece = self.file_lines[i].content.as_str();
            out.append(piece);
            if i + 1 < n {
                crate::text::push_char(&mut out, '\n');
            }
            proof {
                if i + 1 < n {
                    assert(joined_lines(self.file_lines@, i as int)
                        == self.file_lines@[i as int].content@ + seq!['\n'] + joined_lines(
                        self.file_lines@,
                        i + 1,
                    ));
                } else {
                    assert(joined_lines(self.file_lines@, i as int)
                        == self.file_lines@[i as int].content@);
                    assert(joined_lines(self.file_lines@, i + 1) =~= Seq::<char>::empty());
                }
                assert(out@ + joined_lines(self.file_lines@, i + 1) =~= joined_lines(
                    self.file_lines@,
                    0,
                ));
            }
            i = i + 1;
        }
        proof {
            assert(joined_lines(self.file_lines@, n as int) =~= Seq::<char>::empty());
            assert(out@ =~= joined_lines(self.file_lines@, 0));
        }
        out
    }

    /// Accept a completion: the word or identifier run just before the
    /// cursor is replaced by `label`, and the cursor lands after it.
    pub fn insert_completion(&mut self, label: &str)
        requires
            old(self).wf(),
            old(self).cur_line_len() + label@.len() < DIM_LIMIT,
        ensures
            final(self).wf(),
            ({
                let line = old(self).current_position.line as int;
                let idx = old(self).current_position.character - old(self).numbar_space;
                let s = old(self).file_lines@[line].content@;
                let start = word_start_before(s, idx);
                &&& final(self).file_lines@.len() == old(self).file_lines@.len()
                &&& final(self).file_lines@[line].content@ == s.subrange(0, start) + label@
                    + s.subrange(idx, s.len() as int)
                &&& forall|k: int|
                    0 <= k < old(self).file_lines@.len() && k != line ==> final(self).file_lines@[k] == old(self).file_lines@[k]
                &&& final(self).current_position.line == line
                &&& final(self).current_position.character as int == final(self).numbar_space
                    + start + label@.len()
            }),
    {
        let line = self.current_position.line;
        let idx = self.current_position.character - self.numbar_space;
        let content = self.file_lines[line].content.as_str();
        let n = content.unicode_len();
        let ghost sv = self.file_lines@[line as int].content@;
        let mut start: usize = idx;
        while start > 0 && is_word_char(content.get_char(start - 1))
            invariant
                start <= idx <= n,
                n == sv.len(),
                content@ == sv,
                forall|k: int|
                    start <= k < idx ==> is_word_char_spec(#[trigger] sv[k]),
            decreases start,
        {
            start = start - 1;
        }
        proof {
            lemma_word_start_before(sv, idx as int, start as int);
        }
        let head = String::from_str(content.substring_char(0, start));
        let tail = String::from_str(content.substring_char(idx, n));
        let mut newc = head;
        newc.append(label);
        newc.append(tail.as_str());
        let label_len = label.unicode_len();
        let total = start + label_len + (n - idx);
        proof {
            assert(newc@ =~= sv.subrange(0, start as int) + label@ + sv.subrange(
                idx as int,
                sv.len() as int,
            ));
        }
        self.file_lines[line] = FileLine { content: newc, length: total };
        self.current_position.character = self.numbar_space + start + label_len;
    }
}

} // verus!
