//! Cursor movement: plain steps, line jumps, scrolling, and vim-style word
//! motion over character classes.

use vstd::prelude::*;

use crate::buffer::base::{Buffer, DIM_LIMIT};
use crate::buffer::types::{char_type_of, BufferPosition, CharType};
use crate::text::is_whitespace_char;

verus! {

/// A position the cursor may legally take in `b`: on a line, at or past the
/// number bar, not past the line's end.
pub open spec fn valid_position(b: Buffer, p: BufferPosition) -> bool {
    &&& (p.line as int) < b.file_lines@.len()
    &&& b.numbar_space <= p.character
    &&& p.character as int <= b.numbar_space + b.file_lines@[p.line as int].content@.len()
}

/// The characters of line `l` of the buffer.
pub open spec fn line_chars_of(b: Buffer, l: int) -> Seq<char> {
    b.file_lines@[l].content@
}

/// The first index at or after `i` whose character leaves the class `t`.
pub open spec fn run_end_from(cs: Seq<char>, i: int, t: CharType) -> int
    decreases cs.len() - i,
{
    if i < 0 || i >= cs.len() || char_type_of(cs[i]) != t {
        i
    } else {
        run_end_from(cs, i + 1, t)
    }
}

/// The first index at or after `i` holding a non-whitespace character.
pub open spec fn ws_end(cs: Seq<char>, i: int) -> int
    decreases cs.len() - i,
{
    if i < 0 || i >= cs.len() || !is_whitespace_char(cs[i]) {
        i
    } else {
        ws_end(cs, i + 1)
    }
}

/// Step back from `i` over whitespace: the nearest index at or before `i`
/// holding a non-whitespace character, or the line's start.
pub open spec fn ws_back(cs: Seq<char>, i: int) -> int
    decreases i,
{
    if i <= 0 {
        0
    } else if !is_whitespace_char(cs[i]) {
        i
    } else {
        ws_back(cs, i - 1)
    }
}

/// Scan back from `i` while the class stays `t`: where the scan stops,
/// which may still be of class `t` when it reaches the line's start.
pub open spec fn back_scan(cs: Seq<char>, i: int, t: CharType) -> int
    decreases i,
{
    if i <= 0 {
        0
    } else if char_type_of(cs[i]) != t {
        i
    } else {
        back_scan(cs, i - 1, t)
    }
}

/// The first index of the class run covering `i`, for `i` on a
/// non-whitespace character.
pub open spec fn word_start_pos(cs: Seq<char>, i: int) -> int {
    let t = char_type_of(cs[i]);
    let p = back_scan(cs, i, t);
    if char_type_of(cs[p]) != t {
        p + 1
    } else {
        p
    }
}

/// Where the next-word motion lands within one line from `i`: past the
/// current class run (when `i` is not on whitespace), then past the
/// whitespace; the line's end when no word follows.
pub open spec fn next_word_from(cs: Seq<char>, i: int) -> int {
    if is_whitespace_char(cs[i]) {
        ws_end(cs, i)
    } else {
        ws_end(cs, run_end_from(cs, i, char_type_of(cs[i])))
    }
}

/// The last index of the word at or after `i`, or -1 when only whitespace
/// follows.
pub open spec fn word_end_from(cs: Seq<char>, i: int) -> int {
    let j = ws_end(cs, i);
    if j >= cs.len() {
        -1
    } else {
        run_end_from(cs, j, char_type_of(cs[j])) - 1
    }
}

/// Whether the next-word motion finds a target on the cursor's own line.
pub open spec fn next_word_on_line(b: Buffer) -> bool {
    let i0 = b.current_position.character - b.numbar_space;
    let cs = line_chars_of(b, b.current_position.line as int);
    i0 < cs.len() && next_word_from(cs, i0) < cs.len()
}

/// Whether a next-word motion has anywhere to go.
pub open spec fn has_next_word(b: Buffer) -> bool {
    next_word_on_line(b) || b.current_position.line + 1 < b.file_lines@.len()
}

/// Exactly where the next-word motion lands: past the current run and
/// whitespace on the cursor's line, else the first word of the following
/// line (its start for an empty or all-blank line).
pub open spec fn next_word_target(b: Buffer, p: BufferPosition) -> bool {
    let nb = b.numbar_space as int;
    let line = b.current_position.line as int;
    let i0 = b.current_position.character - nb;
    let cs = line_chars_of(b, line);
    &&& valid_position(b, p)
    &&& if next_word_on_line(b) {
        p.line == line && p.character == nb + next_word_from(cs, i0)
    } else {
        &&& p.line == line + 1
        &&& ({
            let cs2 = line_chars_of(b, line + 1);
            if cs2.len() == 0 {
                p.character == nb
            } else if ws_end(cs2, 0) < cs2.len() {
                p.character == nb + ws_end(cs2, 0)
            } else {
                p.character == nb
            }
        })
    }
}

/// Whether the previous-word motion finds a target on the cursor's own
/// line: some non-whitespace character stands before the cursor.
pub open spec fn prev_word_on_line(b: Buffer) -> bool {
    let i0 = b.current_position.character - b.numbar_space;
    let cs = line_chars_of(b, b.current_position.line as int);
    i0 > 0 && cs.len() > 0 && !is_whitespace_char(
        cs[ws_back(cs, if i0 - 1 < cs.len() { i0 - 1 } else { cs.len() - 1 })],
    )
}

/// Whether a previous-word motion has anywhere to go.
pub open spec fn has_prev_word(b: Buffer) -> bool {
    prev_word_on_line(b) || b.current_position.line >= 1
}

/// Exactly where the previous-word motion lands: the start of the class
/// run just before the cursor (whitespace skipped first), else the last
/// word of the preceding line (its start for an empty or all-blank line).
pub open spec fn prev_word_target(b: Buffer, p: BufferPosition) -> bool {
    let nb = b.numbar_space as int;
    let line = b.current_position.line as int;
    let i0 = b.current_position.character - nb;
    let cs = line_chars_of(b, line);
    &&& valid_position(b, p)
    &&& if prev_word_on_line(b) {
        let p1 = ws_back(cs, if i0 - 1 < cs.len() {
            i0 - 1
        } else {
            cs.len() - 1
        });
        p.line == line && p.character == nb + word_start_pos(cs, p1)
    } else {
        &&& p.line == line - 1
        &&& ({
            let cs2 = line_chars_of(b, line - 1);
            if cs2.len() == 0 {
                p.character == nb
            } else if !is_whitespace_char(cs2[ws_back(cs2, cs2.len() - 1)]) {
                p.character == nb + word_start_pos(cs2, ws_back(cs2, cs2.len() - 1))
            } else {
                p.character == nb
            }
        })
    }
}

/// The index where the end-of-word motion lands on the cursor's own line,
/// or -1: the current word's last character, the next word's when already
/// at one, the first word's after whitespace.
pub open spec fn end_word_on_line(b: Buffer) -> int {
    let i0 = b.current_position.character - b.numbar_space;
    let cs = line_chars_of(b, b.current_position.line as int);
    if i0 >= cs.len() {
        -1
    } else if is_whitespace_char(cs[i0]) {
        word_end_from(cs, i0)
    } else if i0 + 1 >= cs.len() || char_type_of(cs[i0 + 1]) != char_type_of(cs[i0]) {
        word_end_from(cs, i0 + 1)
    } else {
        run_end_from(cs, i0, char_type_of(cs[i0])) - 1
    }
}

/// Whether line `l` offers an end-of-word target at all.
pub open spec fn line_has_word(b: Buffer, l: int) -> bool {
    line_chars_of(b, l).len() > 0 && word_end_from(line_chars_of(b, l), 0) >= 0
}

/// Whether an end-of-word motion has anywhere to go.
pub open spec fn has_end_word(b: Buffer) -> bool {
    end_word_on_line(b) >= 0 || exists|l: int|
        b.current_position.line < l < b.file_lines@.len() && #[trigger] line_has_word(b, l)
}

/// Exactly where the end-of-word motion lands: on the cursor's line where
/// one exists, else the first word's end on the nearest later line that
/// has one.
pub open spec fn end_word_target(b: Buffer, p: BufferPosition) -> bool {
    let nb = b.numbar_space as int;
    let line = b.current_position.line as int;
    &&& valid_position(b, p)
    &&& if end_word_on_line(b) >= 0 {
        p.line == line && p.character == nb + end_word_on_line(b)
    } else {
        &&& line < p.line < b.file_lines@.len()
        &&& line_has_word(b, p.line as int)
        &&& forall|q: int| line < q < p.line ==> !(#[trigger] line_has_word(b, q))
        &&& p.character == nb + word_end_from(line_chars_of(b, p.line as int), 0)
    }
}

impl Buffer {
    /// Move to the start of the line, just past the number bar.
    pub fn move_cursor_start_line(&mut self)
        requires
            old(self).wf(),
        ensures
            final(self).wf(),
            *final(self) == (Buffer {
                current_position: BufferPosition {
                    line: old(self).current_position.line,
                    character: old(self).numbar_space,
                },
                ..*old(self)
            }),
    {
        self.current_position.character = self.numbar_space;
    }

    /// Move one past the last character of the line.
    pub fn move_cursor_end_line(&mut self)
        requires
            old(self).wf(),
        ensures
            final(self).wf(),
            *final(self) == (Buffer {
                current_position: BufferPosition {
                    line: old(self).current_position.line,
                    character: (old(self).numbar_space + old(self).cur_line_len()) as usize,
                },
                ..*old(self)
            }),
    {
        let line = self.current_position.line;
        self.current_position.character = self.file_lines[line].content.as_str().unicode_len()
            + self.numbar_space;
    }

    /// Scroll the window and the cursor up by `lines`, stopping at the
    /// top; the cursor is clamped into its new line.
    pub fn scroll_up(&mut self, lines: usize)
        requires
            old(self).wf(),
        ensures
            final(self).wf(),
            *final(self) == (Buffer {
                current_position: final(self).current_position,
                vertical_scroll: final(self).vertical_scroll,
                horizontal_scroll: final(self).horizontal_scroll,
                ..*old(self)
            }),
            final(self).vertical_scroll == if old(self).vertical_scroll >= lines {
                old(self).vertical_scroll - lines
            } else {
                0int
            },
            final(self).current_position.line == if old(self).current_position.line >= lines {
                old(self).current_position.line - lines
            } else {
                0int
            },
            final(self).current_position.character as int == ({
                let ll = final(self).cur_line_len();
                if ll < old(self).current_position.character - old(self).numbar_space {
                    ll + old(self).numbar_space
                } else {
                    old(self).current_position.character as int
                }
            }),
            final(self).file_lines == old(self).file_lines,
            final(self).numbar_space == old(self).numbar_space,
            final(self).horizontal_scroll == old(self).horizontal_scroll,
    {
        self.vertical_scroll = if self.vertical_scroll >= lines {
            self.vertical_scroll - lines
        } else {
            0
        };
        self.current_position.line = if self.current_position.line >= lines {
            self.current_position.line - lines
        } else {
            0
        };
        let line = self.current_position.line;
        let ll = self.file_lines[line].content.as_str().unicode_len();
        if ll < self.current_position.character - self.numbar_space {
            self.current_position.character = ll + self.numbar_space;
        }
    }

    /// Scroll the window and the cursor down by `lines`, stopping at the
    /// last line; the cursor is clamped into its new line.
    pub fn scroll_down(&mut self, lines: usize)
        requires
            old(self).wf(),
            lines <= DIM_LIMIT,
        ensures
            final(self).wf(),
            *final(self) == (Buffer {
                current_position: final(self).current_position,
                vertical_scroll: final(self).vertical_scroll,
                horizontal_scroll: final(self).horizontal_scroll,
                ..*old(self)
            }),
            final(self).vertical_scroll == ({
                let max_scroll = if old(self).file_lines@.len() >= old(self).viewport_height {
                    old(self).file_lines@.len() - old(self).viewport_height
                } else {
                    0int
                };
                if old(self).vertical_scroll + lines <= max_scroll {
                    old(self).vertical_scroll + lines
                } else {
                    max_scroll
                }
            }),
            final(self).current_position.line == ({
                if old(self).current_position.line + lines >= old(self).file_lines@.len() {
                    old(self).file_lines@.len() - 1
                } else {
                    old(self).current_position.line + lines
                }
            }),
            final(self).current_position.character as int == ({
                let ll = final(self).cur_line_len();
                if ll < old(self).current_position.character - old(self).numbar_space {
                    ll + old(self).numbar_space
                } else {
                    old(self).current_position.character as int
                }
            }),
            final(self).file_lines == old(self).file_lines,
            final(self).numbar_space == old(self).numbar_space,
            final(self).horizontal_scroll == old(self).horizontal_scroll,
    {
        let max_scroll = if self.file_lines.len() >= self.viewport_height {
            self.file_lines.len() - self.viewport_height
        } else {
            0
        };
        let target = self.vertical_scroll + lines;
        self.vertical_scroll = if target <= max_scroll {
            target
        } else {
            max_scroll
        };
        self.current_position.line = if self.current_position.line + lines
            >= self.file_lines.len() {
            self.file_lines.len() - 1
        } else {
            self.current_position.line + lines
        };
        let line = self.current_position.line;
        let ll = self.file_lines[line].content.as_str().unicode_len();
        if ll < self.current_position.character - self.numbar_space {
            self.current_position.character = ll + self.numbar_space;
        }
    }

    /// One step left, stopping at the number bar; the viewport follows.
    pub fn move_cursor_left(&mut self)
        requires
            old(self).wf(),
        ensures
            final(self).wf(),
            *final(self) == (Buffer {
                current_position: final(self).current_position,
                vertical_scroll: final(self).vertical_scroll,
                horizontal_scroll: final(self).horizontal_scroll,
                ..*old(self)
            }),
            final(self).cursor_visible(),
            final(self).current_position.line == old(self).current_position.line,
            final(self).current_position.character == if old(self).current_position.character
                > old(self).numbar_space {
                old(self).current_position.character - 1
            } else {
                old(self).current_position.character as int
            },
            final(self).file_lines == old(self).file_lines,
    {
        if self.current_position.character > self.numbar_space {
            self.current_position.character = self.current_position.character - 1;
        }
        self.ensure_cursor_visible();
    }

    /// One step right, stopping one past the line's end; the viewport
    /// follows.
    pub fn move_cursor_right(&mut self)
        requires
            old(self).wf(),
        ensures
            final(self).wf(),
            *final(self) == (Buffer {
                current_position: final(self).current_position,
                vertical_scroll: final(self).vertical_scroll,
                horizontal_scroll: final(self).horizontal_scroll,
                ..*old(self)
            }),
            final(self).cursor_visible(),
            final(self).current_position.line == old(self).current_position.line,
            final(self).current_position.character as int == if (old(
                self,
            ).current_position.character as int) < old(self).cur_line_len() + old(
                self,
            ).numbar_space {
                old(self).current_position.character + 1
            } else {
                old(self).current_position.character as int
            },
            final(self).file_lines == old(self).file_lines,
    {
        let line = self.current_position.line;
        let line_len = self.file_lines[line].content.as_str().unicode_len();
        let max_cursor_pos = line_len + self.numbar_space;
        if self.current_position.character < max_cursor_pos {
            self.current_position.character = self.current_position.character + 1;
        }
        self.ensure_cursor_visible();
    }

    /// One line down, stopping at the last line; the cursor is clamped
    /// into the new line, and to the number bar when it is empty.
    pub fn move_cursor_down(&mut self)
        requires
            old(self).wf(),
        ensures
            final(self).wf(),
            *final(self) == (Buffer {
                current_position: final(self).current_position,
                vertical_scroll: final(self).vertical_scroll,
                horizontal_scroll: final(self).horizontal_scroll,
                ..*old(self)
            }),
            final(self).cursor_visible(),
            final(self).current_position.line == if (old(self).current_position.line as int)
                >= old(self).file_lines@.len() - 1 {
                old(self).file_lines@.len() - 1
            } else {
                old(self).current_position.line + 1
            },
            final(self).current_position.character as int == ({
                let ll = final(self).cur_line_len();
                if ll == 0 {
                    final(self).numbar_space as int
                } else if old(self).current_position.character > ll + final(self).numbar_space {
                    ll + final(self).numbar_space - 1
                } else {
                    old(self).current_position.character as int
                }
            }),
            final(self).file_lines == old(self).file_lines,
            final(self).numbar_space == old(self).numbar_space,
    {
        self.current_position.line = if self.current_position.line >= self.file_lines.len() - 1 {
            self.file_lines.len() - 1
        } else {
            self.current_position.line + 1
        };
        let line = self.current_position.line;
        let ll = self.file_lines[line].content.as_str().unicode_len();
        if ll == 0 {
            self.current_position.character = self.numbar_space;
        } else if self.current_position.character > ll + self.numbar_space {
            self.current_position.character = ll + self.numbar_space - 1;
        }
        self.ensure_cursor_visible();
    }

    /// One line up, stopping at the first line; the cursor is clamped into
    /// the new line, and to the number bar when it is empty.
    pub fn move_cursor_up(&mut self)
        requires
            old(self).wf(),
        ensures
            final(self).wf(),
            *final(self) == (Buffer {
                current_position: final(self).current_position,
                vertical_scroll: final(self).vertical_scroll,
                horizontal_scroll: final(self).horizontal_scroll,
                ..*old(self)
            }),
            final(self).cursor_visible(),
            final(self).current_position.line == if old(self).current_position.line >= 1 {
                old(self).current_position.line - 1
            } else {
                0int
            },
            final(self).current_position.character as int == ({
                let ll = final(self).cur_line_len();
                if ll == 0 {
                    final(self).numbar_space as int
                } else if old(self).current_position.character > ll + final(self).numbar_space {
                    ll + final(self).numbar_space - 1
                } else {
                    old(self).current_position.character as int
                }
            }),
            final(self).file_lines == old(self).file_lines,
            final(self).numbar_space == old(self).numbar_space,
    {
        self.current_position.line = if self.current_position.line >= 1 {
            self.current_position.line - 1
        } else {
            0
        };
        let line = self.current_position.line;
        let ll = self.file_lines[line].content.as_str().unicode_len();
        if ll == 0 {
            self.current_position.character = self.numbar_space;
        } else if self.current_position.character > ll + self.numbar_space {
            self.current_position.character = ll + self.numbar_space - 1;
        }
        self.ensure_cursor_visible();
    }

    /// The characters of line `line_idx`, or None when no such line
    /// exists.
    pub fn get_line_chars(&self, line_idx: usize) -> (r: Option<Vec<char>>)
        requires
            self.wf(),
        ensures
            match r {
                Some(cs) => (line_idx as int) < self.file_lines@.len() && cs@
                    == self.file_lines@[line_idx as int].content@,
                None => (line_idx as int) >= self.file_lines@.len(),
            },
    {
        if line_idx >= self.file_lines.len() {
            return None;
        }
        let s = self.file_lines[line_idx].content.as_str();
        let n = s.unicode_len();
        let mut cs: Vec<char> = Vec::new();
        let mut i: usize = 0;
        while i < n
            invariant
                n == s@.len(),
                i <= n,
                cs@ == s@.subrange(0, i as int),
            decreases n - i,
        {
            let c = s.get_char(i);
            cs.push(c);
            proof {
                assert(cs@ =~= s@.subrange(0, i + 1));
            }
            i = i + 1;
        }
        proof {
            assert(cs@ =~= s@);
        }
        Some(cs)
    }

    /// The first index at or after `pos` holding a non-whitespace
    /// character, or the end.
    pub fn skip_whitespace_forward(&self, chars: &Vec<char>, pos: usize) -> (r: usize)
        requires
            pos <= chars@.len(),
        ensures
            pos <= r <= chars@.len(),
            r as int == ws_end(chars@, pos as int),
            forall|k: int| pos <= k < r ==> is_whitespace_char(#[trigger] chars@[k]),
            r < chars@.len() ==> !is_whitespace_char(chars@[r as int]),
    {
        let mut p = pos;
        while p < chars.len() && crate::text::char_is_whitespace(chars[p])
            invariant
                pos <= p <= chars@.len(),
                ws_end(chars@, p as int) == ws_end(chars@, pos as int),
                forall|k: int| pos <= k < p ==> is_whitespace_char(#[trigger] chars@[k]),
            decreases chars@.len() - p,
        {
            p = p + 1;
        }
        p
    }

    /// Step back over whitespace from `pos`, stopping at the first
    /// non-whitespace character or at the line's start.
    pub fn skip_whitespace_backward(&self, chars: &Vec<char>, pos: usize) -> (r: usize)
        requires
            pos < chars@.len(),
        ensures
            r <= pos,
            r as int == ws_back(chars@, pos as int),
            forall|k: int| r < k <= pos ==> is_whitespace_char(#[trigger] chars@[k]),
            r == 0 || !is_whitespace_char(chars@[r as int]),
    {
        let mut p = pos;
        while p > 0 && crate::text::char_is_whitespace(chars[p])
            invariant
                p <= pos < chars@.len(),
                ws_back(chars@, p as int) == ws_back(chars@, pos as int),
                forall|k: int| p < k <= pos ==> is_whitespace_char(#[trigger] chars@[k]),
            decreases p,
        {
            p = p - 1;
        }
        p
    }

    /// The last index of the run of same-class characters that starts at
    /// `start`, or None when `start` is past the end or on whitespace.
    pub fn find_word_end(&self, chars: &Vec<char>, start: usize) -> (r: Option<usize>)
        ensures
            match r {
                Some(e) => start <= e < chars@.len() && char_type_of(chars@[start as int])
                    != (CharType::Whitespace) && e as int == run_end_from(
                    chars@,
                    start as int,
                    char_type_of(chars@[start as int]),
                ) - 1 && (forall|k: int|
                    start <= k <= e ==> char_type_of(#[trigger] chars@[k]) == char_type_of(
                        chars@[start as int],
                    )) && (e + 1 == chars@.len() || char_type_of(chars@[e + 1])
                    != char_type_of(chars@[start as int])),
                None => start >= chars@.len() || char_type_of(chars@[start as int]) == (
                CharType::Whitespace),
            },
    {
        if start >= chars.len() {
            return None;
        }
        let char_type = CharType::from_char(chars[start]);
        if char_type == CharType::Whitespace {
            return None;
        }
        let mut pos = start;
        while pos < chars.len() && CharType::from_char(chars[pos]) == char_type
            invariant
                start <= pos <= chars@.len(),
                char_type == char_type_of(chars@[start as int]),
                run_end_from(chars@, pos as int, char_type) == run_end_from(
                    chars@,
                    start as int,
                    char_type,
                ),
                forall|k: int|
                    start <= k < pos ==> char_type_of(#[trigger] chars@[k]) == char_type,
            decreases chars@.len() - pos,
        {
            pos = pos + 1;
        }
        Some(pos - 1)
    }

    /// The first index of the run of same-class characters that ends at
    /// `start`, or None when `start` is past the end or on whitespace.
    pub fn find_word_start(&self, chars: &Vec<char>, start: usize) -> (r: Option<usize>)
        ensures
            match r {
                Some(s0) => s0 <= start < chars@.len() && char_type_of(chars@[start as int])
                    != (CharType::Whitespace) && s0 as int == word_start_pos(
                    chars@,
                    start as int,
                ) && (forall|k: int|
                    s0 <= k <= start ==> char_type_of(#[trigger] chars@[k]) == char_type_of(
                        chars@[start as int],
                    )) && (s0 == 0 || char_type_of(chars@[s0 - 1]) != char_type_of(
                    chars@[start as int],
                )),
                None => start >= chars@.len() || char_type_of(chars@[start as int]) == (
                CharType::Whitespace),
            },
    {
        if start >= chars.len() {
            return None;
        }
        let char_type = CharType::from_char(chars[start]);
        if char_type == CharType::Whitespace {
            return None;
        }
        let mut pos = start;
        while pos > 0 && CharType::from_char(chars[pos]) == char_type
            invariant
                pos <= start < chars@.len(),
                char_type == char_type_of(chars@[start as int]),
                back_scan(chars@, pos as int, char_type) == back_scan(
                    chars@,
                    start as int,
                    char_type,
                ),
                forall|k: int|
                    pos < k <= start ==> char_type_of(#[trigger] chars@[k]) == char_type,
                pos < chars@.len(),
            decreases pos,
        {
            pos = pos - 1;
        }
        if CharType::from_char(chars[pos]) == char_type {
            Some(pos)
        } else {
            Some(pos + 1)
        }
    }

    /// Whether `pos` sits on the last character of a word or punctuation
    /// run.
    pub fn is_at_word_end(&self, chars: &Vec<char>, pos: usize) -> (r: bool)
        ensures
            r == (pos < chars@.len() && char_type_of(chars@[pos as int]) != (
            CharType::Whitespace) && (pos + 1 >= chars@.len() || char_type_of(chars@[pos + 1])
                != char_type_of(chars@[pos as int]))),
    {
        if pos >= chars.len() {
            return false;
        }
        let current_type = CharType::from_char(chars[pos]);
        if current_type == CharType::Whitespace {
            return false;
        }
        pos + 1 >= chars.len() || CharType::from_char(chars[pos + 1]) != current_type
    }

    /// The start of the next word after the cursor: on the cursor's line
    /// past the current run and any whitespace, else the first word (or
    /// the start) of the following line.
    #[verifier::loop_isolation(false)]
    pub fn get_next_word(&self) -> (r: Option<BufferPosition>)
        requires
            self.wf(),
        ensures
            match r {
                Some(p) => next_word_target(*self, p),
                None => !has_next_word(*self),
            },
    {
        let line_idx = self.current_position.line;
        let char_idx = self.current_position.character - self.numbar_space;
        match self.get_line_chars(line_idx) {
            None => {},
            Some(chars) => {
                if char_idx < chars.len() {
                    let current_type = CharType::from_char(chars[char_idx]);
                    let mut pos = char_idx;
                    if current_type != CharType::Whitespace {
                        while pos < chars.len() && CharType::from_char(chars[pos]) == current_type
                            invariant
                                char_idx <= pos <= chars@.len(),
                                current_type == char_type_of(chars@[char_idx as int]),
                                run_end_from(chars@, pos as int, current_type) == run_end_from(
                                    chars@,
                                    char_idx as int,
                                    current_type,
                                ),
                            decreases chars@.len() - pos,
                        {
                            pos = pos + 1;
                        }
                        proof {
                            assert(pos as int == run_end_from(
                                chars@,
                                char_idx as int,
                                current_type,
                            ));
                        }
                    }
                    pos = self.skip_whitespace_forward(&chars, pos);
                    proof {
                        assert(pos as int == next_word_from(chars@, char_idx as int));
                    }
                    if pos < chars.len() {
                        return Some(
                            BufferPosition { line: line_idx, character: pos + self.numbar_space },
                        );
                    }
                }
            },
        }
        proof {
            assert(!next_word_on_line(*self));
        }
        // Look on the following line.
        let mut next_line_idx = line_idx + 1;
        while next_line_idx < self.file_lines.len()
            invariant
                self.wf(),
                next_line_idx == line_idx + 1,
            decreases self.file_lines@.len() - next_line_idx,
        {
            match self.get_line_chars(next_line_idx) {
                None => {},
                Some(chars) => {
                    if chars.len() == 0 {
                        return Some(
                            BufferPosition {
                                line: next_line_idx,
                                character: self.numbar_space,
                            },
                        );
                    }
                    let pos = self.skip_whitespace_forward(&chars, 0);
                    if pos < chars.len() {
                        return Some(
                            BufferPosition {
                                line: next_line_idx,
                                character: pos + self.numbar_space,
                            },
                        );
                    }
                    // Only whitespace: stop at the line's start.
                    return Some(
                        BufferPosition { line: next_line_idx, character: self.numbar_space },
                    );
                },
            }
            next_line_idx = next_line_idx + 1;
        }
        None
    }

    /// The start of the word before the cursor: backwards over whitespace
    /// to the previous run's start, else the last word (or the start) of
    /// the preceding line.
    #[verifier::loop_isolation(false)]
    pub fn get_previous_word(&self) -> (r: Option<BufferPosition>)
        requires
            self.wf(),
        ensures
            match r {
                Some(p) => prev_word_target(*self, p),
                None => !has_prev_word(*self),
            },
    {
        let line_idx = self.current_position.line;
        let char_idx = self.current_position.character - self.numbar_space;
        match self.get_line_chars(line_idx) {
            None => {},
            Some(chars) => {
                if char_idx > 0 && chars.len() > 0 {
                    let start = if char_idx - 1 < chars.len() {
                        char_idx - 1
                    } else {
                        chars.len() - 1
                    };
                    let pos = self.skip_whitespace_backward(&chars, start);
                    if !crate::text::char_is_whitespace(chars[pos]) {
                        match self.find_word_start(&chars, pos) {
                            Some(word_start) => {
                                if word_start < char_idx {
                                    return Some(
                                        BufferPosition {
                                            line: line_idx,
                                            character: word_start + self.numbar_space,
                                        },
                                    );
                                }
                            },
                            None => {},
                        }
                    }
                }
            },
        }
        proof {
            assert(!prev_word_on_line(*self));
        }
        // Look on the preceding line.
        let mut prev = line_idx;
        while prev > 0
            invariant
                self.wf(),
                prev == line_idx,
            decreases prev,
        {
            let prev_line_idx = prev - 1;
            match self.get_line_chars(prev_line_idx) {
                None => {},
                Some(chars) => {
                    if chars.len() == 0 {
                        return Some(
                            BufferPosition {
                                line: prev_line_idx,
                                character: self.numbar_space,
                            },
                        );
                    }
                    let pos = self.skip_whitespace_backward(&chars, chars.len() - 1);
                    if !crate::text::char_is_whitespace(chars[pos]) {
                        match self.find_word_start(&chars, pos) {
                            Some(word_start) => {
                                return Some(
                                    BufferPosition {
                                        line: prev_line_idx,
                                        character: word_start + self.numbar_space,
                                    },
                                );
                            },
                            None => {},
                        }
                    }
                    // Only whitespace: stop at the line's start.
                    return Some(
                        BufferPosition { line: prev_line_idx, character: self.numbar_space },
                    );
                },
            }
            prev = prev - 1;
        }
        None
    }

    /// The end of the word at or after the cursor: the current word's end,
    /// the next word's end when already at one, else the first word's end
    /// on a following line.
    #[verifier::loop_isolation(false)]
    pub fn get_end_of_word(&self) -> (r: Option<BufferPosition>)
        requires
            self.wf(),
        ensures
            match r {
                Some(p) => end_word_target(*self, p),
                None => !has_end_word(*self),
            },
    {
        let line_idx = self.current_position.line;
        let char_idx = self.current_position.character - self.numbar_space;
        match self.get_line_chars(line_idx) {
            None => {},
            Some(chars) => {
                if char_idx < chars.len() {
                    let current_type = CharType::from_char(chars[char_idx]);
                    if current_type == CharType::Whitespace {
                        let pos = self.skip_whitespace_forward(&chars, char_idx);
                        match self.find_word_end(&chars, pos) {
                            Some(word_end) => {
                                return Some(
                                    BufferPosition {
                                        line: line_idx,
                                        character: word_end + self.numbar_space,
                                    },
                                );
                            },
                            None => {},
                        }
                    } else if self.is_at_word_end(&chars, char_idx) {
                        let pos = self.skip_whitespace_forward(&chars, char_idx + 1);
                        match self.find_word_end(&chars, pos) {
                            Some(word_end) => {
                                return Some(
                                    BufferPosition {
                                        line: line_idx,
                                        character: word_end + self.numbar_space,
                                    },
                                );
                            },
                            None => {},
                        }
                    } else {
                        match self.find_word_end(&chars, char_idx) {
                            Some(word_end) => {
                                return Some(
                                    BufferPosition {
                                        line: line_idx,
                                        character: word_end + self.numbar_space,
                                    },
                                );
                            },
                            None => {},
                        }
                    }
                }
            },
        }
        proof {
            assert(end_word_on_line(*self) < 0);
        }
        // Look on the following lines, past any that hold no word.
        let mut next_line_idx = line_idx + 1;
        while next_line_idx < self.file_lines.len()
            invariant
                self.wf(),
                line_idx < next_line_idx <= self.file_lines@.len(),
                forall|q: int|
                    line_idx < q < next_line_idx ==> !(#[trigger] line_has_word(*self, q)),
            decreases self.file_lines@.len() - next_line_idx,
        {
            match self.get_line_chars(next_line_idx) {
                None => {},
                Some(chars) => {
                    if chars.len() > 0 {
                        let pos = self.skip_whitespace_forward(&chars, 0);
                        match self.find_word_end(&chars, pos) {
                            Some(word_end) => {
                                proof {
                                    assert(line_has_word(*self, next_line_idx as int));
                                }
                                return Some(
                                    BufferPosition {
                                        line: next_line_idx,
                                        character: word_end + self.numbar_space,
                                    },
                                );
                            },
                            None => {},
                        }
                    }
                    proof {
                        assert(!line_has_word(*self, next_line_idx as int));
                    }
                },
            }
            next_line_idx = next_line_idx + 1;
        }
        None
    }

    /// Move to the start of the next word: past the current run and any
    /// whitespace, onto the following line when the cursor's line has no
    /// further word; no move when none exists.  The viewport follows.
    pub fn move_to_next_word(&mut self)
        requires
            old(self).wf(),
        ensures
            final(self).wf(),
            *final(self) == (Buffer {
                current_position: final(self).current_position,
                vertical_scroll: final(self).vertical_scroll,
                horizontal_scroll: final(self).horizontal_scroll,
                ..*old(self)
            }),
            if has_next_word(*old(self)) {
                &&& next_word_target(*old(self), final(self).current_position)
                &&& final(self).cursor_visible()
            } else {
                *final(self) == *old(self)
            },
    {
        match self.get_next_word() {
            Some(position) => {
                self.current_position = position;
                self.ensure_cursor_visible();
            },
            None => {},
        }
    }

    /// Move to the start of the word before the cursor, onto the
    /// preceding line when nothing stands before it on its own; no move
    /// when none exists.  The viewport follows.
    pub fn move_to_previous_word(&mut self)
        requires
            old(self).wf(),
        ensures
            final(self).wf(),
            *final(self) == (Buffer {
                current_position: final(self).current_position,
                vertical_scroll: final(self).vertical_scroll,
                horizontal_scroll: final(self).horizontal_scroll,
                ..*old(self)
            }),
            if has_prev_word(*old(self)) {
                &&& prev_word_target(*old(self), final(self).current_position)
                &&& final(self).cursor_visible()
            } else {
                *final(self) == *old(self)
            },
    {
        match self.get_previous_word() {
            Some(position) => {
                self.current_position = position;
                self.ensure_cursor_visible();
            },
            None => {},
        }
    }

    /// Move to the end of the word under or after the cursor, scanning
    /// later lines past any that hold no word; no move when none exists.
    /// The viewport follows.
    pub fn move_to_end_of_word(&mut self)
        requires
            old(self).wf(),
        ensures
            final(self).wf(),
            *final(self) == (Buffer {
                current_position: final(self).current_position,
                vertical_scroll: final(self).vertical_scroll,
                horizontal_scroll: final(self).horizontal_scroll,
                ..*old(self)
            }),
            if has_end_word(*old(self)) {
                &&& end_word_target(*old(self), final(self).current_position)
                &&& final(self).cursor_visible()
            } else {
                *final(self) == *old(self)
            },
    {
        match self.get_end_of_word() {
            Some(position) => {
                self.current_position = position;
                self.ensure_cursor_visible();
            },
            None => {},
        }
    }

    /// Open an empty line below the cursor and move onto it; the number
    /// bar is recomputed and the viewport follows.
    pub fn insert_line_below(&mut self)
        requires
            old(self).wf(),
            old(self).file_lines@.len() < DIM_LIMIT,
        ensures
            final(self).wf(),
            final(self).file_lines@.len() == old(self).file_lines@.len() + 1,
            final(self).file_lines@ == old(self).file_lines@.insert(
                old(self).current_position.line + 1,
                final(self).file_lines@[old(self).current_position.line + 1],
            ),
            final(self).file_lines@[old(self).current_position.line + 1].content@
                == Seq::<char>::empty(),
            final(self).current_position.line == old(self).current_position.line + 1,
            final(self).current_position.character == final(self).numbar_space,
            final(self).numbar_space as int == crate::json::dec_digits(
                old(self).file_lines@.len() as int + 1,
            ).len() + 1,
            *final(self) == (Buffer {
                file_lines: final(self).file_lines,
                current_position: final(self).current_position,
                numbar_space: final(self).numbar_space,
                vertical_scroll: final(self).vertical_scroll,
                horizontal_scroll: final(self).horizontal_scroll,
                ..*old(self)
            }),
    {
        let at = self.current_position.line + 1;
        self.file_lines.insert(at, crate::buffer::types::FileLine {
            content: String::new(),
            length: 0,
        });
        self.update_numbar_space();
        self.current_position.line = at;
        self.current_position.character = self.numbar_space;
        self.ensure_cursor_visible();
    }
}

} // verus!
