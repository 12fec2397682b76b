//! The viewport: keeping the cursor inside the visible window, and handing
//! the visible lines to the drawing layer.

use vstd::prelude::*;

use crate::buffer::base::Buffer;
use crate::buffer::types::{BufferPosition, FileLine};

verus! {

impl Buffer {
    /// Scroll just far enough that the cursor lies inside the viewport:
    /// each scroll moves only when the cursor left the window, and then to
    /// the nearest position that shows it.
    pub fn ensure_cursor_visible(&mut self)
        requires
            old(self).wf(),
        ensures
            final(self).wf(),
            final(self).cursor_visible(),
            *final(self) == (Buffer {
                vertical_scroll: final(self).vertical_scroll,
                horizontal_scroll: final(self).horizontal_scroll,
                ..*old(self)
            }),
            final(self).vertical_scroll == ({
                let line = old(self).current_position.line;
                if line < old(self).vertical_scroll {
                    line as int
                } else if line >= old(self).vertical_scroll + old(self).viewport_height {
                    line - old(self).viewport_height + 1
                } else {
                    old(self).vertical_scroll as int
                }
            }),
            final(self).horizontal_scroll == ({
                let ch = old(self).current_position.character;
                let lo = old(self).horizontal_scroll + old(self).numbar_space;
                let hi = old(self).horizontal_scroll + old(self).viewport_width + old(
                    self,
                ).numbar_space;
                if ch < lo {
                    ch - old(self).numbar_space
                } else if ch >= hi {
                    ch - old(self).viewport_width - old(self).numbar_space + 1
                } else {
                    old(self).horizontal_scroll as int
                }
            }),
    {
        let cursor_line = self.current_position.line;
        let viewport_bottom = self.vertical_scroll + self.viewport_height;
        if cursor_line < self.vertical_scroll {
            self.vertical_scroll = cursor_line;
        } else if cursor_line >= viewport_bottom {
            self.vertical_scroll = cursor_line - self.viewport_height + 1;
        }
        let cursor_char = self.current_position.character;
        let viewport_right = self.horizontal_scroll + self.viewport_width + self.numbar_space;
        if cursor_char < self.horizontal_scroll + self.numbar_space {
            self.horizontal_scroll = cursor_char - self.numbar_space;
        } else if cursor_char >= viewport_right {
            self.horizontal_scroll = cursor_char - self.viewport_width - self.numbar_space + 1;
        }
    }

    /// The lines inside the viewport, topmost first: the window of the
    /// document from the vertical scroll down, as many as fit.
    pub fn get_visible_lines(&self) -> (r: Vec<FileLine>)
        requires
            self.wf(),
            self.vertical_scroll <= self.file_lines@.len(),
        ensures
            ({
                let start = self.vertical_scroll as int;
                let end = if self.vertical_scroll + self.viewport_height
                    <= self.file_lines@.len() {
                    self.vertical_scroll + self.viewport_height
                } else {
                    self.file_lines@.len() as int
                };
                &&& r@.len() == end - start
                &&& forall|k: int|
                    0 <= k < r@.len() ==> (#[trigger] r@[k]).content@ == self.file_lines@[start
                        + k].content@ && r@[k].length == self.file_lines@[start + k].length
            }),
    {
        let start = self.vertical_scroll;
        let end = if start + self.viewport_height <= self.file_lines.len() {
            start + self.viewport_height
        } else {
            self.file_lines.len()
        };
        let mut out: Vec<FileLine> = Vec::new();
        let mut i: usize = start;
        while i < end
            invariant
                start <= i <= end <= self.file_lines@.len(),
                out@.len() == i - start,
                forall|k: int|
                    0 <= k < out@.len() ==> (#[trigger] out@[k]).content@ == self.file_lines@[
                    start + k].content@ && out@[k].length == self.file_lines@[start + k].length,
            decreases end - i,
        {
            let l = &self.file_lines[i];
            out.push(FileLine { content: l.content.clone(), length: l.length });
            i = i + 1;
        }
        out
    }

    /// The part of one line that the horizontal scroll leaves visible: an
    /// empty string once the scroll has passed the line's end, otherwise at
    /// most a viewport's width of it.
    pub fn get_visible_line_content(&self, line: &FileLine) -> (r: String)
        requires
            self.wf(),
        ensures
            r@ == ({
                let s = line.content@;
                let start = self.horizontal_scroll as int;
                if start >= s.len() {
                    Seq::<char>::empty()
                } else if start + self.viewport_width <= s.len() {
                    s.subrange(start, start + self.viewport_width)
                } else {
                    s.subrange(start, s.len() as int)
                }
            }),
    {
        let s = line.content.as_str();
        let n = s.unicode_len();
        let start_col = self.horizontal_scroll;
        if start_col >= n {
            let r = String::new();
            proof {
                assert(r@ =~= Seq::<char>::empty());
            }
            return r;
        }
        let end_col = if start_col + self.viewport_width <= n {
            start_col + self.viewport_width
        } else {
            n
        };
        let piece = s.substring_char(start_col, end_col);
        String::from_str(piece)
    }

    /// The cursor's place inside the viewport: its document position less
    /// the scroll offsets.
    pub fn get_viewport_cursor_pos(&self) -> (r: BufferPosition)
        requires
            self.wf(),
            self.vertical_scroll <= self.current_position.line,
        ensures
            r.line == self.current_position.line - self.vertical_scroll,
            r.character as int == if self.current_position.character
                >= self.horizontal_scroll {
                self.current_position.character - self.horizontal_scroll
            } else {
                0
            },
    {
        let character = if self.current_position.character >= self.horizontal_scroll {
            self.current_position.character - self.horizontal_scroll
        } else {
            0
        };
        BufferPosition { line: self.current_position.line - self.vertical_scroll, character }
    }
}

} // verus!
