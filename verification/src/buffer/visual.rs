//! The visual-mode selection: materializing the selected text, whichever
//! way the selection runs.

use vstd::prelude::*;

use crate::buffer::base::Buffer;
use crate::buffer::types::{FileLine, Selection};

verus! {

/// The contents of lines `lo .. hi`, each followed by its line feed.
pub open spec fn cat_lines(ls: Seq<FileLine>, lo: int, hi: int) -> Seq<char>
    decreases hi - lo,
{
    if lo >= hi {
        Seq::empty()
    } else {
        ls[lo].content@ + seq!['\n'] + cat_lines(ls, lo + 1, hi)
    }
}

proof fn lemma_cat_snoc(ls: Seq<FileLine>, lo: int, i: int)
    requires
        lo <= i,
    ensures
        cat_lines(ls, lo, i + 1) == cat_lines(ls, lo, i) + ls[i].content@ + seq!['\n'],
    decreases i - lo,
{
    if lo == i {
        assert(cat_lines(ls, lo, i) + ls[i].content@ + seq!['\n'] =~= ls[i].content@
            + seq!['\n'] + cat_lines(ls, i + 1, i + 1));
    } else {
        lemma_cat_snoc(ls, lo + 1, i);
        assert(cat_lines(ls, lo, i + 1) =~= cat_lines(ls, lo, i) + ls[i].content@
            + seq!['\n']);
    }
}

/// Both ends of a selection name a position the buffer actually has.
pub open spec fn sel_valid(b: Buffer, sel: Selection) -> bool {
    &&& (sel.start.line as int) < b.file_lines@.len()
    &&& b.numbar_space <= sel.start.character
    &&& sel.start.character as int <= b.numbar_space + b.file_lines@[sel.start.line as int].content@.len()
    &&& (sel.end.line as int) < b.file_lines@.len()
    &&& b.numbar_space <= sel.end.character
    &&& sel.end.character as int <= b.numbar_space + b.file_lines@[sel.end.line as int].content@.len()
}

/// The text a selection covers: within one line the span between its ends
/// (whichever order they are in); across lines, the tail of the first
/// line, the whole lines between, and the head of the last, every line
/// break kept, with the ends swapped when the selection ran backwards.
pub open spec fn selection_text(b: Buffer, sel: Selection) -> Seq<char> {
    let nb = b.numbar_space as int;
    let ls = b.file_lines@;
    if sel.start.line == sel.end.line {
        let s = ls[sel.start.line as int].content@;
        if sel.start.character >= sel.end.character {
            s.subrange(sel.end.character - nb, sel.start.character - nb)
        } else {
            s.subrange(sel.start.character - nb, sel.end.character - nb)
        }
    } else if sel.start.line < sel.end.line {
        let first = ls[sel.start.line as int].content@;
        let last = ls[sel.end.line as int].content@;
        first.subrange(sel.start.character - nb, first.len() as int) + seq!['\n'] + cat_lines(
            ls,
            sel.start.line + 1,
            sel.end.line as int,
        ) + last.subrange(0, sel.end.character - nb)
    } else {
        let first = ls[sel.end.line as int].content@;
        let last = ls[sel.start.line as int].content@;
        first.subrange(sel.end.character - nb, first.len() as int) + seq!['\n'] + cat_lines(
            ls,
            sel.end.line + 1,
            sel.start.line as int,
        ) + last.subrange(0, sel.start.character - nb)
    }
}

impl Buffer {
    /// Refresh the cached selected text from the selection, or clear it
    /// when nothing is selected.
    #[verifier::loop_isolation(false)]
    pub fn update_selected_string(&mut self)
        requires
            old(self).wf(),
            match old(self).selection {
                Some(sel) => sel_valid(*old(self), sel),
                None => true,
            },
        ensures
            final(self).wf(),
            *final(self) == (Buffer { selected_string: final(self).selected_string, ..*old(self) }),
            match old(self).selection {
                Some(sel) => final(self).selected_string is Some && final(self).selected_string->0@ == selection_text(*old(self), sel),
                None => final(self).selected_string is None,
            },
    {
        let nb = self.numbar_space;
        let (s_line, s_char, e_line, e_char) = match &self.selection {
            None => {
                self.selected_string = None;
                return ;
            },
            Some(sel) => (sel.start.line, sel.start.character, sel.end.line, sel.end.character),
        };
        if s_line == e_line {
            let content = self.file_lines[s_line].content.as_str();
            let n = content.unicode_len();
            let piece = if s_char >= e_char {
                content.substring_char(e_char - nb, s_char - nb)
            } else {
                content.substring_char(s_char - nb, e_char - nb)
            };
            self.selected_string = Some(String::from_str(piece));
            return ;
        }
        let (top_line, top_char, bot_line, bot_char) = if s_line < e_line {
            (s_line, s_char, e_line, e_char)
        } else {
            (e_line, e_char, s_line, s_char)
        };
        let first = self.file_lines[top_line].content.as_str();
        let fn_len = first.unicode_len();
        let mut out = String::from_str(first.substring_char(top_char - nb, fn_len));
        crate::text::push_char(&mut out, '\n');
        proof {
            assert(out@ =~= self.file_lines@[top_line as int].content@.subrange(
                top_char - nb,
                self.file_lines@[top_line as int].content@.len() as int,
            ) + seq!['\n'] + cat_lines(self.file_lines@, top_line + 1, top_line + 1));
        }
        let mut i: usize = top_line + 1;
        while i < bot_line
            invariant
                top_line < i <= bot_line,
                out@ == self.file_lines@[top_line as int].content@.subrange(
                    top_char - nb,
                    self.file_lines@[top_line as int].content@.len() as int,
                ) + seq!['\n'] + cat_lines(self.file_lines@, top_line + 1, i as int),
            decreases bot_line - i,
        {
            proof {
                lemma_cat_snoc(self.file_lines@, top_line + 1, i as int);
            }
            let piece = self.file_lines[i].content.as_str();
            out.append(piece);
            crate::text::push_char(&mut out, '\n');
            i = i + 1;
        }
        let last = self.file_lines[bot_line].content.as_str();
        out.append(last.substring_char(0, bot_char - nb));
        self.selected_string = Some(out);
    }
}

} // verus!
