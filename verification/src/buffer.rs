use vstd::prelude::*;
use crate::wrap::{
    wrap_pos, row_start, next_row_start, up_target, join_lines, lemma_join_lines_snoc_char,
    lemma_join_lines_snoc_line,
};

verus! {

/// The views of a vector of rendered lines, in order.
pub open spec fn views_of_lines(lines: Seq<String>) -> Seq<Seq<char>> {
    lines.map_values(|s: String| s@)
}

/// Relies on String::push, which appends the given character to the
/// end of the string.
#[verifier::external_body]
fn string_push_char(s: &mut String, c: char)
    ensures
        final(s)@ == old(s)@.push(c),
{
    s.push(c)
}

/// An editable buffer of Unicode scalar values with an integrated
/// cursor. The cursor is an offset into the content, counted in
/// scalar values, and after every operation it lies between 0 and the
/// content length inclusive: it marks an insertion point, which may be
/// the end of the buffer.
pub struct TextStore {
    text: Vec<char>,
    cursor_index: usize,
}

impl TextStore {
    /// The stored characters, in order.
    pub closed spec fn content(&self) -> Seq<char> {
        self.text@
    }

    /// The cursor offset, counted in characters.
    pub closed spec fn cursor(&self) -> int {
        self.cursor_index as int
    }

    /// The buffer invariant: the cursor is a valid insertion point.
    pub open spec fn wf(&self) -> bool {
        0 <= self.cursor() <= self.content().len()
    }

    /// An empty buffer with the cursor at offset 0.
    pub fn new() -> (r: Self)
        ensures
            r.content() == Seq::<char>::empty(),
            r.cursor() == 0,
            r.wf(),
    {
        TextStore { text: Vec::new(), cursor_index: 0 }
    }

    /// The number of characters in the buffer.
    pub fn len(&self) -> (n: usize)
        ensures
            n == self.content().len(),
    {
        self.text.len()
    }

    /// The current cursor offset.
    pub fn cursor_offset(&self) -> (i: usize)
        ensures
            i == self.cursor(),
    {
        self.cursor_index
    }

    /// A copy of the stored characters, in order.
    pub fn chars(&self) -> (v: Vec<char>)
        ensures
            v@ == self.content(),
    {
        let mut v: Vec<char> = Vec::new();
        let mut i: usize = 0;
        while i < self.text.len()
            invariant
                i <= self.text@.len(),
                v@ == self.text@.take(i as int),
            decreases self.text@.len() - i,
        {
            v.push(self.text[i]);
            i += 1;
            proof {
                assert(self.text@.take(i as int) =~= self.text@.take(i as int - 1).push(
                    self.text@[i as int - 1],
                ));
            }
        }
        proof {
            assert(self.text@.take(i as int) =~= self.text@);
        }
        v
    }

    /// Inserts `c` at the cursor and advances the cursor past it.
    pub fn push(&mut self, c: char)
        requires
            old(self).wf(),
            old(self).content().len() < usize::MAX,
        ensures
            final(self).content() == old(self).content().insert(old(self).cursor(), c),
            final(self).cursor() == old(self).cursor() + 1,
            final(self).wf(),
    {
        self.text.insert(self.cursor_index, c);
        self.cursor_index = self.cursor_index + 1;
    }

    /// Removes the character immediately before the cursor and moves
    /// the cursor back onto its place; at offset 0 nothing precedes
    /// the cursor and the buffer is left unchanged.
    pub fn pop(&mut self)
        requires
            old(self).wf(),
        ensures
            final(self).content() == if old(self).cursor() == 0 {
                old(self).content()
            } else {
                old(self).content().remove(old(self).cursor() - 1)
            },
            final(self).cursor() == if old(self).cursor() == 0 {
                0int
            } else {
                old(self).cursor() - 1
            },
            final(self).wf(),
    {
        if self.cursor_index == 0 {
            return;
        }
        self.text.remove(self.cursor_index - 1);
        self.cursor_index = self.cursor_index - 1;
    }

    /// Inserts the given characters at the cursor, in order, leaving
    /// the cursor after the last of them.
    pub fn extend(&mut self, cs: &[char])
        requires
            old(self).wf(),
            old(self).content().len() + cs@.len() < usize::MAX,
        ensures
            final(self).content() == old(self).content().subrange(0, old(self).cursor()) + cs@
                + old(self).content().subrange(old(self).cursor(), old(self).content().len() as int),
            final(self).cursor() == old(self).cursor() + cs@.len(),
            final(self).wf(),
    {
        let ghost orig = *old(self);
        let mut k: usize = 0;
        while k < cs.len()
            invariant
                k <= cs@.len(),
                self.wf(),
                orig.wf(),
                orig.content().len() + cs@.len() < usize::MAX,
                self.cursor() == orig.cursor() + k,
                self.content() == orig.content().subrange(0, orig.cursor()) + cs@.take(k as int)
                    + orig.content().subrange(orig.cursor(), orig.content().len() as int),
            decreases cs@.len() - k,
        {
            proof {
                assert(self.content().len() == orig.content().len() + k);
            }
            self.push(cs[k]);
            k += 1;
            proof {
                assert(self.content() =~= orig.content().subrange(0, orig.cursor())
                    + cs@.take(k as int) + orig.content().subrange(
                    orig.cursor(),
                    orig.content().len() as int,
                ));
            }
        }
        proof {
            assert(cs@.take(cs@.len() as int) =~= cs@);
        }
    }

    /// Moves the cursor one character to the right, staying put at the
    /// end of the buffer.
    pub fn cursor_right(&mut self)
        requires
            old(self).wf(),
        ensures
            final(self).content() == old(self).content(),
            final(self).cursor() == if old(self).cursor() < old(self).content().len() {
                old(self).cursor() + 1
            } else {
                old(self).cursor()
            },
            final(self).wf(),
    {
        if self.cursor_index < self.text.len() {
            self.cursor_index = self.cursor_index + 1;
        }
    }

    /// Moves the cursor one character to the left, staying put at the
    /// start of the buffer.
    pub fn cursor_left(&mut self)
        requires
            old(self).wf(),
        ensures
            final(self).content() == old(self).content(),
            final(self).cursor() == if old(self).cursor() > 0 {
                old(self).cursor() - 1
            } else {
                0int
            },
            final(self).wf(),
    {
        if self.cursor_index > 0 {
            self.cursor_index = self.cursor_index - 1;
        }
    }

    /// The largest offset at or before `pos` that the wrap scan places
    /// at column 0: the start of the visual row containing `pos`.
    fn line_start(&self, pos: usize, width: u16) -> (s: usize)
        requires
            self.wf(),
            1 <= width,
            pos <= self.content().len(),
        ensures
            s == row_start(self.content(), width as int, pos as int),
            s <= pos,
    {
        let mut w: u16 = 0;
        let mut start: usize = 0;
        let mut i: usize = 0;
        while i < pos
            invariant
                i <= pos <= self.content().len(),
                1 <= width,
                w as int == wrap_pos(self.content(), width as int, i as int).0,
                w < width,
                start as int == row_start(self.content(), width as int, i as int),
                start <= i,
            decreases pos - i,
        {
            let c = self.text[i];
            if c == '\n' {
                w = 0;
            } else if w + 1 == width {
                w = 0;
            } else {
                w = w + 1;
            }
            i += 1;
            if w == 0 {
                start = i;
            }
        }
        start
    }

    /// The smallest offset after `pos` that the wrap scan places at
    /// column 0 — the start of the next visual row — or the buffer
    /// length when `pos` lies on the last row.
    fn next_line_start(&self, pos: usize, width: u16) -> (s: usize)
        requires
            self.wf(),
            1 <= width,
            pos <= self.content().len(),
        ensures
            s == next_row_start(self.content(), width as int, pos as int),
            pos <= s <= self.content().len(),
    {
        let mut w: u16 = 0;
        let mut i: usize = 0;
        while i < pos
            invariant
                i <= pos <= self.content().len(),
                1 <= width,
                w as int == wrap_pos(self.content(), width as int, i as int).0,
                w < width,
            decreases pos - i,
        {
            let c = self.text[i];
            if c == '\n' {
                w = 0;
            } else if w + 1 == width {
                w = 0;
            } else {
                w = w + 1;
            }
            i += 1;
        }
        while i < self.text.len()
            invariant
                pos <= i <= self.content().len(),
                1 <= width,
                w as int == wrap_pos(self.content(), width as int, i as int).0,
                w < width,
                next_row_start(self.content(), width as int, pos as int) == next_row_start(
                    self.content(),
                    width as int,
                    i as int,
                ),
            decreases self.content().len() - i,
        {
            let c = self.text[i];
            if c == '\n' {
                w = 0;
            } else if w + 1 == width {
                w = 0;
            } else {
                w = w + 1;
            }
            i += 1;
            if w == 0 {
                return i;
            }
        }
        i
    }

    /// Moves the cursor to the first column of the visual row above
    /// the one it is on, or to offset 0 from the first row.
    pub fn cursor_up(&mut self, width: u16)
        requires
            old(self).wf(),
            1 <= width,
        ensures
            final(self).content() == old(self).content(),
            final(self).cursor() == up_target(old(self).content(), width as int, old(self).cursor()),
            final(self).wf(),
    {
        let rs = self.line_start(self.cursor_index, width);
        if rs == 0 {
            self.cursor_index = 0;
        } else {
            let prev = self.line_start(rs - 1, width);
            self.cursor_index = prev;
        }
    }

    /// Moves the cursor to the offset at which the visual row below
    /// the one it is on begins, clamped to the end of the buffer.
    pub fn cursor_down(&mut self, width: u16)
        requires
            old(self).wf(),
            1 <= width,
        ensures
            final(self).content() == old(self).content(),
            final(self).cursor() == next_row_start(
                old(self).content(),
                width as int,
                old(self).cursor(),
            ),
            final(self).wf(),
    {
        let s = self.next_line_start(self.cursor_index, width);
        self.cursor_index = s;
    }

    /// The screen coordinate (column, row) of the cursor under the
    /// wrap model, zero-based and relative to the text area.
    pub fn cursor_position(&self, width: u16) -> (pos: (u16, u16))
        requires
            self.wf(),
            1 <= width,
            self.content().len() <= u16::MAX,
        ensures
            pos.0 as int == wrap_pos(self.content(), width as int, self.cursor()).0,
            pos.1 as int == wrap_pos(self.content(), width as int, self.cursor()).1,
            pos.0 < width,
    {
        let mut w: u16 = 0;
        let mut h: u16 = 0;
        let mut i: usize = 0;
        while i < self.cursor_index
            invariant
                i <= self.cursor_index,
                self.wf(),
                self.content().len() <= u16::MAX,
                1 <= width,
                w as int == wrap_pos(self.content(), width as int, i as int).0,
                h as int == wrap_pos(self.content(), width as int, i as int).1,
                w < width,
                h <= i,
            decreases self.cursor_index - i,
        {
            let c = self.text[i];
            if c == '\n' {
                w = 0;
                h = h + 1;
            } else if w + 1 == width {
                w = 0;
                h = h + 1;
            } else {
                w = w + 1;
            }
            i += 1;
        }
        (w, h)
    }

    /// The buffer content segmented at its hard newlines, for display.
    /// No returned line holds a newline itself, and rejoining the
    /// lines with single newlines reproduces the content exactly; the
    /// buffer is not changed by rendering.
    pub fn render(&self) -> (lines: Vec<String>)
        ensures
            lines@.len() >= 1,
            join_lines(views_of_lines(lines@)) == self.content(),
            forall|k: int| 0 <= k < lines@.len() ==> !(#[trigger] lines@[k])@.contains('\n'),
    {
        let ghost gcontent = self.text@;
        let mut lines: Vec<String> = Vec::new();
        let mut cur: String = String::new();
        let mut i: usize = 0;
        proof {
            assert(views_of_lines(lines@).push(cur@) =~= seq![Seq::<char>::empty()]);
            assert(gcontent.take(0) =~= Seq::<char>::empty());
        }
        while i < self.text.len()
            invariant
                i <= gcontent.len(),
                self.text@ == gcontent,
                join_lines(views_of_lines(lines@).push(cur@)) == gcontent.take(i as int),
                forall|k: int| 0 <= k < lines@.len() ==> !(#[trigger] lines@[k])@.contains('\n'),
                !cur@.contains('\n'),
            decreases gcontent.len() - i,
        {
            let c = self.text[i];
            proof {
                assert(gcontent.take(i as int + 1) =~= gcontent.take(i as int).push(
                    gcontent[i as int],
                ));
            }
            let ghost segs = views_of_lines(lines@).push(cur@);
            if c == '\n' {
                proof {
                    lemma_join_lines_snoc_line(segs);
                }
                lines.push(cur);
                cur = String::new();
                proof {
                    assert(views_of_lines(lines@).push(cur@) =~= segs.push(Seq::<char>::empty()));
                }
            } else {
                proof {
                    lemma_join_lines_snoc_char(segs, c);
                }
                string_push_char(&mut cur, c);
                proof {
                    assert(views_of_lines(lines@).push(cur@) =~= segs.update(
                        segs.len() - 1,
                        segs.last().push(c),
                    ));
                }
            }
            i += 1;
        }
        proof {
            assert(gcontent.take(i as int) =~= gcontent);
        }
        let ghost segs = views_of_lines(lines@).push(cur@);
        lines.push(cur);
        proof {
            assert(views_of_lines(lines@) =~= segs);
        }
        lines
    }
}

/// Inserting a character and then deleting backward restores the
/// buffer: whenever `mid` relates to `before` as `push(c)` promises,
/// and `after` relates to `mid` as `pop` promises, then `after` has
/// the content and the cursor of `before`, for every character and
/// every well-formed prior state.
pub proof fn lemma_insert_delete_inverse(before: TextStore, mid: TextStore, after: TextStore, c: char)
    requires
        before.wf(),
        mid.content() == before.content().insert(before.cursor(), c),
        mid.cursor() == before.cursor() + 1,
        after.content() == if mid.cursor() == 0 {
            mid.content()
        } else {
            mid.content().remove(mid.cursor() - 1)
        },
        after.cursor() == if mid.cursor() == 0 {
            0int
        } else {
            mid.cursor() - 1
        },
    ensures
        after.content() == before.content(),
        after.cursor() == before.cursor(),
{
    before.content().insert_ensures(before.cursor(), c);
    mid.content().remove_ensures(before.cursor());
    assert(mid.content().remove(before.cursor()) =~= before.content());
}

} // verus!
