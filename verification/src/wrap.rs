use vstd::prelude::*;

verus! {

/// The wrap model: scan the first `offset` characters of `content`,
/// keeping a running column and row. A newline ends its row
/// unconditionally; any other character advances the column, and a row
/// that fills up (the column reaching `width` after the character is
/// placed) wraps to column 0 of the next row without consuming a
/// character. The result is the (column, row) screen coordinate of
/// buffer offset `offset`, zero-based.
pub open spec fn wrap_pos(content: Seq<char>, width: int, offset: int) -> (int, int)
    recommends
        1 <= width,
        0 <= offset <= content.len(),
    decreases offset,
{
    if offset <= 0 {
        (0int, 0int)
    } else {
        let prev = wrap_pos(content, width, offset - 1);
        if content[offset - 1] == '\n' {
            (0int, prev.1 + 1)
        } else if prev.0 + 1 == width {
            (0int, prev.1 + 1)
        } else {
            (prev.0 + 1, prev.1)
        }
    }
}

/// `a` is at or before `b` on the screen: on an earlier row, or on the
/// same row at the same or an earlier column.
pub open spec fn lex_le(a: (int, int), b: (int, int)) -> bool {
    a.1 < b.1 || (a.1 == b.1 && a.0 <= b.0)
}

/// Position monotonicity: for a fixed buffer and width, a later offset
/// is never at an earlier screen position, comparing (row, column)
/// pairs lexicographically.
pub proof fn lemma_wrap_pos_monotonic(content: Seq<char>, width: int, a: int, b: int)
    requires
        1 <= width,
        0 <= a <= b,
    ensures
        lex_le(wrap_pos(content, width, a), wrap_pos(content, width, b)),
    decreases b - a,
{
    if a < b {
        lemma_wrap_pos_monotonic(content, width, a, b - 1);
    }
}

/// The start of the visual row containing `pos`: the largest offset
/// `s <= pos` that the scan places at column 0. Offset 0 always
/// qualifies, so the result is well defined.
pub open spec fn row_start(content: Seq<char>, width: int, pos: int) -> int
    recommends
        1 <= width,
        0 <= pos <= content.len(),
    decreases pos,
{
    if pos <= 0 {
        0int
    } else if wrap_pos(content, width, pos).0 == 0 {
        pos
    } else {
        row_start(content, width, pos - 1)
    }
}

/// The offset at which the row after the one containing `pos` begins:
/// the smallest offset `s > pos` that the scan places at column 0,
/// clamped to the length of the buffer when `pos` lies on the last row.
pub open spec fn next_row_start(content: Seq<char>, width: int, pos: int) -> int
    recommends
        1 <= width,
        0 <= pos <= content.len(),
    decreases content.len() - pos,
{
    if pos >= content.len() {
        content.len() as int
    } else if wrap_pos(content, width, pos + 1).0 == 0 {
        pos + 1
    } else {
        next_row_start(content, width, pos + 1)
    }
}

/// Where moving up from `pos` lands: the start of the row above the
/// one containing `pos`, or offset 0 when `pos` is already on the
/// first row.
pub open spec fn up_target(content: Seq<char>, width: int, pos: int) -> int
    recommends
        1 <= width,
        0 <= pos <= content.len(),
{
    let rs = row_start(content, width, pos);
    if rs == 0 {
        0int
    } else {
        row_start(content, width, rs - 1)
    }
}

/// The segments of a rendered buffer, rejoined with newlines: the
/// lines in order, with a single newline between each adjacent pair.
pub open spec fn join_lines(lines: Seq<Seq<char>>) -> Seq<char>
    decreases lines.len(),
{
    if lines.len() == 0 {
        Seq::empty()
    } else if lines.len() == 1 {
        lines[0]
    } else {
        join_lines(lines.drop_last()) + seq!['\n'] + lines.last()
    }
}

/// Appending a character to the last segment appends it to the joined
/// text.
pub proof fn lemma_join_lines_snoc_char(lines: Seq<Seq<char>>, c: char)
    requires
        lines.len() >= 1,
    ensures
        join_lines(lines.update(lines.len() - 1, lines.last().push(c))) == join_lines(
            lines,
        ).push(c),
{
    let upd = lines.update(lines.len() - 1, lines.last().push(c));
    if lines.len() == 1 {
        assert(join_lines(upd) == upd[0]);
        assert(upd[0] == lines[0].push(c));
    } else {
        assert(upd.drop_last() =~= lines.drop_last());
        assert(join_lines(upd) == join_lines(lines.drop_last()) + seq!['\n'] + lines.last().push(
            c,
        ));
        assert(join_lines(lines.drop_last()) + seq!['\n'] + lines.last().push(c) =~= (join_lines(
            lines.drop_last(),
        ) + seq!['\n'] + lines.last()).push(c));
    }
}

/// Opening a fresh empty segment appends a newline to the joined text.
pub proof fn lemma_join_lines_snoc_line(lines: Seq<Seq<char>>)
    requires
        lines.len() >= 1,
    ensures
        join_lines(lines.push(Seq::empty())) == join_lines(lines).push('\n'),
{
    let p = lines.push(Seq::<char>::empty());
    assert(p.drop_last() =~= lines);
    assert(p.last() =~= Seq::<char>::empty());
    assert(join_lines(p) == join_lines(lines) + seq!['\n'] + Seq::<char>::empty());
    assert(join_lines(lines) + seq!['\n'] + Seq::<char>::empty() =~= join_lines(lines).push('\n'));
}

} // verus!
