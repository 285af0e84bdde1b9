//! What undo and redo give back after the editing operations of the delta buffer.
use crate::engine::buffer;
use crate::engine::buffer::{Buffer, EditOperation, OpView, YankType};
use crate::mode::Position;
use crate::text;
use vstd::prelude::*;

verus! {

/// Taking back a history of one operation is applying that operation's inverse.
proof fn lemma_unapply_single(t: Seq<Seq<char>>, ops: Seq<EditOperation>)
    requires
        ops.len() == 1,
    ensures
        buffer::unapply(t, ops) == buffer::apply_op(t, buffer::inverse(ops[0])).0,
        buffer::unapply_ok(t, ops) == buffer::apply_op_ok(t, buffer::inverse(ops[0])),
{
    assert(ops.drop_last() =~= Seq::<EditOperation>::empty());
    assert(ops.last() == ops[0]);
    let x = buffer::apply_op(t, buffer::inverse(ops[0])).0;
    assert(buffer::unapply(x, Seq::<EditOperation>::empty()) == x);
    assert(buffer::unapply_ok(x, Seq::<EditOperation>::empty()));
}

/// Applying a history of one operation again is applying that operation.
proof fn lemma_reapply_single(t: Seq<Seq<char>>, ops: Seq<EditOperation>)
    requires
        ops.len() == 1,
    ensures
        buffer::reapply(t, ops) == buffer::apply_op(t, ops[0]).0,
        buffer::reapply_ok(t, ops) == buffer::apply_op_ok(t, ops[0]),
{
    assert(ops.drop_first() =~= Seq::<EditOperation>::empty());
    let x = buffer::apply_op(t, ops[0]).0;
    assert(buffer::reapply(x, Seq::<EditOperation>::empty()) == x);
    assert(buffer::reapply_ok(x, Seq::<EditOperation>::empty()));
}

/// The last delta of `edited`'s history holds exactly one operation reading `v`.
proof fn lemma_recorded_last(before: Buffer, edited: Buffer, v: OpView)
    requires
        before.undo_levels >= 1,
        edited.recorded(&before, v),
    ensures
        edited.undo_stack@.len() > 0,
        edited.undo_stack@.last().operations@.len() == 1,
        buffer::op_view(edited.undo_stack@.last().operations@[0]) == v,
        edited.undo_stack@.last().cursor_before == before.cursor,
{
}

/// Undo right after typing a character inside the text (on an existing line, at or
/// before its end) gives back the text and cursor from before, provided the undo
/// history keeps at least one entry; and undo can then be called.
pub proof fn law_undo_reverts_insert_char(
    before: Buffer,
    ch: char,
    edited: Buffer,
    undone: Buffer,
    r: bool,
)
    requires
        before.cursor.row < before.lines@.len(),
        before.cursor.col <= before.text()[before.cursor.row as int].len(),
        before.text()[before.cursor.row as int].len() < usize::MAX,
        before.undo_levels >= 1,
        edited.recorded(&before, OpView::Insert(before.cursor, seq![ch])),
        edited.state() == buffer::ins_char(before.state(), ch),
        Buffer::undo_step(&edited, &undone, r),
    ensures
        buffer::unapply_ok(edited.text(), edited.undo_stack@.last().operations@),
        r,
        undone.text() == before.text(),
        undone.cursor == before.cursor,
{
    lemma_recorded_last(before, edited, OpView::Insert(before.cursor, seq![ch]));
    let ops = edited.undo_stack@.last().operations@;
    lemma_unapply_single(edited.text(), ops);
    let t = before.text();
    let row = before.cursor.row as int;
    let col = before.cursor.col as int;
    let line = t[row];
    let t1 = edited.text();
    assert(t1 == t.update(row, line.insert(col, ch)));
    match ops[0] {
        EditOperation::Insert { pos, text } => {
            let inv = buffer::inverse(ops[0]);
            assert(text@.len() == 1);
            let s0 = (t1, pos);
            let s1 = buffer::right(s0);
            assert(s1 == (t1, Position { row: row as usize, col: (col + 1) as usize }));
            assert(buffer::rights(s1, 0) == s1);
            assert(buffer::rights(s0, 1) == s1);
            let s2 = buffer::del_char(s1);
            assert(t1[row].remove(col) =~= line);
            assert(s2.0 == t1.update(row, t1[row].remove(col)));
            assert(s2.0 =~= t);
            assert(buffer::dels(s2, 0) == s2);
            assert(buffer::dels(s1, 1) == s2);
            assert(buffer::dels_ok(s2, 0));
            assert(buffer::dels_ok(s1, 1));
        },
        _ => {},
    }
}

/// Redo right after that undo gives back the text that typing the character made
/// (for any character but a newline, which replays as a line break).
pub proof fn law_redo_reapplies_insert_char(
    before: Buffer,
    ch: char,
    edited: Buffer,
    undone: Buffer,
    r1: bool,
    redone: Buffer,
    r2: bool,
)
    requires
        before.cursor.row < before.lines@.len(),
        before.cursor.col <= before.text()[before.cursor.row as int].len(),
        before.text()[before.cursor.row as int].len() < usize::MAX,
        ch != '\n',
        before.undo_levels >= 1,
        edited.recorded(&before, OpView::Insert(before.cursor, seq![ch])),
        edited.state() == buffer::ins_char(before.state(), ch),
        Buffer::undo_step(&edited, &undone, r1),
        Buffer::redo_step(&undone, &redone, r2),
    ensures
        buffer::reapply_ok(undone.text(), undone.redo_stack@.last().operations@),
        r2,
        redone.text() == edited.text(),
{
    law_undo_reverts_insert_char(before, ch, edited, undone, r1);
    lemma_recorded_last(before, edited, OpView::Insert(before.cursor, seq![ch]));
    let ops = undone.redo_stack@.last().operations@;
    lemma_reapply_single(undone.text(), ops);
    match ops[0] {
        EditOperation::Insert { pos, text } => {
            assert(text@ == seq![ch]);
            let s0 = (before.text(), pos);
            assert(text@.drop_first() =~= Seq::<char>::empty());
            assert(buffer::ins_text(buffer::ins_one(s0, ch), Seq::<char>::empty()) == buffer::ins_one(
                s0,
                ch,
            ));
            assert(buffer::ins_text_ok(buffer::ins_one(s0, ch), Seq::<char>::empty()));
        },
        _ => {},
    }
}


/// Undo right after a line break typed inside the text gives back the text and cursor
/// from before.
pub proof fn law_undo_reverts_line_break(before: Buffer, edited: Buffer, undone: Buffer, r: bool)
    requires
        before.cursor.row < before.lines@.len(),
        before.cursor.col <= before.text()[before.cursor.row as int].len(),
        before.lines@.len() < usize::MAX,
        before.undo_levels >= 1,
        edited.recorded(&before, OpView::Insert(before.cursor, seq!['\n'])),
        edited.state() == buffer::line_break(before.state()),
        Buffer::undo_step(&edited, &undone, r),
    ensures
        buffer::unapply_ok(edited.text(), edited.undo_stack@.last().operations@),
        r,
        undone.text() == before.text(),
        undone.cursor == before.cursor,
{
    lemma_recorded_last(before, edited, OpView::Insert(before.cursor, seq!['\n']));
    let ops = edited.undo_stack@.last().operations@;
    lemma_unapply_single(edited.text(), ops);
    let t = before.text();
    let row = before.cursor.row as int;
    let col = before.cursor.col as int;
    let line = t[row];
    let t1 = edited.text();
    match ops[0] {
        EditOperation::Insert { pos, text } => {
            let s0 = (t1, pos);
            assert(t1[row] =~= line.take(col));
            let s1 = buffer::right(s0);
            assert(s1 == (t1, Position { row: (row + 1) as usize, col: 0 }));
            assert(buffer::rights(s1, 0) == s1);
            assert(buffer::rights(s0, 1) == s1);
            let s2 = buffer::del_char(s1);
            assert(s2.0 == t1.remove(row + 1).update(row, t1[row] + t1[row + 1]));
            assert(line.take(col) + line.skip(col) =~= line);
            assert(s2.0 =~= t);
            assert(buffer::dels(s2, 0) == s2);
            assert(buffer::dels(s1, 1) == s2);
            assert(buffer::dels_ok(s2, 0));
            assert(buffer::dels_ok(s1, 1));
        },
        _ => {},
    }
}

/// Undo right after a backspace that removed a character (other than a newline
/// character) inside a line gives back the text and cursor from before.
pub proof fn law_undo_reverts_backspace(before: Buffer, edited: Buffer, undone: Buffer, r: bool)
    requires
        before.cursor.row < before.lines@.len(),
        0 < before.cursor.col <= before.text()[before.cursor.row as int].len(),
        before.text()[before.cursor.row as int][before.cursor.col - 1] != '\n',
        before.undo_levels >= 1,
        edited.recorded(
            &before,
            OpView::Delete(
                Position { row: before.cursor.row, col: (before.cursor.col - 1) as usize },
                seq![before.text()[before.cursor.row as int][before.cursor.col - 1]],
            ),
        ),
        edited.state() == buffer::del_char(before.state()),
        Buffer::undo_step(&edited, &undone, r),
    ensures
        buffer::unapply_ok(edited.text(), edited.undo_stack@.last().operations@),
        r,
        undone.text() == before.text(),
        undone.cursor == before.cursor,
{
    let t = before.text();
    let row = before.cursor.row as int;
    let col = before.cursor.col as int;
    let line = t[row];
    let x = line[col - 1];
    let v = OpView::Delete(Position { row: row as usize, col: (col - 1) as usize }, seq![x]);
    lemma_recorded_last(before, edited, v);
    let ops = edited.undo_stack@.last().operations@;
    lemma_unapply_single(edited.text(), ops);
    let t1 = edited.text();
    match ops[0] {
        EditOperation::Delete { pos, text } => {
            let s0 = (t1, pos);
            assert(text@[0] == x);
            assert(text@.drop_first() =~= Seq::<char>::empty());
            let s1 = buffer::ins_char(s0, x);
            assert(line.remove(col - 1).insert(col - 1, x) =~= line);
            assert(s1.0 =~= t);
            assert(buffer::ins_text(s1, Seq::<char>::empty()) == s1);
            assert(buffer::ins_text_ok(s1, Seq::<char>::empty()));
        },
        _ => {},
    }
}

/// Undo right after a backspace that joined a line to the one above gives back the
/// text and cursor from before.
pub proof fn law_undo_reverts_join(before: Buffer, edited: Buffer, undone: Buffer, r: bool)
    requires
        0 < before.cursor.row < before.lines@.len(),
        before.cursor.col == 0,
        before.text()[before.cursor.row - 1].len() <= usize::MAX,
        before.undo_levels >= 1,
        edited.recorded(
            &before,
            OpView::Delete(
                Position {
                    row: (before.cursor.row - 1) as usize,
                    col: before.text()[before.cursor.row - 1].len() as usize,
                },
                seq!['\n'],
            ),
        ),
        edited.state() == buffer::del_char(before.state()),
        Buffer::undo_step(&edited, &undone, r),
    ensures
        buffer::unapply_ok(edited.text(), edited.undo_stack@.last().operations@),
        r,
        undone.text() == before.text(),
        undone.cursor == before.cursor,
{
    let t = before.text();
    let row = before.cursor.row as int;
    let p = t[row - 1];
    let v = OpView::Delete(Position { row: (row - 1) as usize, col: p.len() as usize }, seq!['\n']);
    lemma_recorded_last(before, edited, v);
    let ops = edited.undo_stack@.last().operations@;
    lemma_unapply_single(edited.text(), ops);
    let t1 = edited.text();
    match ops[0] {
        EditOperation::Delete { pos, text } => {
            let s0 = (t1, pos);
            assert(text@[0] == '\n');
            assert(text@.drop_first() =~= Seq::<char>::empty());
            let s1 = buffer::line_break(s0);
            assert((p + t[row]).take(p.len() as int) =~= p);
            assert((p + t[row]).skip(p.len() as int) =~= t[row]);
            assert(s1.0 =~= t);
            assert(buffer::ins_text(s1, Seq::<char>::empty()) == s1);
            assert(buffer::ins_text_ok(s1, Seq::<char>::empty()));
        },
        _ => {},
    }
}

/// Undo right after `x` removed a character (other than a newline character) gives
/// back the text and cursor from before.
pub proof fn law_undo_reverts_delete_at_cursor(before: Buffer, edited: Buffer, undone: Buffer, r: bool)
    requires
        before.cursor.row < before.lines@.len(),
        before.cursor.col < before.text()[before.cursor.row as int].len(),
        before.text()[before.cursor.row as int][before.cursor.col as int] != '\n',
        before.undo_levels >= 1,
        edited.recorded(
            &before,
            OpView::Delete(before.cursor, seq![before.text()[before.cursor.row as int][before.cursor.col as int]]),
        ),
        edited.text() == before.text().update(
            before.cursor.row as int,
            before.text()[before.cursor.row as int].remove(before.cursor.col as int),
        ),
        Buffer::undo_step(&edited, &undone, r),
    ensures
        buffer::unapply_ok(edited.text(), edited.undo_stack@.last().operations@),
        r,
        undone.text() == before.text(),
        undone.cursor == before.cursor,
{
    let t = before.text();
    let row = before.cursor.row as int;
    let col = before.cursor.col as int;
    let line = t[row];
    let x = line[col];
    lemma_recorded_last(before, edited, OpView::Delete(before.cursor, seq![x]));
    let ops = edited.undo_stack@.last().operations@;
    lemma_unapply_single(edited.text(), ops);
    let t1 = edited.text();
    match ops[0] {
        EditOperation::Delete { pos, text } => {
            let s0 = (t1, pos);
            assert(text@[0] == x);
            assert(text@.drop_first() =~= Seq::<char>::empty());
            let s1 = buffer::ins_char(s0, x);
            assert(line.remove(col).insert(col, x) =~= line);
            assert(s1.0 =~= t);
            assert(buffer::ins_text(s1, Seq::<char>::empty()) == s1);
            assert(buffer::ins_text_ok(s1, Seq::<char>::empty()));
        },
        _ => {},
    }
}


/// `k` steps right within a line move the cursor `k` columns.
proof fn lemma_rights_in_line(t: Seq<Seq<char>>, r: int, c: int, k: nat)
    requires
        0 <= r < t.len(),
        0 <= c,
        c + k <= t[r].len(),
        t[r].len() <= usize::MAX,
        r <= usize::MAX,
    ensures
        buffer::rights((t, Position { row: r as usize, col: c as usize }), k) == (
            t,
            Position { row: r as usize, col: (c + k) as usize },
        ),
    decreases k,
{
    if k > 0 {
        let s0 = (t, Position { row: r as usize, col: c as usize });
        assert(buffer::right(s0) == (t, Position { row: r as usize, col: (c + 1) as usize }));
        lemma_rights_in_line(t, r, c + 1, (k - 1) as nat);
    }
}

/// `k` backspaces within a line remove the `k` characters before the cursor.
proof fn lemma_dels_in_line(t: Seq<Seq<char>>, r: int, c: int, k: nat)
    requires
        0 <= r < t.len(),
        k <= c <= t[r].len(),
        t[r].len() <= usize::MAX,
        r <= usize::MAX,
    ensures
        buffer::dels((t, Position { row: r as usize, col: c as usize }), k) == (
            t.update(r, t[r].take(c - k) + t[r].skip(c)),
            Position { row: r as usize, col: (c - k) as usize },
        ),
        buffer::dels_ok((t, Position { row: r as usize, col: c as usize }), k),
    decreases k,
{
    if k == 0 {
        assert(t[r].take(c) + t[r].skip(c) =~= t[r]);
        assert(t.update(r, t[r]) =~= t);
    } else {
        let s0 = (t, Position { row: r as usize, col: c as usize });
        let t1 = t.update(r, t[r].remove(c - 1));
        assert(buffer::del_char(s0) == (t1, Position { row: r as usize, col: (c - 1) as usize }));
        lemma_dels_in_line(t1, r, c - 1, (k - 1) as nat);
        assert(t1[r].take(c - 1 - (k - 1)) + t1[r].skip(c - 1) =~= t[r].take(c - k) + t[r].skip(c));
        assert(t1.update(r, t[r].take(c - k) + t[r].skip(c)) =~= t.update(r, t[r].take(c - k) + t[r].skip(c)));
    }
}

/// Typing characters other than newlines within a line splices them in at the cursor.
proof fn lemma_ins_in_line(t: Seq<Seq<char>>, r: int, c: int, cs: Seq<char>)
    requires
        0 <= r < t.len(),
        0 <= c <= t[r].len(),
        t[r].len() + cs.len() <= usize::MAX,
        r <= usize::MAX,
        forall|i: int| 0 <= i < cs.len() ==> cs[i] != '\n',
    ensures
        buffer::ins_text((t, Position { row: r as usize, col: c as usize }), cs) == (
            t.update(r, buffer::splice(t[r], c, cs)),
            Position { row: r as usize, col: (c + cs.len()) as usize },
        ),
        buffer::ins_text_ok((t, Position { row: r as usize, col: c as usize }), cs),
    decreases cs.len(),
{
    if cs.len() == 0 {
        assert(buffer::splice(t[r], c, cs) =~= t[r]);
        assert(t.update(r, t[r]) =~= t);
    } else {
        let s0 = (t, Position { row: r as usize, col: c as usize });
        let t1 = t.update(r, t[r].insert(c, cs[0]));
        assert(buffer::ins_one(s0, cs[0]) == (t1, Position { row: r as usize, col: (c + 1) as usize }));
        lemma_ins_in_line(t1, r, c + 1, cs.drop_first());
        assert(buffer::splice(t1[r], c + 1, cs.drop_first()) =~= buffer::splice(t[r], c, cs));
        assert(t1.update(r, buffer::splice(t[r], c, cs)) =~= t.update(r, buffer::splice(t[r], c, cs)));
    }
}

/// Typing `a` then `b` is typing `a + b`.
proof fn lemma_ins_text_concat(s: buffer::EdState, a: Seq<char>, b: Seq<char>)
    ensures
        buffer::ins_text(s, a + b) == buffer::ins_text(buffer::ins_text(s, a), b),
        buffer::ins_text_ok(s, a + b) == (buffer::ins_text_ok(s, a) && buffer::ins_text_ok(buffer::ins_text(s, a), b)),
    decreases a.len(),
{
    if a.len() == 0 {
        assert(a + b =~= b);
    } else {
        assert((a + b)[0] == a[0]);
        assert((a + b).drop_first() =~= a.drop_first() + b);
        lemma_ins_text_concat(buffer::ins_one(s, a[0]), a.drop_first(), b);
    }
}

/// Undo right after `dd` removed a line that is not the last one (the line holding no
/// newline character) gives back the text and cursor from before.
pub proof fn law_undo_reverts_delete_line(before: Buffer, edited: Buffer, undone: Buffer, r1: bool, r: bool)
    requires
        before.cursor.row + 1 < before.lines@.len(),
        forall|i: int|
            0 <= i < before.text()[before.cursor.row as int].len() ==> before.text()[before.cursor.row as int][i]
                != '\n',
        before.text()[before.cursor.row as int].len() + before.text()[before.cursor.row + 1].len() <= usize::MAX,
        before.undo_levels >= 1,
        Buffer::deletes_line(&before, &edited, r1),
        Buffer::undo_step(&edited, &undone, r),
    ensures
        buffer::unapply_ok(edited.text(), edited.undo_stack@.last().operations@),
        r,
        undone.text() == before.text(),
        undone.cursor == before.cursor,
{
    let t = before.text();
    let row = before.cursor.row as int;
    let l = t[row];
    let pos = Position { row: row as usize, col: 0 };
    lemma_recorded_last(before, edited, OpView::Delete(pos, l + seq!['\n']));
    let ops = edited.undo_stack@.last().operations@;
    lemma_unapply_single(edited.text(), ops);
    let t1 = edited.text();
    assert(t1 == t.remove(row));
    match ops[0] {
        EditOperation::Delete { pos: p, text } => {
            assert(text@ == l + seq!['\n']);
            let s0 = (t1, pos);
            lemma_ins_text_concat(s0, l, seq!['\n']);
            assert(t1[row] == t[row + 1]);
            lemma_ins_in_line(t1, row, 0, l);
            assert(buffer::splice(t1[row], 0, l) =~= l + t[row + 1]);
            let s1 = buffer::ins_text(s0, l);
            assert(s1 == (t1.update(row, l + t[row + 1]), Position { row: row as usize, col: l.len() as usize }));
            let s2 = buffer::line_break(s1);
            assert((l + t[row + 1]).take(l.len() as int) =~= l);
            assert((l + t[row + 1]).skip(l.len() as int) =~= t[row + 1]);
            assert(s2.0 =~= t);
            let nl = seq!['\n'];
            assert(nl.len() == 1 && nl[0] == '\n');
            assert(nl.drop_first() =~= Seq::<char>::empty());
            assert(buffer::ins_one(s1, nl[0]) == s2);
            assert(buffer::ins_text(s2, nl.drop_first()) == s2);
            assert(buffer::ins_text_ok(s2, nl.drop_first()));
            assert(buffer::line_break_ok(s1));
            assert(buffer::ins_text(s1, nl) == s2);
            assert(buffer::ins_text_ok(s1, nl));
        },
        _ => {},
    }
}

/// The edits keep at least one line in the buffer: typing, breaking a line, backspace,
/// `x`, deleting before the cursor, `dd` (which empties the only line rather than
/// removing it) and both puts, each on the inputs it accepts.
pub proof fn law_edits_keep_a_line(before: Buffer, after: Buffer, r: bool, ch: char)
    requires
        before.lines@.len() > 0,
        (buffer::ins_char_ok(before.state()) && Buffer::inserts_char(&before, &after, ch)) || Buffer::breaks_line(
            &before,
            &after,
        ) || (buffer::del_char_ok(
            before.state(),
        ) && Buffer::deletes_char(&before, &after, r)) || Buffer::deletes_at_cursor(&before, &after, r)
            || ((before.cursor.col > 0 ==> before.cursor.row < before.lines@.len()) && Buffer::deletes_before_cursor(
            &before,
            &after,
            r,
        )) || Buffer::deletes_line(&before, &after, r)
            || (before.clipboard.yank_type != YankType::Line ==> before.cursor.row < before.lines@.len())
            && Buffer::puts_after(&before, &after) || Buffer::puts_before(&before, &after),
    ensures
        after.lines@.len() > 0,
{
    let t = before.text();
    assert(t.len() == before.lines@.len());
    assert(after.text().len() == after.lines@.len());
    if buffer::ins_char_ok(before.state()) && Buffer::inserts_char(&before, &after, ch) {
        let s2 = buffer::ins_char(before.state(), ch);
        assert(after.state() == s2);
        assert(after.text() == s2.0);
        assert(text::pad_to(t, before.cursor.row as int).len() > 0);
        assert(after.text().len() > 0);
    } else if Buffer::breaks_line(&before, &after) {
        assert(after.text().len() > 0);
    } else if buffer::del_char_ok(before.state()) && Buffer::deletes_char(&before, &after, r) {
        assert(after.text().len() > 0);
    } else if Buffer::deletes_at_cursor(&before, &after, r) {
        assert(after.text().len() > 0);
    } else if (before.cursor.col > 0 ==> before.cursor.row < before.lines@.len()) && Buffer::deletes_before_cursor(
        &before,
        &after,
        r,
    ) {
        if before.cursor.col > 0 && before.cursor.col <= t[before.cursor.row as int].len() {
            assert(after.text() == t.update(
                before.cursor.row as int,
                t[before.cursor.row as int].remove(before.cursor.col - 1),
            ));
        } else {
            assert(after.lines == before.lines);
        }
        assert(after.text().len() > 0);
    } else if Buffer::deletes_line(&before, &after, r) {
        assert(after.text().len() > 0);
    } else if (before.clipboard.yank_type != YankType::Line ==> before.cursor.row < before.lines@.len())
        && Buffer::puts_after(&before, &after) {
        assert(after.text().len() > 0);
    } else {
        assert(after.text().len() > 0);
    }
}

proof fn lemma_rights_keep_text(s: buffer::EdState, n: nat)
    ensures
        buffer::rights(s, n).0 == s.0,
    decreases n,
{
    if n > 0 {
        lemma_rights_keep_text(buffer::right(s), (n - 1) as nat);
    }
}

proof fn lemma_dels_keep_a_line(s: buffer::EdState, n: nat)
    requires
        s.0.len() > 0,
        buffer::dels_ok(s, n),
    ensures
        buffer::dels(s, n).0.len() > 0,
    decreases n,
{
    if n > 0 {
        assert(buffer::del_char(s).0.len() > 0);
        lemma_dels_keep_a_line(buffer::del_char(s), (n - 1) as nat);
    }
}

proof fn lemma_ins_text_keeps_a_line(s: buffer::EdState, cs: Seq<char>)
    requires
        s.0.len() > 0,
        buffer::ins_text_ok(s, cs),
    ensures
        buffer::ins_text(s, cs).0.len() > 0,
    decreases cs.len(),
{
    if cs.len() > 0 {
        let s1 = buffer::ins_one(s, cs[0]);
        if cs[0] != '\n' {
            assert(text::pad_to(s.0, s.1.row as int).len() > 0);
        }
        assert(s1.0.len() > 0);
        lemma_ins_text_keeps_a_line(s1, cs.drop_first());
    }
}

proof fn lemma_apply_keeps_a_line(t: Seq<Seq<char>>, op: EditOperation)
    requires
        t.len() > 0,
        buffer::apply_op_ok(t, op),
    ensures
        buffer::apply_op(t, op).0.len() > 0,
{
    match op {
        EditOperation::Insert { pos, text } => {
            lemma_ins_text_keeps_a_line((t, pos), text@);
        },
        EditOperation::Delete { pos, text } => {
            lemma_rights_keep_text((t, pos), text@.len());
            lemma_dels_keep_a_line(buffer::rights((t, pos), text@.len()), text@.len());
        },
        EditOperation::Replace { pos, old, new } => {
            let s1 = buffer::rights((t, pos), old@.len());
            lemma_rights_keep_text((t, pos), old@.len());
            lemma_dels_keep_a_line(s1, old@.len());
            lemma_ins_text_keeps_a_line(buffer::dels(s1, old@.len()), new@);
        },
    }
}

proof fn lemma_unapply_keeps_a_line(t: Seq<Seq<char>>, ops: Seq<EditOperation>)
    requires
        t.len() > 0,
        buffer::unapply_ok(t, ops),
    ensures
        buffer::unapply(t, ops).len() > 0,
    decreases ops.len(),
{
    if ops.len() > 0 {
        lemma_apply_keeps_a_line(t, buffer::inverse(ops.last()));
        lemma_unapply_keeps_a_line(buffer::apply_op(t, buffer::inverse(ops.last())).0, ops.drop_last());
    }
}

proof fn lemma_reapply_keeps_a_line(t: Seq<Seq<char>>, ops: Seq<EditOperation>)
    requires
        t.len() > 0,
        buffer::reapply_ok(t, ops),
    ensures
        buffer::reapply(t, ops).len() > 0,
    decreases ops.len(),
{
    if ops.len() > 0 {
        lemma_apply_keeps_a_line(t, ops[0]);
        lemma_reapply_keeps_a_line(buffer::apply_op(t, ops[0]).0, ops.drop_first());
    }
}

/// Undo and redo keep at least one line in the buffer, whenever the history they
/// take back or make again still fits the text.
pub proof fn law_undo_redo_keep_a_line(before: Buffer, after: Buffer, r: bool)
    requires
        before.lines@.len() > 0,
        ((before.undo_stack@.len() > 0 ==> buffer::unapply_ok(before.text(), before.undo_stack@.last().operations@))
            && Buffer::undo_step(&before, &after, r)) || ((before.redo_stack@.len() > 0 ==> buffer::reapply_ok(
            before.text(),
            before.redo_stack@.last().operations@,
        )) && Buffer::redo_step(&before, &after, r)),
    ensures
        after.lines@.len() > 0,
{
    assert(before.text().len() == before.lines@.len());
    assert(after.text().len() == after.lines@.len());
    if (before.undo_stack@.len() > 0 ==> buffer::unapply_ok(before.text(), before.undo_stack@.last().operations@))
        && Buffer::undo_step(&before, &after, r) {
        if r {
            lemma_unapply_keeps_a_line(before.text(), before.undo_stack@.last().operations@);
        }
    } else {
        if r {
            lemma_reapply_keeps_a_line(before.text(), before.redo_stack@.last().operations@);
        }
    }
}

/// Cutting a range, and replacing a range across lines, keep at least one line in the
/// text, on the inputs they accept.
pub proof fn law_ranges_keep_a_line(t: Seq<Seq<char>>, start: Position, end: Position, new_text: Seq<char>)
    requires
        t.len() > 0,
        text::range_text_ok(t, start, end),
        buffer::cut_ok(t, start, end),
    ensures
        buffer::cut(t, start, end).len() > 0,
        start.row != end.row && buffer::ins_text_ok((buffer::cut(t, start, end), start), new_text) ==> buffer::ins_text(
            (buffer::cut(t, start, end), start),
            new_text,
        ).0.len() > 0,
{
    let c = buffer::cut(t, start, end);
    assert(c.len() > 0);
    if start.row != end.row && buffer::ins_text_ok((c, start), new_text) {
        lemma_ins_text_keeps_a_line((c, start), new_text);
    }
}

/// Four spaces.
pub open spec fn four_spaces() -> Seq<char> {
    seq![' ', ' ', ' ', ' ']
}

/// `>` followed by `<` on the same line gives back the line: four spaces go in and the
/// same four come out.
pub proof fn law_unindent_reverts_indent(l: Seq<char>)
    ensures
        buffer::unindent_width(four_spaces() + l) == 4,
        (four_spaces() + l).take(4) == four_spaces(),
        (four_spaces() + l).skip(4) == l,
{
    assert((four_spaces() + l).take(4) =~= four_spaces());
    assert((four_spaces() + l).skip(4) =~= l);
}

proof fn lemma_lead_spaces(l: Seq<char>, i: int)
    requires
        0 <= i <= 4,
        i <= l.len(),
        forall|m: int| 0 <= m < i ==> l[m] == ' ',
    ensures
        i <= buffer::lead_spaces(l, i) <= 4,
        buffer::lead_spaces(l, i) <= l.len(),
        forall|m: int| 0 <= m < buffer::lead_spaces(l, i) ==> l[m] == ' ',
        buffer::lead_spaces(l, i) == 4 || buffer::lead_spaces(l, i) == l.len() || l[buffer::lead_spaces(l, i)] != ' ',
    decreases 4 - i,
{
    if 0 <= i < 4 && i < l.len() && l[i] == ' ' {
        lemma_lead_spaces(l, i + 1);
    }
}

/// `<` takes off indentation only, and as much as one level: a line that starts with a
/// tab loses exactly that tab; any other line loses its leading spaces, at most four.
/// A tab followed by `r` thus becomes `r`.
pub proof fn law_unindent_removes_one_level(l: Seq<char>, r: Seq<char>)
    ensures
        0 <= buffer::unindent_width(l) <= 4,
        buffer::unindent_width(l) <= l.len(),
        l.len() > 0 && l[0] == '\t' ==> buffer::unindent_width(l) == 1,
        !(l.len() > 0 && l[0] == '\t') ==> {
            &&& forall|i: int| 0 <= i < buffer::unindent_width(l) ==> l[i] == ' '
            &&& buffer::unindent_width(l) == 4 || buffer::unindent_width(l) == l.len() || l[buffer::unindent_width(l)] != ' '
        },
        buffer::unindent_width(seq!['\t'] + r) == 1,
        (seq!['\t'] + r).skip(buffer::unindent_width(seq!['\t'] + r)) == r,
{
    if l.len() >= 4 && l.take(4) == four_spaces() {
        assert(l.take(4)[0] == ' ');
        assert forall|i: int| 0 <= i < 4 implies l[i] == ' ' by {
            assert(l.take(4)[i] == l[i]);
        }
    } else if !(l.len() > 0 && l[0] == '\t') {
        lemma_lead_spaces(l, 0);
    }
    let t = seq!['\t'] + r;
    assert(t[0] == '\t');
    if t.len() >= 4 && t.take(4) == four_spaces() {
        assert(t.take(4)[0] == t[0]);
    }
    assert(t.skip(1) =~= r);
}

/// `p` with a character-wise yank puts the text right after the character under the
/// cursor, or at the end of the line when the cursor is past its last character; the
/// other lines stay as they were, the insertion is what undo takes back, and the cursor
/// ends on the last character put.
pub proof fn law_put_after_goes_after_cursor(before: Buffer, after: Buffer)
    requires
        before.clipboard.yank_type == YankType::Character,
        before.cursor.row < before.lines@.len(),
        Buffer::puts_after(&before, &after),
    ensures
        ({
            let t = before.text();
            let row = before.cursor.row as int;
            let col = before.cursor.col as int;
            let line = t[row];
            let clip = before.clipboard.text@;
            &&& after.text().len() == t.len()
            &&& forall|i: int| 0 <= i < t.len() && i != row ==> #[trigger] after.text()[i] == t[i]
            &&& col < line.len() ==> {
                &&& after.text()[row] == line.take(col + 1) + clip + line.skip(col + 1)
                &&& after.cursor == Position { row: row as usize, col: (col + clip.len()) as usize }
                &&& after.recorded(&before, OpView::Insert(Position { row: row as usize, col: (col + 1) as usize }, clip))
            }
            &&& col >= line.len() ==> {
                &&& after.text()[row] == line + clip
                &&& after.recorded(&before, OpView::Insert(Position { row: row as usize, col: line.len() as usize }, clip))
                &&& clip.len() > 0 ==> after.cursor == Position { row: row as usize, col: (line.len() + clip.len() - 1) as usize }
            }
        }),
{
    let t = before.text();
    let row = before.cursor.row as int;
    let line = t[row];
    assert(t.len() == before.lines@.len());
    if before.cursor.col >= line.len() {
        assert(line.skip(line.len() as int) =~= Seq::<char>::empty());
        assert(line.take(line.len() as int) =~= line);
        assert(buffer::splice(line, line.len() as int, before.clipboard.text@) =~= line + before.clipboard.text@);
    }
}

/// `P` with a character-wise yank puts the text at the cursor, before the character
/// under it; the other lines stay as they were and the cursor ends on the last
/// character put.
pub proof fn law_put_before_goes_at_cursor(before: Buffer, after: Buffer)
    requires
        before.clipboard.yank_type == YankType::Character,
        before.cursor.row < before.lines@.len(),
        Buffer::puts_before(&before, &after),
    ensures
        ({
            let t = before.text();
            let row = before.cursor.row as int;
            let col = before.cursor.col as int;
            let line = t[row];
            let clip = before.clipboard.text@;
            &&& after.text().len() == t.len()
            &&& forall|i: int| 0 <= i < t.len() && i != row ==> #[trigger] after.text()[i] == t[i]
            &&& after.text()[row] == line.take(col) + clip + line.skip(col)
            &&& after.recorded(&before, OpView::Insert(before.cursor, clip))
            &&& clip.len() > 0 ==> after.cursor == Position { row: row as usize, col: (col + clip.len() - 1) as usize }
        }),
{
    assert(before.text().len() == before.lines@.len());
}

/// `yw` on a non-blank copies, character-wise, the run of non-blanks from the cursor to
/// the next blank or the end of the line.
pub proof fn law_yank_word_takes_the_rest_of_the_word(before: Buffer, after: Buffer)
    requires
        Buffer::yanks_word(&before, &after),
        before.cursor.row < before.lines@.len(),
        before.cursor.col < before.text()[before.cursor.row as int].len(),
        !text::is_ws(before.text()[before.cursor.row as int][before.cursor.col as int]),
    ensures
        ({
            let line = before.text()[before.cursor.row as int];
            let col = before.cursor.col as int;
            let c = after.clipboard.text@;
            &&& after.clipboard.yank_type == YankType::Character
            &&& c.len() > 0
            &&& col + c.len() <= line.len()
            &&& c == line.subrange(col, col + c.len())
            &&& forall|i: int| 0 <= i < c.len() ==> !text::is_ws(#[trigger] c[i])
            &&& col + c.len() == line.len() || text::is_ws(line[col + c.len()])
        }),
{
    let line = before.text()[before.cursor.row as int];
    let col = before.cursor.col as int;
    assert(before.text().len() == before.lines@.len());
    crate::motion::lemma_scan_fwd_run(line, col, false);
    let e = text::scan_fwd(line, col, false);
    assert(e > col);
    let c = after.clipboard.text@;
    assert(c == line.subrange(col, e));
    assert forall|i: int| 0 <= i < c.len() implies !text::is_ws(#[trigger] c[i]) by {
        assert(c[i] == line[col + i]);
    }
}

/// Undo right after `>` gives back the text from before (and the cursor, which `>`
/// does not move).
pub proof fn law_undo_reverts_indent(before: Buffer, n: usize, edited: Buffer, undone: Buffer, r: bool)
    requires
        n < before.lines@.len(),
        before.text()[n as int].len() + 4 <= usize::MAX,
        before.undo_levels >= 1,
        edited.recorded(&before, OpView::Insert(Position { row: n, col: 0 }, four_spaces())),
        edited.text() == before.text().update(n as int, four_spaces() + before.text()[n as int]),
        Buffer::undo_step(&edited, &undone, r),
    ensures
        buffer::unapply_ok(edited.text(), edited.undo_stack@.last().operations@),
        r,
        undone.text() == before.text(),
        undone.cursor == before.cursor,
{
    let v = OpView::Insert(Position { row: n, col: 0 }, four_spaces());
    lemma_recorded_last(before, edited, v);
    let ops = edited.undo_stack@.last().operations@;
    lemma_unapply_single(edited.text(), ops);
    let t = before.text();
    let t1 = edited.text();
    match ops[0] {
        EditOperation::Insert { pos, text } => {
            lemma_rights_in_line(t1, n as int, 0, 4);
            lemma_dels_in_line(t1, n as int, 4, 4);
            assert(t1[n as int].take(0) + t1[n as int].skip(4) =~= t[n as int]);
            assert(t1.update(n as int, t[n as int]) =~= t);
        },
        _ => {},
    }
}

/// Undo right after deleting a range within one line (starting inside the line, and
/// not holding a newline character) gives back the text and cursor from before.
pub proof fn law_undo_reverts_delete_range(
    before: Buffer,
    start: Position,
    end: Position,
    edited: Buffer,
    undone: Buffer,
    r: bool,
)
    requires
        start.row == end.row,
        start.row < before.lines@.len(),
        start.col <= end.col,
        start.col <= before.text()[start.row as int].len(),
        before.text()[start.row as int].len() <= usize::MAX,
        forall|i: int|
            0 <= i < crate::text::range_text(before.text(), start, end).len() ==> crate::text::range_text(
                before.text(),
                start,
                end,
            )[i] != '\n',
        before.undo_levels >= 1,
        edited.recorded(&before, OpView::Delete(start, crate::text::range_text(before.text(), start, end))),
        edited.text() == buffer::cut(before.text(), start, end),
        Buffer::undo_step(&edited, &undone, r),
    ensures
        buffer::unapply_ok(edited.text(), edited.undo_stack@.last().operations@),
        r,
        undone.text() == before.text(),
        undone.cursor == before.cursor,
{
    let t = before.text();
    let row = start.row as int;
    let l = t[row];
    let sc = start.col as int;
    let ec = crate::text::min_int(end.col as int, l.len() as int);
    let d = l.subrange(sc, ec);
    lemma_recorded_last(before, edited, OpView::Delete(start, d));
    let ops = edited.undo_stack@.last().operations@;
    lemma_unapply_single(edited.text(), ops);
    let t1 = edited.text();
    match ops[0] {
        EditOperation::Delete { pos, text } => {
            assert(t1[row] == l.take(sc) + l.skip(ec));
            lemma_ins_in_line(t1, row, sc, d);
            assert(buffer::splice(t1[row], sc, d) =~= l);
            assert(t1.update(row, l) =~= t);
        },
        _ => {},
    }
}

/// Undo right after replacing a range within one line (starting inside the line, the
/// replaced text holding no newline character) gives back the text and cursor from before.
pub proof fn law_undo_reverts_replace_range(
    before: Buffer,
    start: Position,
    end: Position,
    new_text: Seq<char>,
    edited: Buffer,
    undone: Buffer,
    r: bool,
)
    requires
        start.row == end.row,
        start.row < before.lines@.len(),
        start.col <= end.col,
        start.col <= before.text()[start.row as int].len(),
        before.text()[start.row as int].len() + new_text.len() <= usize::MAX,
        forall|i: int|
            0 <= i < crate::text::range_text(before.text(), start, end).len() ==> crate::text::range_text(
                before.text(),
                start,
                end,
            )[i] != '\n',
        before.undo_levels >= 1,
        edited.recorded(
            &before,
            OpView::Replace(start, crate::text::range_text(before.text(), start, end), new_text),
        ),
        ({
            let l = before.text()[start.row as int];
            let ec = crate::text::min_int(end.col as int, l.len() as int);
            edited.text() == before.text().update(
                start.row as int,
                l.take(start.col as int) + new_text + l.skip(ec),
            )
        }),
        Buffer::undo_step(&edited, &undone, r),
    ensures
        buffer::unapply_ok(edited.text(), edited.undo_stack@.last().operations@),
        r,
        undone.text() == before.text(),
        undone.cursor == before.cursor,
{
    let t = before.text();
    let row = start.row as int;
    let l = t[row];
    let sc = start.col as int;
    let ec = crate::text::min_int(end.col as int, l.len() as int);
    let d = l.subrange(sc, ec);
    lemma_recorded_last(before, edited, OpView::Replace(start, d, new_text));
    let ops = edited.undo_stack@.last().operations@;
    lemma_unapply_single(edited.text(), ops);
    let t1 = edited.text();
    match ops[0] {
        EditOperation::Replace { pos, old, new } => {
            let k = new_text.len();
            lemma_rights_in_line(t1, row, sc, k);
            lemma_dels_in_line(t1, row, sc + k, k);
            let t2 = t1.update(row, t1[row].take(sc) + t1[row].skip(sc + k));
            assert(t2[row] =~= l.take(sc) + l.skip(ec));
            lemma_ins_in_line(t2, row, sc, d);
            assert(buffer::splice(t2[row], sc, d) =~= l);
            assert(t2.update(row, l) =~= t);
        },
        _ => {},
    }
}

} // verus!
