//! Drawing with clipping at the left edge.
//!
//! A train that leaves the viewport on the left is still drawn as far
//! as it is in sight: of a line that starts left of column 0 the hidden
//! characters are dropped and the rest is drawn from column 0 on. What
//! sticks out on the right, at the top or at the bottom is left to the
//! surface that is drawn on, which discards it.

use vstd::prelude::*;
use vstd::string::StrSliceExecFns;
use crate::text::views;

verus! {

/// An instruction to draw a text, its first character at the given cell.
#[derive(Debug, PartialEq, Eq)]
pub struct Draw {
    /// The column of the first character.
    pub column: i128,
    /// The row, counted downwards from 0 at the top of the viewport.
    pub row: i128,
    /// The characters to draw, from left to right.
    pub text: String,
}

/// A draw instruction as a mathematical value.
pub struct DrawView {
    pub column: int,
    pub row: int,
    pub text: Seq<char>,
}

impl View for Draw {
    type V = DrawView;

    open spec fn view(&self) -> DrawView {
        DrawView { column: self.column as int, row: self.row as int, text: self.text@ }
    }
}

/// The values that a list of draw instructions stands for.
pub open spec fn draw_views(draws: Seq<Draw>) -> Seq<DrawView> {
    draws.map_values(|draw: Draw| draw@)
}

/// What is in sight of a line that starts at `column`: the column to
/// draw at and the characters to draw, or nothing where the whole line
/// is left of column 0.
pub open spec fn clip(line: Seq<char>, column: int) -> Option<(int, Seq<char>)> {
    if column >= 0 {
        Some((column, line))
    } else if -column >= line.len() {
        None
    } else {
        Some((0, line.skip(-column)))
    }
}

/// The draw instructions for `lines`, the first of them in row `top`
/// and each starting at `column`, from top to bottom. A line that is
/// wholly out of sight on the left has no instruction.
pub open spec fn draw_lines(lines: Seq<Seq<char>>, column: int, top: int) -> Seq<DrawView>
    decreases lines.len(),
{
    if lines.len() == 0 {
        Seq::empty()
    } else {
        let above = draw_lines(lines.drop_last(), column, top);
        match clip(lines.last(), column) {
            Some((at, text)) => above.push(DrawView { column: at, row: top + lines.len() - 1, text }),
            None => above,
        }
    }
}

/// Clips `line`, which starts at `column`, at the left edge of the
/// viewport.
pub fn clip_line<'a>(line: &'a str, column: i128) -> (visible: Option<(i128, &'a str)>)
    ensures
        match visible {
            Some((at, text)) => clip(line@, column as int) == Some((at as int, text@)),
            None => clip(line@, column as int) is None,
        },
{
    if column >= 0 {
        return Some((column, line));
    }
    let len = line.unicode_len();
    if column <= -(len as i128) {
        return None;
    }
    let hidden = (-column) as usize;
    Some((0, line.substring_char(hidden, len)))
}

/// Appends to `draws` the instructions for `lines`, the first of them in
/// row `top` and each starting at `column`. The rows have to be ones
/// that `i128` can hold.
pub fn push_lines(draws: &mut Vec<Draw>, lines: &Vec<String>, column: i128, top: i128)
    requires
        top + lines.len() <= i128::MAX,
    ensures
        draw_views(final(draws)@) == draw_views(old(draws)@) + draw_lines(
            views(lines@),
            column as int,
            top as int,
        ),
{
    let ghost before = draw_views(draws@);
    let ghost all = views(lines@);
    let mut i: usize = 0;
    while i < lines.len()
        invariant
            i <= lines.len(),
            top + lines.len() <= i128::MAX,
            all == views(lines@),
            draw_views(draws@) == before + draw_lines(all.take(i as int), column as int, top as int),
        decreases lines.len() - i,
    {
        proof {
            let upto = all.take(i + 1);
            assert(upto.drop_last() =~= all.take(i as int));
        }
        match clip_line(lines[i].as_str(), column) {
            Some((at, text)) => {
                let draw = Draw { column: at, row: top + i as i128, text: text.to_owned() };
                proof {
                    let sofar = draw_lines(all.take(i as int), column as int, top as int);
                    assert((before + sofar).push(draw@) =~= before + sofar.push(draw@));
                }
                draws.push(draw);
            },
            None => {},
        }
        i += 1;
    }
    assert(all.take(i as int) =~= all);
}

/// What is drawn of a line never starts left of column 0 and is the
/// line without the characters that lie left of it. Nothing is drawn
/// of a line exactly where even its last character lies left of
/// column 0.
pub proof fn lemma_clip_keeps_what_is_in_sight(line: Seq<char>, column: int)
    ensures
        match clip(line, column) {
            Some((at, text)) => {
                &&& at == if column >= 0 {
                    column
                } else {
                    0
                }
                &&& text == line.skip(at - column)
                &&& at + text.len() == column + line.len()
            },
            None => column < 0 && column + line.len() <= 0,
        },
{
    if column >= 0 {
        assert(line.skip(0) =~= line);
    }
}

/// Lines that all end left of column 0 leave nothing to draw.
pub proof fn lemma_lines_out_of_sight(lines: Seq<Seq<char>>, column: int, top: int)
    requires
        column < 0,
        forall|i: int| 0 <= i < lines.len() ==> column + (#[trigger] lines[i]).len() <= 0,
    ensures
        draw_lines(lines, column, top) == Seq::<DrawView>::empty(),
    decreases lines.len(),
{
    if lines.len() > 0 {
        let above = lines.drop_last();
        assert forall|i: int| 0 <= i < above.len() implies column + (#[trigger] above[i]).len()
            <= 0 by {
            assert(above[i] == lines[i]);
        }
        lemma_lines_out_of_sight(above, column, top);
        assert(column + lines[lines.len() - 1].len() <= 0);
    }
}

} // verus!
