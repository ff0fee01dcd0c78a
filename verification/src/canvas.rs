//! The canvas as a mathematical object: rows of cells, what a resize and an
//! edit make of it, and what a sequence of edits makes of it.

use vstd::prelude::*;
use crate::records::{Color, Pixel};

verus! {

/// The colour of a cell that no edit has touched: white.
pub open spec fn spec_default_color() -> Color {
    Color { red: 255, green: 255, blue: 255 }
}

/// Whether `cells` has `height` rows of `width` cells each.
pub open spec fn spec_rectangular(cells: Seq<Seq<Color>>, width: nat, height: nat) -> bool {
    &&& cells.len() == height
    &&& forall|y: int| 0 <= y < height ==> (#[trigger] cells[y]).len() == width
}

/// The canvas of `height` rows of `width` cells that keeps every cell of
/// `cells` that still has a place, and is white elsewhere.
pub open spec fn spec_resized(cells: Seq<Seq<Color>>, width: nat, height: nat) -> Seq<Seq<Color>> {
    Seq::new(
        height,
        |y: int|
            Seq::new(
                width,
                |x: int|
                    if y < cells.len() && x < cells[y].len() {
                        cells[y][x]
                    } else {
                        spec_default_color()
                    },
            ),
    )
}

/// Whether the cell that `edit` names exists in `cells`.
pub open spec fn spec_in_bounds(cells: Seq<Seq<Color>>, edit: Pixel) -> bool {
    edit.y < cells.len() && edit.x < cells[edit.y as int].len()
}

/// The canvas after `edit`: the named cell takes the colour; an edit outside
/// the canvas changes nothing.
pub open spec fn spec_apply_edit(cells: Seq<Seq<Color>>, edit: Pixel) -> Seq<Seq<Color>> {
    if spec_in_bounds(cells, edit) {
        cells.update(edit.y as int, cells[edit.y as int].update(edit.x as int, edit.color))
    } else {
        cells
    }
}

/// The canvas after `edits`, applied in order.
pub open spec fn spec_replay(cells: Seq<Seq<Color>>, edits: Seq<Pixel>) -> Seq<Seq<Color>>
    decreases edits.len(),
{
    if edits.len() == 0 {
        cells
    } else {
        spec_replay(spec_apply_edit(cells, edits[0]), edits.skip(1))
    }
}

/// The canvas after the sizes of `sizes`, each a width and a height, were set
/// one after the other.
pub open spec fn spec_resized_through(cells: Seq<Seq<Color>>, sizes: Seq<(nat, nat)>) -> Seq<
    Seq<Color>,
>
    decreases sizes.len(),
{
    if sizes.len() == 0 {
        cells
    } else {
        spec_resized_through(spec_resized(cells, sizes[0].0, sizes[0].1), sizes.skip(1))
    }
}

/// A resized canvas has the height and the width that were asked for, in
/// every row.
pub proof fn lemma_resized_rectangular(cells: Seq<Seq<Color>>, width: nat, height: nat)
    ensures
        spec_rectangular(spec_resized(cells, width, height), width, height),
{
}

/// After any sequence of resizes, growing or shrinking in any order, the
/// canvas has the last height that was set, and every row the last width.
pub proof fn lemma_resize_sequence_rectangular(cells: Seq<Seq<Color>>, sizes: Seq<(nat, nat)>)
    requires
        sizes.len() > 0,
    ensures
        spec_rectangular(spec_resized_through(cells, sizes), sizes.last().0, sizes.last().1),
    decreases sizes.len(),
{
    let next = spec_resized(cells, sizes[0].0, sizes[0].1);
    if sizes.len() == 1 {
        assert(spec_resized_through(next, sizes.skip(1)) == next);
    } else {
        lemma_resize_sequence_rectangular(next, sizes.skip(1));
    }
}

/// Setting the height and then the width gives the canvas that setting both
/// at once gives.
pub proof fn lemma_resize_height_then_width(
    cells: Seq<Seq<Color>>,
    old_width: nat,
    old_height: nat,
    width: nat,
    height: nat,
)
    requires
        spec_rectangular(cells, old_width, old_height),
    ensures
        spec_resized(spec_resized(cells, old_width, height), width, height) == spec_resized(
            cells,
            width,
            height,
        ),
{
    let tall = spec_resized(cells, old_width, height);
    assert(spec_resized(tall, width, height) =~~= spec_resized(cells, width, height));
}

/// An edit keeps the shape of the canvas.
pub proof fn lemma_apply_edit_rectangular(
    cells: Seq<Seq<Color>>,
    width: nat,
    height: nat,
    edit: Pixel,
)
    requires
        spec_rectangular(cells, width, height),
    ensures
        spec_rectangular(spec_apply_edit(cells, edit), width, height),
{
}

/// An edit outside the canvas leaves every cell as it was.
pub proof fn lemma_out_of_bounds_edit(cells: Seq<Seq<Color>>, width: nat, height: nat, edit: Pixel)
    requires
        spec_rectangular(cells, width, height),
        edit.x >= width || edit.y >= height,
    ensures
        spec_apply_edit(cells, edit) == cells,
{
}

/// Replaying one sequence of edits and then another is replaying the two
/// joined.
pub proof fn lemma_replay_concat(cells: Seq<Seq<Color>>, first: Seq<Pixel>, second: Seq<Pixel>)
    ensures
        spec_replay(cells, first + second) == spec_replay(spec_replay(cells, first), second),
    decreases first.len(),
{
    if first.len() == 0 {
        assert(first + second == second);
    } else {
        assert((first + second).skip(1) == first.skip(1) + second);
        lemma_replay_concat(spec_apply_edit(cells, first[0]), first.skip(1), second);
    }
}

/// Replaying a sequence with one more edit at its end is replaying the
/// sequence and then applying that edit.
pub proof fn lemma_replay_push(cells: Seq<Seq<Color>>, edits: Seq<Pixel>, edit: Pixel)
    ensures
        spec_replay(cells, edits.push(edit)) == spec_apply_edit(spec_replay(cells, edits), edit),
{
    lemma_replay_concat(cells, edits, seq![edit]);
    assert(edits.push(edit) == edits + seq![edit]);
    let after = spec_replay(cells, edits);
    assert(spec_replay(after, seq![edit]) == spec_replay(
        spec_apply_edit(after, edit),
        seq![edit].skip(1),
    ));
}

} // verus!
