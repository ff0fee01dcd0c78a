//! The shared state of the canvas: the grid, the log of edits since the last
//! checkpoint, and the two frames that a client is greeted with.

use vstd::prelude::*;
use crate::canvas::{
    lemma_resize_height_then_width, spec_apply_edit, spec_default_color, spec_in_bounds,
    spec_rectangular, spec_resized,
};
use crate::frames::{
    encode_delta_frame, encode_grid_frame, spec_delta_frame, spec_delta_frame_encodable,
    spec_grid_frame, spec_grid_frame_encodable,
};
use crate::laws::lemma_delta_round_trip;
use crate::records::{Color, DeltaGrid, EncodeError, Grid, Pixel, Row};

verus! {

impl Color {
    /// The colour with the given channels.
    pub fn new(red: u8, green: u8, blue: u8) -> (c: Color)
        ensures
            c == (Color { red, green, blue }),
    {
        Color { red, green, blue }
    }
}

impl Default for Color {
    /// White, the colour of a cell that no edit has touched.
    fn default() -> (c: Color)
        ensures
            c == spec_default_color(),
    {
        Color::new(255, 255, 255)
    }
}

/// A row of `width` white cells.
fn blank_row(width: usize) -> (row: Row)
    ensures
        row@ == Seq::new(width as nat, |x: int| spec_default_color()),
{
    let mut pixels: Vec<Color> = Vec::new();
    let mut x: usize = 0;
    while x < width
        invariant
            x <= width,
            pixels@ == Seq::new(x as nat, |x: int| spec_default_color()),
        decreases width - x,
    {
        pixels.push(Color::default());
        x += 1;
        assert(pixels@ =~= Seq::new(x as nat, |x: int| spec_default_color()));
    }
    Row { pixels }
}

/// What a `State` holds, as plain values.
pub struct StateView {
    /// Number of cells in every row.
    pub width: nat,
    /// Number of rows.
    pub height: nat,
    /// The canvas, row by row.
    pub cells: Seq<Seq<Color>>,
    /// The edits logged since the last checkpoint, in the order of arrival.
    pub delta: Seq<Pixel>,
    /// The cached full-grid frame.
    pub grid_frame: Seq<u8>,
    /// The cached delta frame.
    pub delta_frame: Seq<u8>,
}

/// The state after a checkpoint: the grid frame is that of the canvas as it
/// is, the log is empty, and the delta frame is that of the empty log.
pub open spec fn spec_checkpoint(v: StateView) -> StateView {
    StateView {
        delta: Seq::empty(),
        grid_frame: spec_grid_frame(v.cells),
        delta_frame: spec_delta_frame(Seq::empty()),
        ..v
    }
}

/// The canvas with its delta log and its cached frames.
pub struct State {
    grid: Grid,
    delta: DeltaGrid,
    encoded_grid_data: Vec<u8>,
    encoded_delta_data: Vec<u8>,
    current_grid_size: (usize, usize),
}

impl View for State {
    type V = StateView;

    closed spec fn view(&self) -> StateView {
        StateView {
            width: self.current_grid_size.0 as nat,
            height: self.current_grid_size.1 as nat,
            cells: self.grid@,
            delta: self.delta@,
            grid_frame: self.encoded_grid_data@,
            delta_frame: self.encoded_delta_data@,
        }
    }
}

impl State {
    /// Whether the canvas has as many rows as the recorded height, each of as
    /// many cells as the recorded width.
    pub open spec fn well_formed(&self) -> bool {
        spec_rectangular(self@.cells, self@.width, self@.height)
    }

    /// Whether the state is well formed, by looking at every row.
    pub fn is_well_formed(&self) -> (ok: bool)
        ensures
            ok == self.well_formed(),
    {
        if self.grid.rows.len() != self.current_grid_size.1 {
            return false;
        }
        let mut y: usize = 0;
        while y < self.grid.rows.len()
            invariant
                y <= self.grid.rows.len(),
                self@.cells.len() == self@.height,
                forall|i: int| 0 <= i < y ==> (#[trigger] self@.cells[i]).len() == self@.width,
            decreases self.grid.rows.len() - y,
        {
            if self.grid.rows[y].pixels.len() != self.current_grid_size.0 {
                assert(self@.cells[y as int].len() != self@.width);
                return false;
            }
            y += 1;
        }
        true
    }

    /// An empty canvas, with an empty log and empty cached frames.
    pub fn new() -> (s: State)
        ensures
            s.well_formed(),
            s@ == (StateView {
                width: 0,
                height: 0,
                cells: Seq::empty(),
                delta: Seq::empty(),
                grid_frame: Seq::empty(),
                delta_frame: Seq::empty(),
            }),
    {
        let s = State {
            grid: Grid { rows: Vec::new() },
            delta: DeltaGrid { delta: Vec::new() },
            encoded_grid_data: Vec::new(),
            encoded_delta_data: Vec::new(),
            current_grid_size: (0, 0),
        };
        assert(s@.cells =~= Seq::empty());
        s
    }

    /// Number of cells in every row.
    pub fn get_grid_width(&self) -> (width: usize)
        ensures
            width == self@.width,
    {
        self.current_grid_size.0
    }

    /// Number of rows.
    pub fn get_grid_height(&self) -> (height: usize)
        ensures
            height == self@.height,
    {
        self.current_grid_size.1
    }

    /// The canvas, row by row.
    pub fn grid(&self) -> (grid: &Grid)
        ensures
            grid@ == self@.cells,
    {
        &self.grid
    }

    /// The edits logged since the last checkpoint.
    pub fn delta(&self) -> (log: &DeltaGrid)
        ensures
            log@ == self@.delta,
    {
        &self.delta
    }

    /// Sets the height and then the width of the canvas. Cells that still
    /// have a place keep their colour; new cells are white.
    pub fn set_grid_size(&mut self, new_width: usize, new_height: usize)
        requires
            old(self).well_formed(),
        ensures
            final(self).well_formed(),
            final(self)@ == (StateView {
                width: new_width as nat,
                height: new_height as nat,
                cells: spec_resized(old(self)@.cells, new_width as nat, new_height as nat),
                ..old(self)@
            }),
    {
        self.set_grid_height(new_height);
        self.set_grid_width(new_width);
        proof {
            lemma_resize_height_then_width(
                old(self)@.cells,
                old(self)@.width,
                old(self)@.height,
                new_width as nat,
                new_height as nat,
            );
        }
    }

    /// Sets the width of the canvas: every row grows by white cells at its
    /// end, or loses the cells at its end.
    pub fn set_grid_width(&mut self, new_width: usize)
        requires
            old(self).well_formed(),
        ensures
            final(self).well_formed(),
            final(self)@ == (StateView {
                width: new_width as nat,
                cells: spec_resized(old(self)@.cells, new_width as nat, old(self)@.height),
                ..old(self)@
            }),
    {
        if new_width > self.current_grid_size.0 {
            self.add_columns(new_width - self.current_grid_size.0);
        } else if new_width < self.current_grid_size.0 {
            self.remove_columns(self.current_grid_size.0 - new_width);
        } else {
            assert(self@.cells =~~= spec_resized(self@.cells, self@.width, self@.height));
        }
    }

    /// Sets the height of the canvas: it grows by white rows at its end, or
    /// loses the rows at its end.
    pub fn set_grid_height(&mut self, new_height: usize)
        requires
            old(self).well_formed(),
        ensures
            final(self).well_formed(),
            final(self)@ == (StateView {
                height: new_height as nat,
                cells: spec_resized(old(self)@.cells, old(self)@.width, new_height as nat),
                ..old(self)@
            }),
    {
        if new_height > self.current_grid_size.1 {
            self.add_rows(new_height - self.current_grid_size.1);
        } else if new_height < self.current_grid_size.1 {
            self.remove_rows(self.current_grid_size.1 - new_height);
        } else {
            assert(self@.cells =~~= spec_resized(self@.cells, self@.width, self@.height));
        }
    }

    /// Appends `number_of_rows` white rows.
    fn add_rows(&mut self, number_of_rows: usize)
        requires
            old(self).well_formed(),
            old(self)@.height + number_of_rows <= usize::MAX,
        ensures
            final(self).well_formed(),
            final(self)@ == (StateView {
                height: (old(self)@.height + number_of_rows) as nat,
                cells: spec_resized(
                    old(self)@.cells,
                    old(self)@.width,
                    (old(self)@.height + number_of_rows) as nat,
                ),
                ..old(self)@
            }),
    {
        let width = self.current_grid_size.0;
        let mut added: usize = 0;
        assert(self@.cells =~~= spec_resized(old(self)@.cells, old(self)@.width, old(self)@.height));
        while added < number_of_rows
            invariant
                added <= number_of_rows,
                old(self).well_formed(),
                old(self)@.height + number_of_rows <= usize::MAX,
                width == old(self)@.width,
                self@ == (StateView {
                    cells: spec_resized(
                        old(self)@.cells,
                        old(self)@.width,
                        (old(self)@.height + added) as nat,
                    ),
                    ..old(self)@
                }),
            decreases number_of_rows - added,
        {
            let ghost before = self@.cells;
            let row = blank_row(width);
            let ghost blank = row@;
            self.grid.rows.push(row);
            added += 1;
            assert(self@.cells.len() == before.len() + 1);
            assert(self@.cells[before.len() as int] == blank);
            assert forall|i: int| 0 <= i < before.len() implies #[trigger] self@.cells[i]
                == before[i] by {}
            assert(self@.cells =~~= spec_resized(
                old(self)@.cells,
                old(self)@.width,
                (old(self)@.height + added) as nat,
            ));
        }
        self.current_grid_size.1 += number_of_rows;
    }

    /// Appends `number_of_columns` white cells to every row.
    fn add_columns(&mut self, number_of_columns: usize)
        requires
            old(self).well_formed(),
            old(self)@.width + number_of_columns <= usize::MAX,
        ensures
            final(self).well_formed(),
            final(self)@ == (StateView {
                width: (old(self)@.width + number_of_columns) as nat,
                cells: spec_resized(
                    old(self)@.cells,
                    (old(self)@.width + number_of_columns) as nat,
                    old(self)@.height,
                ),
                ..old(self)@
            }),
    {
        let ghost wide = spec_resized(
            old(self)@.cells,
            (old(self)@.width + number_of_columns) as nat,
            old(self)@.height,
        );
        let mut y: usize = 0;
        while y < self.grid.rows.len()
            invariant
                y <= self.grid.rows.len(),
                old(self).well_formed(),
                old(self)@.width + number_of_columns <= usize::MAX,
                wide == spec_resized(
                    old(self)@.cells,
                    (old(self)@.width + number_of_columns) as nat,
                    old(self)@.height,
                ),
                self@.cells.len() == old(self)@.height,
                forall|i: int| 0 <= i < y ==> #[trigger] self@.cells[i] == wide[i],
                forall|i: int| y <= i < self@.cells.len() ==> #[trigger] self@.cells[i] == old(
                    self,
                )@.cells[i],
                self@ == (StateView { cells: self@.cells, ..old(self)@ }),
            decreases self.grid.rows.len() - y,
        {
            let ghost before = self@.cells;
            let mut added: usize = 0;
            while added < number_of_columns
                invariant
                    added <= number_of_columns,
                    y < self.grid.rows.len(),
                    old(self).well_formed(),
                    old(self)@.width + number_of_columns <= usize::MAX,
                    self@.cells.len() == before.len(),
                    before.len() == old(self)@.height,
                    before[y as int] == old(self)@.cells[y as int],
                    forall|i: int| 0 <= i < before.len() && i != y ==> #[trigger] self@.cells[i]
                        == before[i],
                    self@.cells[y as int] == before[y as int] + Seq::new(
                        added as nat,
                        |x: int| spec_default_color(),
                    ),
                    self@ == (StateView { cells: self@.cells, ..old(self)@ }),
                decreases number_of_columns - added,
            {
                let ghost mid = self@.cells;
                self.grid.rows[y].pixels.push(Color::default());
                added += 1;
                assert(self@.cells[y as int] == mid[y as int].push(spec_default_color()));
                assert forall|i: int| 0 <= i < before.len() && i != y implies #[trigger] self@.cells[i]
                    == mid[i] by {}
                assert(self@.cells[y as int] =~= before[y as int] + Seq::new(
                    added as nat,
                    |x: int| spec_default_color(),
                ));
                assert forall|i: int| 0 <= i < before.len() && i != y implies #[trigger] self@.cells[i]
                    == before[i] by {}
            }
            assert(self@.cells[y as int] =~= wide[y as int]);
            y += 1;
        }
        self.current_grid_size.0 += number_of_columns;
        assert(self@.cells =~= wide);
    }

    /// Drops the last `number_of_rows` rows, or all rows if there are fewer.
    fn remove_rows(&mut self, number_of_rows: usize)
        requires
            old(self).well_formed(),
        ensures
            final(self).well_formed(),
            final(self)@ == (StateView {
                height: if number_of_rows <= old(self)@.height {
                    (old(self)@.height - number_of_rows) as nat
                } else {
                    0
                },
                cells: spec_resized(
                    old(self)@.cells,
                    old(self)@.width,
                    if number_of_rows <= old(self)@.height {
                        (old(self)@.height - number_of_rows) as nat
                    } else {
                        0
                    },
                ),
                ..old(self)@
            }),
    {
        let final_number_of_rows = self.current_grid_size.1.saturating_sub(number_of_rows);
        self.grid.rows.truncate(final_number_of_rows);
        self.current_grid_size.1 = final_number_of_rows;
        assert(self@.cells =~~= spec_resized(
            old(self)@.cells,
            old(self)@.width,
            final_number_of_rows as nat,
        ));
    }

    /// Drops the last `number_of_columns` cells of every row, or all cells if
    /// there are fewer.
    fn remove_columns(&mut self, number_of_columns: usize)
        requires
            old(self).well_formed(),
        ensures
            final(self).well_formed(),
            final(self)@ == (StateView {
                width: if number_of_columns <= old(self)@.width {
                    (old(self)@.width - number_of_columns) as nat
                } else {
                    0
                },
                cells: spec_resized(
                    old(self)@.cells,
                    if number_of_columns <= old(self)@.width {
                        (old(self)@.width - number_of_columns) as nat
                    } else {
                        0
                    },
                    old(self)@.height,
                ),
                ..old(self)@
            }),
    {
        let final_number_of_columns = self.current_grid_size.0.saturating_sub(number_of_columns);
        let ghost narrow = spec_resized(
            old(self)@.cells,
            final_number_of_columns as nat,
            old(self)@.height,
        );
        let mut y: usize = 0;
        while y < self.grid.rows.len()
            invariant
                y <= self.grid.rows.len(),
                old(self).well_formed(),
                final_number_of_columns <= old(self)@.width,
                narrow == spec_resized(
                    old(self)@.cells,
                    final_number_of_columns as nat,
                    old(self)@.height,
                ),
                self@.cells.len() == old(self)@.height,
                forall|i: int| 0 <= i < y ==> #[trigger] self@.cells[i] == narrow[i],
                forall|i: int| y <= i < self@.cells.len() ==> #[trigger] self@.cells[i] == old(
                    self,
                )@.cells[i],
                self@ == (StateView { cells: self@.cells, ..old(self)@ }),
            decreases self.grid.rows.len() - y,
        {
            let ghost before = self@.cells;
            assert(before[y as int] == old(self)@.cells[y as int]);
            assert(old(self)@.cells[y as int].len() == old(self)@.width);
            self.grid.rows[y].pixels.truncate(final_number_of_columns);
            assert(self@.cells[y as int] == before[y as int].subrange(
                0,
                final_number_of_columns as int,
            ));
            assert(self@.cells[y as int] =~= narrow[y as int]);
            assert forall|i: int| 0 <= i < before.len() && i != y implies #[trigger] self@.cells[i]
                == before[i] by {}
            y += 1;
        }
        self.current_grid_size.0 = final_number_of_columns;
        assert(self@.cells =~= narrow);
    }

    /// Writes `pixel` into its cell if the canvas has that cell, and says
    /// whether it has. An edit outside the canvas changes nothing.
    pub fn set_pixel(&mut self, pixel: Pixel) -> (applied: bool)
        requires
            old(self).well_formed(),
        ensures
            final(self).well_formed(),
            applied == spec_in_bounds(old(self)@.cells, pixel),
            applied == (pixel.x < old(self)@.width && pixel.y < old(self)@.height),
            final(self)@ == (StateView {
                cells: spec_apply_edit(old(self)@.cells, pixel),
                ..old(self)@
            }),
    {
        let x = pixel.x as usize;
        let y = pixel.y as usize;
        if y < self.grid.rows.len() && x < self.grid.rows[y].pixels.len() {
            self.grid.rows[y].pixels[x] = pixel.color;
            assert(self@.cells =~~= spec_apply_edit(old(self)@.cells, pixel));
            true
        } else {
            false
        }
    }

    /// Appends `new_pixel` to the delta log.
    pub fn add_pixel_to_delta(&mut self, new_pixel: Pixel)
        ensures
            final(self)@ == (StateView { delta: old(self)@.delta.push(new_pixel), ..old(self)@ }),
    {
        self.delta.delta.push(new_pixel);
    }

    /// Hands out the delta log and leaves it empty.
    pub fn take_and_clear_delta(&mut self) -> (taken: Vec<Pixel>)
        ensures
            taken@ == old(self)@.delta,
            final(self)@ == (StateView { delta: Seq::empty(), ..old(self)@ }),
    {
        let mut taken: Vec<Pixel> = Vec::new();
        taken.append(&mut self.delta.delta);
        taken
    }

    /// The cached full-grid frame.
    pub fn get_encoded_grid_data_cloned(&self) -> (frame: Vec<u8>)
        ensures
            frame@ == self@.grid_frame,
    {
        self.encoded_grid_data.clone()
    }

    /// The cached delta frame.
    pub fn get_encoded_delta_data_cloned(&self) -> (frame: Vec<u8>)
        ensures
            frame@ == self@.delta_frame,
    {
        self.encoded_delta_data.clone()
    }

    /// Encodes the delta log as it is into the cached delta frame. A log that
    /// does not fit a frame is refused, and the state stays as it was.
    pub fn set_new_encoded_delta_data(&mut self) -> (r: Result<(), EncodeError>)
        ensures
            spec_delta_frame_encodable(old(self)@.delta) ==> r.is_ok() && final(self)@ == (StateView {
                delta_frame: spec_delta_frame(old(self)@.delta),
                ..old(self)@
            }),
            !spec_delta_frame_encodable(old(self)@.delta) ==> r == Err::<(), EncodeError>(
                EncodeError::LengthExceeds32Bits,
            ) && final(self)@ == old(self)@,
    {
        match encode_delta_frame(&self.delta) {
            Ok(frame) => {
                self.encoded_delta_data = frame;
                Ok(())
            },
            Err(e) => Err(e),
        }
    }

    /// Takes a checkpoint: encodes the canvas into the cached full-grid
    /// frame, empties the delta log, and encodes the empty log into the
    /// cached delta frame. A canvas that does not fit a frame is refused, and
    /// the state stays as it was.
    pub fn set_new_encoded_grid_data(&mut self) -> (r: Result<(), EncodeError>)
        ensures
            spec_grid_frame_encodable(old(self)@.cells) ==> r.is_ok() && final(self)@
                == spec_checkpoint(old(self)@),
            !spec_grid_frame_encodable(old(self)@.cells) ==> r == Err::<(), EncodeError>(
                EncodeError::LengthExceeds32Bits,
            ) && final(self)@ == old(self)@,
    {
        match encode_grid_frame(&self.grid) {
            Ok(frame) => {
                self.encoded_grid_data = frame;
                let _ = self.take_and_clear_delta();
                proof {
                    lemma_delta_round_trip(Seq::empty(), Seq::empty());
                }
                self.set_new_encoded_delta_data()
            },
            Err(e) => Err(e),
        }
    }
}

} // verus!
