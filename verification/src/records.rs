//! The records that travel on the wire, their byte layout, and the functions
//! that write and read them.

use vstd::prelude::*;
use crate::primitives::{read_len, read_u32, read_u8, write_bytes, write_len, write_u32, write_u8};
use crate::primitives::{spec_u32_from_le, spec_u32_le};

verus! {

/// Version of the protocol that this implementation speaks.
pub const PROTOCOL_VERSION: u32 = 1;

/// Opcode of a frame whose payload is a full grid.
pub const GRID_OPCODE: u32 = 1;

/// Opcode of a frame whose payload is a single pixel edit.
pub const PIXEL_OPCODE: u32 = 2;

/// Opcode of a frame whose payload is a delta log.
pub const DELTA_GRID_OPCODE: u32 = 3;

/// Why a value could not be written.
#[derive(Clone, Copy, Debug, PartialEq, Eq, Structural)]
pub enum EncodeError {
    /// An array holds more than `u32::MAX` items, so its length has no prefix.
    LengthExceeds32Bits,
}

/// Why a buffer could not be read.
#[derive(Clone, Copy, Debug, PartialEq, Eq, Structural)]
pub enum DecodeError {
    /// The buffer ends early: at least this many more bytes are needed.
    MoreDataExpected(u64),
    /// The frame carries another protocol version than `PROTOCOL_VERSION`.
    VersionMismatch(u32),
    /// The frame carries another opcode than the one asked for.
    UnexpectedOpcode(u32),
}

/// A colour: three 8-bit channels, compared by value.
#[derive(Clone, Copy, Debug, PartialEq, Eq, Structural)]
pub struct Color {
    pub red: u8,
    pub green: u8,
    pub blue: u8,
}

/// A single committed edit: the cell at column `x` of row `y` takes `color`.
#[derive(Clone, Copy, Debug, PartialEq, Eq, Structural)]
pub struct Pixel {
    pub x: u32,
    pub y: u32,
    pub color: Color,
}

/// A row of the grid: its cells from left to right.
#[derive(Clone, Debug, PartialEq, Eq)]
pub struct Row {
    pub pixels: Vec<Color>,
}

impl View for Row {
    type V = Seq<Color>;

    open spec fn view(&self) -> Seq<Color> {
        self.pixels@
    }
}

/// The cells of a row of each of `rows`.
pub open spec fn spec_rows_view(rows: Seq<Row>) -> Seq<Seq<Color>> {
    Seq::new(rows.len(), |i: int| rows[i]@)
}

/// A full grid: its rows from top to bottom. On the wire the rows need not
/// have one length.
#[derive(Clone, Debug, PartialEq, Eq)]
pub struct Grid {
    pub rows: Vec<Row>,
}

impl View for Grid {
    type V = Seq<Seq<Color>>;

    open spec fn view(&self) -> Seq<Seq<Color>> {
        spec_rows_view(self.rows@)
    }
}

/// A delta log: edits in the order in which they were applied.
#[derive(Clone, Debug, PartialEq, Eq)]
pub struct DeltaGrid {
    pub delta: Vec<Pixel>,
}

impl View for DeltaGrid {
    type V = Seq<Pixel>;

    open spec fn view(&self) -> Seq<Pixel> {
        self.delta@
    }
}

/// What a frame says: the protocol version, the opcode that tells how to read
/// the payload, and the payload.
pub struct Envelope {
    pub protocol_version: u32,
    pub opcode: u32,
    pub payload: Seq<u8>,
}

/// A frame as it travels: an envelope with its payload still encoded.
#[derive(Clone, Debug, PartialEq, Eq)]
pub struct BebopData {
    pub protocol_version: u32,
    pub opcode: u32,
    pub encoded_data: Vec<u8>,
}

impl View for BebopData {
    type V = Envelope;

    open spec fn view(&self) -> Envelope {
        Envelope {
            protocol_version: self.protocol_version,
            opcode: self.opcode,
            payload: self.encoded_data@,
        }
    }
}

/// Bytes of a colour on the wire.
pub const COLOR_SIZE: usize = 3;

/// Bytes of a pixel edit on the wire.
pub const PIXEL_SIZE: usize = 11;

/// A colour on the wire: red, green, blue.
pub open spec fn spec_color_bytes(c: Color) -> Seq<u8> {
    seq![c.red, c.green, c.blue]
}

/// A pixel edit on the wire: `x`, `y`, then the colour.
pub open spec fn spec_pixel_bytes(p: Pixel) -> Seq<u8> {
    spec_u32_le(p.x) + spec_u32_le(p.y) + spec_color_bytes(p.color)
}

/// The colour whose bytes start at position `at` of `raw`.
pub open spec fn spec_color_at(raw: Seq<u8>, at: int) -> Color {
    Color { red: raw[at], green: raw[at + 1], blue: raw[at + 2] }
}

/// The pixel edit whose bytes start at position `at` of `raw`.
pub open spec fn spec_pixel_at(raw: Seq<u8>, at: int) -> Pixel {
    Pixel {
        x: spec_u32_from_le(raw.skip(at)),
        y: spec_u32_from_le(raw.skip(at + 4)),
        color: spec_color_at(raw, at + 8),
    }
}

/// Colours on the wire, one after the other: byte `k` is channel `k % 3` of
/// colour `k / 3`.
pub open spec fn spec_colors_bytes(colors: Seq<Color>) -> Seq<u8> {
    Seq::new(3 * colors.len(), |k: int| spec_color_bytes(colors[k / 3])[k % 3])
}

/// A row on the wire: the number of its cells, then their colours.
pub open spec fn spec_row_bytes(row: Seq<Color>) -> Seq<u8> {
    spec_u32_le(row.len() as u32) + spec_colors_bytes(row)
}

/// The `count` colours that `raw` holds from position `at` on.
pub open spec fn spec_colors_at(raw: Seq<u8>, at: int, count: nat) -> Seq<Color> {
    Seq::new(count, |i: int| spec_color_at(raw, at + 3 * i))
}

/// The row at the front of `raw`, or how many bytes it lacks.
pub open spec fn spec_parse_row(raw: Seq<u8>) -> Result<(nat, Seq<Color>), DecodeError> {
    if raw.len() < 4 {
        Err(DecodeError::MoreDataExpected((4 - raw.len()) as u64))
    } else {
        let count = spec_u32_from_le(raw) as nat;
        if 4 + 3 * count > raw.len() {
            Err(DecodeError::MoreDataExpected((4 + 3 * count - raw.len()) as u64))
        } else {
            Ok((4 + 3 * count, spec_colors_at(raw, 4, count)))
        }
    }
}

/// Rows on the wire, one after the other.
pub open spec fn spec_rows_bytes(rows: Seq<Seq<Color>>) -> Seq<u8>
    decreases rows.len(),
{
    if rows.len() == 0 {
        Seq::empty()
    } else {
        spec_row_bytes(rows[0]) + spec_rows_bytes(rows.skip(1))
    }
}

/// A grid on the wire: the number of its rows, then the rows.
pub open spec fn spec_grid_bytes(rows: Seq<Seq<Color>>) -> Seq<u8> {
    spec_u32_le(rows.len() as u32) + spec_rows_bytes(rows)
}

/// Whether every row has a length that fits a length prefix.
pub open spec fn spec_rows_encodable(rows: Seq<Seq<Color>>) -> bool {
    forall|i: int| 0 <= i < rows.len() ==> (#[trigger] rows[i]).len() <= u32::MAX
}

/// Whether a grid can be written: the number of rows and the length of every
/// row fit a length prefix.
pub open spec fn spec_grid_encodable(rows: Seq<Seq<Color>>) -> bool {
    rows.len() <= u32::MAX && spec_rows_encodable(rows)
}

/// The `count` rows at the front of `raw` with the bytes they take, or the
/// error of the first row that cannot be read.
pub open spec fn spec_parse_rows(raw: Seq<u8>, count: nat) -> Result<
    (nat, Seq<Seq<Color>>),
    DecodeError,
>
    decreases count,
{
    if count == 0 {
        Ok((0, Seq::empty()))
    } else {
        match spec_parse_row(raw) {
            Err(e) => Err(e),
            Ok((n, row)) => match spec_parse_rows(raw.skip(n as int), (count - 1) as nat) {
                Err(e) => Err(e),
                Ok((m, rest)) => Ok((n + m, seq![row] + rest)),
            },
        }
    }
}

/// The grid at the front of `raw`, or the error of the first part of it that
/// cannot be read.
pub open spec fn spec_parse_grid(raw: Seq<u8>) -> Result<(nat, Seq<Seq<Color>>), DecodeError> {
    if raw.len() < 4 {
        Err(DecodeError::MoreDataExpected((4 - raw.len()) as u64))
    } else {
        match spec_parse_rows(raw.skip(4), spec_u32_from_le(raw) as nat) {
            Err(e) => Err(e),
            Ok((n, rows)) => Ok((4 + n, rows)),
        }
    }
}

/// Pixel edits on the wire, one after the other: byte `k` is byte `k % 11` of
/// edit `k / 11`.
pub open spec fn spec_pixels_bytes(edits: Seq<Pixel>) -> Seq<u8> {
    Seq::new(11 * edits.len(), |k: int| spec_pixel_bytes(edits[k / 11])[k % 11])
}

/// A delta log on the wire: the number of its edits, then the edits.
pub open spec fn spec_delta_bytes(edits: Seq<Pixel>) -> Seq<u8> {
    spec_u32_le(edits.len() as u32) + spec_pixels_bytes(edits)
}

/// The `count` pixel edits that `raw` holds from position `at` on.
pub open spec fn spec_pixels_at(raw: Seq<u8>, at: int, count: nat) -> Seq<Pixel> {
    Seq::new(count, |i: int| spec_pixel_at(raw, at + 11 * i))
}

/// The delta log at the front of `raw`, or how many bytes it lacks.
pub open spec fn spec_parse_delta(raw: Seq<u8>) -> Result<(nat, Seq<Pixel>), DecodeError> {
    if raw.len() < 4 {
        Err(DecodeError::MoreDataExpected((4 - raw.len()) as u64))
    } else {
        let count = spec_u32_from_le(raw) as nat;
        if 4 + 11 * count > raw.len() {
            Err(DecodeError::MoreDataExpected((4 + 11 * count - raw.len()) as u64))
        } else {
            Ok((4 + 11 * count, spec_pixels_at(raw, 4, count)))
        }
    }
}

/// A frame on the wire: version, opcode, the payload's length, the payload.
pub open spec fn spec_envelope_bytes(e: Envelope) -> Seq<u8> {
    spec_u32_le(e.protocol_version) + spec_u32_le(e.opcode) + spec_u32_le(e.payload.len() as u32)
        + e.payload
}

/// The frame at the front of `raw`, or how many bytes it lacks.
pub open spec fn spec_parse_envelope(raw: Seq<u8>) -> Result<(nat, Envelope), DecodeError> {
    if raw.len() < 12 {
        Err(DecodeError::MoreDataExpected((12 - raw.len()) as u64))
    } else {
        let len = spec_u32_from_le(raw.skip(8)) as nat;
        if 12 + len > raw.len() {
            Err(DecodeError::MoreDataExpected((12 + len - raw.len()) as u64))
        } else {
            Ok(
                (
                    12 + len,
                    Envelope {
                        protocol_version: spec_u32_from_le(raw),
                        opcode: spec_u32_from_le(raw.skip(4)),
                        payload: raw.subrange(12, 12 + len as int),
                    },
                ),
            )
        }
    }
}

/// The colour at the front of `raw`, or how many bytes it lacks.
pub open spec fn spec_parse_color(raw: Seq<u8>) -> Result<(nat, Color), DecodeError> {
    if raw.len() < 3 {
        Err(DecodeError::MoreDataExpected((3 - raw.len()) as u64))
    } else {
        Ok((3, spec_color_at(raw, 0)))
    }
}

/// The pixel edit at the front of `raw`, or how many bytes it lacks.
pub open spec fn spec_parse_pixel(raw: Seq<u8>) -> Result<(nat, Pixel), DecodeError> {
    if raw.len() < 11 {
        Err(DecodeError::MoreDataExpected((11 - raw.len()) as u64))
    } else {
        Ok((11, spec_pixel_at(raw, 0)))
    }
}

/// The value of a read that is known to have succeeded.
fn known<T>(r: Option<T>) -> (v: T)
    requires
        r.is_some(),
    ensures
        r == Some(v),
{
    match r {
        Some(v) => v,
        None => vstd::pervasive::unreached(),
    }
}

/// The value of a decoding that is known to have succeeded.
fn known_ok<T>(r: Result<T, DecodeError>) -> (v: T)
    requires
        r.is_ok(),
    ensures
        r == Ok::<T, DecodeError>(v),
{
    match r {
        Ok(v) => v,
        Err(_) => vstd::pervasive::unreached(),
    }
}

impl Color {
    /// Number of bytes `_serialize_chained` writes.
    pub fn serialized_size(&self) -> (n: usize)
        ensures
            n == spec_color_bytes(*self).len(),
            n == 3,
    {
        COLOR_SIZE
    }

    /// Appends the colour to `dest` and returns the number of bytes written.
    pub fn _serialize_chained(&self, dest: &mut Vec<u8>) -> (r: Result<usize, EncodeError>)
        ensures
            r == Ok::<usize, EncodeError>(3),
            final(dest)@ == old(dest)@ + spec_color_bytes(*self),
    {
        write_u8(dest, self.red);
        write_u8(dest, self.green);
        write_u8(dest, self.blue);
        Ok(COLOR_SIZE)
    }

    /// Reads a colour from the front of `raw`, with the number of bytes read.
    pub fn _deserialize_chained(raw: &[u8]) -> (r: Result<(usize, Color), DecodeError>)
        ensures
            match r {
                Ok((n, c)) => spec_parse_color(raw@) == Ok::<(nat, Color), DecodeError>((n as nat, c)),
                Err(e) => spec_parse_color(raw@) == Err::<(nat, Color), DecodeError>(e),
            },
    {
        if raw.len() < COLOR_SIZE {
            return Err(DecodeError::MoreDataExpected((COLOR_SIZE - raw.len()) as u64));
        }
        let red = known(read_u8(raw)).1;
        let green = known(read_u8(&raw[1..raw.len()])).1;
        let blue = known(read_u8(&raw[2..raw.len()])).1;
        Ok((COLOR_SIZE, Color { red, green, blue }))
    }
}

impl Pixel {
    /// Number of bytes `_serialize_chained` writes.
    pub fn serialized_size(&self) -> (n: usize)
        ensures
            n == spec_pixel_bytes(*self).len(),
            n == 11,
    {
        PIXEL_SIZE
    }

    /// Appends the edit to `dest` and returns the number of bytes written.
    pub fn _serialize_chained(&self, dest: &mut Vec<u8>) -> (r: Result<usize, EncodeError>)
        ensures
            r == Ok::<usize, EncodeError>(11),
            final(dest)@ == old(dest)@ + spec_pixel_bytes(*self),
    {
        write_u32(dest, self.x);
        write_u32(dest, self.y);
        let _ = self.color._serialize_chained(dest);
        assert(dest@ == old(dest)@ + spec_pixel_bytes(*self));
        Ok(PIXEL_SIZE)
    }

    /// Reads an edit from the front of `raw`, with the number of bytes read.
    pub fn _deserialize_chained(raw: &[u8]) -> (r: Result<(usize, Pixel), DecodeError>)
        ensures
            match r {
                Ok((n, p)) => spec_parse_pixel(raw@) == Ok::<(nat, Pixel), DecodeError>((n as nat, p)),
                Err(e) => spec_parse_pixel(raw@) == Err::<(nat, Pixel), DecodeError>(e),
            },
    {
        if raw.len() < PIXEL_SIZE {
            return Err(DecodeError::MoreDataExpected((PIXEL_SIZE - raw.len()) as u64));
        }
        let x = known(read_u32(raw)).1;
        let y = known(read_u32(&raw[4..raw.len()])).1;
        match Color::_deserialize_chained(&raw[8..raw.len()]) {
            Ok((_, color)) => {
                assert(raw@.skip(0) == raw@);
                Ok((PIXEL_SIZE, Pixel { x, y, color }))
            },
            Err(e) => Err(e),
        }
    }

    /// Appends the edit to `dest` as a whole record.
    pub fn serialize(&self, dest: &mut Vec<u8>) -> (r: Result<usize, EncodeError>)
        ensures
            r == Ok::<usize, EncodeError>(11),
            final(dest)@ == old(dest)@ + spec_pixel_bytes(*self),
    {
        self._serialize_chained(dest)
    }

    /// Reads an edit from the front of `raw` and ignores what follows it.
    pub fn deserialize(raw: &[u8]) -> (r: Result<Pixel, DecodeError>)
        ensures
            match r {
                Ok(p) => spec_parse_pixel(raw@) == Ok::<(nat, Pixel), DecodeError>((11, p)),
                Err(e) => spec_parse_pixel(raw@) == Err::<(nat, Pixel), DecodeError>(e),
            },
    {
        match Pixel::_deserialize_chained(raw) {
            Ok((_, p)) => Ok(p),
            Err(e) => Err(e),
        }
    }
}

impl Row {
    /// Number of bytes `_serialize_chained` writes.
    pub fn serialized_size(&self) -> (n: usize)
        requires
            spec_row_bytes(self@).len() <= usize::MAX,
        ensures
            n == spec_row_bytes(self@).len(),
    {
        self.pixels.len() * COLOR_SIZE + 4
    }

    /// Appends the row to `dest` and returns the number of bytes written. A
    /// row of more than `u32::MAX` cells is refused, and `dest` stays as it
    /// was.
    pub fn _serialize_chained(&self, dest: &mut Vec<u8>) -> (r: Result<usize, EncodeError>)
        ensures
            self@.len() <= u32::MAX ==> r == Ok::<usize, EncodeError>(
                spec_row_bytes(self@).len() as usize,
            ) && final(dest)@ == old(dest)@ + spec_row_bytes(self@),
            self@.len() > u32::MAX ==> r == Err::<usize, EncodeError>(
                EncodeError::LengthExceeds32Bits,
            ) && final(dest)@ == old(dest)@,
    {
        let start = dest.len();
        if !write_len(dest, self.pixels.len()) {
            return Err(EncodeError::LengthExceeds32Bits);
        }
        let mut i: usize = 0;
        while i < self.pixels.len()
            invariant
                i <= self.pixels.len(),
                start == old(dest)@.len(),
                dest@ == old(dest)@ + spec_u32_le(self@.len() as u32) + spec_colors_bytes(
                    self@.subrange(0, i as int),
                ),
            decreases self.pixels.len() - i,
        {
            let _ = self.pixels[i]._serialize_chained(dest);
            i += 1;
            assert(dest@ == old(dest)@ + spec_u32_le(self@.len() as u32) + spec_colors_bytes(
                self@.subrange(0, i as int),
            )) by {
                let wide = spec_colors_bytes(self@.subrange(0, i as int));
                let narrow = spec_colors_bytes(self@.subrange(0, i - 1));
                assert(wide =~= narrow + spec_color_bytes(self@[i - 1]));
            }
        }
        assert(self@.subrange(0, i as int) == self@);
        Ok(dest.len() - start)
    }

    /// Reads a row from the front of `raw`, with the number of bytes read.
    pub fn _deserialize_chained(raw: &[u8]) -> (r: Result<(usize, Row), DecodeError>)
        ensures
            match r {
                Ok((n, row)) => spec_parse_row(raw@) == Ok::<(nat, Seq<Color>), DecodeError>(
                    (n as nat, row@),
                ),
                Err(e) => spec_parse_row(raw@) == Err::<(nat, Seq<Color>), DecodeError>(e),
            },
    {
        if raw.len() < 4 {
            return Err(DecodeError::MoreDataExpected((4 - raw.len()) as u64));
        }
        let count = known(read_len(raw));
        let need: u64 = 4 + 3 * (count as u64);
        if need > raw.len() as u64 {
            return Err(DecodeError::MoreDataExpected(need - raw.len() as u64));
        }
        let mut pixels: Vec<Color> = Vec::new();
        let mut i: usize = 0;
        while i < count
            invariant
                i <= count,
                4 + 3 * count <= raw.len(),
                pixels@ == spec_colors_at(raw@, 4, i as nat),
            decreases count - i,
        {
            let at = 4 + 3 * i;
            let (_, color) = known_ok(Color::_deserialize_chained(&raw[at..raw.len()]));
            pixels.push(color);
            i += 1;
            assert(pixels@ == spec_colors_at(raw@, 4, i as nat));
        }
        Ok((need as usize, Row { pixels }))
    }
}

impl Grid {
    /// Number of bytes `_serialize_chained` writes.
    pub fn serialized_size(&self) -> (n: usize)
        requires
            spec_grid_bytes(self@).len() <= usize::MAX,
        ensures
            n == spec_grid_bytes(self@).len(),
    {
        let mut n: usize = 4;
        let mut i: usize = 0;
        assert(self@.skip(0) == self@);
        while i < self.rows.len()
            invariant
                i <= self.rows.len(),
                spec_grid_bytes(self@).len() <= usize::MAX,
                n + spec_rows_bytes(self@.skip(i as int)).len() == spec_grid_bytes(self@).len(),
            decreases self.rows.len() - i,
        {
            assert(self@.skip(i as int).skip(1) == self@.skip(i + 1));
            assert(spec_row_bytes(self@[i as int]).len() <= spec_rows_bytes(self@.skip(i as int)).len());
            n = n + self.rows[i].serialized_size();
            i += 1;
        }
        n
    }

    /// Appends the grid to `dest` and returns the number of bytes written. A
    /// grid that cannot be written is refused, and `dest` stays as it was.
    pub fn _serialize_chained(&self, dest: &mut Vec<u8>) -> (r: Result<usize, EncodeError>)
        ensures
            spec_grid_encodable(self@) ==> r == Ok::<usize, EncodeError>(
                spec_grid_bytes(self@).len() as usize,
            ) && final(dest)@ == old(dest)@ + spec_grid_bytes(self@),
            !spec_grid_encodable(self@) ==> r == Err::<usize, EncodeError>(
                EncodeError::LengthExceeds32Bits,
            ) && final(dest)@ == old(dest)@,
    {
        let start = dest.len();
        if !write_len(dest, self.rows.len()) {
            return Err(EncodeError::LengthExceeds32Bits);
        }
        let mut i: usize = 0;
        assert(self@.skip(0) == self@);
        while i < self.rows.len()
            invariant
                i <= self.rows.len(),
                start == old(dest)@.len(),
                start <= dest@.len(),
                dest@.subrange(0, start as int) == old(dest)@,
                self@.len() <= u32::MAX,
                spec_rows_encodable(self@.subrange(0, i as int)),
                dest@ + spec_rows_bytes(self@.skip(i as int)) == old(dest)@ + spec_grid_bytes(
                    self@,
                ),
            decreases self.rows.len() - i,
        {
            assert(self@.skip(i as int).skip(1) == self@.skip(i + 1));
            match self.rows[i]._serialize_chained(dest) {
                Ok(_) => {},
                Err(e) => {
                    dest.truncate(start);
                    assert(dest@ == old(dest)@);
                    assert(self@[i as int].len() > u32::MAX);
                    return Err(e);
                },
            }
            i += 1;
            assert(spec_rows_encodable(self@.subrange(0, i as int))) by {
                assert forall|j: int| 0 <= j < i implies (#[trigger] self@.subrange(0, i as int)[j]).len()
                    <= u32::MAX by {
                    if j < i - 1 {
                        assert(self@.subrange(0, i - 1)[j] == self@[j]);
                    }
                }
            }
        }
        assert(self@.subrange(0, i as int) == self@);
        assert(dest@ == old(dest)@ + spec_grid_bytes(self@));
        Ok(dest.len() - start)
    }

    /// Reads a grid from the front of `raw`, with the number of bytes read.
    pub fn _deserialize_chained(raw: &[u8]) -> (r: Result<(usize, Grid), DecodeError>)
        ensures
            match r {
                Ok((n, grid)) => spec_parse_grid(raw@) == Ok::<(nat, Seq<Seq<Color>>), DecodeError>(
                    (n as nat, grid@),
                ),
                Err(e) => spec_parse_grid(raw@) == Err::<(nat, Seq<Seq<Color>>), DecodeError>(e),
            },
    {
        if raw.len() < 4 {
            return Err(DecodeError::MoreDataExpected((4 - raw.len()) as u64));
        }
        let count = known(read_len(raw));
        let mut rows: Vec<Row> = Vec::new();
        let mut at: usize = 4;
        let mut i: usize = 0;
        while i < count
            invariant
                i <= count,
                4 <= at <= raw.len(),
                count == spec_u32_from_le(raw@),
                spec_parse_rows(raw@.skip(4), count as nat) == match spec_parse_rows(
                    raw@.skip(at as int),
                    (count - i) as nat,
                ) {
                    Err(e) => Err::<(nat, Seq<Seq<Color>>), DecodeError>(e),
                    Ok((m, rest)) => Ok(((at - 4 + m) as nat, spec_rows_view(rows@) + rest)),
                },
            decreases count - i,
        {
            assert(raw@.subrange(at as int, raw@.len() as int) == raw@.skip(at as int));
            match Row::_deserialize_chained(&raw[at..raw.len()]) {
                Err(e) => {
                    return Err(e);
                },
                Ok((n, row)) => {
                    proof {
                        let tail = spec_parse_rows(raw@.skip(at + n), (count - i - 1) as nat);
                        assert(raw@.skip(at as int).skip(n as int) == raw@.skip(at + n));
                        if let Ok((m, rest)) = tail {
                            assert(spec_rows_view(rows@) + (seq![row@] + rest) == spec_rows_view(
                                rows@.push(row),
                            ) + rest);
                        }
                    }
                    rows.push(row);
                    at = at + n;
                    i += 1;
                },
            }
        }
        assert(spec_rows_view(rows@) + Seq::<Seq<Color>>::empty() == spec_rows_view(rows@));
        Ok((at, Grid { rows }))
    }

    /// Appends the grid to `dest` as a whole record.
    pub fn serialize(&self, dest: &mut Vec<u8>) -> (r: Result<usize, EncodeError>)
        ensures
            spec_grid_encodable(self@) ==> r == Ok::<usize, EncodeError>(
                spec_grid_bytes(self@).len() as usize,
            ) && final(dest)@ == old(dest)@ + spec_grid_bytes(self@),
            !spec_grid_encodable(self@) ==> r == Err::<usize, EncodeError>(
                EncodeError::LengthExceeds32Bits,
            ) && final(dest)@ == old(dest)@,
    {
        self._serialize_chained(dest)
    }

    /// Reads a grid from the front of `raw` and ignores what follows it.
    pub fn deserialize(raw: &[u8]) -> (r: Result<Grid, DecodeError>)
        ensures
            match r {
                Ok(grid) => spec_parse_grid(raw@) matches Ok((_, rows)) && rows == grid@,
                Err(e) => spec_parse_grid(raw@) == Err::<(nat, Seq<Seq<Color>>), DecodeError>(e),
            },
    {
        match Grid::_deserialize_chained(raw) {
            Ok((_, grid)) => Ok(grid),
            Err(e) => Err(e),
        }
    }
}

impl DeltaGrid {
    /// Number of bytes `_serialize_chained` writes.
    pub fn serialized_size(&self) -> (n: usize)
        requires
            spec_delta_bytes(self@).len() <= usize::MAX,
        ensures
            n == spec_delta_bytes(self@).len(),
    {
        self.delta.len() * PIXEL_SIZE + 4
    }

    /// Appends the log to `dest` and returns the number of bytes written. A
    /// log of more than `u32::MAX` edits is refused, and `dest` stays as it
    /// was.
    pub fn _serialize_chained(&self, dest: &mut Vec<u8>) -> (r: Result<usize, EncodeError>)
        ensures
            self@.len() <= u32::MAX ==> r == Ok::<usize, EncodeError>(
                spec_delta_bytes(self@).len() as usize,
            ) && final(dest)@ == old(dest)@ + spec_delta_bytes(self@),
            self@.len() > u32::MAX ==> r == Err::<usize, EncodeError>(
                EncodeError::LengthExceeds32Bits,
            ) && final(dest)@ == old(dest)@,
    {
        let start = dest.len();
        if !write_len(dest, self.delta.len()) {
            return Err(EncodeError::LengthExceeds32Bits);
        }
        let mut i: usize = 0;
        while i < self.delta.len()
            invariant
                i <= self.delta.len(),
                start == old(dest)@.len(),
                dest@ == old(dest)@ + spec_u32_le(self@.len() as u32) + spec_pixels_bytes(
                    self@.subrange(0, i as int),
                ),
            decreases self.delta.len() - i,
        {
            let _ = self.delta[i]._serialize_chained(dest);
            i += 1;
            assert(dest@ == old(dest)@ + spec_u32_le(self@.len() as u32) + spec_pixels_bytes(
                self@.subrange(0, i as int),
            )) by {
                let wide = spec_pixels_bytes(self@.subrange(0, i as int));
                let narrow = spec_pixels_bytes(self@.subrange(0, i - 1));
                assert(wide =~= narrow + spec_pixel_bytes(self@[i - 1]));
            }
        }
        assert(self@.subrange(0, i as int) == self@);
        Ok(dest.len() - start)
    }

    /// Reads a log from the front of `raw`, with the number of bytes read.
    pub fn _deserialize_chained(raw: &[u8]) -> (r: Result<(usize, DeltaGrid), DecodeError>)
        ensures
            match r {
                Ok((n, log)) => spec_parse_delta(raw@) == Ok::<(nat, Seq<Pixel>), DecodeError>(
                    (n as nat, log@),
                ),
                Err(e) => spec_parse_delta(raw@) == Err::<(nat, Seq<Pixel>), DecodeError>(e),
            },
    {
        if raw.len() < 4 {
            return Err(DecodeError::MoreDataExpected((4 - raw.len()) as u64));
        }
        let count = known(read_len(raw));
        let need: u64 = 4 + 11 * (count as u64);
        if need > raw.len() as u64 {
            return Err(DecodeError::MoreDataExpected(need - raw.len() as u64));
        }
        let mut delta: Vec<Pixel> = Vec::new();
        let mut i: usize = 0;
        while i < count
            invariant
                i <= count,
                4 + 11 * count <= raw.len(),
                delta@ == spec_pixels_at(raw@, 4, i as nat),
            decreases count - i,
        {
            let at = 4 + 11 * i;
            assert(raw@.subrange(at as int, raw@.len() as int).skip(0) == raw@.skip(at as int));
            assert(raw@.subrange(at as int, raw@.len() as int).skip(4) == raw@.skip(at + 4));
            let (_, pixel) = known_ok(Pixel::_deserialize_chained(&raw[at..raw.len()]));
            delta.push(pixel);
            i += 1;
            assert(delta@ == spec_pixels_at(raw@, 4, i as nat));
        }
        Ok((need as usize, DeltaGrid { delta }))
    }

    /// Appends the log to `dest` as a whole record.
    pub fn serialize(&self, dest: &mut Vec<u8>) -> (r: Result<usize, EncodeError>)
        ensures
            self@.len() <= u32::MAX ==> r == Ok::<usize, EncodeError>(
                spec_delta_bytes(self@).len() as usize,
            ) && final(dest)@ == old(dest)@ + spec_delta_bytes(self@),
            self@.len() > u32::MAX ==> r == Err::<usize, EncodeError>(
                EncodeError::LengthExceeds32Bits,
            ) && final(dest)@ == old(dest)@,
    {
        self._serialize_chained(dest)
    }

    /// Reads a log from the front of `raw` and ignores what follows it.
    pub fn deserialize(raw: &[u8]) -> (r: Result<DeltaGrid, DecodeError>)
        ensures
            match r {
                Ok(log) => spec_parse_delta(raw@) matches Ok((_, edits)) && edits == log@,
                Err(e) => spec_parse_delta(raw@) == Err::<(nat, Seq<Pixel>), DecodeError>(e),
            },
    {
        match DeltaGrid::_deserialize_chained(raw) {
            Ok((_, log)) => Ok(log),
            Err(e) => Err(e),
        }
    }
}

impl BebopData {
    /// Number of bytes `_serialize_chained` writes.
    pub fn serialized_size(&self) -> (n: usize)
        requires
            spec_envelope_bytes(self@).len() <= usize::MAX,
        ensures
            n == spec_envelope_bytes(self@).len(),
    {
        self.encoded_data.len() + 12
    }

    /// Appends the frame to `dest` and returns the number of bytes written.
    /// A payload of more than `u32::MAX` bytes is refused, and `dest` stays as
    /// it was.
    pub fn _serialize_chained(&self, dest: &mut Vec<u8>) -> (r: Result<usize, EncodeError>)
        ensures
            self@.payload.len() <= u32::MAX ==> r == Ok::<usize, EncodeError>(
                spec_envelope_bytes(self@).len() as usize,
            ) && final(dest)@ == old(dest)@ + spec_envelope_bytes(self@),
            self@.payload.len() > u32::MAX ==> r == Err::<usize, EncodeError>(
                EncodeError::LengthExceeds32Bits,
            ) && final(dest)@ == old(dest)@,
    {
        let start = dest.len();
        write_u32(dest, self.protocol_version);
        write_u32(dest, self.opcode);
        if !write_bytes(dest, self.encoded_data.as_slice()) {
            dest.truncate(start);
            assert(dest@ == old(dest)@);
            return Err(EncodeError::LengthExceeds32Bits);
        }
        assert(dest@ == old(dest)@ + spec_envelope_bytes(self@));
        Ok(dest.len() - start)
    }

    /// Reads a frame from the front of `raw`, with the number of bytes read.
    pub fn _deserialize_chained(raw: &[u8]) -> (r: Result<(usize, BebopData), DecodeError>)
        ensures
            match r {
                Ok((n, frame)) => spec_parse_envelope(raw@) == Ok::<(nat, Envelope), DecodeError>(
                    (n as nat, frame@),
                ),
                Err(e) => spec_parse_envelope(raw@) == Err::<(nat, Envelope), DecodeError>(e),
            },
    {
        if raw.len() < 12 {
            return Err(DecodeError::MoreDataExpected((12 - raw.len()) as u64));
        }
        let protocol_version = known(read_u32(raw)).1;
        let opcode = known(read_u32(&raw[4..raw.len()])).1;
        let len = known(read_len(&raw[8..raw.len()]));
        let need: u64 = 12 + len as u64;
        if need > raw.len() as u64 {
            return Err(DecodeError::MoreDataExpected(need - raw.len() as u64));
        }
        let encoded_data = vstd::slice::slice_to_vec(&raw[12..12 + len]);
        Ok((12 + len, BebopData { protocol_version, opcode, encoded_data }))
    }

    /// Appends the frame to `dest` as a whole record.
    pub fn serialize(&self, dest: &mut Vec<u8>) -> (r: Result<usize, EncodeError>)
        ensures
            self@.payload.len() <= u32::MAX ==> r == Ok::<usize, EncodeError>(
                spec_envelope_bytes(self@).len() as usize,
            ) && final(dest)@ == old(dest)@ + spec_envelope_bytes(self@),
            self@.payload.len() > u32::MAX ==> r == Err::<usize, EncodeError>(
                EncodeError::LengthExceeds32Bits,
            ) && final(dest)@ == old(dest)@,
    {
        self._serialize_chained(dest)
    }

    /// Reads a frame from the front of `raw` and ignores what follows it.
    pub fn deserialize(raw: &[u8]) -> (r: Result<BebopData, DecodeError>)
        ensures
            match r {
                Ok(frame) => spec_parse_envelope(raw@) matches Ok((_, e)) && e == frame@,
                Err(e) => spec_parse_envelope(raw@) == Err::<(nat, Envelope), DecodeError>(e),
            },
    {
        match BebopData::_deserialize_chained(raw) {
            Ok((_, frame)) => Ok(frame),
            Err(e) => Err(e),
        }
    }
}

} // verus!
