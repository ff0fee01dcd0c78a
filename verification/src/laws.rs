//! What holds between writing and reading: a record that was written is read
//! back unchanged, whatever bytes follow it.

use vstd::prelude::*;
use crate::primitives::{
    lemma_u32_from_le_inverse, lemma_u32_le_round_trip, spec_u32_from_le, spec_u32_le,
};
use crate::records::{
    spec_color_at, spec_color_bytes, spec_colors_at, spec_colors_bytes, spec_delta_bytes,
    spec_envelope_bytes, spec_grid_bytes, spec_grid_encodable, spec_parse_color, spec_parse_delta,
    spec_parse_envelope, spec_parse_grid, spec_parse_pixel, spec_parse_row, spec_parse_rows,
    spec_pixel_at, spec_pixel_bytes, spec_pixels_at, spec_pixels_bytes, spec_row_bytes,
    spec_rows_bytes, spec_rows_encodable, Color, DecodeError, Envelope, Pixel,
};

verus! {

/// A colour that was written is read back, whatever follows it.
pub proof fn lemma_color_round_trip(c: Color, rest: Seq<u8>)
    ensures
        spec_parse_color(spec_color_bytes(c) + rest) == Ok::<(nat, Color), DecodeError>((3, c)),
{
    let raw = spec_color_bytes(c) + rest;
    assert(raw[0] == c.red && raw[1] == c.green && raw[2] == c.blue);
}

/// A pixel edit that was written is read back, whatever follows it.
pub proof fn lemma_pixel_round_trip(p: Pixel, rest: Seq<u8>)
    ensures
        spec_parse_pixel(spec_pixel_bytes(p) + rest) == Ok::<(nat, Pixel), DecodeError>((11, p)),
{
    lemma_pixel_at(Seq::empty(), p, rest);
    assert(Seq::<u8>::empty() + spec_pixel_bytes(p) + rest == spec_pixel_bytes(p) + rest);
}

/// The pixel edit read where one was written is that edit.
proof fn lemma_pixel_at(before: Seq<u8>, p: Pixel, rest: Seq<u8>)
    ensures
        spec_pixel_bytes(p).len() == 11,
        spec_pixel_at(before + spec_pixel_bytes(p) + rest, before.len() as int) == p,
{
    let raw = before + spec_pixel_bytes(p) + rest;
    let at = before.len() as int;
    let tail = spec_u32_le(p.y) + spec_color_bytes(p.color) + rest;
    lemma_u32_le_round_trip(p.x, tail);
    assert(raw.skip(at) == spec_u32_le(p.x) + tail);
    let tail2 = spec_color_bytes(p.color) + rest;
    lemma_u32_le_round_trip(p.y, tail2);
    assert(raw.skip(at + 4) == spec_u32_le(p.y) + tail2);
    assert(raw[at + 8] == spec_color_bytes(p.color)[0]);
    assert(raw[at + 9] == spec_color_bytes(p.color)[1]);
    assert(raw[at + 10] == spec_color_bytes(p.color)[2]);
}

/// The colour read where one was written is that colour.
proof fn lemma_color_at(before: Seq<u8>, c: Color, rest: Seq<u8>)
    ensures
        spec_color_at(before + spec_color_bytes(c) + rest, before.len() as int) == c,
{
    let raw = before + spec_color_bytes(c) + rest;
    let at = before.len() as int;
    assert(raw[at] == spec_color_bytes(c)[0]);
    assert(raw[at + 1] == spec_color_bytes(c)[1]);
    assert(raw[at + 2] == spec_color_bytes(c)[2]);
}

/// The colours read where colours were written are those colours.
proof fn lemma_colors_at(before: Seq<u8>, colors: Seq<Color>, rest: Seq<u8>)
    ensures
        spec_colors_bytes(colors).len() == 3 * colors.len(),
        spec_colors_at(
            before + spec_colors_bytes(colors) + rest,
            before.len() as int,
            colors.len(),
        ) == colors,
{
    let all = spec_colors_bytes(colors);
    let raw = before + all + rest;
    let at = before.len() as int;
    let read = spec_colors_at(raw, at, colors.len());
    assert forall|i: int| 0 <= i < colors.len() implies read[i] == colors[i] by {
        let left = before + all.subrange(0, 3 * i);
        let right = all.subrange(3 * i + 3, all.len() as int) + rest;
        assert(all.subrange(3 * i, 3 * i + 3) =~= spec_color_bytes(colors[i])) by {
            assert forall|j: int| 0 <= j < 3 implies all[3 * i + j] == spec_color_bytes(
                colors[i],
            )[j] by {
                assert((3 * i + j) / 3 == i && (3 * i + j) % 3 == j);
            }
        }
        assert(raw =~= left + spec_color_bytes(colors[i]) + right);
        lemma_color_at(left, colors[i], right);
    }
    assert(read =~= colors);
}

/// The pixel edits read where edits were written are those edits.
proof fn lemma_pixels_at(before: Seq<u8>, edits: Seq<Pixel>, rest: Seq<u8>)
    ensures
        spec_pixels_bytes(edits).len() == 11 * edits.len(),
        spec_pixels_at(before + spec_pixels_bytes(edits) + rest, before.len() as int, edits.len())
            == edits,
{
    let all = spec_pixels_bytes(edits);
    let raw = before + all + rest;
    let at = before.len() as int;
    let read = spec_pixels_at(raw, at, edits.len());
    assert forall|i: int| 0 <= i < edits.len() implies read[i] == edits[i] by {
        let left = before + all.subrange(0, 11 * i);
        let right = all.subrange(11 * i + 11, all.len() as int) + rest;
        assert(all.subrange(11 * i, 11 * i + 11) =~= spec_pixel_bytes(edits[i])) by {
            assert forall|j: int| 0 <= j < 11 implies all[11 * i + j] == spec_pixel_bytes(
                edits[i],
            )[j] by {
                assert((11 * i + j) / 11 == i && (11 * i + j) % 11 == j);
            }
        }
        assert(raw =~= left + spec_pixel_bytes(edits[i]) + right);
        lemma_pixel_at(left, edits[i], right);
    }
    assert(read =~= edits);
}

/// A row that was written is read back, whatever follows it.
pub proof fn lemma_row_round_trip(row: Seq<Color>, rest: Seq<u8>)
    requires
        row.len() <= u32::MAX,
    ensures
        spec_row_bytes(row).len() == 4 + 3 * row.len(),
        spec_parse_row(spec_row_bytes(row) + rest) == Ok::<(nat, Seq<Color>), DecodeError>(
            (4 + 3 * row.len(), row),
        ),
{
    let prefix = spec_u32_le(row.len() as u32);
    let raw = spec_row_bytes(row) + rest;
    lemma_u32_le_round_trip(row.len() as u32, spec_colors_bytes(row) + rest);
    assert(raw == prefix + (spec_colors_bytes(row) + rest));
    lemma_colors_at(prefix, row, rest);
    assert(raw == prefix + spec_colors_bytes(row) + rest);
}

/// Rows that were written are read back, whatever follows them.
pub proof fn lemma_rows_round_trip(rows: Seq<Seq<Color>>, rest: Seq<u8>)
    requires
        spec_rows_encodable(rows),
    ensures
        spec_parse_rows(spec_rows_bytes(rows) + rest, rows.len()) == Ok::<
            (nat, Seq<Seq<Color>>),
            DecodeError,
        >((spec_rows_bytes(rows).len(), rows)),
    decreases rows.len(),
{
    if rows.len() > 0 {
        let first = spec_row_bytes(rows[0]);
        let others = spec_rows_bytes(rows.skip(1));
        let raw = spec_rows_bytes(rows) + rest;
        lemma_row_round_trip(rows[0], others + rest);
        assert(raw == first + (others + rest));
        assert(raw.skip(first.len() as int) == others + rest);
        assert(spec_rows_encodable(rows.skip(1))) by {
            assert forall|i: int| 0 <= i < rows.skip(1).len() implies (#[trigger] rows.skip(
                1,
            )[i]).len() <= u32::MAX by {
                assert(rows.skip(1)[i] == rows[i + 1]);
            }
        }
        lemma_rows_round_trip(rows.skip(1), rest);
        assert(seq![rows[0]] + rows.skip(1) == rows);
        assert(spec_rows_bytes(rows).len() == first.len() + others.len());
    } else {
        assert(rows == Seq::<Seq<Color>>::empty());
        assert(spec_rows_bytes(rows).len() == 0);
    }
}

/// A grid that was written is read back cell for cell, whatever follows it.
pub proof fn lemma_grid_round_trip(rows: Seq<Seq<Color>>, rest: Seq<u8>)
    requires
        spec_grid_encodable(rows),
    ensures
        spec_parse_grid(spec_grid_bytes(rows) + rest) == Ok::<(nat, Seq<Seq<Color>>), DecodeError>(
            (spec_grid_bytes(rows).len(), rows),
        ),
{
    let raw = spec_grid_bytes(rows) + rest;
    lemma_u32_le_round_trip(rows.len() as u32, spec_rows_bytes(rows) + rest);
    assert(raw == spec_u32_le(rows.len() as u32) + (spec_rows_bytes(rows) + rest));
    assert(raw.skip(4) == spec_rows_bytes(rows) + rest);
    lemma_rows_round_trip(rows, rest);
}

/// A delta log that was written is read back: the same edits in the same
/// order, repeated edits of one cell included, whatever follows the log.
pub proof fn lemma_delta_round_trip(edits: Seq<Pixel>, rest: Seq<u8>)
    requires
        edits.len() <= u32::MAX,
    ensures
        spec_delta_bytes(edits).len() == 4 + 11 * edits.len(),
        spec_parse_delta(spec_delta_bytes(edits) + rest) == Ok::<(nat, Seq<Pixel>), DecodeError>(
            (4 + 11 * edits.len(), edits),
        ),
{
    let prefix = spec_u32_le(edits.len() as u32);
    let raw = spec_delta_bytes(edits) + rest;
    lemma_u32_le_round_trip(edits.len() as u32, spec_pixels_bytes(edits) + rest);
    assert(raw == prefix + (spec_pixels_bytes(edits) + rest));
    lemma_pixels_at(prefix, edits, rest);
    assert(raw == prefix + spec_pixels_bytes(edits) + rest);
}

/// A frame that was written is read back, whatever follows it.
pub proof fn lemma_envelope_round_trip(e: Envelope, rest: Seq<u8>)
    requires
        e.payload.len() <= u32::MAX,
    ensures
        spec_envelope_bytes(e).len() == 12 + e.payload.len(),
        spec_parse_envelope(spec_envelope_bytes(e) + rest) == Ok::<(nat, Envelope), DecodeError>(
            (12 + e.payload.len(), e),
        ),
{
    let raw = spec_envelope_bytes(e) + rest;
    let after_len = e.payload + rest;
    let after_opcode = spec_u32_le(e.payload.len() as u32) + after_len;
    let after_version = spec_u32_le(e.opcode) + after_opcode;
    lemma_u32_le_round_trip(e.protocol_version, after_version);
    lemma_u32_le_round_trip(e.opcode, after_opcode);
    lemma_u32_le_round_trip(e.payload.len() as u32, after_len);
    assert(raw == spec_u32_le(e.protocol_version) + after_version);
    assert(raw.skip(4) == after_version);
    assert(raw.skip(8) == after_opcode);
    assert(raw.subrange(12, 12 + e.payload.len() as int) == e.payload);
}

/// The bytes from which a colour was read are the colour written out.
proof fn lemma_color_at_inverse(raw: Seq<u8>, at: int)
    requires
        0 <= at,
        at + 3 <= raw.len(),
    ensures
        spec_color_bytes(spec_color_at(raw, at)) == raw.subrange(at, at + 3),
{
    assert(spec_color_bytes(spec_color_at(raw, at)) =~= raw.subrange(at, at + 3));
}

/// The bytes from which a pixel edit was read are the edit written out.
proof fn lemma_pixel_at_inverse(raw: Seq<u8>, at: int)
    requires
        0 <= at,
        at + 11 <= raw.len(),
    ensures
        spec_pixel_bytes(spec_pixel_at(raw, at)) == raw.subrange(at, at + 11),
{
    lemma_u32_from_le_inverse(raw.skip(at));
    lemma_u32_from_le_inverse(raw.skip(at + 4));
    lemma_color_at_inverse(raw, at + 8);
    assert(raw.skip(at).subrange(0, 4) == raw.subrange(at, at + 4));
    assert(raw.skip(at + 4).subrange(0, 4) == raw.subrange(at + 4, at + 8));
    assert(raw.subrange(at, at + 11) == raw.subrange(at, at + 4) + raw.subrange(at + 4, at + 8)
        + raw.subrange(at + 8, at + 11));
}

/// What was read as a pixel edit was written as that edit: the bytes read
/// are the edit written out.
pub proof fn lemma_parse_pixel_inverse(raw: Seq<u8>)
    requires
        spec_parse_pixel(raw).is_ok(),
    ensures
        spec_pixel_bytes(spec_parse_pixel(raw).unwrap().1) == raw.subrange(0, 11),
        spec_parse_pixel(raw).unwrap().0 == 11,
{
    lemma_pixel_at_inverse(raw, 0);
}

/// What was read as a row was written as that row.
pub proof fn lemma_parse_row_inverse(raw: Seq<u8>)
    requires
        spec_parse_row(raw).is_ok(),
    ensures
        spec_parse_row(raw).unwrap().0 <= raw.len(),
        spec_parse_row(raw).unwrap().1.len() <= u32::MAX,
        spec_row_bytes(spec_parse_row(raw).unwrap().1) == raw.subrange(
            0,
            spec_parse_row(raw).unwrap().0 as int,
        ),
{
    let (n, row) = spec_parse_row(raw).unwrap();
    let count = spec_u32_from_le(raw) as nat;
    lemma_u32_from_le_inverse(raw);
    let colors = spec_colors_bytes(row);
    assert(colors =~= raw.subrange(4, n as int)) by {
        assert forall|k: int| 0 <= k < colors.len() implies colors[k] == raw[4 + k] by {
            let i = k / 3;
            assert(0 <= i < count && 3 * i + k % 3 == k);
            lemma_color_at_inverse(raw, 4 + 3 * i);
            assert(raw.subrange(4 + 3 * i, 4 + 3 * i + 3)[k % 3] == raw[4 + k]);
        }
    }
    assert(raw.subrange(0, n as int) == raw.subrange(0, 4) + raw.subrange(4, n as int));
}

/// What was read as rows was written as those rows.
pub proof fn lemma_parse_rows_inverse(raw: Seq<u8>, count: nat)
    requires
        spec_parse_rows(raw, count).is_ok(),
    ensures
        spec_parse_rows(raw, count).unwrap().0 <= raw.len(),
        spec_parse_rows(raw, count).unwrap().1.len() == count,
        spec_rows_encodable(spec_parse_rows(raw, count).unwrap().1),
        spec_rows_bytes(spec_parse_rows(raw, count).unwrap().1) == raw.subrange(
            0,
            spec_parse_rows(raw, count).unwrap().0 as int,
        ),
    decreases count,
{
    let (total, rows) = spec_parse_rows(raw, count).unwrap();
    if count > 0 {
        let (n, row) = spec_parse_row(raw).unwrap();
        let (m, rest) = spec_parse_rows(raw.skip(n as int), (count - 1) as nat).unwrap();
        lemma_parse_row_inverse(raw);
        lemma_parse_rows_inverse(raw.skip(n as int), (count - 1) as nat);
        assert(rows == seq![row] + rest);
        assert(rows[0] == row);
        assert(rows.skip(1) == rest);
        assert(spec_rows_encodable(rows)) by {
            assert forall|i: int| 0 <= i < rows.len() implies (#[trigger] rows[i]).len()
                <= u32::MAX by {
                if i > 0 {
                    assert(rows[i] == rest[i - 1]);
                }
            }
        }
        assert(raw.skip(n as int).subrange(0, m as int) == raw.subrange(n as int, (n + m) as int));
        assert(raw.subrange(0, (n + m) as int) == raw.subrange(0, n as int) + raw.subrange(
            n as int,
            (n + m) as int,
        ));
    } else {
        assert(raw.subrange(0, 0) == Seq::<u8>::empty());
    }
}

/// What was read as a grid was written as that grid: reading accepts nothing
/// but what writing produces.
pub proof fn lemma_parse_grid_inverse(raw: Seq<u8>)
    requires
        spec_parse_grid(raw).is_ok(),
    ensures
        spec_parse_grid(raw).unwrap().0 <= raw.len(),
        spec_grid_encodable(spec_parse_grid(raw).unwrap().1),
        spec_grid_bytes(spec_parse_grid(raw).unwrap().1) == raw.subrange(
            0,
            spec_parse_grid(raw).unwrap().0 as int,
        ),
{
    let count = spec_u32_from_le(raw) as nat;
    let (n, rows) = spec_parse_rows(raw.skip(4), count).unwrap();
    lemma_u32_from_le_inverse(raw);
    lemma_parse_rows_inverse(raw.skip(4), count);
    assert(raw.skip(4).subrange(0, n as int) == raw.subrange(4, (4 + n) as int));
    assert(raw.subrange(0, (4 + n) as int) == raw.subrange(0, 4) + raw.subrange(4, (4 + n) as int));
}

/// What was read as a delta log was written as that log.
pub proof fn lemma_parse_delta_inverse(raw: Seq<u8>)
    requires
        spec_parse_delta(raw).is_ok(),
    ensures
        spec_parse_delta(raw).unwrap().0 <= raw.len(),
        spec_parse_delta(raw).unwrap().1.len() <= u32::MAX,
        spec_delta_bytes(spec_parse_delta(raw).unwrap().1) == raw.subrange(
            0,
            spec_parse_delta(raw).unwrap().0 as int,
        ),
{
    let (n, edits) = spec_parse_delta(raw).unwrap();
    let count = spec_u32_from_le(raw) as nat;
    lemma_u32_from_le_inverse(raw);
    let all = spec_pixels_bytes(edits);
    assert(all =~= raw.subrange(4, n as int)) by {
        assert forall|k: int| 0 <= k < all.len() implies all[k] == raw[4 + k] by {
            let i = k / 11;
            assert(0 <= i < count && 11 * i + k % 11 == k);
            lemma_pixel_at_inverse(raw, 4 + 11 * i);
            assert(raw.subrange(4 + 11 * i, 4 + 11 * i + 11)[k % 11] == raw[4 + k]);
        }
    }
    assert(raw.subrange(0, n as int) == raw.subrange(0, 4) + raw.subrange(4, n as int));
}

/// What was read as a frame was written as that frame.
pub proof fn lemma_parse_envelope_inverse(raw: Seq<u8>)
    requires
        spec_parse_envelope(raw).is_ok(),
    ensures
        spec_parse_envelope(raw).unwrap().0 <= raw.len(),
        spec_parse_envelope(raw).unwrap().1.payload.len() <= u32::MAX,
        spec_envelope_bytes(spec_parse_envelope(raw).unwrap().1) == raw.subrange(
            0,
            spec_parse_envelope(raw).unwrap().0 as int,
        ),
{
    let (n, e) = spec_parse_envelope(raw).unwrap();
    lemma_u32_from_le_inverse(raw);
    lemma_u32_from_le_inverse(raw.skip(4));
    lemma_u32_from_le_inverse(raw.skip(8));
    assert(raw.skip(4).subrange(0, 4) == raw.subrange(4, 8));
    assert(raw.skip(8).subrange(0, 4) == raw.subrange(8, 12));
    assert(raw.subrange(0, n as int) == raw.subrange(0, 4) + raw.subrange(4, 8) + raw.subrange(
        8,
        12,
    ) + raw.subrange(12, n as int));
}

} // verus!
