//! The three kinds of frame: a full grid, a single pixel edit and a delta
//! log, each a payload inside an envelope that names the protocol version and
//! the kind.

use vstd::prelude::*;
use crate::laws::{
    lemma_delta_round_trip, lemma_envelope_round_trip, lemma_grid_round_trip,
    lemma_pixel_round_trip,
};
use crate::records::{
    spec_delta_bytes, spec_envelope_bytes, spec_grid_bytes, spec_grid_encodable,
    spec_parse_delta, spec_parse_envelope, spec_parse_grid, spec_parse_pixel, spec_pixel_bytes,
    BebopData, Color, DecodeError, DeltaGrid, EncodeError, Envelope, Grid, Pixel,
    DELTA_GRID_OPCODE, GRID_OPCODE, PIXEL_OPCODE, PROTOCOL_VERSION,
};

verus! {

/// The frame of this protocol version that carries `payload` under `opcode`.
pub open spec fn spec_frame_bytes(opcode: u32, payload: Seq<u8>) -> Seq<u8> {
    spec_envelope_bytes(Envelope { protocol_version: PROTOCOL_VERSION, opcode, payload })
}

/// The payload of `frame` if it is a frame of this protocol version with
/// opcode `opcode`; else what is wrong with it: a short buffer first, then
/// the version, then the opcode.
pub open spec fn spec_decode_frame(frame: Seq<u8>, opcode: u32) -> Result<Seq<u8>, DecodeError> {
    match spec_parse_envelope(frame) {
        Err(e) => Err(e),
        Ok((_, envelope)) => if envelope.protocol_version != PROTOCOL_VERSION {
            Err(DecodeError::VersionMismatch(envelope.protocol_version))
        } else if envelope.opcode != opcode {
            Err(DecodeError::UnexpectedOpcode(envelope.opcode))
        } else {
            Ok(envelope.payload)
        },
    }
}

/// The frame that carries the full grid `cells`.
pub open spec fn spec_grid_frame(cells: Seq<Seq<Color>>) -> Seq<u8> {
    spec_frame_bytes(GRID_OPCODE, spec_grid_bytes(cells))
}

/// The frame that carries the single edit `edit`.
pub open spec fn spec_pixel_frame(edit: Pixel) -> Seq<u8> {
    spec_frame_bytes(PIXEL_OPCODE, spec_pixel_bytes(edit))
}

/// The frame that carries the delta log `edits`.
pub open spec fn spec_delta_frame(edits: Seq<Pixel>) -> Seq<u8> {
    spec_frame_bytes(DELTA_GRID_OPCODE, spec_delta_bytes(edits))
}

/// Whether the grid `cells` fits a frame: it can be written, and what is
/// written fits the envelope's length prefix.
pub open spec fn spec_grid_frame_encodable(cells: Seq<Seq<Color>>) -> bool {
    spec_grid_encodable(cells) && spec_grid_bytes(cells).len() <= u32::MAX
}

/// Whether the delta log `edits` fits a frame.
pub open spec fn spec_delta_frame_encodable(edits: Seq<Pixel>) -> bool {
    edits.len() <= u32::MAX && spec_delta_bytes(edits).len() <= u32::MAX
}

/// The grid that `frame` carries, or what is wrong with the frame.
pub open spec fn spec_decode_grid_frame(frame: Seq<u8>) -> Result<Seq<Seq<Color>>, DecodeError> {
    match spec_decode_frame(frame, GRID_OPCODE) {
        Err(e) => Err(e),
        Ok(payload) => match spec_parse_grid(payload) {
            Err(e) => Err(e),
            Ok((_, cells)) => Ok(cells),
        },
    }
}

/// The edit that `frame` carries, or what is wrong with the frame.
pub open spec fn spec_decode_pixel_frame(frame: Seq<u8>) -> Result<Pixel, DecodeError> {
    match spec_decode_frame(frame, PIXEL_OPCODE) {
        Err(e) => Err(e),
        Ok(payload) => match spec_parse_pixel(payload) {
            Err(e) => Err(e),
            Ok((_, edit)) => Ok(edit),
        },
    }
}

/// The delta log that `frame` carries, or what is wrong with the frame.
pub open spec fn spec_decode_delta_frame(frame: Seq<u8>) -> Result<Seq<Pixel>, DecodeError> {
    match spec_decode_frame(frame, DELTA_GRID_OPCODE) {
        Err(e) => Err(e),
        Ok(payload) => match spec_parse_delta(payload) {
            Err(e) => Err(e),
            Ok((_, edits)) => Ok(edits),
        },
    }
}

/// Wraps `payload` into a frame of this protocol version with opcode
/// `opcode`. A payload of more than `u32::MAX` bytes is refused.
pub fn encode_frame(opcode: u32, payload: Vec<u8>) -> (r: Result<Vec<u8>, EncodeError>)
    ensures
        payload@.len() <= u32::MAX ==> r.is_ok() && r.unwrap()@ == spec_frame_bytes(
            opcode,
            payload@,
        ),
        payload@.len() > u32::MAX ==> r == Err::<Vec<u8>, EncodeError>(
            EncodeError::LengthExceeds32Bits,
        ),
{
    let envelope = BebopData { protocol_version: PROTOCOL_VERSION, opcode, encoded_data: payload };
    let mut frame: Vec<u8> = Vec::new();
    match envelope.serialize(&mut frame) {
        Ok(_) => {
            assert(frame@ == spec_frame_bytes(opcode, payload@));
            Ok(frame)
        },
        Err(e) => Err(e),
    }
}

/// Opens `frame` and hands out its payload, if the frame is whole, of this
/// protocol version, and of opcode `opcode`.
pub fn decode_frame(frame: &[u8], opcode: u32) -> (r: Result<Vec<u8>, DecodeError>)
    ensures
        match r {
            Ok(payload) => spec_decode_frame(frame@, opcode) == Ok::<Seq<u8>, DecodeError>(
                payload@,
            ),
            Err(e) => spec_decode_frame(frame@, opcode) == Err::<Seq<u8>, DecodeError>(e),
        },
{
    match BebopData::deserialize(frame) {
        Err(e) => Err(e),
        Ok(envelope) => {
            if envelope.protocol_version != PROTOCOL_VERSION {
                Err(DecodeError::VersionMismatch(envelope.protocol_version))
            } else if envelope.opcode != opcode {
                Err(DecodeError::UnexpectedOpcode(envelope.opcode))
            } else {
                Ok(envelope.encoded_data)
            }
        },
    }
}

/// The frame that carries `grid`, if the grid fits one.
pub fn encode_grid_frame(grid: &Grid) -> (r: Result<Vec<u8>, EncodeError>)
    ensures
        spec_grid_frame_encodable(grid@) ==> r.is_ok() && r.unwrap()@ == spec_grid_frame(grid@),
        !spec_grid_frame_encodable(grid@) ==> r == Err::<Vec<u8>, EncodeError>(
            EncodeError::LengthExceeds32Bits,
        ),
{
    let mut payload: Vec<u8> = Vec::new();
    match grid.serialize(&mut payload) {
        Ok(_) => {
            assert(payload@ == spec_grid_bytes(grid@));
            encode_frame(GRID_OPCODE, payload)
        },
        Err(e) => Err(e),
    }
}

/// The frame that carries `edit`.
pub fn encode_pixel_frame(edit: &Pixel) -> (frame: Vec<u8>)
    ensures
        frame@ == spec_pixel_frame(*edit),
{
    let mut payload: Vec<u8> = Vec::new();
    let _ = edit.serialize(&mut payload);
    assert(payload@ == spec_pixel_bytes(*edit));
    let envelope = BebopData {
        protocol_version: PROTOCOL_VERSION,
        opcode: PIXEL_OPCODE,
        encoded_data: payload,
    };
    let mut frame: Vec<u8> = Vec::new();
    let _ = envelope.serialize(&mut frame);
    assert(frame@ == spec_pixel_frame(*edit));
    frame
}

/// The frame that carries `log`, if the log fits one.
pub fn encode_delta_frame(log: &DeltaGrid) -> (r: Result<Vec<u8>, EncodeError>)
    ensures
        spec_delta_frame_encodable(log@) ==> r.is_ok() && r.unwrap()@ == spec_delta_frame(log@),
        !spec_delta_frame_encodable(log@) ==> r == Err::<Vec<u8>, EncodeError>(
            EncodeError::LengthExceeds32Bits,
        ),
{
    let mut payload: Vec<u8> = Vec::new();
    match log.serialize(&mut payload) {
        Ok(_) => {
            assert(payload@ == spec_delta_bytes(log@));
            encode_frame(DELTA_GRID_OPCODE, payload)
        },
        Err(e) => Err(e),
    }
}

/// The grid that `frame` carries, if `frame` is a whole grid frame.
pub fn decode_grid_frame(frame: &[u8]) -> (r: Result<Grid, DecodeError>)
    ensures
        match r {
            Ok(grid) => spec_decode_grid_frame(frame@) == Ok::<Seq<Seq<Color>>, DecodeError>(
                grid@,
            ),
            Err(e) => spec_decode_grid_frame(frame@) == Err::<Seq<Seq<Color>>, DecodeError>(e),
        },
{
    match decode_frame(frame, GRID_OPCODE) {
        Err(e) => Err(e),
        Ok(payload) => Grid::deserialize(payload.as_slice()),
    }
}

/// The edit that `frame` carries, if `frame` is a whole pixel frame.
pub fn decode_pixel_frame(frame: &[u8]) -> (r: Result<Pixel, DecodeError>)
    ensures
        match r {
            Ok(edit) => spec_decode_pixel_frame(frame@) == Ok::<Pixel, DecodeError>(edit),
            Err(e) => spec_decode_pixel_frame(frame@) == Err::<Pixel, DecodeError>(e),
        },
{
    match decode_frame(frame, PIXEL_OPCODE) {
        Err(e) => Err(e),
        Ok(payload) => Pixel::deserialize(payload.as_slice()),
    }
}

/// The delta log that `frame` carries, if `frame` is a whole delta frame.
pub fn decode_delta_frame(frame: &[u8]) -> (r: Result<DeltaGrid, DecodeError>)
    ensures
        match r {
            Ok(log) => spec_decode_delta_frame(frame@) == Ok::<Seq<Pixel>, DecodeError>(log@),
            Err(e) => spec_decode_delta_frame(frame@) == Err::<Seq<Pixel>, DecodeError>(e),
        },
{
    match decode_frame(frame, DELTA_GRID_OPCODE) {
        Err(e) => Err(e),
        Ok(payload) => DeltaGrid::deserialize(payload.as_slice()),
    }
}

/// A payload that was wrapped under an opcode comes out again when the frame
/// is opened under that opcode.
pub proof fn lemma_frame_round_trip(opcode: u32, payload: Seq<u8>)
    requires
        payload.len() <= u32::MAX,
    ensures
        spec_decode_frame(spec_frame_bytes(opcode, payload), opcode) == Ok::<
            Seq<u8>,
            DecodeError,
        >(payload),
{
    let envelope = Envelope { protocol_version: PROTOCOL_VERSION, opcode, payload };
    lemma_envelope_round_trip(envelope, Seq::empty());
    assert(spec_envelope_bytes(envelope) + Seq::<u8>::empty() == spec_envelope_bytes(envelope));
}

/// Encoding a grid into a frame and decoding the frame gives the same grid,
/// cell for cell.
pub proof fn lemma_grid_frame_round_trip(cells: Seq<Seq<Color>>)
    requires
        spec_grid_frame_encodable(cells),
    ensures
        spec_decode_grid_frame(spec_grid_frame(cells)) == Ok::<Seq<Seq<Color>>, DecodeError>(
            cells,
        ),
{
    lemma_frame_round_trip(GRID_OPCODE, spec_grid_bytes(cells));
    lemma_grid_round_trip(cells, Seq::empty());
    assert(spec_grid_bytes(cells) + Seq::<u8>::empty() == spec_grid_bytes(cells));
}

/// Encoding an edit into a frame and decoding the frame gives the same edit.
pub proof fn lemma_pixel_frame_round_trip(edit: Pixel)
    ensures
        spec_decode_pixel_frame(spec_pixel_frame(edit)) == Ok::<Pixel, DecodeError>(edit),
{
    lemma_pixel_round_trip(edit, Seq::empty());
    assert(spec_pixel_bytes(edit) + Seq::<u8>::empty() == spec_pixel_bytes(edit));
    lemma_frame_round_trip(PIXEL_OPCODE, spec_pixel_bytes(edit));
}

/// Encoding a delta log into a frame and decoding the frame gives the same
/// edits in the same order, repeated edits of one cell included.
pub proof fn lemma_delta_frame_round_trip(edits: Seq<Pixel>)
    requires
        spec_delta_frame_encodable(edits),
    ensures
        spec_decode_delta_frame(spec_delta_frame(edits)) == Ok::<Seq<Pixel>, DecodeError>(edits),
{
    lemma_frame_round_trip(DELTA_GRID_OPCODE, spec_delta_bytes(edits));
    lemma_delta_round_trip(edits, Seq::empty());
    assert(spec_delta_bytes(edits) + Seq::<u8>::empty() == spec_delta_bytes(edits));
}

} // verus!
