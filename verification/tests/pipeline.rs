use place_backend::connection::{greeting, react, ConnectionAction, ConnectionEvent};
use place_backend::frames::{
    decode_delta_frame, decode_grid_frame, decode_pixel_frame, encode_frame, encode_pixel_frame,
};
use place_backend::pipeline::{
    apply_frame, EditOutcome, BROADCAST_CAPACITY, CHECKPOINT_INTERVAL_MILLIS, QUEUE_CAPACITY,
};
use place_backend::place::State;
use place_backend::records::{Color, DecodeError, Grid, Pixel, GRID_OPCODE};
use tokio::sync::broadcast;
use tokio::sync::broadcast::error::TryRecvError;
use tokio::sync::mpsc;
use tokio::sync::mpsc::error::TrySendError;

fn canvas(width: usize, height: usize) -> State {
    let mut state = State::new();
    state.set_grid_size(width, height);
    state
}

/// What a client does with an edit it received.
fn client_apply(grid: &mut Grid, edit: Pixel) {
    if let Some(row) = grid.rows.get_mut(edit.y as usize) {
        if let Some(cell) = row.pixels.get_mut(edit.x as usize) {
            *cell = edit.color;
        }
    }
}

#[test]
fn tunables_have_their_defaults() {
    assert_eq!(QUEUE_CAPACITY, 16);
    assert_eq!(BROADCAST_CAPACITY, 16);
    assert_eq!(CHECKPOINT_INTERVAL_MILLIS, 5000);
}

#[test]
fn accepted_frame_is_applied_logged_and_handed_back_verbatim() {
    let mut state = canvas(3, 2);
    let edit = Pixel { x: 1, y: 0, color: Color::new(10, 20, 30) };
    let mut frame = encode_pixel_frame(&edit);
    frame.extend_from_slice(&[42, 43]); // bytes after the payload travel along
    let outcome = apply_frame(&mut state, frame.clone());
    assert_eq!(outcome, EditOutcome::Broadcast(frame));
    assert_eq!(state.grid().rows[0].pixels[1], Color::new(10, 20, 30));
    assert_eq!(state.delta().delta, vec![edit]);
}

#[test]
fn frame_out_of_bounds_is_dropped() {
    let mut state = canvas(3, 2);
    let before = state.grid().clone();
    let edit = Pixel { x: 5, y: 5, color: Color::new(0, 0, 0) };
    let outcome = apply_frame(&mut state, encode_pixel_frame(&edit));
    assert_eq!(outcome, EditOutcome::OutOfBounds(edit));
    assert_eq!(state.grid(), &before);
    assert!(state.delta().delta.is_empty());
}

#[test]
fn malformed_frames_are_rejected_and_change_nothing() {
    let mut state = canvas(3, 2);
    let before = state.grid().clone();
    assert_eq!(
        apply_frame(&mut state, vec![]),
        EditOutcome::Rejected(DecodeError::MoreDataExpected(12))
    );
    assert_eq!(
        apply_frame(&mut state, vec![1, 0, 0, 0, 2, 0, 0, 0, 11, 0, 0, 0, 1]),
        EditOutcome::Rejected(DecodeError::MoreDataExpected(10))
    );
    let grid_frame = encode_frame(GRID_OPCODE, vec![0, 0, 0, 0]).unwrap();
    assert_eq!(
        apply_frame(&mut state, grid_frame),
        EditOutcome::Rejected(DecodeError::UnexpectedOpcode(1))
    );
    let mut other_version = encode_pixel_frame(&Pixel { x: 0, y: 0, color: Color::new(0, 0, 0) });
    other_version[0] = 2;
    assert_eq!(
        apply_frame(&mut state, other_version),
        EditOutcome::Rejected(DecodeError::VersionMismatch(2))
    );
    assert_eq!(state.grid(), &before);
    assert!(state.delta().delta.is_empty());
}

#[test]
fn edits_are_applied_in_arrival_order() {
    let mut state = canvas(2, 2);
    let first = Pixel { x: 0, y: 1, color: Color::new(1, 1, 1) };
    let second = Pixel { x: 0, y: 1, color: Color::new(2, 2, 2) };
    apply_frame(&mut state, encode_pixel_frame(&first));
    apply_frame(&mut state, encode_pixel_frame(&second));
    assert_eq!(state.grid().rows[1].pixels[0], Color::new(2, 2, 2));
    assert_eq!(state.delta().delta, vec![first, second]);
}

#[test]
fn client_catches_up_from_checkpoint_and_broadcast() {
    let mut state = canvas(4, 3);
    apply_frame(&mut state, encode_pixel_frame(&Pixel { x: 0, y: 0, color: Color::new(1, 0, 0) }));
    state.set_new_encoded_grid_data().unwrap();

    // The client is greeted at the checkpoint.
    let hello = greeting(&state);
    let mut client = decode_grid_frame(&hello[0]).unwrap();
    for edit in decode_delta_frame(&hello[1]).unwrap().delta {
        client_apply(&mut client, edit);
    }

    let inbound = vec![
        encode_pixel_frame(&Pixel { x: 3, y: 2, color: Color::new(2, 0, 0) }),
        encode_pixel_frame(&Pixel { x: 9, y: 9, color: Color::new(3, 0, 0) }),
        vec![1, 2, 3],
        encode_pixel_frame(&Pixel { x: 3, y: 2, color: Color::new(4, 0, 0) }),
        encode_pixel_frame(&Pixel { x: 1, y: 1, color: Color::new(5, 0, 0) }),
    ];
    let mut broadcast = Vec::new();
    for (i, frame) in inbound.into_iter().enumerate() {
        if let EditOutcome::Broadcast(bytes) = apply_frame(&mut state, frame) {
            broadcast.push(bytes);
        }
        if i == 2 {
            state.set_new_encoded_grid_data().unwrap();
        }
    }
    assert_eq!(broadcast.len(), 3);
    for bytes in broadcast {
        client_apply(&mut client, decode_pixel_frame(&bytes).unwrap());
    }
    assert_eq!(&client, state.grid());
}

#[test]
fn client_catches_up_mid_window_after_the_delta_is_encoded() {
    let mut state = canvas(2, 2);
    state.set_new_encoded_grid_data().unwrap();
    let a = Pixel { x: 0, y: 0, color: Color::new(1, 1, 1) };
    let b = Pixel { x: 1, y: 1, color: Color::new(2, 2, 2) };
    apply_frame(&mut state, encode_pixel_frame(&a));
    apply_frame(&mut state, encode_pixel_frame(&b));
    apply_frame(&mut state, encode_pixel_frame(&Pixel { color: Color::new(3, 3, 3), ..a }));
    state.set_new_encoded_delta_data().unwrap();

    let hello = greeting(&state);
    let mut client = decode_grid_frame(&hello[0]).unwrap();
    for edit in decode_delta_frame(&hello[1]).unwrap().delta {
        client_apply(&mut client, edit);
    }
    assert_eq!(&client, state.grid());
}

#[test]
fn greeting_is_the_grid_frame_then_the_delta_frame() {
    let mut state = canvas(1, 1);
    state.set_new_encoded_grid_data().unwrap();
    let hello = greeting(&state);
    assert_eq!(hello.len(), 2);
    assert_eq!(hello[0], state.get_encoded_grid_data_cloned());
    assert_eq!(hello[1], state.get_encoded_delta_data_cloned());
    assert_eq!(hello[0][4], 1);
    assert_eq!(hello[1][4], 3);
}

#[test]
fn each_event_has_its_action() {
    assert_eq!(react(ConnectionEvent::Binary(vec![1, 2])), ConnectionAction::Enqueue(vec![1, 2]));
    assert_eq!(react(ConnectionEvent::NotBinary), ConnectionAction::Nothing);
    assert_eq!(react(ConnectionEvent::QueueFull), ConnectionAction::Nothing);
    assert_eq!(react(ConnectionEvent::Published(vec![3])), ConnectionAction::Send(vec![3]));
    assert_eq!(react(ConnectionEvent::Lagged(1)), ConnectionAction::Resync);
    assert_eq!(react(ConnectionEvent::Closed), ConnectionAction::Terminate);
}

#[test]
fn slow_subscriber_is_told_that_it_lagged() {
    let (publisher, mut subscriber) = broadcast::channel::<Vec<u8>>(BROADCAST_CAPACITY);
    let mut state = canvas(8, 8);
    state.set_new_encoded_grid_data().unwrap();
    let mut sent = 0usize;
    for i in 0..(BROADCAST_CAPACITY as u32 + 1) {
        let edit = Pixel { x: i % 8, y: i / 8, color: Color::new(i as u8, 0, 0) };
        if let EditOutcome::Broadcast(bytes) = apply_frame(&mut state, encode_pixel_frame(&edit)) {
            publisher.send(bytes).unwrap();
            sent += 1;
        }
    }
    assert_eq!(sent, BROADCAST_CAPACITY + 1);

    let event = match subscriber.try_recv() {
        Ok(frame) => ConnectionEvent::Published(frame),
        Err(TryRecvError::Lagged(missed)) => ConnectionEvent::Lagged(missed),
        Err(TryRecvError::Empty) => ConnectionEvent::NotBinary,
        Err(TryRecvError::Closed) => ConnectionEvent::Closed,
    };
    assert_eq!(event, ConnectionEvent::Lagged(1));
    assert_eq!(react(event), ConnectionAction::Resync);
}

#[test]
fn full_queue_sheds_the_newest_frame_only() {
    let (producer, mut consumer) = mpsc::channel::<Vec<u8>>(QUEUE_CAPACITY);
    let mut shed = Vec::new();
    for i in 0..(QUEUE_CAPACITY as u8 + 2) {
        if let ConnectionAction::Enqueue(bytes) = react(ConnectionEvent::Binary(vec![i])) {
            if let Err(TrySendError::Full(bytes)) = producer.try_send(bytes) {
                assert_eq!(react(ConnectionEvent::QueueFull), ConnectionAction::Nothing);
                shed.push(bytes);
            }
        }
    }
    assert_eq!(shed, vec![vec![16], vec![17]]);
    for i in 0..QUEUE_CAPACITY as u8 {
        assert_eq!(consumer.try_recv().unwrap(), vec![i]);
    }
    assert!(consumer.try_recv().is_err());
}
