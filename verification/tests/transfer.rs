use druid::property::{property_atoms, property_bytes, PropertyReply};
use druid::transfer::{Transfer, TransferAction, TransferEvent, TransferPhase, NONE_ATOM, PROPERTY_NEW_VALUE};

const WINDOW: u32 = 42;
const INCR: u32 = 99;
const STRING_TYPE: u32 = 31;

fn reply(type_: u32, format: u8, value: &[u8]) -> PropertyReply {
    PropertyReply {
        format,
        sequence: 0,
        length: 0,
        type_,
        bytes_after: 0,
        value_len: value.len() as u32,
        value: value.to_vec(),
    }
}

fn answer(property: u32) -> TransferEvent {
    TransferEvent::SelectionNotify { requestor: WINDOW, property }
}

fn piece_notification() -> TransferEvent {
    TransferEvent::PropertyNotify { window: WINDOW, state: PROPERTY_NEW_VALUE }
}

#[test]
fn refused_transfer_yields_nothing() {
    let mut t: Transfer<u8> = Transfer::new(WINDOW, INCR);
    match t.on_event(answer(NONE_ATOM)) {
        TransferAction::Finish(None) => {},
        _ => panic!("expected a refused transfer"),
    }
    assert!(t.phase() == TransferPhase::Finished);
}

#[test]
fn direct_transfer_yields_the_reply() {
    let mut t: Transfer<u8> = Transfer::new(WINDOW, INCR);
    assert!(matches!(t.on_event(answer(7)), TransferAction::ReadFirstProperty));
    match t.on_reply(reply(STRING_TYPE, 8, b"hello"), property_bytes) {
        TransferAction::Finish(Some(v)) => assert_eq!(v, b"hello".to_vec()),
        _ => panic!("expected the value"),
    }
    assert!(t.phase() == TransferPhase::Finished);
}

#[test]
fn foreign_events_are_requeued() {
    let mut t: Transfer<u8> = Transfer::new(WINDOW, INCR);
    let other_window = TransferEvent::SelectionNotify { requestor: WINDOW + 1, property: 7 };
    assert!(matches!(t.on_event(other_window), TransferAction::Requeue));
    assert!(matches!(t.on_event(TransferEvent::Other), TransferAction::Requeue));
    assert!(matches!(t.on_event(piece_notification()), TransferAction::Requeue));
    assert!(t.phase() == TransferPhase::AwaitingNotify);
    assert!(matches!(t.on_event(answer(7)), TransferAction::ReadFirstProperty));
    assert!(t.phase() == TransferPhase::AwaitingFirstReply);
}

#[test]
fn incremental_transfer_concatenates_the_pieces() {
    let mut t: Transfer<u8> = Transfer::new(WINDOW, INCR);
    assert!(matches!(t.on_event(answer(7)), TransferAction::ReadFirstProperty));
    assert!(matches!(t.on_reply(reply(INCR, 32, &[0, 0, 0, 9]), property_bytes), TransferAction::StartIncremental));
    let deleted = TransferEvent::PropertyNotify { window: WINDOW, state: 1 };
    assert!(matches!(t.on_event(deleted), TransferAction::Requeue));
    let elsewhere = TransferEvent::PropertyNotify { window: WINDOW + 1, state: PROPERTY_NEW_VALUE };
    assert!(matches!(t.on_event(elsewhere), TransferAction::Requeue));
    for piece in [&b"abc"[..], &b"de"[..], &b"f"[..]] {
        assert!(matches!(t.on_event(piece_notification()), TransferAction::ReadNextChunk));
        assert!(matches!(t.on_reply(reply(STRING_TYPE, 8, piece), property_bytes), TransferAction::AwaitNextChunk));
    }
    assert!(matches!(t.on_event(piece_notification()), TransferAction::ReadNextChunk));
    match t.on_reply(reply(STRING_TYPE, 8, b""), property_bytes) {
        TransferAction::Finish(Some(v)) => assert_eq!(v, b"abcdef".to_vec()),
        _ => panic!("expected the whole value"),
    }
}

#[test]
fn incremental_transfer_of_atoms_converts_each_piece() {
    let mut t: Transfer<u32> = Transfer::new(WINDOW, INCR);
    assert!(matches!(t.on_event(answer(7)), TransferAction::ReadFirstProperty));
    assert!(matches!(t.on_reply(reply(INCR, 32, &[0, 0, 0, 0]), property_atoms), TransferAction::StartIncremental));
    let mut first = Vec::new();
    first.extend_from_slice(&5u32.to_ne_bytes());
    first.extend_from_slice(&6u32.to_ne_bytes());
    assert!(matches!(t.on_event(piece_notification()), TransferAction::ReadNextChunk));
    assert!(matches!(t.on_reply(reply(4, 32, &first), property_atoms), TransferAction::AwaitNextChunk));
    assert!(matches!(t.on_event(piece_notification()), TransferAction::ReadNextChunk));
    assert!(matches!(t.on_reply(reply(4, 32, &7u32.to_ne_bytes()), property_atoms), TransferAction::AwaitNextChunk));
    assert!(matches!(t.on_event(piece_notification()), TransferAction::ReadNextChunk));
    match t.on_reply(reply(4, 32, &[]), property_atoms) {
        TransferAction::Finish(Some(v)) => assert_eq!(v, vec![5, 6, 7]),
        _ => panic!("expected the atoms"),
    }
}

#[test]
fn empty_incremental_transfer_yields_an_empty_value() {
    let mut t: Transfer<u8> = Transfer::new(WINDOW, INCR);
    t.on_event(answer(7));
    t.on_reply(reply(INCR, 32, &[0, 0, 0, 0]), property_bytes);
    t.on_event(piece_notification());
    match t.on_reply(reply(STRING_TYPE, 8, b""), property_bytes) {
        TransferAction::Finish(Some(v)) => assert!(v.is_empty()),
        _ => panic!("expected an empty value"),
    }
}

#[test]
fn property_atoms_reads_native_words_of_format_32() {
    let mut bytes = Vec::new();
    bytes.extend_from_slice(&0x0102_0304u32.to_ne_bytes());
    bytes.extend_from_slice(&17u32.to_ne_bytes());
    bytes.push(0xff);
    assert_eq!(property_atoms(reply(4, 32, &bytes)), vec![0x0102_0304, 17]);
}

#[test]
fn property_atoms_of_other_formats_is_empty() {
    assert!(property_atoms(reply(4, 8, &[1, 2, 3, 4])).is_empty());
    assert!(property_atoms(reply(4, 16, &[1, 2, 3, 4])).is_empty());
}

#[test]
fn property_bytes_is_the_raw_value() {
    assert_eq!(property_bytes(reply(4, 8, &[1, 2, 3])), vec![1, 2, 3]);
}
