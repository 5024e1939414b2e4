use uuid::Uuid;
use wintun::{
    decode_str, encode_str, into_string, fill_send_buffer, receive_step, send_size, session_capacity, wstrlen,
    Guid, ReceiveAction, ReceiveOutcome, ERROR_NO_MORE_ITEMS, MAX_RING_CAPACITY,
    MIN_RING_CAPACITY,
};

#[test]
fn encode_str_ascii_is_nul_terminated() {
    assert_eq!(encode_str("Test"), vec![0x54, 0x65, 0x73, 0x74, 0]);
    assert_eq!(encode_str("wintun.dll").len(), 11);
}

#[test]
fn encode_str_empty() {
    assert_eq!(encode_str(""), vec![0]);
}

#[test]
fn encode_str_uses_surrogate_pairs() {
    // U+20AC fits one unit, U+1D11E needs a surrogate pair.
    assert_eq!(encode_str("\u{20AC}\u{1D11E}"), vec![0x20AC, 0xD834, 0xDD1E, 0]);
    assert_eq!(encode_str("\u{10FFFF}"), vec![0xDBFF, 0xDFFF, 0]);
    assert_eq!(encode_str("\u{FFFF}"), vec![0xFFFF, 0]);
    assert_eq!(encode_str("\u{10000}"), vec![0xD800, 0xDC00, 0]);
}

#[test]
fn encode_str_matches_std_utf16() {
    let s = "Wintun \u{e9}\u{4e2d}\u{1F600}!";
    let mut expected: Vec<u16> = s.encode_utf16().collect();
    expected.push(0);
    assert_eq!(encode_str(s), expected);
}

#[test]
fn wstrlen_stops_at_first_nul() {
    assert_eq!(wstrlen(&[0x41, 0x42, 0, 0x43, 0]), 2);
    assert_eq!(wstrlen(&[0]), 0);
    assert_eq!(wstrlen(&[0, 0x41]), 0);
}

#[test]
fn wstrlen_without_nul_counts_everything() {
    assert_eq!(wstrlen(&[1, 2, 3]), 3);
    assert_eq!(wstrlen(&[]), 0);
}

#[test]
fn decode_str_reads_up_to_nul() {
    assert_eq!(decode_str(&[0x48, 0x69, 0]), vec![0x48, 0x69]);
    assert_eq!(decode_str(&[0x41, 0, 0xDC00, 0x42]), vec![0x41]);
    assert_eq!(decode_str(&[0]), Vec::<u16>::new());
    assert_eq!(decode_str(&[0x4F, 0x4B]), vec![0x4F, 0x4B]);
}

#[test]
fn decode_str_keeps_unpaired_surrogates() {
    assert_eq!(decode_str(&[0xD800, 0]), vec![0xD800]);
    assert_eq!(decode_str(&[0xDD1E, 0x41, 0xD834, 0]), vec![0xDD1E, 0x41, 0xD834]);
}

#[test]
fn into_string_joins_surrogate_pairs() {
    assert_eq!(into_string(&[0x48, 0x69]), Some("Hi".to_string()));
    assert_eq!(into_string(&[]), Some(String::new()));
    assert_eq!(into_string(&[0xD834, 0xDD1E]), Some("\u{1D11E}".to_string()));
    assert_eq!(into_string(&[0x20AC, 0xDBFF, 0xDFFF]), Some("\u{20AC}\u{10FFFF}".to_string()));
}

#[test]
fn into_string_rejects_lone_surrogates() {
    // a low surrogate with no high one in front
    assert_eq!(into_string(&[0xDD1E]), None);
    // a high surrogate followed by something other than a low one
    assert_eq!(into_string(&[0xD834, 0x41]), None);
    // a high surrogate at the very end
    assert_eq!(into_string(&[0x41, 0xD834]), None);
    assert_eq!(into_string(&decode_str(&[0xD800, 0])), None);
}

#[test]
fn decode_str_undoes_encode_str() {
    for s in ["", "Test", "wintun: adapter created", "\u{e9}\u{4e2d}\u{1F600}\u{10FFFF}"] {
        let units = decode_str(&encode_str(s));
        let expected: Vec<u16> = s.encode_utf16().collect();
        assert_eq!(units, expected);
        assert_eq!(into_string(&units), Some(s.to_string()));
    }
}

#[test]
fn decode_str_stops_at_interior_nul() {
    // a string with a NUL in it does not come back whole
    assert_eq!(into_string(&decode_str(&encode_str("a\0b"))), Some("a".to_string()));
}

#[test]
fn decode_str_is_lossless_on_terminated_units() {
    let units: Vec<u16> = vec![0xDC00, 0x57, 0xD83D, 0xDE00, 0xD800];
    let mut terminated = units.clone();
    terminated.push(0);
    assert_eq!(decode_str(&terminated), units);
}

#[test]
fn encode_str_undoes_into_string() {
    let units: Vec<u16> = vec![0x57, 0xD83D, 0xDE00, 0x20AC, 0];
    let s = into_string(&decode_str(&units)).unwrap();
    assert_eq!(encode_str(&s), units);
}

#[test]
fn session_capacity_bounds() {
    assert_eq!(session_capacity(MIN_RING_CAPACITY - 1), None);
    assert_eq!(session_capacity(MIN_RING_CAPACITY), Some(0x20000));
    assert_eq!(session_capacity(0x100000), Some(0x100000));
    assert_eq!(session_capacity(MAX_RING_CAPACITY), Some(0x4000000));
    assert_eq!(session_capacity(MAX_RING_CAPACITY + 1), None);
    assert_eq!(session_capacity(0), None);
    assert_eq!(session_capacity(usize::MAX), None);
}

#[test]
fn receive_step_delivers_packets() {
    assert_eq!(
        receive_step(ReceiveOutcome::Packet { size: 4 }),
        ReceiveAction::Deliver { size: 4 }
    );
    assert_eq!(
        receive_step(ReceiveOutcome::Packet { size: 0 }),
        ReceiveAction::Deliver { size: 0 }
    );
}

#[test]
fn receive_step_waits_on_empty_ring() {
    assert_eq!(
        receive_step(ReceiveOutcome::Failed { error: ERROR_NO_MORE_ITEMS }),
        ReceiveAction::WaitAndRetry
    );
    assert_eq!(ERROR_NO_MORE_ITEMS, 259);
}

#[test]
fn receive_step_gives_up_on_other_errors() {
    // ERROR_HANDLE_EOF and ERROR_INVALID_DATA
    assert_eq!(receive_step(ReceiveOutcome::Failed { error: 38 }), ReceiveAction::GiveUp);
    assert_eq!(receive_step(ReceiveOutcome::Failed { error: 13 }), ReceiveAction::GiveUp);
    assert_eq!(receive_step(ReceiveOutcome::Failed { error: 0 }), ReceiveAction::GiveUp);
}

#[test]
fn send_size_fits_u32() {
    assert_eq!(send_size(4), Some(4));
    assert_eq!(send_size(0), Some(0));
    assert_eq!(send_size(u32::MAX as usize), Some(u32::MAX));
    if usize::BITS > 32 {
        assert_eq!(send_size(u32::MAX as usize + 1), None);
    }
}

#[test]
fn fill_send_buffer_copies_packet() {
    let packet = 0xDEADBEEFu32.to_le_bytes();
    let mut buffer = [0u8; 4];
    fill_send_buffer(&mut buffer, &packet);
    assert_eq!(buffer, [0xEF, 0xBE, 0xAD, 0xDE]);
    let mut empty: [u8; 0] = [];
    fill_send_buffer(&mut empty, &[]);
}

#[test]
fn guid_from_uuid_is_little_endian() {
    let uuid = Uuid::parse_str("936DA01F-9ABD-4D9D-80C7-02AF85C822A8").unwrap();
    let guid = Guid::from_uuid_bytes(*uuid.as_bytes());
    assert_eq!(guid.data1, 0x1FA06D93);
    assert_eq!(guid.data2, 0xBD9A);
    assert_eq!(guid.data3, 0x9D4D);
    assert_eq!(guid.data4, [0x80, 0xC7, 0x02, 0xAF, 0x85, 0xC8, 0x22, 0xA8]);
}

#[test]
fn guid_from_uuid_matches_windows_layout() {
    let uuid = Uuid::parse_str("9d22354a-2755-304f-8647-9dc54e1ee1e8").unwrap();
    let guid = Guid::from_uuid_bytes(*uuid.as_bytes());
    assert_eq!(
        guid,
        Guid {
            data1: 0x4a35229d,
            data2: 0x5527,
            data3: 0x4f30,
            data4: [0x86, 0x47, 0x9d, 0xc5, 0x4e, 0x1e, 0xe1, 0xe8],
        }
    );
}

#[test]
fn guid_from_nil_uuid() {
    let guid = Guid::from_uuid_bytes(*Uuid::nil().as_bytes());
    assert_eq!(guid, Guid { data1: 0, data2: 0, data3: 0, data4: [0; 8] });
}

#[test]
fn guid_from_uuid_bytes_agrees_with_uuid_fields() {
    let bytes: [u8; 16] = [1, 2, 3, 4, 5, 6, 7, 8, 9, 10, 11, 12, 13, 14, 15, 16];
    let guid = Guid::from_uuid_bytes(bytes);
    assert_eq!(guid.data1, 0x04030201);
    assert_eq!(guid.data2, 0x0605);
    assert_eq!(guid.data3, 0x0807);
    assert_eq!(guid.data4, [9, 10, 11, 12, 13, 14, 15, 16]);
    let uuid = Uuid::from_bytes(bytes);
    let (d1, d2, d3, d4) = uuid.to_fields_le();
    assert_eq!((guid.data1, guid.data2, guid.data3, guid.data4), (d1, d2, d3, *d4));
}
