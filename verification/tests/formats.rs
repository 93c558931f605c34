use ironrdp_core::{encode_vec, Encode, EncodeErrorKind, WriteCursor};
use ironrdp_dvc_server::complete_data::CompleteData;
use ironrdp_dvc_server::error::{DecodeError, PduError};
use ironrdp_dvc_server::pdu::{
    decode_dvc_message, CapabilitiesRequestPdu, CapabilitiesResponsePdu, CapsVersion, ClosePdu, CreateRequestPdu,
    CreateResponsePdu, DataFirstPdu, DataPdu, DrdynvcClientPdu, DrdynvcDataPdu, DrdynvcServerPdu,
};
use ironrdp_dvc_server::processor::DvcMessage;
use ironrdp_dvc_server::server::DrdynvcServer;
use ironrdp_dvc_server::svc::{encode_dvc_messages, EncodedPdu};
use ironrdp_dvc_server::text::{push_decimal, str_eq};
use ironrdp_dvc_server::wire::{read_u16, read_u32, write_narrow, write_u16, write_u32, FieldType};

fn short(received: usize, expected: usize) -> Result<DrdynvcClientPdu, DecodeError> {
    Err(DecodeError::NotEnoughBytes { received, expected })
}

fn first(channel_id: u32, length: u32, data: &[u8]) -> DrdynvcDataPdu {
    DrdynvcDataPdu::DataFirst(DataFirstPdu { channel_id, length, data: data.to_vec() })
}

fn block(channel_id: u32, data: &[u8]) -> DrdynvcDataPdu {
    DrdynvcDataPdu::Data(DataPdu { channel_id, data: data.to_vec() })
}

#[test]
fn integers_are_little_endian() {
    let mut out = Vec::new();
    write_u16(&mut out, 0x1234);
    write_u32(&mut out, 0x89ab_cdef);
    assert_eq!(out, vec![0x34, 0x12, 0xef, 0xcd, 0xab, 0x89]);
    assert_eq!(read_u16(&out, 0), 0x1234);
    assert_eq!(read_u32(&out, 2), 0x89ab_cdef);
}

#[test]
fn integers_take_the_narrowest_width() {
    for (v, width, encoded) in [
        (0u32, FieldType::U8, vec![0]),
        (0xff, FieldType::U8, vec![0xff]),
        (0x100, FieldType::U16, vec![0, 1]),
        (0xffff, FieldType::U16, vec![0xff, 0xff]),
        (0x1_0000, FieldType::U32, vec![0, 0, 1, 0]),
        (u32::MAX, FieldType::U32, vec![0xff; 4]),
    ] {
        let mut out = Vec::new();
        write_narrow(&mut out, v);
        assert_eq!(out, encoded);
        assert_eq!(FieldType::for_val(v), width);
        assert_eq!(FieldType::from_code(width.to_code()), width);
        assert_eq!(width.size_of_val(), encoded.len());
        assert_eq!(width.read(&out, 0), v);
    }
    assert_eq!(FieldType::from_code(3), FieldType::Invalid);
    assert_eq!(FieldType::Invalid.size_of_val(), 0);
}

#[test]
fn capability_responses_are_read() {
    for (number, version) in [(1, CapsVersion::V1), (2, CapsVersion::V2), (3, CapsVersion::V3)] {
        assert_eq!(
            decode_dvc_message(&[0x50, 0, number, 0]),
            Ok(DrdynvcClientPdu::Capabilities(CapabilitiesResponsePdu { version }))
        );
        assert_eq!(version.to_number(), u16::from(number));
    }
    assert_eq!(decode_dvc_message(&[0x50, 0, 4, 0]), Err(DecodeError::InvalidVersion));
    assert_eq!(decode_dvc_message(&[0x50, 0, 2, 1]), Err(DecodeError::InvalidVersion));
    assert_eq!(decode_dvc_message(&[0x50, 0, 2]), short(2, 3));
    assert_eq!(CapsVersion::from_number(0), None);
}

#[test]
fn create_responses_are_read_in_every_width() {
    assert_eq!(
        decode_dvc_message(&[0x10, 7, 1, 2, 3, 4]),
        Ok(DrdynvcClientPdu::Create(CreateResponsePdu {
            channel_id: 7,
            creation_status: 0x0403_0201
        }))
    );
    assert_eq!(
        decode_dvc_message(&[0x11, 7, 1, 0, 0, 0, 0]),
        Ok(DrdynvcClientPdu::Create(CreateResponsePdu {
            channel_id: 0x107,
            creation_status: 0
        }))
    );
    assert_eq!(
        decode_dvc_message(&[0x12, 7, 1, 0, 0x80, 0, 0, 0, 0]),
        Ok(DrdynvcClientPdu::Create(CreateResponsePdu {
            channel_id: 0x8000_0107,
            creation_status: 0
        }))
    );
    assert_eq!(decode_dvc_message(&[0x10, 7, 1, 2, 3]), short(4, 5));
    assert_eq!(decode_dvc_message(&[0x13, 0, 0, 0, 0]), Err(DecodeError::InvalidFieldType));
    assert_eq!(decode_dvc_message(&[0x13, 0, 0, 0]), short(3, 4));
}

#[test]
fn closing_notices_are_read() {
    assert_eq!(
        decode_dvc_message(&[0x40, 9]),
        Ok(DrdynvcClientPdu::Close(ClosePdu { channel_id: 9 }))
    );
    assert_eq!(decode_dvc_message(&[0x41, 9]), short(1, 2));
    assert_eq!(decode_dvc_message(&[0x43]), Err(DecodeError::InvalidFieldType));
}

#[test]
fn blocks_are_read() {
    assert_eq!(
        decode_dvc_message(&[0x30, 9, 1, 2]),
        Ok(DrdynvcClientPdu::Data(block(9, &[1, 2])))
    );
    assert_eq!(decode_dvc_message(&[0x30, 9]), Ok(DrdynvcClientPdu::Data(block(9, &[]))));
    assert_eq!(
        decode_dvc_message(&[0x24, 9, 0x36, 0x06, 1, 2]),
        Ok(DrdynvcClientPdu::Data(first(9, 1590, &[1, 2])))
    );
    assert_eq!(decode_dvc_message(&[0x30]), short(0, 1));
    assert_eq!(decode_dvc_message(&[0x33]), Err(DecodeError::InvalidFieldType));
    assert_eq!(decode_dvc_message(&[0x24, 9, 1]), short(2, 3));
    assert_eq!(decode_dvc_message(&[0x2c, 9]), Err(DecodeError::InvalidFieldType));
    assert_eq!(decode_dvc_message(&[0x23, 9]), Err(DecodeError::InvalidFieldType));
}

#[test]
fn other_commands_are_refused() {
    assert_eq!(decode_dvc_message(&[]), short(0, 1));
    assert_eq!(decode_dvc_message(&[0x00]), Err(DecodeError::InvalidCmd));
    assert_eq!(decode_dvc_message(&[0xa0]), Err(DecodeError::InvalidCmd));
    for cmd in 6u8..=9 {
        assert_eq!(decode_dvc_message(&[cmd << 4]), Err(DecodeError::UnsupportedCmd { cmd }));
    }
}

#[test]
fn unreadable_payload_changes_nothing() {
    let mut server = DrdynvcServer::new();
    server.start().unwrap();
    let before = server.state();
    assert_eq!(
        server.process(&[0xf0]).unwrap_err(),
        PduError::Decode(DecodeError::InvalidCmd)
    );
    assert_eq!(server.state(), before);
}

#[test]
fn server_messages_are_written() {
    let capabilities = |version| DrdynvcServerPdu::Capabilities(CapabilitiesRequestPdu {
        version,
        charges: [1, 2, 3, 0x405],
    });
    assert_eq!(capabilities(CapsVersion::V1).encode(), vec![0x50, 0, 1, 0]);
    assert_eq!(
        capabilities(CapsVersion::V3).encode(),
        vec![0x50, 0, 3, 0, 1, 0, 2, 0, 3, 0, 5, 4]
    );
    assert_eq!(
        DrdynvcServerPdu::Create(CreateRequestPdu {
            channel_id: 0x1_0002,
            channel_name: "é".to_owned()
        })
        .encode(),
        vec![0x12, 2, 0, 1, 0, 0xc3, 0xa9, 0]
    );
    assert_eq!(
        DrdynvcServerPdu::Close(ClosePdu { channel_id: 0x102 }).encode(),
        vec![0x41, 2, 1]
    );
    assert_eq!(DrdynvcServerPdu::Data(block(3, &[9])).encode(), vec![0x30, 3, 9]);
    assert_eq!(first(3, 0x1_0000, &[9]).encode(), vec![0x28, 3, 0, 0, 1, 0, 9]);
}

#[test]
fn blocks_and_notices_are_read_back() {
    for id in [0, 0xff, 0x100, 0xffff, 0x1_0000, u32::MAX] {
        assert_eq!(
            decode_dvc_message(&block(id, &[1, 2, 3]).encode()),
            Ok(DrdynvcClientPdu::Data(block(id, &[1, 2, 3])))
        );
        assert_eq!(
            decode_dvc_message(&first(id, id, &[4]).encode()),
            Ok(DrdynvcClientPdu::Data(first(id, id, &[4])))
        );
        assert_eq!(
            decode_dvc_message(&DrdynvcServerPdu::Close(ClosePdu { channel_id: id }).encode()),
            Ok(DrdynvcClientPdu::Close(ClosePdu { channel_id: id }))
        );
    }
}

#[test]
fn whole_messages_pass() {
    let mut data = CompleteData::new();
    assert_eq!(data.process_data(block(1, &[1, 2])), Ok(Some(vec![1, 2])));
    assert_eq!(data.process_data(block(1, &[])), Ok(Some(vec![])));
    assert_eq!(data.process_data(first(1, 2, &[3, 4])), Ok(Some(vec![3, 4])));
    assert_eq!(data, CompleteData::new());
}

#[test]
fn partial_messages_wait() {
    let mut data = CompleteData::new();
    assert_eq!(data.process_data(first(1, 4, &[1])), Ok(None));
    assert_eq!(data.process_data(block(1, &[2])), Ok(None));
    assert_eq!(data.process_data(block(1, &[3, 4])), Ok(Some(vec![1, 2, 3, 4])));
    assert_eq!(data, CompleteData::new());
}

#[test]
fn exceeding_blocks_are_dropped() {
    let mut data = CompleteData::new();
    assert_eq!(data.process_data(first(1, 2, &[1])), Ok(None));
    assert_eq!(data.process_data(block(1, &[2, 3])), Ok(None));
    assert_eq!(data, CompleteData::new());
    assert_eq!(data.process_data(block(1, &[4])), Ok(Some(vec![4])));
}

#[test]
fn first_block_starts_anew() {
    let mut data = CompleteData::new();
    assert_eq!(data.process_data(first(1, 9, &[1])), Ok(None));
    assert_eq!(data.process_data(first(1, 3, &[2])), Ok(None));
    assert_eq!(data.process_data(block(1, &[3, 4])), Ok(Some(vec![2, 3, 4])));
}

fn sent(message: Vec<u8>) -> Vec<Vec<u8>> {
    encode_dvc_messages(1, vec![DvcMessage { bytes: message }], 0x10)
        .unwrap()
        .iter()
        .map(|m| m.encode_unframed_pdu().unwrap())
        .collect()
}

#[test]
fn messages_are_cut_into_blocks() {
    assert!(sent(Vec::new()).is_empty());
    let lengths = |n: usize| sent(vec![5; n]).iter().map(Vec::len).collect::<Vec<_>>();
    assert_eq!(lengths(1), vec![3]);
    assert_eq!(lengths(1589), vec![1591]);
    assert_eq!(lengths(1590), vec![1594]);
    assert_eq!(lengths(1591), vec![1594, 3]);
    assert_eq!(lengths(3180), vec![1594, 1592]);
    assert_eq!(lengths(3181), vec![1594, 1592, 3]);
    assert_eq!(sent(vec![5; 1591])[0][..4], [0x24, 1, 0x37, 0x06]);
    assert_eq!(sent(vec![5; 1591])[1], vec![0x30, 1, 5]);
}

#[test]
fn sent_messages_are_put_together_again() {
    for n in [1usize, 2, 1589, 1590, 1591, 3180, 5000] {
        let message: Vec<u8> = (0..n).map(|i| (i % 251) as u8).collect();
        let mut data = CompleteData::new();
        let mut received = Vec::new();
        for payload in sent(message.clone()) {
            let Ok(DrdynvcClientPdu::Data(block)) = decode_dvc_message(&payload) else {
                panic!("not a block");
            };
            received.extend(data.process_data(block).unwrap());
        }
        assert_eq!(received, vec![message]);
        assert_eq!(data, CompleteData::new());
    }
}

#[test]
fn flags_are_handed_on() {
    let plain = encode_dvc_messages(1, vec![DvcMessage { bytes: vec![1] }], 0).unwrap();
    let shown = encode_dvc_messages(1, vec![DvcMessage { bytes: vec![1] }], 0x10).unwrap();
    assert!(!format!("{:?}", plain[0]).contains("SHOW_PROTOCOL"));
    assert!(format!("{:?}", shown[0]).contains("SHOW_PROTOCOL"));
}

#[test]
fn texts_are_compared_and_numbers_written() {
    assert!(str_eq("", ""));
    assert!(str_eq("drdynvc", "drdynvc"));
    assert!(!str_eq("drdynvc", "drdynva"));
    assert!(!str_eq("drdynvc", "drdynvcs"));
    for n in [0u64, 9, 10, 120, 4_294_967_295, u64::MAX] {
        let mut out = String::new();
        push_decimal(&mut out, n);
        assert_eq!(out, format!("{n}"));
    }
}

#[test]
fn several_messages_arrive_in_order() {
    let messages = [vec![1u8; 2000], Vec::new(), vec![2; 3], vec![3; 1590]];
    let outgoing = messages.iter().map(|bytes| DvcMessage { bytes: bytes.clone() }).collect();
    let mut data = CompleteData::new();
    let mut received = Vec::new();
    for message in encode_dvc_messages(0x300, outgoing, 0).unwrap() {
        let payload = message.encode_unframed_pdu().unwrap();
        let Ok(DrdynvcClientPdu::Data(block)) = decode_dvc_message(&payload) else {
            panic!("not a block");
        };
        assert_eq!(block.channel_id(), 0x300);
        received.extend(data.process_data(block).unwrap());
    }
    assert_eq!(received, vec![vec![1u8; 2000], vec![2; 3], vec![3; 1590]]);
    assert_eq!(data, CompleteData::new());
}

#[test]
fn encoded_message_is_written_where_it_fits() {
    let pdu = EncodedPdu { name: "a name", bytes: vec![1, 2, 3] };
    assert_eq!(Encode::name(&pdu), "a name");
    assert_eq!(Encode::size(&pdu), 3);
    assert_eq!(encode_vec(&pdu).unwrap(), vec![1, 2, 3]);

    let mut buffer = [0u8; 4];
    let mut cursor = WriteCursor::new(&mut buffer);
    Encode::encode(&pdu, &mut cursor).unwrap();
    assert_eq!(cursor.pos(), 3);
    let error = Encode::encode(&pdu, &mut cursor).unwrap_err();
    assert!(matches!(
        error.kind(),
        EncodeErrorKind::NotEnoughBytes { received: 1, expected: 3 }
    ));
    assert_eq!(cursor.pos(), 3);
    assert_eq!(buffer, [1, 2, 3, 0]);

    let empty = EncodedPdu { name: "", bytes: Vec::new() };
    let mut cursor = WriteCursor::new(&mut buffer);
    cursor.advance(5);
    assert!(Encode::encode(&empty, &mut cursor).is_ok());
    assert!(Encode::encode(&pdu, &mut cursor).is_err());
}

#[test]
fn server_messages_have_names() {
    let capabilities = |version| DrdynvcServerPdu::Capabilities(CapabilitiesRequestPdu::new(version));
    assert_eq!(capabilities(CapsVersion::V1).name(), "DYNVC_CAPS_VERSION1");
    assert_eq!(capabilities(CapsVersion::V2).name(), "DYNVC_CAPS_VERSION2");
    assert_eq!(capabilities(CapsVersion::V3).name(), "DYNVC_CAPS_VERSION3");
    assert_eq!(DrdynvcServerPdu::Data(first(1, 2, &[])).name(), "DYNVC_DATA_FIRST");
    assert_eq!(block(1, &[]).name(), "DYNVC_DATA");
}
