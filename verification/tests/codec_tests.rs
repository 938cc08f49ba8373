use dicom_ul::codec::{decode_pdu, encode_pdu, DecodeResult, MalformedReason};
use dicom_ul::pdu::{
    AbortInfo, AssociateAc, AssociateRj, AssociateRq, Pdu, PresResultReason,
    PresentationContextProposed, PresentationContextResult, PresentationDataValue, RawUserItem,
    UserInformation,
};

fn sample_user_info() -> UserInformation {
    UserInformation {
        max_pdu_length: 16384,
        implementation_class_uid: b"1.2.3.4".to_vec(),
        implementation_version_name: Some(b"TEST10".to_vec()),
        extended: vec![],
    }
}

fn sample_rq() -> Pdu {
    Pdu::AssociateRq(AssociateRq {
        protocol_version: 1,
        called_ae_title: b"STORESCP".to_vec(),
        calling_ae_title: b"STORESCU".to_vec(),
        application_context: b"1.2.840.10008.3.1.1.1".to_vec(),
        presentation_contexts: vec![PresentationContextProposed {
            id: 1,
            abstract_syntax: b"1.2.840.10008.1.1".to_vec(),
            transfer_syntaxes: vec![
                b"1.2.840.10008.1.2".to_vec(),
                b"1.2.840.10008.1.2.1".to_vec(),
            ],
        }],
        user_info: sample_user_info(),
    })
}

fn sample_ac() -> Pdu {
    Pdu::AssociateAc(AssociateAc {
        protocol_version: 1,
        called_ae_title: b"STORESCP".to_vec(),
        calling_ae_title: b"STORESCU".to_vec(),
        application_context: b"1.2.840.10008.3.1.1.1".to_vec(),
        presentation_contexts: vec![
            PresentationContextResult {
                id: 1,
                reason: PresResultReason::Acceptance,
                transfer_syntax: Some(b"1.2.840.10008.1.2".to_vec()),
            },
            PresentationContextResult {
                id: 3,
                reason: PresResultReason::AbstractSyntaxNotSupported,
                transfer_syntax: None,
            },
        ],
        user_info: sample_user_info(),
    })
}

#[test]
fn release_rq_exact_bytes() {
    let bytes = encode_pdu(&Pdu::ReleaseRq);
    assert_eq!(bytes, vec![0x05, 0x00, 0x00, 0x00, 0x00, 0x04, 0x00, 0x00, 0x00, 0x00]);
}

#[test]
fn release_rp_exact_bytes() {
    let bytes = encode_pdu(&Pdu::ReleaseRp);
    assert_eq!(bytes, vec![0x06, 0x00, 0x00, 0x00, 0x00, 0x04, 0x00, 0x00, 0x00, 0x00]);
}

#[test]
fn associate_rj_exact_bytes() {
    let bytes = encode_pdu(&Pdu::AssociateRj(AssociateRj { result: 1, source: 2, reason: 3 }));
    assert_eq!(bytes, vec![0x03, 0x00, 0x00, 0x00, 0x00, 0x04, 0x00, 0x01, 0x02, 0x03]);
}

#[test]
fn abort_exact_bytes() {
    let bytes = encode_pdu(&Pdu::Abort(AbortInfo { source: 2, reason: 5 }));
    assert_eq!(bytes, vec![0x07, 0x00, 0x00, 0x00, 0x00, 0x04, 0x00, 0x00, 0x02, 0x05]);
}

#[test]
fn pdata_exact_bytes() {
    let p = Pdu::PDataTf(vec![PresentationDataValue {
        context_id: 1,
        is_last: true,
        is_command: true,
        data: vec![0xAA, 0xBB],
    }]);
    let bytes = encode_pdu(&p);
    assert_eq!(
        bytes,
        vec![0x04, 0x00, 0x00, 0x00, 0x00, 0x08, 0x00, 0x00, 0x00, 0x04, 0x01, 0x03, 0xAA, 0xBB]
    );
}

#[test]
fn round_trip_every_pdu_kind() {
    let pdus = vec![
        sample_rq(),
        sample_ac(),
        Pdu::AssociateRj(AssociateRj { result: 1, source: 3, reason: 2 }),
        Pdu::PDataTf(vec![
            PresentationDataValue {
                context_id: 1,
                is_last: false,
                is_command: true,
                data: vec![1, 2, 3],
            },
            PresentationDataValue {
                context_id: 1,
                is_last: true,
                is_command: false,
                data: vec![],
            },
        ]),
        Pdu::ReleaseRq,
        Pdu::ReleaseRp,
        Pdu::Abort(AbortInfo { source: 0, reason: 0 }),
    ];
    for p in pdus {
        let bytes = encode_pdu(&p);
        match decode_pdu(&bytes) {
            DecodeResult::Complete(q, n) => {
                assert_eq!(q, p);
                assert_eq!(n, bytes.len());
            }
            other => panic!("expected complete decode, got {:?}", other),
        }
    }
}

#[test]
fn round_trip_with_extended_negotiation_items() {
    let p = Pdu::AssociateRq(AssociateRq {
        protocol_version: 1,
        called_ae_title: b"A".to_vec(),
        calling_ae_title: vec![],
        application_context: b"1.2.840.10008.3.1.1.1".to_vec(),
        presentation_contexts: vec![PresentationContextProposed {
            id: 5,
            abstract_syntax: b"1.2".to_vec(),
            transfer_syntaxes: vec![b"1.3".to_vec()],
        }],
        user_info: UserInformation {
            max_pdu_length: 0xFFFF_FFFF,
            implementation_class_uid: b"9.9".to_vec(),
            implementation_version_name: None,
            extended: vec![
                RawUserItem { code: 0x53, data: vec![0, 1] },
                RawUserItem { code: 0x54, data: vec![] },
            ],
        },
    });
    let bytes = encode_pdu(&p);
    match decode_pdu(&bytes) {
        DecodeResult::Complete(q, n) => {
            assert_eq!(q, p);
            assert_eq!(n, bytes.len());
        }
        other => panic!("expected complete decode, got {:?}", other),
    }
}

#[test]
fn decode_consumes_one_pdu_of_a_stream() {
    let mut stream = encode_pdu(&Pdu::ReleaseRq);
    let first_len = stream.len();
    stream.extend_from_slice(&encode_pdu(&Pdu::ReleaseRp));
    match decode_pdu(&stream) {
        DecodeResult::Complete(p, n) => {
            assert_eq!(p, Pdu::ReleaseRq);
            assert_eq!(n, first_len);
            match decode_pdu(&stream[n..]) {
                DecodeResult::Complete(q, m) => {
                    assert_eq!(q, Pdu::ReleaseRp);
                    assert_eq!(m, stream.len() - n);
                }
                other => panic!("expected complete decode, got {:?}", other),
            }
        }
        other => panic!("expected complete decode, got {:?}", other),
    }
}

#[test]
fn every_strict_prefix_is_incomplete() {
    for p in [sample_rq(), sample_ac(), Pdu::ReleaseRq] {
        let bytes = encode_pdu(&p);
        for n in 0..bytes.len() {
            match decode_pdu(&bytes[..n]) {
                DecodeResult::Incomplete => {}
                other => panic!("prefix of {} bytes gave {:?}", n, other),
            }
        }
    }
}

#[test]
fn ae_titles_are_padded_and_trimmed() {
    let bytes = encode_pdu(&sample_rq());
    // called AE title occupies body bytes 4..20, i.e. buffer bytes 10..26
    assert_eq!(&bytes[10..26], b"STORESCP        ");
    match decode_pdu(&bytes) {
        DecodeResult::Complete(Pdu::AssociateRq(rq), _) => {
            assert_eq!(rq.called_ae_title, b"STORESCP".to_vec());
            assert_eq!(rq.calling_ae_title, b"STORESCU".to_vec());
        }
        other => panic!("expected complete decode, got {:?}", other),
    }
}

#[test]
fn unknown_pdu_type_is_malformed() {
    let buf = vec![0x08, 0x00, 0x00, 0x00, 0x00, 0x04, 0, 0, 0, 0];
    assert_eq!(decode_pdu(&buf), DecodeResult::Malformed(MalformedReason::UnknownPduType));
    let buf0 = vec![0x00, 0x00, 0x00, 0x00, 0x00, 0x04, 0, 0, 0, 0];
    assert_eq!(decode_pdu(&buf0), DecodeResult::Malformed(MalformedReason::UnknownPduType));
}

#[test]
fn wrong_release_length_is_malformed() {
    let buf = vec![0x05, 0x00, 0x00, 0x00, 0x00, 0x05, 0, 0, 0, 0, 0];
    assert_eq!(decode_pdu(&buf), DecodeResult::Malformed(MalformedReason::LengthMismatch));
}

#[test]
fn empty_pdata_body_is_malformed() {
    let buf = vec![0x04, 0x00, 0x00, 0x00, 0x00, 0x00];
    assert_eq!(decode_pdu(&buf), DecodeResult::Malformed(MalformedReason::NoDataValues));
}

#[test]
fn zero_transfer_syntaxes_is_malformed() {
    // an RQ whose presentation context holds an abstract syntax and no
    // transfer syntax at all
    let mut body: Vec<u8> = Vec::new();
    body.extend_from_slice(&[0x00, 0x01, 0x00, 0x00]); // version 1 + reserved
    body.extend_from_slice(b"CALLED          ");
    body.extend_from_slice(b"CALLING         ");
    body.extend_from_slice(&[0u8; 32]);
    // application context item
    body.extend_from_slice(&[0x10, 0x00, 0x00, 0x03]);
    body.extend_from_slice(b"1.2");
    // presentation context item: id 1, abstract syntax only
    body.extend_from_slice(&[0x20, 0x00, 0x00, 0x0B]);
    body.extend_from_slice(&[0x01, 0x00, 0x00, 0x00]);
    body.extend_from_slice(&[0x30, 0x00, 0x00, 0x03]);
    body.extend_from_slice(b"4.5");
    // user information: max-length + class uid
    body.extend_from_slice(&[0x50, 0x00, 0x00, 0x0F]);
    body.extend_from_slice(&[0x51, 0x00, 0x00, 0x04, 0x00, 0x00, 0x40, 0x00]);
    body.extend_from_slice(&[0x52, 0x00, 0x00, 0x03]);
    body.extend_from_slice(b"6.7");
    let mut buf = vec![0x01, 0x00];
    buf.extend_from_slice(&(body.len() as u32).to_be_bytes());
    buf.extend_from_slice(&body);
    assert_eq!(decode_pdu(&buf), DecodeResult::Malformed(MalformedReason::ZeroTransferSyntaxes));
}

#[test]
fn missing_max_length_sub_item_is_malformed() {
    let mut body: Vec<u8> = Vec::new();
    body.extend_from_slice(&[0x00, 0x01, 0x00, 0x00]);
    body.extend_from_slice(b"CALLED          ");
    body.extend_from_slice(b"CALLING         ");
    body.extend_from_slice(&[0u8; 32]);
    body.extend_from_slice(&[0x10, 0x00, 0x00, 0x03]);
    body.extend_from_slice(b"1.2");
    body.extend_from_slice(&[0x20, 0x00, 0x00, 0x12]);
    body.extend_from_slice(&[0x01, 0x00, 0x00, 0x00]);
    body.extend_from_slice(&[0x30, 0x00, 0x00, 0x03]);
    body.extend_from_slice(b"4.5");
    body.extend_from_slice(&[0x40, 0x00, 0x00, 0x03]);
    body.extend_from_slice(b"8.9");
    // user information whose first sub-item is the class uid instead of the
    // mandatory maximum-length sub-item
    body.extend_from_slice(&[0x50, 0x00, 0x00, 0x07]);
    body.extend_from_slice(&[0x52, 0x00, 0x00, 0x03]);
    body.extend_from_slice(b"6.7");
    let mut buf = vec![0x01, 0x00];
    buf.extend_from_slice(&(body.len() as u32).to_be_bytes());
    buf.extend_from_slice(&body);
    assert_eq!(
        decode_pdu(&buf),
        DecodeResult::Malformed(MalformedReason::MissingMandatorySubItem)
    );
}

#[test]
fn unknown_result_code_is_malformed() {
    let mut body: Vec<u8> = Vec::new();
    body.extend_from_slice(&[0x00, 0x01, 0x00, 0x00]);
    body.extend_from_slice(b"CALLED          ");
    body.extend_from_slice(b"CALLING         ");
    body.extend_from_slice(&[0u8; 32]);
    body.extend_from_slice(&[0x10, 0x00, 0x00, 0x03]);
    body.extend_from_slice(b"1.2");
    // presentation context result with result code 9
    body.extend_from_slice(&[0x21, 0x00, 0x00, 0x04]);
    body.extend_from_slice(&[0x01, 0x00, 0x09, 0x00]);
    body.extend_from_slice(&[0x50, 0x00, 0x00, 0x0F]);
    body.extend_from_slice(&[0x51, 0x00, 0x00, 0x04, 0x00, 0x00, 0x40, 0x00]);
    body.extend_from_slice(&[0x52, 0x00, 0x00, 0x03]);
    body.extend_from_slice(b"6.7");
    let mut buf = vec![0x02, 0x00];
    buf.extend_from_slice(&(body.len() as u32).to_be_bytes());
    buf.extend_from_slice(&body);
    assert_eq!(decode_pdu(&buf), DecodeResult::Malformed(MalformedReason::UnknownResultCode));
}

#[test]
fn inconsistent_item_length_is_malformed() {
    // declared PDU length longer than the items it holds
    let mut body: Vec<u8> = Vec::new();
    body.extend_from_slice(&[0x00, 0x01, 0x00, 0x00]);
    body.extend_from_slice(b"CALLED          ");
    body.extend_from_slice(b"CALLING         ");
    body.extend_from_slice(&[0u8; 32]);
    // application context item that claims 5 bytes of content but the PDU
    // body ends after 3
    body.extend_from_slice(&[0x10, 0x00, 0x00, 0x05]);
    body.extend_from_slice(b"1.2");
    let mut buf = vec![0x01, 0x00];
    buf.extend_from_slice(&(body.len() as u32).to_be_bytes());
    buf.extend_from_slice(&body);
    assert_eq!(decode_pdu(&buf), DecodeResult::Malformed(MalformedReason::TruncatedItem));
}

#[test]
fn message_control_header_bits() {
    for (is_last, is_command, mch) in
        [(false, false, 0u8), (true, false, 1), (false, true, 2), (true, true, 3)]
    {
        let p = Pdu::PDataTf(vec![PresentationDataValue {
            context_id: 7,
            is_last,
            is_command,
            data: vec![9],
        }]);
        let bytes = encode_pdu(&p);
        assert_eq!(bytes[11], mch);
        match decode_pdu(&bytes) {
            DecodeResult::Complete(q, _) => assert_eq!(q, p),
            other => panic!("expected complete decode, got {:?}", other),
        }
    }
}
