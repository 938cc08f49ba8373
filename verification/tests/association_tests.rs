//! Whole-association exchanges, both machines wired back to back through
//! the codec, so every PDU crosses the wire format once in each direction.
use dicom_ul::codec::{decode_pdu, encode_pdu, DecodeResult};
use dicom_ul::config::{ClientOptions, ServerOptions};
use dicom_ul::machine::{
    ClientMachine, ClientSignal, ClientState, ServerMachine, ServerSignal, ServerState, UlError,
};
use dicom_ul::pdu::{Pdu, PresResultReason};

const VERIFICATION: &[u8] = b"1.2.840.10008.1.1";
const IMPLICIT_LE: &[u8] = b"1.2.840.10008.1.2";
const EXPLICIT_LE: &[u8] = b"1.2.840.10008.1.2.1";

/// Encodes on one side and decodes on the other, as the transport would.
fn over_the_wire(p: &Pdu) -> Pdu {
    let bytes = encode_pdu(p);
    match decode_pdu(&bytes) {
        DecodeResult::Complete(q, n) => {
            assert_eq!(n, bytes.len());
            q
        }
        other => panic!("wire transfer failed: {:?}", other),
    }
}

fn scu_options() -> ClientOptions {
    ClientOptions::new()
        .called_ae_title(b"STORESCP".to_vec())
        .calling_ae_title(b"ECHOSCU".to_vec())
        .with_presentation_context(
            VERIFICATION.to_vec(),
            vec![IMPLICIT_LE.to_vec(), EXPLICIT_LE.to_vec()],
        )
}

fn scp_options() -> ServerOptions {
    ServerOptions::new()
        .ae_title(b"STORESCP".to_vec())
        .with_abstract_syntax(VERIFICATION.to_vec(), vec![IMPLICIT_LE.to_vec()])
}

#[test]
fn verification_association_and_release() {
    // client proposes verification with implicit and explicit VR; the
    // server supports only implicit for it
    let mut scu = ClientMachine::new();
    let mut scp = ServerMachine::new(scp_options());

    scu.connected();
    scp.connection_accepted();

    let rq = scu_options().build_associate_rq().expect("a framable proposal");
    let ac = match scp.handle_pdu(over_the_wire(&rq)) {
        Ok(ServerSignal::SendAc(ac)) => ac,
        other => panic!("expected an acceptance, got {:?}", other),
    };
    assert_eq!(scp.state, ServerState::Established);
    assert_eq!(scp.accepted.len(), 1);

    match scu.handle_pdu(over_the_wire(&ac)) {
        Ok(ClientSignal::AssociationEstablished) => {}
        other => panic!("expected establishment, got {:?}", other),
    }
    assert_eq!(scu.state, ClientState::Established);
    assert_eq!(scu.negotiated.len(), 1);
    assert_eq!(scu.negotiated[0].id, 1);
    assert_eq!(scu.negotiated[0].reason, PresResultReason::Acceptance);
    assert_eq!(scu.negotiated[0].transfer_syntax, Some(IMPLICIT_LE.to_vec()));

    // orderly release: RQ over, RP back, both sides closed, no error
    let release = scu.request_release().expect("release is lawful when established");
    match scp.handle_pdu(over_the_wire(&release)) {
        Ok(ServerSignal::SendReleaseRp(rp)) => {
            scp.release_sent();
            match scu.handle_pdu(over_the_wire(&rp)) {
                Ok(ClientSignal::ReleaseConfirmed) => {}
                other => panic!("expected release confirmation, got {:?}", other),
            }
        }
        other => panic!("expected a release reply, got {:?}", other),
    }
    assert_eq!(scu.state, ClientState::Closed);
    assert_eq!(scp.state, ServerState::Closed);
}

#[test]
fn unsupported_abstract_syntax_is_rejected_per_context() {
    // one unsupported context beside one supported: the association still
    // establishes, with a mix of outcomes
    let mut scu = ClientMachine::new();
    let mut scp = ServerMachine::new(scp_options());
    scu.connected();
    scp.connection_accepted();

    let rq = scu_options()
        .with_presentation_context(b"1.2.840.10008.5.1.4.1.1.2".to_vec(), vec![
            IMPLICIT_LE.to_vec(),
        ])
        .build_associate_rq()
        .expect("a framable proposal");
    let ac = match scp.handle_pdu(over_the_wire(&rq)) {
        Ok(ServerSignal::SendAc(ac)) => ac,
        other => panic!("expected an acceptance, got {:?}", other),
    };
    assert!(matches!(scu.handle_pdu(over_the_wire(&ac)), Ok(
        ClientSignal::AssociationEstablished
    )));
    assert_eq!(scu.negotiated.len(), 2);
    assert_eq!(scu.negotiated[0].reason, PresResultReason::Acceptance);
    assert_eq!(scu.negotiated[1].id, 3);
    assert_eq!(scu.negotiated[1].reason, PresResultReason::AbstractSyntaxNotSupported);
    assert_eq!(scu.negotiated[1].transfer_syntax, None);
    assert_eq!(scu.state, ClientState::Established);
    assert_eq!(scp.state, ServerState::Established);
}

#[test]
fn wrong_called_ae_title_rejects_the_association() {
    let mut scu = ClientMachine::new();
    let mut scp = ServerMachine::new(scp_options());
    scu.connected();
    scp.connection_accepted();

    let rq = scu_options()
        .called_ae_title(b"NOT-THIS-ONE".to_vec())
        .build_associate_rq()
        .expect("a framable proposal");
    let rj = match scp.handle_pdu(over_the_wire(&rq)) {
        Ok(ServerSignal::SendRj(rj)) => rj,
        other => panic!("expected a rejection, got {:?}", other),
    };
    assert_eq!(scp.state, ServerState::Closed);
    match scu.handle_pdu(over_the_wire(&rj)) {
        Err(UlError::PeerRejected(r)) => {
            assert_eq!(r.result, 1);
            assert_eq!(r.source, 1);
            assert_eq!(r.reason, 7);
        }
        other => panic!("expected the peer rejection, got {:?}", other),
    }
    assert_eq!(scu.state, ClientState::Closed);
}

#[test]
fn any_called_ae_title_mode_accepts_any_title() {
    let mut scp = ServerMachine::new(scp_options().any_called_ae_title());
    scp.connection_accepted();
    let rq = scu_options()
        .called_ae_title(b"WHOEVER".to_vec())
        .build_associate_rq()
        .expect("a framable proposal");
    assert!(matches!(scp.handle_pdu(over_the_wire(&rq)), Ok(ServerSignal::SendAc(_))));
}

#[test]
fn data_flows_both_ways_once_established() {
    let mut scu = ClientMachine::new();
    let mut scp = ServerMachine::new(scp_options());
    scu.connected();
    scp.connection_accepted();
    let rq = scu_options().build_associate_rq().unwrap();
    let ac = match scp.handle_pdu(over_the_wire(&rq)) {
        Ok(ServerSignal::SendAc(ac)) => ac,
        other => panic!("expected an acceptance, got {:?}", other),
    };
    scu.handle_pdu(over_the_wire(&ac)).unwrap();

    let pdvs = vec![dicom_ul::pdu::PresentationDataValue {
        context_id: 1,
        is_last: true,
        is_command: true,
        data: vec![0x30, 0x31],
    }];
    let pdata = scu.send_pdata(pdvs.clone()).expect("data is lawful when established");
    match scp.handle_pdu(over_the_wire(&pdata)) {
        Ok(ServerSignal::Data(d)) => assert_eq!(d, pdvs),
        other => panic!("expected data, got {:?}", other),
    }
    let reply = scp.send_pdata(pdvs.clone()).expect("data is lawful when established");
    match scu.handle_pdu(over_the_wire(&reply)) {
        Ok(ClientSignal::Data(d)) => assert_eq!(d, pdvs),
        other => panic!("expected data, got {:?}", other),
    }
}

#[test]
fn builder_assigns_odd_unique_context_ids() {
    let rq = ClientOptions::new()
        .with_presentation_context(VERIFICATION.to_vec(), vec![IMPLICIT_LE.to_vec()])
        .with_presentation_context(b"1.9".to_vec(), vec![IMPLICIT_LE.to_vec()])
        .with_presentation_context(b"2.9".to_vec(), vec![EXPLICIT_LE.to_vec()])
        .build_associate_rq()
        .expect("a framable proposal");
    match rq {
        Pdu::AssociateRq(rq) => {
            let ids: Vec<u8> = rq.presentation_contexts.iter().map(|pc| pc.id).collect();
            assert_eq!(ids, vec![1, 3, 5]);
            assert_eq!(rq.protocol_version, 1);
        }
        other => panic!("expected a proposal, got {:?}", other),
    }
}

#[test]
fn builder_refuses_an_empty_proposal() {
    assert_eq!(ClientOptions::new().build_associate_rq(), None);
}

#[test]
fn association_survives_every_context_being_refused() {
    // per-context rejection never aborts the whole association: even with
    // nothing accepted the acceptor answers A-ASSOCIATE-AC
    let mut scp = ServerMachine::new(scp_options());
    scp.connection_accepted();
    let rq = ClientOptions::new()
        .called_ae_title(b"STORESCP".to_vec())
        .with_presentation_context(b"1.2.999".to_vec(), vec![IMPLICIT_LE.to_vec()])
        .build_associate_rq()
        .expect("a framable proposal");
    match scp.handle_pdu(over_the_wire(&rq)) {
        Ok(ServerSignal::SendAc(ac)) => match over_the_wire(&ac) {
            Pdu::AssociateAc(ac) => {
                assert_eq!(ac.presentation_contexts.len(), 1);
                assert_eq!(
                    ac.presentation_contexts[0].reason,
                    PresResultReason::AbstractSyntaxNotSupported
                );
            }
            other => panic!("expected an acceptance, got {:?}", other),
        },
        other => panic!("expected an acceptance, got {:?}", other),
    }
    assert_eq!(scp.state, ServerState::Established);
}
