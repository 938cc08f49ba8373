use dicom_ul::codec::MalformedReason;
use dicom_ul::config::ServerOptions;
use dicom_ul::machine::{
    ClientMachine, ClientSignal, ClientState, ServerMachine, ServerSignal, ServerState, UlError,
};
use dicom_ul::pdu::{AbortInfo, AssociateRj, Pdu, PresentationDataValue};

fn pdv() -> Vec<PresentationDataValue> {
    vec![PresentationDataValue { context_id: 1, is_last: true, is_command: true, data: vec![1] }]
}

fn client_in(state: ClientState) -> ClientMachine {
    ClientMachine { state, negotiated: vec![], peer_max_pdu_length: 0 }
}

fn server_in(state: ServerState) -> ServerMachine {
    ServerMachine {
        state,
        options: ServerOptions::new(),
        accepted: vec![],
        peer_max_pdu_length: 0,
    }
}

#[test]
fn client_pdata_is_illegal_outside_established() {
    for state in [
        ClientState::Idle,
        ClientState::Requesting,
        ClientState::Releasing,
        ClientState::Closed,
        ClientState::Aborted,
    ] {
        let mut m = client_in(state);
        assert_eq!(m.send_pdata(pdv()), Err(UlError::IllegalOperation));
        assert_eq!(m.state, state);
    }
    let mut m = client_in(ClientState::Established);
    assert!(m.send_pdata(pdv()).is_ok());
    assert_eq!(m.state, ClientState::Established);
}

#[test]
fn server_pdata_is_illegal_outside_established() {
    for state in [
        ServerState::Listening,
        ServerState::Negotiating,
        ServerState::ReleaseWait,
        ServerState::Closed,
        ServerState::Aborted,
    ] {
        let mut m = server_in(state);
        assert_eq!(m.send_pdata(pdv()), Err(UlError::IllegalOperation));
        assert_eq!(m.state, state);
    }
    let mut m = server_in(ServerState::Established);
    assert!(m.send_pdata(pdv()).is_ok());
    assert_eq!(m.state, ServerState::Established);
}

#[test]
fn client_release_is_illegal_outside_established() {
    let mut m = client_in(ClientState::Requesting);
    assert_eq!(m.request_release(), Err(UlError::IllegalOperation));
    assert_eq!(m.state, ClientState::Requesting);
    let mut m = client_in(ClientState::Established);
    assert_eq!(m.request_release(), Ok(Pdu::ReleaseRq));
    assert_eq!(m.state, ClientState::Releasing);
}

#[test]
fn client_rejection_closes_the_attempt() {
    let mut m = client_in(ClientState::Requesting);
    let rj = AssociateRj { result: 1, source: 1, reason: 7 };
    assert_eq!(m.handle_pdu(Pdu::AssociateRj(rj)), Err(UlError::PeerRejected(rj)));
    assert_eq!(m.state, ClientState::Closed);
}

#[test]
fn peer_abort_aborts_in_any_reading_state() {
    for state in [ClientState::Requesting, ClientState::Established, ClientState::Releasing] {
        let mut m = client_in(state);
        let ab = AbortInfo { source: 2, reason: 1 };
        assert_eq!(m.handle_pdu(Pdu::Abort(ab)), Err(UlError::PeerAborted(ab)));
        assert_eq!(m.state, ClientState::Aborted);
    }
}

#[test]
fn unexpected_pdu_while_releasing_aborts() {
    let mut m = client_in(ClientState::Releasing);
    assert_eq!(m.handle_pdu(Pdu::PDataTf(pdv())), Err(UlError::UnexpectedPdu));
    assert_eq!(m.state, ClientState::Aborted);
}

#[test]
fn release_confirmation_closes() {
    let mut m = client_in(ClientState::Releasing);
    assert_eq!(m.handle_pdu(Pdu::ReleaseRp), Ok(ClientSignal::ReleaseConfirmed));
    assert_eq!(m.state, ClientState::Closed);
}

#[test]
fn read_timeout_aborts() {
    let mut m = client_in(ClientState::Requesting);
    assert_eq!(m.read_timed_out(), UlError::ReadTimeout);
    assert_eq!(m.state, ClientState::Aborted);
    let mut s = server_in(ServerState::Established);
    assert_eq!(s.read_timed_out(), UlError::ReadTimeout);
    assert_eq!(s.state, ServerState::Aborted);
}

#[test]
fn malformed_input_aborts() {
    let mut m = client_in(ClientState::Requesting);
    assert_eq!(
        m.malformed_received(MalformedReason::UnknownPduType),
        UlError::MalformedPdu(MalformedReason::UnknownPduType)
    );
    assert_eq!(m.state, ClientState::Aborted);
    let mut s = server_in(ServerState::Negotiating);
    assert_eq!(
        s.malformed_received(MalformedReason::TruncatedItem),
        UlError::MalformedPdu(MalformedReason::TruncatedItem)
    );
    assert_eq!(s.state, ServerState::Aborted);
}

#[test]
fn connect_failure_never_reaches_requesting() {
    let mut m = ClientMachine::new();
    assert_eq!(m.state, ClientState::Idle);
    assert_eq!(m.connect_failed(), UlError::ConnectionFailure);
    assert_eq!(m.state, ClientState::Closed);
}

#[test]
fn server_requires_the_proposal_first() {
    let mut s = server_in(ServerState::Negotiating);
    assert_eq!(s.handle_pdu(Pdu::ReleaseRq), Err(UlError::UnexpectedPdu));
    assert_eq!(s.state, ServerState::Aborted);
}

#[test]
fn server_release_exchange() {
    let mut s = server_in(ServerState::Established);
    match s.handle_pdu(Pdu::ReleaseRq) {
        Ok(ServerSignal::SendReleaseRp(p)) => assert_eq!(p, Pdu::ReleaseRp),
        other => panic!("expected a release reply, got {:?}", other),
    }
    assert_eq!(s.state, ServerState::ReleaseWait);
    s.release_sent();
    assert_eq!(s.state, ServerState::Closed);
}

#[test]
fn local_abort_hands_back_the_abort_pdu() {
    let mut m = client_in(ClientState::Established);
    assert_eq!(m.abort(), Pdu::Abort(AbortInfo { source: 0, reason: 0 }));
    assert_eq!(m.state, ClientState::Aborted);
}

#[test]
fn pdata_beyond_the_negotiated_maximum_is_illegal() {
    // one fragment of 4 payload bytes encodes to a 10-byte body
    let pdvs = vec![PresentationDataValue {
        context_id: 1,
        is_last: true,
        is_command: false,
        data: vec![1, 2, 3, 4],
    }];
    let mut m = ClientMachine {
        state: ClientState::Established,
        negotiated: vec![],
        peer_max_pdu_length: 8,
    };
    assert_eq!(m.send_pdata(pdvs.clone()), Err(UlError::IllegalOperation));
    m.peer_max_pdu_length = 10;
    assert_eq!(m.send_pdata(pdvs.clone()), Ok(Pdu::PDataTf(pdvs)));
}

#[test]
fn empty_pdata_is_refused() {
    let mut m = client_in(ClientState::Established);
    assert_eq!(m.send_pdata(vec![]), Err(UlError::IllegalOperation));
}
