//! The association state machines, for the initiating and the accepting
//! role. Both are pure: they consume and produce PDU values and never touch
//! a stream, so one machine serves a blocking driver and a suspendable
//! driver alike. The driver performs the connect/read/write/timeout work
//! and feeds the outcome in; the machine decides every transition.
use vstd::prelude::*;

use crate::codec::MalformedReason;
use crate::codec::pcs_ac_deep;
use crate::codec::pdata_body_len_checked;
use crate::codec::pdu_is_wf;
use crate::codec::pdvs_bytes;
use crate::codec::pdvs_deep;
use crate::codec::wf_ac;
use crate::codec::wf_ae_title;
use crate::codec::wf_pdata;
use crate::codec::wf_pdu;
use crate::config::ServerOptions;
use crate::negotiation::negotiate;
use crate::negotiation::spec_negotiate;
use crate::pdu::AbortInfo;
use crate::pdu::AssociateAc;
use crate::pdu::AssociateAcView;
use crate::pdu::AssociateRj;
use crate::pdu::AssociateRqView;
use crate::pdu::Pdu;
use crate::pdu::PduView;
use crate::pdu::PresentationContextResult;
use crate::pdu::PresentationDataValue;
use crate::pdu::UserInformation;
use crate::pdu::UserInformationView;

verus! {

/// How an upper-layer operation or exchange fails. Every failure is typed;
/// none is silently dropped.
#[derive(Debug, Clone, Copy, PartialEq, Eq, Structural)]
pub enum UlError {
    /// The transport connect was refused, unreachable, or ran past its
    /// timeout. Never retried by this layer.
    ConnectionFailure,
    /// A buffer could not decode to a PDU; fatal to the association.
    MalformedPdu(MalformedReason),
    /// A structurally valid PDU arrived in a state that does not permit it;
    /// fatal, the association aborts.
    UnexpectedPdu,
    /// The peer answered A-ASSOCIATE-RJ; result, source and reason kept.
    PeerRejected(AssociateRj),
    /// The peer sent A-ABORT; source and reason kept.
    PeerAborted(AbortInfo),
    /// No PDU arrived within the configured bound while one was expected;
    /// fatal to the association, not retried.
    ReadTimeout,
    /// The caller asked for an operation the current state forbids, such as
    /// sending data before the association is established. Rejected without
    /// touching the wire.
    IllegalOperation,
}

/// The states an initiating association runs through.
#[derive(Debug, Clone, Copy, PartialEq, Eq, Structural)]
pub enum ClientState {
    Idle,
    Requesting,
    Established,
    Releasing,
    Closed,
    Aborted,
}

/// What the client machine tells its driver after consuming a PDU.
#[derive(Debug, Clone, PartialEq, Eq)]
pub enum ClientSignal {
    /// The peer accepted; the negotiated contexts are stored on the machine.
    AssociationEstablished,
    /// A P-DATA-TF arrived with these fragments.
    Data(Vec<PresentationDataValue>),
    /// The peer confirmed the release; the association is closed.
    ReleaseConfirmed,
}

/// The initiating state machine: connect, propose, await the answer, carry
/// data, release. It owns no stream; the driver does the I/O.
pub struct ClientMachine {
    pub state: ClientState,
    pub negotiated: Vec<PresentationContextResult>,
    pub peer_max_pdu_length: u32,
}

impl ClientMachine {
    /// A fresh machine, before any connection attempt.
    pub fn new() -> (r: Self)
        ensures
            r.state is Idle,
            r.negotiated@.len() == 0,
            r.peer_max_pdu_length == 0u32,
    {
        ClientMachine { state: ClientState::Idle, negotiated: Vec::new(), peer_max_pdu_length: 0 }
    }

    /// The transport connected within its bound; the machine now awaits the
    /// driver sending the A-ASSOCIATE-RQ and reading the answer.
    pub fn connected(&mut self)
        requires
            old(self).state is Idle,
        ensures
            final(self).state is Requesting,
            final(self).negotiated == old(self).negotiated,
            final(self).peer_max_pdu_length == old(self).peer_max_pdu_length,
    {
        self.state = ClientState::Requesting;
    }

    /// The transport connect failed or ran past its bound: the attempt ends
    /// without ever reaching the requesting state.
    pub fn connect_failed(&mut self) -> (e: UlError)
        requires
            old(self).state is Idle,
        ensures
            final(self).state is Closed,
            e == UlError::ConnectionFailure,
    {
        self.state = ClientState::Closed;
        UlError::ConnectionFailure
    }

    /// Consumes one PDU read off the wire. In `Requesting` only the peer's
    /// answer is lawful; in `Established` only data; in `Releasing` only the
    /// release confirmation; an A-ABORT is taken in any of them; anything
    /// else aborts the association.
    pub fn handle_pdu(&mut self, pdu: Pdu) -> (r: Result<ClientSignal, UlError>)
        requires
            old(self).state is Requesting || old(self).state is Established || old(
                self,
            ).state is Releasing,
        ensures
            pdu@ matches PduView::Abort(ab) ==> final(self).state is Aborted && r == Err::<
                ClientSignal,
                UlError,
            >(UlError::PeerAborted(ab)),
            old(self).state is Requesting ==> match pdu@ {
                PduView::AssociateAc(ac) => {
                    &&& final(self).state is Established
                    &&& pcs_ac_deep(final(self).negotiated@) == ac.presentation_contexts
                    &&& final(self).peer_max_pdu_length == ac.user_info.max_pdu_length
                    &&& r == Ok::<ClientSignal, UlError>(ClientSignal::AssociationEstablished)
                },
                PduView::AssociateRj(rj) => final(self).state is Closed && r == Err::<
                    ClientSignal,
                    UlError,
                >(UlError::PeerRejected(rj)),
                PduView::Abort(_) => true,
                _ => final(self).state is Aborted && r == Err::<ClientSignal, UlError>(
                    UlError::UnexpectedPdu,
                ),
            },
            old(self).state is Established ==> match pdu@ {
                PduView::PDataTf(_) => {
                    &&& final(self).state is Established
                    &&& (r matches Ok(ClientSignal::Data(d)) && pdu@ == PduView::PDataTf(
                        pdvs_deep(d@),
                    ))
                },
                PduView::Abort(_) => true,
                _ => final(self).state is Aborted && r == Err::<ClientSignal, UlError>(
                    UlError::UnexpectedPdu,
                ),
            },
            old(self).state is Releasing ==> match pdu@ {
                PduView::ReleaseRp => final(self).state is Closed && r == Ok::<
                    ClientSignal,
                    UlError,
                >(ClientSignal::ReleaseConfirmed),
                PduView::Abort(_) => true,
                _ => final(self).state is Aborted && r == Err::<ClientSignal, UlError>(
                    UlError::UnexpectedPdu,
                ),
            },
            !(old(self).state is Requesting && pdu@ is AssociateAc) ==> final(self).negotiated
                == old(self).negotiated && final(self).peer_max_pdu_length == old(
                self,
            ).peer_max_pdu_length,
    {
        match pdu {
            Pdu::Abort(ab) => {
                self.state = ClientState::Aborted;
                Err(UlError::PeerAborted(ab))
            },
            Pdu::AssociateAc(ac) => {
                if matches!(self.state, ClientState::Requesting) {
                    self.state = ClientState::Established;
                    self.peer_max_pdu_length = ac.user_info.max_pdu_length;
                    self.negotiated = ac.presentation_contexts;
                    Ok(ClientSignal::AssociationEstablished)
                } else {
                    self.state = ClientState::Aborted;
                    Err(UlError::UnexpectedPdu)
                }
            },
            Pdu::AssociateRj(rj) => {
                if matches!(self.state, ClientState::Requesting) {
                    self.state = ClientState::Closed;
                    Err(UlError::PeerRejected(rj))
                } else {
                    self.state = ClientState::Aborted;
                    Err(UlError::UnexpectedPdu)
                }
            },
            Pdu::PDataTf(pdvs) => {
                if matches!(self.state, ClientState::Established) {
                    Ok(ClientSignal::Data(pdvs))
                } else {
                    self.state = ClientState::Aborted;
                    Err(UlError::UnexpectedPdu)
                }
            },
            Pdu::ReleaseRp => {
                if matches!(self.state, ClientState::Releasing) {
                    self.state = ClientState::Closed;
                    Ok(ClientSignal::ReleaseConfirmed)
                } else {
                    self.state = ClientState::Aborted;
                    Err(UlError::UnexpectedPdu)
                }
            },
            _ => {
                self.state = ClientState::Aborted;
                Err(UlError::UnexpectedPdu)
            },
        }
    }

    /// Hands back a P-DATA-TF to put on the wire. Lawful only while the
    /// association is established, and only within the maximum PDU length
    /// the peer declared (0 meaning no bound declared): in every other case
    /// the call is refused with `IllegalOperation`, the machine unchanged
    /// and nothing sent.
    pub fn send_pdata(&mut self, pdvs: Vec<PresentationDataValue>) -> (r: Result<Pdu, UlError>)
        ensures
            *final(self) == *old(self),
            !(old(self).state is Established) ==> r == Err::<Pdu, UlError>(
                UlError::IllegalOperation,
            ),
            old(self).state is Established ==> ({
                let deep = pdvs_deep(pdvs@);
                if wf_pdata(deep) && (old(self).peer_max_pdu_length == 0 || pdvs_bytes(deep).len()
                    <= old(self).peer_max_pdu_length) {
                    r == Ok::<Pdu, UlError>(Pdu::PDataTf(pdvs))
                } else {
                    r == Err::<Pdu, UlError>(UlError::IllegalOperation)
                }
            }),
    {
        if !matches!(self.state, ClientState::Established) {
            return Err(UlError::IllegalOperation);
        }
        match pdata_body_len_checked(&pdvs) {
            None => Err(UlError::IllegalOperation),
            Some(n) => {
                if self.peer_max_pdu_length != 0 && n > self.peer_max_pdu_length as u64 {
                    Err(UlError::IllegalOperation)
                } else {
                    Ok(Pdu::PDataTf(pdvs))
                }
            },
        }
    }

    /// Starts an orderly release: hands back the A-RELEASE-RQ to send and
    /// moves to `Releasing`. Lawful only while established.
    pub fn request_release(&mut self) -> (r: Result<Pdu, UlError>)
        ensures
            old(self).state is Established ==> r == Ok::<Pdu, UlError>(Pdu::ReleaseRq)
                && final(self).state is Releasing,
            !(old(self).state is Established) ==> r == Err::<Pdu, UlError>(
                UlError::IllegalOperation,
            ) && *final(self) == *old(self),
            final(self).negotiated == old(self).negotiated,
            final(self).peer_max_pdu_length == old(self).peer_max_pdu_length,
    {
        if matches!(self.state, ClientState::Established) {
            self.state = ClientState::Releasing;
            Ok(Pdu::ReleaseRq)
        } else {
            Err(UlError::IllegalOperation)
        }
    }

    /// Tears the association down from this side: hands back the A-ABORT to
    /// send and moves to `Aborted`. After this no further PDU may be sent.
    pub fn abort(&mut self) -> (r: Pdu)
        ensures
            final(self).state is Aborted,
            r == Pdu::Abort(AbortInfo { source: 0u8, reason: 0u8 }),
    {
        self.state = ClientState::Aborted;
        Pdu::Abort(AbortInfo { source: 0, reason: 0 })
    }

    /// No PDU arrived within the configured bound while one was expected:
    /// fatal, the association aborts and the stream must be closed.
    pub fn read_timed_out(&mut self) -> (e: UlError)
        ensures
            final(self).state is Aborted,
            e == UlError::ReadTimeout,
    {
        self.state = ClientState::Aborted;
        UlError::ReadTimeout
    }

    /// A read-side buffer turned out malformed: fatal, the association
    /// aborts and the stream must be closed.
    pub fn malformed_received(&mut self, reason: MalformedReason) -> (e: UlError)
        ensures
            final(self).state is Aborted,
            e == UlError::MalformedPdu(reason),
    {
        self.state = ClientState::Aborted;
        UlError::MalformedPdu(reason)
    }

    /// A read or write on the stream failed: fatal, the association aborts.
    pub fn io_failed(&mut self)
        ensures
            final(self).state is Aborted,
    {
        self.state = ClientState::Aborted;
    }
}

/// The states an accepting association runs through.
#[derive(Debug, Clone, Copy, PartialEq, Eq, Structural)]
pub enum ServerState {
    Listening,
    Negotiating,
    Established,
    ReleaseWait,
    Closed,
    Aborted,
}

/// What the server machine tells its driver after consuming a PDU.
#[derive(Debug, Clone, PartialEq, Eq)]
pub enum ServerSignal {
    /// Send this A-ASSOCIATE-AC; the association is established.
    SendAc(Pdu),
    /// Send this A-ASSOCIATE-RJ; the association is refused whole and the
    /// machine is closed.
    SendRj(Pdu),
    /// A P-DATA-TF arrived with these fragments.
    Data(Vec<PresentationDataValue>),
    /// The peer asked to release: send this A-RELEASE-RP, then report it
    /// sent with `release_sent`.
    SendReleaseRp(Pdu),
}

/// A proposal the acceptor can echo: framable AE titles, an application
/// context within its item length, at least one presentation context.
pub open spec fn rq_echoable(rq: AssociateRqView) -> bool {
    &&& wf_ae_title(rq.called_ae_title)
    &&& wf_ae_title(rq.calling_ae_title)
    &&& rq.application_context.len() <= 0xFFFF
    &&& rq.presentation_contexts.len() >= 1
}

/// The whole-association rejection a proposal earns, if any, checked in
/// this order: a called AE title that does not match the acceptor's (when
/// title checking is on; result 1, source 1 = user, reason 7 = called AE
/// title not recognized), an unsupported protocol version (result 1,
/// source 2 = provider, reason 2 = version not supported), and a missing
/// application-context name (result 1, source 1, reason 2 = application
/// context not supported).
pub open spec fn spec_rejection(opts: crate::config::ServerOptionsView, rq: AssociateRqView)
    -> Option<AssociateRj> {
    if opts.require_called_ae_title && rq.called_ae_title != opts.ae_title {
        Some(AssociateRj { result: 1u8, source: 1u8, reason: 7u8 })
    } else if rq.protocol_version != 1u16 {
        Some(AssociateRj { result: 1u8, source: 2u8, reason: 2u8 })
    } else if rq.application_context.len() == 0 {
        Some(AssociateRj { result: 1u8, source: 1u8, reason: 2u8 })
    } else {
        None
    }
}

/// The A-ASSOCIATE-AC an acceptor answers a proposal with: version 1, the
/// proposal's titles and application context echoed, one negotiation result
/// per proposed context in request order, and the acceptor's own user
/// information.
pub open spec fn spec_acceptance(opts: crate::config::ServerOptionsView, rq: AssociateRqView)
    -> AssociateAcView {
    AssociateAcView {
        protocol_version: 1u16,
        called_ae_title: rq.called_ae_title,
        calling_ae_title: rq.calling_ae_title,
        application_context: rq.application_context,
        presentation_contexts: spec_negotiate(opts.registry, rq.presentation_contexts),
        user_info: UserInformationView {
            max_pdu_length: opts.max_pdu_length,
            implementation_class_uid: opts.implementation_class_uid,
            implementation_version_name: opts.implementation_version_name,
            extended: Seq::empty(),
        },
    }
}

/// The accepting state machine: await the proposal, apply the policy,
/// answer, carry data, confirm release. It owns no stream.
pub struct ServerMachine {
    pub state: ServerState,
    pub options: ServerOptions,
    pub accepted: Vec<PresentationContextResult>,
    pub peer_max_pdu_length: u32,
}

impl ServerMachine {
    /// A fresh machine over the given options, listening.
    pub fn new(options: ServerOptions) -> (r: Self)
        ensures
            r.state is Listening,
            r.options == options,
            r.accepted@.len() == 0,
            r.peer_max_pdu_length == 0u32,
    {
        ServerMachine {
            state: ServerState::Listening,
            options,
            accepted: Vec::new(),
            peer_max_pdu_length: 0,
        }
    }

    /// A connection was accepted: the machine now requires the proposal to
    /// arrive before any other PDU.
    pub fn connection_accepted(&mut self)
        requires
            old(self).state is Listening,
        ensures
            final(self).state is Negotiating,
            final(self).options == old(self).options,
    {
        self.state = ServerState::Negotiating;
    }

    /// Consumes one PDU read off the wire. In `Negotiating` only the
    /// proposal is lawful; the policy then answers with the acceptance or
    /// the whole-association rejection. In `Established` data and the
    /// release request are lawful. An A-ABORT is taken in any state and
    /// closes without a response; anything else aborts the association.
    pub fn handle_pdu(&mut self, pdu: Pdu) -> (r: Result<ServerSignal, UlError>)
        requires
            old(self).state is Negotiating || old(self).state is Established,
        ensures
            final(self).options == old(self).options,
            pdu@ matches PduView::Abort(ab) ==> final(self).state is Aborted && r == Err::<
                ServerSignal,
                UlError,
            >(UlError::PeerAborted(ab)),
            old(self).state is Negotiating ==> match pdu@ {
                PduView::AssociateRq(rq) => {
                    if !rq_echoable(rq) {
                        final(self).state is Aborted && r == Err::<ServerSignal, UlError>(
                            UlError::UnexpectedPdu,
                        )
                    } else {
                        match spec_rejection(old(self).options@, rq) {
                            Some(rj) => {
                                &&& final(self).state is Closed
                                &&& r == Ok::<ServerSignal, UlError>(
                                    ServerSignal::SendRj(Pdu::AssociateRj(rj)),
                                )
                            },
                            None => {
                                let ac = spec_acceptance(old(self).options@, rq);
                                if wf_ac(ac) {
                                    &&& final(self).state is Established
                                    &&& pcs_ac_deep(final(self).accepted@)
                                        == ac.presentation_contexts
                                    &&& final(self).peer_max_pdu_length
                                        == rq.user_info.max_pdu_length
                                    &&& (r matches Ok(ServerSignal::SendAc(p)) && p@
                                        == PduView::AssociateAc(ac) && wf_pdu(p@))
                                } else {
                                    final(self).state is Closed && r == Err::<
                                        ServerSignal,
                                        UlError,
                                    >(UlError::IllegalOperation)
                                }
                            },
                        }
                    }
                },
                PduView::Abort(_) => true,
                _ => final(self).state is Aborted && r == Err::<ServerSignal, UlError>(
                    UlError::UnexpectedPdu,
                ),
            },
            old(self).state is Established ==> match pdu@ {
                PduView::PDataTf(_) => {
                    &&& final(self).state is Established
                    &&& (r matches Ok(ServerSignal::Data(d)) && pdu@ == PduView::PDataTf(
                        pdvs_deep(d@),
                    ))
                },
                PduView::ReleaseRq => {
                    &&& final(self).state is ReleaseWait
                    &&& r == Ok::<ServerSignal, UlError>(
                        ServerSignal::SendReleaseRp(Pdu::ReleaseRp),
                    )
                },
                PduView::Abort(_) => true,
                _ => final(self).state is Aborted && r == Err::<ServerSignal, UlError>(
                    UlError::UnexpectedPdu,
                ),
            },
    {
        match pdu {
            Pdu::Abort(ab) => {
                self.state = ServerState::Aborted;
                Err(UlError::PeerAborted(ab))
            },
            Pdu::AssociateRq(rq) => {
                if !matches!(self.state, ServerState::Negotiating) {
                    self.state = ServerState::Aborted;
                    return Err(UlError::UnexpectedPdu);
                }
                let echoable = rq.called_ae_title.len() <= 16 && (rq.called_ae_title.len() == 0
                    || rq.called_ae_title[rq.called_ae_title.len() - 1] != 0x20u8)
                    && rq.calling_ae_title.len() <= 16 && (rq.calling_ae_title.len() == 0
                    || rq.calling_ae_title[rq.calling_ae_title.len() - 1] != 0x20u8)
                    && rq.application_context.len() <= 0xFFFF && rq.presentation_contexts.len()
                    >= 1;
                if !echoable {
                    self.state = ServerState::Aborted;
                    return Err(UlError::UnexpectedPdu);
                }
                if self.options.require_called_ae_title && !crate::negotiation::bytes_equal(
                    rq.called_ae_title.as_slice(),
                    self.options.ae_title.as_slice(),
                ) {
                    self.state = ServerState::Closed;
                    return Ok(
                        ServerSignal::SendRj(
                            Pdu::AssociateRj(AssociateRj { result: 1, source: 1, reason: 7 }),
                        ),
                    );
                }
                if rq.protocol_version != 1 {
                    self.state = ServerState::Closed;
                    return Ok(
                        ServerSignal::SendRj(
                            Pdu::AssociateRj(AssociateRj { result: 1, source: 2, reason: 2 }),
                        ),
                    );
                }
                if rq.application_context.len() == 0 {
                    self.state = ServerState::Closed;
                    return Ok(
                        ServerSignal::SendRj(
                            Pdu::AssociateRj(AssociateRj { result: 1, source: 1, reason: 2 }),
                        ),
                    );
                }
                let ghost rqv: AssociateRqView = rq@;
                let results = negotiate(&self.options.registry, &rq.presentation_contexts);
                let results_copy = clone_results(&results);
                let ac = AssociateAc {
                    protocol_version: 1,
                    called_ae_title: rq.called_ae_title,
                    calling_ae_title: rq.calling_ae_title,
                    application_context: rq.application_context,
                    presentation_contexts: results,
                    user_info: UserInformation {
                        max_pdu_length: self.options.max_pdu_length,
                        implementation_class_uid: vstd::slice::slice_to_vec(
                            self.options.implementation_class_uid.as_slice(),
                        ),
                        implementation_version_name: match &self.options.implementation_version_name {
                            Some(v) => Some(vstd::slice::slice_to_vec(v.as_slice())),
                            None => None,
                        },
                        extended: Vec::new(),
                    },
                };
                proof {
                    assert(ac@ =~= spec_acceptance(old(self).options@, rqv));
                }
                let p = Pdu::AssociateAc(ac);
                if pdu_is_wf(&p) {
                    self.state = ServerState::Established;
                    self.accepted = results_copy;
                    self.peer_max_pdu_length = rq.user_info.max_pdu_length;
                    Ok(ServerSignal::SendAc(p))
                } else {
                    self.state = ServerState::Closed;
                    Err(UlError::IllegalOperation)
                }
            },
            Pdu::PDataTf(pdvs) => {
                if matches!(self.state, ServerState::Established) {
                    Ok(ServerSignal::Data(pdvs))
                } else {
                    self.state = ServerState::Aborted;
                    Err(UlError::UnexpectedPdu)
                }
            },
            Pdu::ReleaseRq => {
                if matches!(self.state, ServerState::Established) {
                    self.state = ServerState::ReleaseWait;
                    Ok(ServerSignal::SendReleaseRp(Pdu::ReleaseRp))
                } else {
                    self.state = ServerState::Aborted;
                    Err(UlError::UnexpectedPdu)
                }
            },
            _ => {
                self.state = ServerState::Aborted;
                Err(UlError::UnexpectedPdu)
            },
        }
    }

    /// The driver sent the A-RELEASE-RP: the association is closed.
    pub fn release_sent(&mut self)
        requires
            old(self).state is ReleaseWait,
        ensures
            final(self).state is Closed,
            final(self).options == old(self).options,
    {
        self.state = ServerState::Closed;
    }

    /// Hands back a P-DATA-TF to put on the wire. Lawful only while the
    /// association is established, and only within the maximum PDU length
    /// the peer declared (0 meaning no bound declared): in every other case
    /// the call is refused with `IllegalOperation`, the machine unchanged
    /// and nothing sent.
    pub fn send_pdata(&mut self, pdvs: Vec<PresentationDataValue>) -> (r: Result<Pdu, UlError>)
        ensures
            *final(self) == *old(self),
            !(old(self).state is Established) ==> r == Err::<Pdu, UlError>(
                UlError::IllegalOperation,
            ),
            old(self).state is Established ==> ({
                let deep = pdvs_deep(pdvs@);
                if wf_pdata(deep) && (old(self).peer_max_pdu_length == 0 || pdvs_bytes(deep).len()
                    <= old(self).peer_max_pdu_length) {
                    r == Ok::<Pdu, UlError>(Pdu::PDataTf(pdvs))
                } else {
                    r == Err::<Pdu, UlError>(UlError::IllegalOperation)
                }
            }),
    {
        if !matches!(self.state, ServerState::Established) {
            return Err(UlError::IllegalOperation);
        }
        match pdata_body_len_checked(&pdvs) {
            None => Err(UlError::IllegalOperation),
            Some(n) => {
                if self.peer_max_pdu_length != 0 && n > self.peer_max_pdu_length as u64 {
                    Err(UlError::IllegalOperation)
                } else {
                    Ok(Pdu::PDataTf(pdvs))
                }
            },
        }
    }

    /// Tears the association down from this side.
    pub fn abort(&mut self) -> (r: Pdu)
        ensures
            final(self).state is Aborted,
            r == Pdu::Abort(AbortInfo { source: 0u8, reason: 0u8 }),
    {
        self.state = ServerState::Aborted;
        Pdu::Abort(AbortInfo { source: 0, reason: 0 })
    }

    /// No PDU arrived within the configured bound while one was expected.
    pub fn read_timed_out(&mut self) -> (e: UlError)
        ensures
            final(self).state is Aborted,
            e == UlError::ReadTimeout,
    {
        self.state = ServerState::Aborted;
        UlError::ReadTimeout
    }

    /// A read-side buffer turned out malformed: fatal, the association
    /// aborts and the stream must be closed.
    pub fn malformed_received(&mut self, reason: MalformedReason) -> (e: UlError)
        ensures
            final(self).state is Aborted,
            e == UlError::MalformedPdu(reason),
    {
        self.state = ServerState::Aborted;
        UlError::MalformedPdu(reason)
    }

    /// A read or write on the stream failed: fatal, the association aborts.
    pub fn io_failed(&mut self)
        ensures
            final(self).state is Aborted,
    {
        self.state = ServerState::Aborted;
    }
}

/// Copies a list of presentation-context results.
fn clone_results(l: &Vec<PresentationContextResult>) -> (r: Vec<PresentationContextResult>)
    ensures
        pcs_ac_deep(r@) == pcs_ac_deep(l@),
{
    let mut out: Vec<PresentationContextResult> = Vec::new();
    let mut i: usize = 0;
    while i < l.len()
        invariant
            i <= l@.len(),
            out@.len() == i,
            forall|j: int| 0 <= j < i ==> (#[trigger] out@[j])@ == l@[j]@,
        decreases l@.len() - i,
    {
        let e = &l[i];
        let copy = PresentationContextResult {
            id: e.id,
            reason: e.reason,
            transfer_syntax: match &e.transfer_syntax {
                Some(ts) => Some(vstd::slice::slice_to_vec(ts.as_slice())),
                None => None,
            },
        };
        proof {
            assert(copy@ =~= l@[i as int]@);
        }
        out.push(copy);
        i = i + 1;
    }
    proof {
        assert(pcs_ac_deep(out@) =~= pcs_ac_deep(l@));
    }
    out
}

} // verus!
