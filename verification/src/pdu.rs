//! The PDU model: a closed set of variant types for the seven upper-layer
//! PDUs and their nested variable-length items. Pure data; structural
//! validity is captured by the `wf_*` spec functions, which bound every
//! variable-length field by what its length field on the wire can carry.
//!
//! Identifier fields (AE titles, UID strings) are ASCII byte strings and are
//! modelled as `Vec<u8>`; the mathematical model of every type is its deep
//! view built from `Seq<u8>`.
use vstd::prelude::*;

verus! {

/// Per-context outcome code carried by an A-ASSOCIATE-AC presentation
/// context item.
#[derive(Debug, Clone, Copy, PartialEq, Eq)]
pub enum PresResultReason {
    Acceptance,
    UserRejection,
    NoReason,
    AbstractSyntaxNotSupported,
    TransferSyntaxesNotSupported,
}

/// A presentation context as proposed in an A-ASSOCIATE-RQ: an odd id,
/// one abstract syntax, and the transfer syntaxes the proposer accepts,
/// in order of preference.
#[derive(Debug, Clone, PartialEq, Eq)]
pub struct PresentationContextProposed {
    pub id: u8,
    pub abstract_syntax: Vec<u8>,
    pub transfer_syntaxes: Vec<Vec<u8>>,
}

#[verifier::ext_equal]
pub ghost struct PresentationContextProposedView {
    pub id: u8,
    pub abstract_syntax: Seq<u8>,
    pub transfer_syntaxes: Seq<Seq<u8>>,
}

impl View for PresentationContextProposed {
    type V = PresentationContextProposedView;

    open spec fn view(&self) -> PresentationContextProposedView {
        PresentationContextProposedView {
            id: self.id,
            abstract_syntax: self.abstract_syntax@,
            transfer_syntaxes: Seq::new(
                self.transfer_syntaxes@.len(),
                |i: int| self.transfer_syntaxes@[i]@,
            ),
        }
    }
}

/// A presentation context as answered in an A-ASSOCIATE-AC: the proposal's
/// id, the outcome, and exactly one agreed transfer syntax when (and only
/// when) the outcome is acceptance.
#[derive(Debug, Clone, PartialEq, Eq)]
pub struct PresentationContextResult {
    pub id: u8,
    pub reason: PresResultReason,
    pub transfer_syntax: Option<Vec<u8>>,
}

#[verifier::ext_equal]
pub ghost struct PresentationContextResultView {
    pub id: u8,
    pub reason: PresResultReason,
    pub transfer_syntax: Option<Seq<u8>>,
}

impl View for PresentationContextResult {
    type V = PresentationContextResultView;

    open spec fn view(&self) -> PresentationContextResultView {
        PresentationContextResultView {
            id: self.id,
            reason: self.reason,
            transfer_syntax: match self.transfer_syntax {
                Some(ts) => Some(ts@),
                None => None,
            },
        }
    }
}

/// An extended-negotiation sub-item of the user-information item, carried
/// opaquely: this layer keeps its code and content but never interprets it.
#[derive(Debug, Clone, PartialEq, Eq)]
pub struct RawUserItem {
    pub code: u8,
    pub data: Vec<u8>,
}

#[verifier::ext_equal]
pub ghost struct RawUserItemView {
    pub code: u8,
    pub data: Seq<u8>,
}

impl View for RawUserItem {
    type V = RawUserItemView;

    open spec fn view(&self) -> RawUserItemView {
        RawUserItemView { code: self.code, data: self.data@ }
    }
}

/// The user-information item of an A-ASSOCIATE-RQ/AC: the maximum PDU
/// length the sender accepts, its implementation class UID, an optional
/// version name, and any extended-negotiation sub-items.
#[derive(Debug, Clone, PartialEq, Eq)]
pub struct UserInformation {
    pub max_pdu_length: u32,
    pub implementation_class_uid: Vec<u8>,
    pub implementation_version_name: Option<Vec<u8>>,
    pub extended: Vec<RawUserItem>,
}

#[verifier::ext_equal]
pub ghost struct UserInformationView {
    pub max_pdu_length: u32,
    pub implementation_class_uid: Seq<u8>,
    pub implementation_version_name: Option<Seq<u8>>,
    pub extended: Seq<RawUserItemView>,
}

impl View for UserInformation {
    type V = UserInformationView;

    open spec fn view(&self) -> UserInformationView {
        UserInformationView {
            max_pdu_length: self.max_pdu_length,
            implementation_class_uid: self.implementation_class_uid@,
            implementation_version_name: match self.implementation_version_name {
                Some(v) => Some(v@),
                None => None,
            },
            extended: Seq::new(self.extended@.len(), |i: int| self.extended@[i]@),
        }
    }
}

/// Body of an A-ASSOCIATE-RQ.
#[derive(Debug, Clone, PartialEq, Eq)]
pub struct AssociateRq {
    pub protocol_version: u16,
    pub called_ae_title: Vec<u8>,
    pub calling_ae_title: Vec<u8>,
    pub application_context: Vec<u8>,
    pub presentation_contexts: Vec<PresentationContextProposed>,
    pub user_info: UserInformation,
}

#[verifier::ext_equal]
pub ghost struct AssociateRqView {
    pub protocol_version: u16,
    pub called_ae_title: Seq<u8>,
    pub calling_ae_title: Seq<u8>,
    pub application_context: Seq<u8>,
    pub presentation_contexts: Seq<PresentationContextProposedView>,
    pub user_info: UserInformationView,
}

impl View for AssociateRq {
    type V = AssociateRqView;

    open spec fn view(&self) -> AssociateRqView {
        AssociateRqView {
            protocol_version: self.protocol_version,
            called_ae_title: self.called_ae_title@,
            calling_ae_title: self.calling_ae_title@,
            application_context: self.application_context@,
            presentation_contexts: Seq::new(
                self.presentation_contexts@.len(),
                |i: int| self.presentation_contexts@[i]@,
            ),
            user_info: self.user_info@,
        }
    }
}

/// Body of an A-ASSOCIATE-AC. The AE-title fields echo the request.
#[derive(Debug, Clone, PartialEq, Eq)]
pub struct AssociateAc {
    pub protocol_version: u16,
    pub called_ae_title: Vec<u8>,
    pub calling_ae_title: Vec<u8>,
    pub application_context: Vec<u8>,
    pub presentation_contexts: Vec<PresentationContextResult>,
    pub user_info: UserInformation,
}

#[verifier::ext_equal]
pub ghost struct AssociateAcView {
    pub protocol_version: u16,
    pub called_ae_title: Seq<u8>,
    pub calling_ae_title: Seq<u8>,
    pub application_context: Seq<u8>,
    pub presentation_contexts: Seq<PresentationContextResultView>,
    pub user_info: UserInformationView,
}

impl View for AssociateAc {
    type V = AssociateAcView;

    open spec fn view(&self) -> AssociateAcView {
        AssociateAcView {
            protocol_version: self.protocol_version,
            called_ae_title: self.called_ae_title@,
            calling_ae_title: self.calling_ae_title@,
            application_context: self.application_context@,
            presentation_contexts: Seq::new(
                self.presentation_contexts@.len(),
                |i: int| self.presentation_contexts@[i]@,
            ),
            user_info: self.user_info@,
        }
    }
}

/// Body of an A-ASSOCIATE-RJ: the peer's result, source and reason codes,
/// kept raw for the caller.
#[derive(Debug, Clone, Copy, PartialEq, Eq, Structural)]
pub struct AssociateRj {
    pub result: u8,
    pub source: u8,
    pub reason: u8,
}

/// One presentation-data-value fragment of a P-DATA-TF PDU.
#[derive(Debug, Clone, PartialEq, Eq)]
pub struct PresentationDataValue {
    pub context_id: u8,
    pub is_last: bool,
    pub is_command: bool,
    pub data: Vec<u8>,
}

#[verifier::ext_equal]
pub ghost struct PresentationDataValueView {
    pub context_id: u8,
    pub is_last: bool,
    pub is_command: bool,
    pub data: Seq<u8>,
}

impl View for PresentationDataValue {
    type V = PresentationDataValueView;

    open spec fn view(&self) -> PresentationDataValueView {
        PresentationDataValueView {
            context_id: self.context_id,
            is_last: self.is_last,
            is_command: self.is_command,
            data: self.data@,
        }
    }
}

/// Body of an A-ABORT: who tore the association down, and why.
#[derive(Debug, Clone, Copy, PartialEq, Eq, Structural)]
pub struct AbortInfo {
    pub source: u8,
    pub reason: u8,
}

/// One protocol data unit: the unit of exchange of the upper layer.
#[derive(Debug, Clone, PartialEq, Eq)]
pub enum Pdu {
    AssociateRq(AssociateRq),
    AssociateAc(AssociateAc),
    AssociateRj(AssociateRj),
    PDataTf(Vec<PresentationDataValue>),
    ReleaseRq,
    ReleaseRp,
    Abort(AbortInfo),
}

#[verifier::ext_equal]
pub ghost enum PduView {
    AssociateRq(AssociateRqView),
    AssociateAc(AssociateAcView),
    AssociateRj(AssociateRj),
    PDataTf(Seq<PresentationDataValueView>),
    ReleaseRq,
    ReleaseRp,
    Abort(AbortInfo),
}

impl View for Pdu {
    type V = PduView;

    open spec fn view(&self) -> PduView {
        match self {
            Pdu::AssociateRq(rq) => PduView::AssociateRq(rq@),
            Pdu::AssociateAc(ac) => PduView::AssociateAc(ac@),
            Pdu::AssociateRj(rj) => PduView::AssociateRj(*rj),
            Pdu::PDataTf(pdvs) => PduView::PDataTf(
                Seq::new(pdvs@.len(), |i: int| pdvs@[i]@),
            ),
            Pdu::ReleaseRq => PduView::ReleaseRq,
            Pdu::ReleaseRp => PduView::ReleaseRp,
            Pdu::Abort(ab) => PduView::Abort(*ab),
        }
    }
}

} // verus!
