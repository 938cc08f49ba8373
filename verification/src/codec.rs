//! The PDU codec: the byte-exact wire format of the seven PDUs.
//!
//! The mathematical model is `pdu_bytes`, which maps a PDU view to the exact
//! byte sequence of its framing: a 6-byte header (type code, reserved zero,
//! 4-byte big-endian body length) followed by the body. `spec_decode` is the
//! mathematical decoder: it yields `Incomplete` exactly when the buffer holds
//! fewer bytes than the declared length plus the header, and otherwise either
//! the first PDU with the byte count consumed, or `Malformed`.
//!
//! The executable `encode_pdu` and `decode_pdu` are proved against these two
//! models, and `lemma_decode_encode` / `lemma_decode_prefix_incomplete` tie
//! the models together: decoding an encoding yields the same value back, and
//! decoding any strict prefix of an encoding yields `Incomplete`.
use vstd::prelude::*;

use crate::bytes::be16_bytes;
use crate::bytes::be16_val;
use crate::bytes::be32_bytes;
use crate::bytes::be32_val;
use crate::bytes::lemma_be16_roundtrip;
use crate::bytes::lemma_be32_roundtrip;
use crate::pdu::AbortInfo;
use crate::pdu::AssociateAc;
use crate::pdu::AssociateRq;
use crate::pdu::Pdu;
use crate::pdu::PresentationContextProposed;
use crate::pdu::PresentationContextResult;
use crate::pdu::PresentationDataValue;
use crate::pdu::RawUserItem;
use crate::pdu::UserInformation;
use crate::pdu::AssociateAcView;
use crate::pdu::AssociateRj;
use crate::pdu::AssociateRqView;
use crate::pdu::PduView;
use crate::pdu::PresResultReason;
use crate::pdu::PresentationContextProposedView;
use crate::pdu::PresentationContextResultView;
use crate::pdu::PresentationDataValueView;
use crate::pdu::RawUserItemView;
use crate::pdu::UserInformationView;

verus! {

broadcast use crate::bytes::lemma_be16_bytes_len, crate::bytes::lemma_be32_bytes_len;

// ---------------------------------------------------------------------------
// Variable items and their encodings
// ---------------------------------------------------------------------------

/// A variable item: code byte, reserved zero byte, 16-bit big-endian content
/// length, content.
pub open spec fn item_bytes(code: u8, content: Seq<u8>) -> Seq<u8> {
    seq![code, 0u8] + be16_bytes(content.len() as int) + content
}

/// An AE title padded with ASCII spaces to its fixed 16-byte field.
pub open spec fn pad16(s: Seq<u8>) -> Seq<u8> {
    s + Seq::new((16 - s.len()) as nat, |i: int| 0x20u8)
}

/// Trailing ASCII spaces removed, as decode treats AE-title fields.
pub open spec fn trim_trailing_spaces(s: Seq<u8>) -> Seq<u8>
    decreases s.len(),
{
    if s.len() > 0 && s[s.len() - 1] == 0x20u8 {
        trim_trailing_spaces(s.drop_last())
    } else {
        s
    }
}

/// The transfer-syntax sub-items of a proposed presentation context,
/// in proposal order.
pub open spec fn ts_items_bytes(l: Seq<Seq<u8>>) -> Seq<u8>
    decreases l.len(),
{
    if l.len() == 0 {
        Seq::empty()
    } else {
        item_bytes(0x40u8, l[0]) + ts_items_bytes(l.drop_first())
    }
}

/// Content of a presentation-context request item: id, three reserved
/// bytes, the abstract-syntax sub-item, then the transfer-syntax sub-items.
pub open spec fn pc_rq_content(pc: PresentationContextProposedView) -> Seq<u8> {
    seq![pc.id, 0u8, 0u8, 0u8] + item_bytes(0x30u8, pc.abstract_syntax) + ts_items_bytes(
        pc.transfer_syntaxes,
    )
}

/// The presentation-context request items of an A-ASSOCIATE-RQ, in order.
pub open spec fn pcs_rq_bytes(l: Seq<PresentationContextProposedView>) -> Seq<u8>
    decreases l.len(),
{
    if l.len() == 0 {
        Seq::empty()
    } else {
        item_bytes(0x20u8, pc_rq_content(l[0])) + pcs_rq_bytes(l.drop_first())
    }
}

/// The wire code of a per-context negotiation outcome.
pub open spec fn reason_code(r: PresResultReason) -> u8 {
    match r {
        PresResultReason::Acceptance => 0u8,
        PresResultReason::UserRejection => 1u8,
        PresResultReason::NoReason => 2u8,
        PresResultReason::AbstractSyntaxNotSupported => 3u8,
        PresResultReason::TransferSyntaxesNotSupported => 4u8,
    }
}

/// The negotiation outcome a wire code stands for, if any.
pub open spec fn reason_of_code(c: u8) -> Option<PresResultReason> {
    if c == 0 {
        Some(PresResultReason::Acceptance)
    } else if c == 1 {
        Some(PresResultReason::UserRejection)
    } else if c == 2 {
        Some(PresResultReason::NoReason)
    } else if c == 3 {
        Some(PresResultReason::AbstractSyntaxNotSupported)
    } else if c == 4 {
        Some(PresResultReason::TransferSyntaxesNotSupported)
    } else {
        None
    }
}

/// Content of a presentation-context result item: id, reserved, result
/// code, reserved, then the agreed transfer-syntax sub-item only on
/// acceptance.
pub open spec fn pc_ac_content(r: PresentationContextResultView) -> Seq<u8> {
    seq![r.id, 0u8, reason_code(r.reason), 0u8] + match r.transfer_syntax {
        Some(ts) => item_bytes(0x40u8, ts),
        None => Seq::empty(),
    }
}

/// The presentation-context result items of an A-ASSOCIATE-AC, in order.
pub open spec fn pcs_ac_bytes(l: Seq<PresentationContextResultView>) -> Seq<u8>
    decreases l.len(),
{
    if l.len() == 0 {
        Seq::empty()
    } else {
        item_bytes(0x21u8, pc_ac_content(l[0])) + pcs_ac_bytes(l.drop_first())
    }
}

/// The extended-negotiation sub-items, carried through opaquely.
pub open spec fn ext_items_bytes(l: Seq<RawUserItemView>) -> Seq<u8>
    decreases l.len(),
{
    if l.len() == 0 {
        Seq::empty()
    } else {
        item_bytes(l[0].code, l[0].data) + ext_items_bytes(l.drop_first())
    }
}

/// Content of the user-information item: the mandatory maximum-length and
/// implementation-class-UID sub-items, the optional version-name sub-item,
/// then any extended-negotiation sub-items.
pub open spec fn ui_content(u: UserInformationView) -> Seq<u8> {
    item_bytes(0x51u8, be32_bytes(u.max_pdu_length as int)) + item_bytes(
        0x52u8,
        u.implementation_class_uid,
    ) + (match u.implementation_version_name {
        Some(v) => item_bytes(0x55u8, v),
        None => Seq::empty(),
    }) + ext_items_bytes(u.extended)
}

/// The fixed 68-byte prefix of an A-ASSOCIATE-RQ/AC body: protocol version,
/// two reserved bytes, the two space-padded AE-title fields, and 32
/// reserved bytes.
pub open spec fn assoc_fixed_bytes(version: u16, called: Seq<u8>, calling: Seq<u8>) -> Seq<u8> {
    be16_bytes(version as int) + seq![0u8, 0u8] + pad16(called) + pad16(calling) + Seq::new(
        32,
        |i: int| 0u8,
    )
}

/// The variable-items region of an A-ASSOCIATE-RQ body: the
/// application-context item, the presentation-context items, and the
/// user-information item.
pub open spec fn rq_items_bytes(rq: AssociateRqView) -> Seq<u8> {
    item_bytes(0x10u8, rq.application_context) + pcs_rq_bytes(rq.presentation_contexts)
        + item_bytes(0x50u8, ui_content(rq.user_info))
}

/// Body of an A-ASSOCIATE-RQ: the fixed prefix, then the variable items.
pub open spec fn rq_body_bytes(rq: AssociateRqView) -> Seq<u8> {
    assoc_fixed_bytes(rq.protocol_version, rq.called_ae_title, rq.calling_ae_title)
        + rq_items_bytes(rq)
}

/// The variable-items region of an A-ASSOCIATE-AC body.
pub open spec fn ac_items_bytes(ac: AssociateAcView) -> Seq<u8> {
    item_bytes(0x10u8, ac.application_context) + pcs_ac_bytes(ac.presentation_contexts)
        + item_bytes(0x50u8, ui_content(ac.user_info))
}

/// Body of an A-ASSOCIATE-AC, laid out as the RQ body with result items.
pub open spec fn ac_body_bytes(ac: AssociateAcView) -> Seq<u8> {
    assoc_fixed_bytes(ac.protocol_version, ac.called_ae_title, ac.calling_ae_title)
        + ac_items_bytes(ac)
}

/// The message-control-header byte of a presentation-data-value fragment:
/// bit 0 marks the last fragment of a message, bit 1 marks command content.
pub open spec fn mch_byte(is_last: bool, is_command: bool) -> u8 {
    ((if is_command {
        2int
    } else {
        0int
    }) + (if is_last {
        1int
    } else {
        0int
    })) as u8
}

/// One presentation-data-value item: 4-byte length, context id,
/// message-control header, payload.
pub open spec fn pdv_bytes(v: PresentationDataValueView) -> Seq<u8> {
    be32_bytes(v.data.len() + 2int) + seq![v.context_id, mch_byte(v.is_last, v.is_command)] + v.data
}

/// Body of a P-DATA-TF: its presentation-data-value items, in order.
pub open spec fn pdvs_bytes(l: Seq<PresentationDataValueView>) -> Seq<u8>
    decreases l.len(),
{
    if l.len() == 0 {
        Seq::empty()
    } else {
        pdv_bytes(l[0]) + pdvs_bytes(l.drop_first())
    }
}

/// The PDU type code of the 6-byte header.
pub open spec fn pdu_type_code(p: PduView) -> u8 {
    match p {
        PduView::AssociateRq(_) => 1u8,
        PduView::AssociateAc(_) => 2u8,
        PduView::AssociateRj(_) => 3u8,
        PduView::PDataTf(_) => 4u8,
        PduView::ReleaseRq => 5u8,
        PduView::ReleaseRp => 6u8,
        PduView::Abort(_) => 7u8,
    }
}

/// The body bytes of a PDU: everything after the 6-byte header.
pub open spec fn pdu_body_bytes(p: PduView) -> Seq<u8> {
    match p {
        PduView::AssociateRq(rq) => rq_body_bytes(rq),
        PduView::AssociateAc(ac) => ac_body_bytes(ac),
        PduView::AssociateRj(rj) => seq![0u8, rj.result, rj.source, rj.reason],
        PduView::PDataTf(pdvs) => pdvs_bytes(pdvs),
        PduView::ReleaseRq => seq![0u8, 0u8, 0u8, 0u8],
        PduView::ReleaseRp => seq![0u8, 0u8, 0u8, 0u8],
        PduView::Abort(ab) => seq![0u8, 0u8, ab.source, ab.reason],
    }
}

/// The full encoding of a PDU: type code, reserved zero byte, 4-byte
/// big-endian body length, body.
pub open spec fn pdu_bytes(p: PduView) -> Seq<u8> {
    seq![pdu_type_code(p), 0u8] + be32_bytes(pdu_body_bytes(p).len() as int) + pdu_body_bytes(p)
}

// ---------------------------------------------------------------------------
// Well-formedness: what a constructible PDU value may hold. The bounds are
// exactly what the wire's length fields force.
// ---------------------------------------------------------------------------

/// An AE title: at most 16 bytes, and no trailing space (the padding would
/// swallow it).
pub open spec fn wf_ae_title(s: Seq<u8>) -> bool {
    s.len() <= 16 && (s.len() > 0 ==> s[s.len() - 1] != 0x20u8)
}

/// A proposed presentation context: at least one transfer syntax, and every
/// piece small enough for its 16-bit item length.
pub open spec fn wf_pc_rq(pc: PresentationContextProposedView) -> bool {
    &&& pc.transfer_syntaxes.len() >= 1
    &&& pc.abstract_syntax.len() <= 0xFFFF
    &&& forall|i: int|
        0 <= i < pc.transfer_syntaxes.len() ==> (#[trigger] pc.transfer_syntaxes[i]).len() <= 0xFFFF
    &&& pc_rq_content(pc).len() <= 0xFFFF
}

/// A presentation-context result: an agreed transfer syntax exactly when
/// accepted, small enough for its item length.
pub open spec fn wf_pc_ac(r: PresentationContextResultView) -> bool {
    &&& (r.reason is Acceptance <==> r.transfer_syntax is Some)
    &&& match r.transfer_syntax {
        Some(ts) => ts.len() <= 0xFFFF,
        None => true,
    }
    &&& pc_ac_content(r).len() <= 0xFFFF
}

/// User information: pieces within their item lengths, and no extended
/// sub-item reusing the code of a mandatory or optional named sub-item.
pub open spec fn wf_ui(u: UserInformationView) -> bool {
    &&& u.implementation_class_uid.len() <= 0xFFFF
    &&& match u.implementation_version_name {
        Some(v) => v.len() <= 0xFFFF,
        None => true,
    }
    &&& forall|i: int|
        0 <= i < u.extended.len() ==> {
            &&& (#[trigger] u.extended[i]).data.len() <= 0xFFFF
            &&& u.extended[i].code != 0x51u8
            &&& u.extended[i].code != 0x52u8
            &&& u.extended[i].code != 0x55u8
        }
    &&& ui_content(u).len() <= 0xFFFF
}

/// An A-ASSOCIATE-RQ body: well-formed AE titles, at least one presentation
/// context, and a body within the 32-bit PDU length.
pub open spec fn wf_rq(rq: AssociateRqView) -> bool {
    &&& wf_ae_title(rq.called_ae_title)
    &&& wf_ae_title(rq.calling_ae_title)
    &&& rq.application_context.len() <= 0xFFFF
    &&& rq.presentation_contexts.len() >= 1
    &&& forall|i: int|
        0 <= i < rq.presentation_contexts.len() ==> wf_pc_rq(
            #[trigger] rq.presentation_contexts[i],
        )
    &&& wf_ui(rq.user_info)
    &&& rq_body_bytes(rq).len() <= 0xFFFFFFFF
}

/// An A-ASSOCIATE-AC body, bounded as the RQ body is.
pub open spec fn wf_ac(ac: AssociateAcView) -> bool {
    &&& wf_ae_title(ac.called_ae_title)
    &&& wf_ae_title(ac.calling_ae_title)
    &&& ac.application_context.len() <= 0xFFFF
    &&& ac.presentation_contexts.len() >= 1
    &&& forall|i: int|
        0 <= i < ac.presentation_contexts.len() ==> wf_pc_ac(
            #[trigger] ac.presentation_contexts[i],
        )
    &&& wf_ui(ac.user_info)
    &&& ac_body_bytes(ac).len() <= 0xFFFFFFFF
}

/// A presentation-data-value fragment whose item length fits 32 bits.
pub open spec fn wf_pdv(v: PresentationDataValueView) -> bool {
    v.data.len() + 2 <= 0xFFFFFFFF
}

/// A P-DATA-TF body: at least one fragment, all within the 32-bit PDU
/// length.
pub open spec fn wf_pdata(l: Seq<PresentationDataValueView>) -> bool {
    &&& l.len() >= 1
    &&& forall|i: int| 0 <= i < l.len() ==> wf_pdv(#[trigger] l[i])
    &&& pdvs_bytes(l).len() <= 0xFFFFFFFF
}

/// A constructible PDU value: one the codec can frame.
pub open spec fn wf_pdu(p: PduView) -> bool {
    match p {
        PduView::AssociateRq(rq) => wf_rq(rq),
        PduView::AssociateAc(ac) => wf_ac(ac),
        PduView::AssociateRj(_) => true,
        PduView::PDataTf(pdvs) => wf_pdata(pdvs),
        PduView::ReleaseRq => true,
        PduView::ReleaseRp => true,
        PduView::Abort(_) => true,
    }
}

// ---------------------------------------------------------------------------
// The mathematical decoder
// ---------------------------------------------------------------------------

/// Outcome of decoding a buffer, at the level of the mathematical model.
#[verifier::ext_equal]
pub ghost enum SpecDecodeOutcome {
    Complete(PduView, int),
    Incomplete,
    Malformed,
}

/// One variable item taken off the front of a region: its code, its
/// content, and how many bytes it spans.
pub open spec fn spec_parse_item(s: Seq<u8>) -> Option<(u8, Seq<u8>, int)> {
    if s.len() < 4 {
        None
    } else {
        let n = be16_val(s.subrange(2, 4));
        if s.len() < 4 + n {
            None
        } else {
            Some((s[0], s.subrange(4, 4 + n), 4 + n))
        }
    }
}

/// The transfer-syntax sub-items filling a region exactly.
pub open spec fn spec_parse_ts_list(s: Seq<u8>) -> Option<Seq<Seq<u8>>>
    decreases s.len(),
{
    if s.len() == 0 {
        Some(Seq::empty())
    } else {
        match spec_parse_item(s) {
            None => None,
            Some((code, content, n)) => {
                if code != 0x40u8 {
                    None
                } else {
                    match spec_parse_ts_list(s.skip(n)) {
                        None => None,
                        Some(rest) => Some(seq![content] + rest),
                    }
                }
            },
        }
    }
}

/// The content of one presentation-context request item.
pub open spec fn spec_parse_pc_rq_content(c: Seq<u8>) -> Option<PresentationContextProposedView> {
    if c.len() < 4 {
        None
    } else {
        match spec_parse_item(c.skip(4)) {
            None => None,
            Some((code, abs, n)) => {
                if code != 0x30u8 {
                    None
                } else {
                    match spec_parse_ts_list(c.skip(4).skip(n)) {
                        None => None,
                        Some(tss) => {
                            if tss.len() == 0 {
                                None
                            } else {
                                Some(
                                    PresentationContextProposedView {
                                        id: c[0],
                                        abstract_syntax: abs,
                                        transfer_syntaxes: tss,
                                    },
                                )
                            }
                        },
                    }
                }
            },
        }
    }
}

/// The run of presentation-context request items at the front of the
/// variable-items region, with the bytes they span.
pub open spec fn spec_parse_pc_rq_list(s: Seq<u8>) -> Option<
    (Seq<PresentationContextProposedView>, int),
>
    decreases s.len(),
{
    if s.len() < 4 || s[0] != 0x20u8 {
        Some((Seq::empty(), 0))
    } else {
        match spec_parse_item(s) {
            None => None,
            Some((code, content, n)) => {
                match spec_parse_pc_rq_content(content) {
                    None => None,
                    Some(pc) => {
                        match spec_parse_pc_rq_list(s.skip(n)) {
                            None => None,
                            Some((rest, m)) => Some((seq![pc] + rest, n + m)),
                        }
                    },
                }
            },
        }
    }
}

/// The content of one presentation-context result item: a transfer-syntax
/// sub-item exactly when the outcome is acceptance.
pub open spec fn spec_parse_pc_ac_content(c: Seq<u8>) -> Option<PresentationContextResultView> {
    if c.len() < 4 {
        None
    } else {
        match reason_of_code(c[2]) {
            None => None,
            Some(reason) => {
                if reason is Acceptance {
                    match spec_parse_item(c.skip(4)) {
                        None => None,
                        Some((code, ts, n)) => {
                            if code != 0x40u8 || c.len() != 4 + n {
                                None
                            } else {
                                Some(
                                    PresentationContextResultView {
                                        id: c[0],
                                        reason,
                                        transfer_syntax: Some(ts),
                                    },
                                )
                            }
                        },
                    }
                } else {
                    if c.len() != 4 {
                        None
                    } else {
                        Some(
                            PresentationContextResultView { id: c[0], reason, transfer_syntax: None },
                        )
                    }
                }
            },
        }
    }
}

/// The run of presentation-context result items at the front of the
/// variable-items region, with the bytes they span.
pub open spec fn spec_parse_pc_ac_list(s: Seq<u8>) -> Option<
    (Seq<PresentationContextResultView>, int),
>
    decreases s.len(),
{
    if s.len() < 4 || s[0] != 0x21u8 {
        Some((Seq::empty(), 0))
    } else {
        match spec_parse_item(s) {
            None => None,
            Some((code, content, n)) => {
                match spec_parse_pc_ac_content(content) {
                    None => None,
                    Some(pc) => {
                        match spec_parse_pc_ac_list(s.skip(n)) {
                            None => None,
                            Some((rest, m)) => Some((seq![pc] + rest, n + m)),
                        }
                    },
                }
            },
        }
    }
}

/// The extended-negotiation sub-items filling a region exactly.
pub open spec fn spec_parse_ext_list(s: Seq<u8>) -> Option<Seq<RawUserItemView>>
    decreases s.len(),
{
    if s.len() == 0 {
        Some(Seq::empty())
    } else {
        match spec_parse_item(s) {
            None => None,
            Some((code, content, n)) => {
                match spec_parse_ext_list(s.skip(n)) {
                    None => None,
                    Some(rest) => Some(seq![RawUserItemView { code, data: content }] + rest),
                }
            },
        }
    }
}

/// The optional version-name sub-item and the extended sub-items that end
/// the user-information content.
pub open spec fn spec_parse_ui_tail(rest: Seq<u8>) -> Option<
    (Option<Seq<u8>>, Seq<RawUserItemView>),
> {
    if rest.len() >= 4 && rest[0] == 0x55u8 {
        match spec_parse_item(rest) {
            None => None,
            Some((code3, vn, n3)) => {
                match spec_parse_ext_list(rest.skip(n3)) {
                    None => None,
                    Some(ext) => Some((Some(vn), ext)),
                }
            },
        }
    } else {
        match spec_parse_ext_list(rest) {
            None => None,
            Some(ext) => Some((None, ext)),
        }
    }
}

/// The content of the user-information item: the mandatory maximum-length
/// sub-item, the mandatory implementation-class-UID sub-item, an optional
/// version-name sub-item, then extended sub-items to the end.
pub open spec fn spec_parse_ui_content(c: Seq<u8>) -> Option<UserInformationView> {
    match spec_parse_item(c) {
        None => None,
        Some((code1, d1, n1)) => {
            if code1 != 0x51u8 || d1.len() != 4 {
                None
            } else {
                match spec_parse_item(c.skip(n1)) {
                    None => None,
                    Some((code2, uid, n2)) => {
                        if code2 != 0x52u8 {
                            None
                        } else {
                            match spec_parse_ui_tail(c.skip(n1).skip(n2)) {
                                None => None,
                                Some((vn, ext)) => Some(
                                    UserInformationView {
                                        max_pdu_length: be32_val(d1) as u32,
                                        implementation_class_uid: uid,
                                        implementation_version_name: vn,
                                        extended: ext,
                                    },
                                ),
                            }
                        }
                    },
                }
            }
        },
    }
}

/// The variable-items region of an A-ASSOCIATE-RQ/AC body: one
/// application-context item, one or more presentation-context items, one
/// user-information item, nothing after. Yields the application context,
/// the span of the presentation-context run and its start, and the
/// user-information content.
pub open spec fn spec_parse_rq_body(b: Seq<u8>) -> Option<AssociateRqView> {
    if b.len() < 68 {
        None
    } else {
        let items = b.skip(68);
        match spec_parse_item(items) {
            None => None,
            Some((c0, app, n0)) => {
                if c0 != 0x10u8 {
                    None
                } else {
                    match spec_parse_pc_rq_list(items.skip(n0)) {
                        None => None,
                        Some((pcs, n1)) => {
                            if pcs.len() == 0 {
                                None
                            } else {
                                match spec_parse_item(items.skip(n0).skip(n1)) {
                                    None => None,
                                    Some((c2, uic, n2)) => {
                                        if c2 != 0x50u8 || n0 + n1 + n2 != items.len() {
                                            None
                                        } else {
                                            match spec_parse_ui_content(uic) {
                                                None => None,
                                                Some(ui) => Some(
                                                    AssociateRqView {
                                                        protocol_version: be16_val(
                                                            b.subrange(0, 2),
                                                        ) as u16,
                                                        called_ae_title: trim_trailing_spaces(
                                                            b.subrange(4, 20),
                                                        ),
                                                        calling_ae_title: trim_trailing_spaces(
                                                            b.subrange(20, 36),
                                                        ),
                                                        application_context: app,
                                                        presentation_contexts: pcs,
                                                        user_info: ui,
                                                    },
                                                ),
                                            }
                                        }
                                    },
                                }
                            }
                        },
                    }
                }
            },
        }
    }
}

/// The A-ASSOCIATE-AC body, laid out as the RQ body with result items.
pub open spec fn spec_parse_ac_body(b: Seq<u8>) -> Option<AssociateAcView> {
    if b.len() < 68 {
        None
    } else {
        let items = b.skip(68);
        match spec_parse_item(items) {
            None => None,
            Some((c0, app, n0)) => {
                if c0 != 0x10u8 {
                    None
                } else {
                    match spec_parse_pc_ac_list(items.skip(n0)) {
                        None => None,
                        Some((pcs, n1)) => {
                            if pcs.len() == 0 {
                                None
                            } else {
                                match spec_parse_item(items.skip(n0).skip(n1)) {
                                    None => None,
                                    Some((c2, uic, n2)) => {
                                        if c2 != 0x50u8 || n0 + n1 + n2 != items.len() {
                                            None
                                        } else {
                                            match spec_parse_ui_content(uic) {
                                                None => None,
                                                Some(ui) => Some(
                                                    AssociateAcView {
                                                        protocol_version: be16_val(
                                                            b.subrange(0, 2),
                                                        ) as u16,
                                                        called_ae_title: trim_trailing_spaces(
                                                            b.subrange(4, 20),
                                                        ),
                                                        calling_ae_title: trim_trailing_spaces(
                                                            b.subrange(20, 36),
                                                        ),
                                                        application_context: app,
                                                        presentation_contexts: pcs,
                                                        user_info: ui,
                                                    },
                                                ),
                                            }
                                        }
                                    },
                                }
                            }
                        },
                    }
                }
            },
        }
    }
}

/// The presentation-data-value items filling a P-DATA-TF body exactly.
pub open spec fn spec_parse_pdv_list(b: Seq<u8>) -> Option<Seq<PresentationDataValueView>>
    decreases b.len(),
{
    if b.len() == 0 {
        Some(Seq::empty())
    } else if b.len() < 6 {
        None
    } else {
        let m = be32_val(b.subrange(0, 4));
        if m < 2 || b.len() < 4 + m {
            None
        } else {
            let v = PresentationDataValueView {
                context_id: b[4],
                is_last: b[5] % 2 == 1,
                is_command: (b[5] / 2) % 2 == 1,
                data: b.subrange(6, 4 + m),
            };
            match spec_parse_pdv_list(b.skip(4 + m)) {
                None => None,
                Some(rest) => Some(seq![v] + rest),
            }
        }
    }
}

/// The body of a PDU of the given type code.
pub open spec fn spec_parse_body(t: u8, b: Seq<u8>) -> Option<PduView> {
    if t == 1 {
        match spec_parse_rq_body(b) {
            None => None,
            Some(rq) => Some(PduView::AssociateRq(rq)),
        }
    } else if t == 2 {
        match spec_parse_ac_body(b) {
            None => None,
            Some(ac) => Some(PduView::AssociateAc(ac)),
        }
    } else if t == 3 {
        if b.len() != 4 {
            None
        } else {
            Some(PduView::AssociateRj(AssociateRj { result: b[1], source: b[2], reason: b[3] }))
        }
    } else if t == 4 {
        match spec_parse_pdv_list(b) {
            None => None,
            Some(pdvs) => {
                if pdvs.len() == 0 {
                    None
                } else {
                    Some(PduView::PDataTf(pdvs))
                }
            },
        }
    } else if t == 5 {
        if b.len() != 4 {
            None
        } else {
            Some(PduView::ReleaseRq)
        }
    } else if t == 6 {
        if b.len() != 4 {
            None
        } else {
            Some(PduView::ReleaseRp)
        }
    } else {
        if b.len() != 4 {
            None
        } else {
            Some(PduView::Abort(AbortInfo { source: b[2], reason: b[3] }))
        }
    }
}

// ---------------------------------------------------------------------------
// Round-trip lemmas: parsing inverts encoding, piece by piece
// ---------------------------------------------------------------------------

proof fn lemma_parse_item(code: u8, content: Seq<u8>, rest: Seq<u8>)
    requires
        content.len() <= 0xFFFF,
    ensures
        spec_parse_item(item_bytes(code, content) + rest) == Some(
            (code, content, 4 + content.len() as int),
        ),
{
    let ln = content.len() as int;
    lemma_be16_roundtrip(ln);
    let s = item_bytes(code, content) + rest;
    assert(s.len() == 4 + content.len() + rest.len());
    assert(s[0] == code);
    assert(s.subrange(2, 4) =~= be16_bytes(ln));
    assert(s.subrange(4, 4 + ln) =~= content);
}

proof fn lemma_parse_ts_list(l: Seq<Seq<u8>>)
    requires
        forall|i: int| 0 <= i < l.len() ==> (#[trigger] l[i]).len() <= 0xFFFF,
    ensures
        spec_parse_ts_list(ts_items_bytes(l)) == Some(l),
    decreases l.len(),
{
    if l.len() == 0 {
        assert(l =~= Seq::<Seq<u8>>::empty());
    } else {
        let s = ts_items_bytes(l);
        let hd = l[0];
        let tail = ts_items_bytes(l.drop_first());
        let n = 4 + hd.len() as int;
        assert(spec_parse_item(s) == Some((0x40u8, hd, n))) by {
            lemma_parse_item(0x40u8, hd, tail);
        };
        assert(s.len() >= 4);
        assert(s.skip(n) == tail) by {
            assert((item_bytes(0x40u8, hd) + tail).skip(n) =~= tail);
        };
        lemma_parse_ts_list(l.drop_first());
        assert(spec_parse_ts_list(s) == Some(seq![hd] + l.drop_first()));
        assert(seq![hd] + l.drop_first() == l) by {
            assert(seq![hd] + l.drop_first() =~= l);
        };
    }
}

proof fn lemma_trim_spaces_suffix(s: Seq<u8>, k: nat)
    ensures
        trim_trailing_spaces(s + Seq::new(k, |i: int| 0x20u8)) == trim_trailing_spaces(s),
    decreases k,
{
    if k == 0 {
        assert(s + Seq::new(0, |i: int| 0x20u8) =~= s);
    } else {
        let t = s + Seq::new(k, |i: int| 0x20u8);
        assert(t.len() == s.len() + k);
        assert(t[t.len() - 1] == 0x20u8);
        assert(t.drop_last() =~= s + Seq::new((k - 1) as nat, |i: int| 0x20u8));
        lemma_trim_spaces_suffix(s, (k - 1) as nat);
    }
}

/// Trimming inverts padding on any well-formed AE title.
pub proof fn lemma_trim_pad16(s: Seq<u8>)
    requires
        wf_ae_title(s),
    ensures
        pad16(s).len() == 16,
        trim_trailing_spaces(pad16(s)) == s,
{
    lemma_trim_spaces_suffix(s, (16 - s.len()) as nat);
    assert(trim_trailing_spaces(s) == s);
}

proof fn lemma_parse_pc_rq_content(pc: PresentationContextProposedView)
    requires
        wf_pc_rq(pc),
    ensures
        spec_parse_pc_rq_content(pc_rq_content(pc)) == Some(pc),
{
    let c = pc_rq_content(pc);
    let b = item_bytes(0x30u8, pc.abstract_syntax);
    let tsb = ts_items_bytes(pc.transfer_syntaxes);
    let n = 4 + pc.abstract_syntax.len() as int;
    assert(c.len() >= 4 && c[0] == pc.id) by {
        assert(c.len() == 4 + b.len() + tsb.len());
    };
    assert(c.skip(4) == b + tsb) by {
        assert(c.skip(4) =~= b + tsb);
    };
    assert(spec_parse_item(c.skip(4)) == Some((0x30u8, pc.abstract_syntax, n))) by {
        lemma_parse_item(0x30u8, pc.abstract_syntax, tsb);
    };
    assert(c.skip(4).skip(n) == tsb) by {
        assert((b + tsb).skip(n) =~= tsb);
    };
    assert(spec_parse_ts_list(c.skip(4).skip(n)) == Some(pc.transfer_syntaxes)) by {
        lemma_parse_ts_list(pc.transfer_syntaxes);
    };
    let parsed = PresentationContextProposedView {
        id: pc.id,
        abstract_syntax: pc.abstract_syntax,
        transfer_syntaxes: pc.transfer_syntaxes,
    };
    assert(parsed =~= pc);
    assert(spec_parse_pc_rq_content(c) == Some(parsed));
}

proof fn lemma_parse_pc_rq_list(l: Seq<PresentationContextProposedView>, rest: Seq<u8>)
    requires
        forall|i: int| 0 <= i < l.len() ==> wf_pc_rq(#[trigger] l[i]),
        rest.len() < 4 || rest[0] != 0x20u8,
    ensures
        spec_parse_pc_rq_list(pcs_rq_bytes(l) + rest) == Some(
            (l, pcs_rq_bytes(l).len() as int),
        ),
    decreases l.len(),
{
    if l.len() == 0 {
        assert(pcs_rq_bytes(l) + rest == rest) by {
            assert(pcs_rq_bytes(l) + rest =~= rest);
        };
        assert(l =~= Seq::<PresentationContextProposedView>::empty());
    } else {
        let s = pcs_rq_bytes(l) + rest;
        let content = pc_rq_content(l[0]);
        let tail = pcs_rq_bytes(l.drop_first()) + rest;
        let n = 4 + content.len() as int;
        assert(s == item_bytes(0x20u8, content) + tail) by {
            assert(s =~= item_bytes(0x20u8, content) + tail);
        };
        assert(spec_parse_item(s) == Some((0x20u8, content, n))) by {
            lemma_parse_item(0x20u8, content, tail);
        };
        assert(s.len() >= 4 && s[0] == 0x20u8);
        assert(spec_parse_pc_rq_content(content) == Some(l[0])) by {
            lemma_parse_pc_rq_content(l[0]);
        };
        assert(s.skip(n) == tail) by {
            assert((item_bytes(0x20u8, content) + tail).skip(n) =~= tail);
        };
        lemma_parse_pc_rq_list(l.drop_first(), rest);
        assert(spec_parse_pc_rq_list(s) == Some(
            (seq![l[0]] + l.drop_first(), n + pcs_rq_bytes(l.drop_first()).len()),
        ));
        assert(seq![l[0]] + l.drop_first() == l) by {
            assert(seq![l[0]] + l.drop_first() =~= l);
        };
    }
}

proof fn lemma_parse_pc_ac_content(r: PresentationContextResultView)
    requires
        wf_pc_ac(r),
    ensures
        spec_parse_pc_ac_content(pc_ac_content(r)) == Some(r),
{
    let c = pc_ac_content(r);
    assert(c.len() >= 4);
    assert(c[0] == r.id);
    assert(c[2] == reason_code(r.reason));
    assert(reason_of_code(reason_code(r.reason)) == Some(r.reason));
    match r.transfer_syntax {
        Some(ts) => {
            assert(c.skip(4) =~= item_bytes(0x40u8, ts) + Seq::<u8>::empty());
            lemma_parse_item(0x40u8, ts, Seq::empty());
            let n = 4 + ts.len() as int;
            assert(c.len() == 4 + n);
            assert(spec_parse_pc_ac_content(c) == Some(
                PresentationContextResultView {
                    id: r.id,
                    reason: r.reason,
                    transfer_syntax: Some(ts),
                },
            ));
            assert(PresentationContextResultView {
                id: r.id,
                reason: r.reason,
                transfer_syntax: Some(ts),
            } =~= r);
        },
        None => {
            assert(c.len() == 4);
            assert(PresentationContextResultView {
                id: r.id,
                reason: r.reason,
                transfer_syntax: None,
            } =~= r);
        },
    }
}

proof fn lemma_parse_pc_ac_list(l: Seq<PresentationContextResultView>, rest: Seq<u8>)
    requires
        forall|i: int| 0 <= i < l.len() ==> wf_pc_ac(#[trigger] l[i]),
        rest.len() < 4 || rest[0] != 0x21u8,
    ensures
        spec_parse_pc_ac_list(pcs_ac_bytes(l) + rest) == Some(
            (l, pcs_ac_bytes(l).len() as int),
        ),
    decreases l.len(),
{
    if l.len() == 0 {
        assert(pcs_ac_bytes(l) + rest == rest) by {
            assert(pcs_ac_bytes(l) + rest =~= rest);
        };
        assert(l =~= Seq::<PresentationContextResultView>::empty());
    } else {
        let s = pcs_ac_bytes(l) + rest;
        let content = pc_ac_content(l[0]);
        let tail = pcs_ac_bytes(l.drop_first()) + rest;
        let n = 4 + content.len() as int;
        assert(s == item_bytes(0x21u8, content) + tail) by {
            assert(s =~= item_bytes(0x21u8, content) + tail);
        };
        assert(spec_parse_item(s) == Some((0x21u8, content, n))) by {
            lemma_parse_item(0x21u8, content, tail);
        };
        assert(s.len() >= 4 && s[0] == 0x21u8);
        assert(spec_parse_pc_ac_content(content) == Some(l[0])) by {
            lemma_parse_pc_ac_content(l[0]);
        };
        assert(s.skip(n) == tail) by {
            assert((item_bytes(0x21u8, content) + tail).skip(n) =~= tail);
        };
        lemma_parse_pc_ac_list(l.drop_first(), rest);
        assert(spec_parse_pc_ac_list(s) == Some(
            (seq![l[0]] + l.drop_first(), n + pcs_ac_bytes(l.drop_first()).len()),
        ));
        assert(seq![l[0]] + l.drop_first() == l) by {
            assert(seq![l[0]] + l.drop_first() =~= l);
        };
    }
}

proof fn lemma_parse_ext_list(l: Seq<RawUserItemView>)
    requires
        forall|i: int| 0 <= i < l.len() ==> (#[trigger] l[i]).data.len() <= 0xFFFF,
    ensures
        spec_parse_ext_list(ext_items_bytes(l)) == Some(l),
    decreases l.len(),
{
    if l.len() == 0 {
        assert(l =~= Seq::<RawUserItemView>::empty());
    } else {
        let s = ext_items_bytes(l);
        let hd = l[0];
        let tail = ext_items_bytes(l.drop_first());
        let n = 4 + hd.data.len() as int;
        assert(spec_parse_item(s) == Some((hd.code, hd.data, n))) by {
            lemma_parse_item(hd.code, hd.data, tail);
        };
        assert(s.len() >= 4);
        assert(s.skip(n) == tail) by {
            assert((item_bytes(hd.code, hd.data) + tail).skip(n) =~= tail);
        };
        lemma_parse_ext_list(l.drop_first());
        assert(RawUserItemView { code: hd.code, data: hd.data } == hd);
        assert(spec_parse_ext_list(s) == Some(seq![hd] + l.drop_first()));
        assert(seq![hd] + l.drop_first() == l) by {
            assert(seq![hd] + l.drop_first() =~= l);
        };
    }
}

proof fn lemma_parse_ui_pieces(u: UserInformationView)
    requires
        wf_ui(u),
    ensures
        spec_parse_item(ui_content(u)) == Some(
            (0x51u8, be32_bytes(u.max_pdu_length as int), 8int),
        ),
        be32_val(be32_bytes(u.max_pdu_length as int)) == u.max_pdu_length as int,
        spec_parse_item(ui_content(u).skip(8)) == Some(
            (
                0x52u8,
                u.implementation_class_uid,
                4 + u.implementation_class_uid.len() as int,
            ),
        ),
        spec_parse_ui_tail(
            ui_content(u).skip(8).skip(4 + u.implementation_class_uid.len() as int),
        ) == Some((u.implementation_version_name, u.extended)),
{
    let c = ui_content(u);
    let d1 = be32_bytes(u.max_pdu_length as int);
    lemma_be32_roundtrip(u.max_pdu_length as int);
    let vnpart = match u.implementation_version_name {
        Some(v) => item_bytes(0x55u8, v),
        None => Seq::<u8>::empty(),
    };
    let extb = ext_items_bytes(u.extended);
    let uid = u.implementation_class_uid;
    let t1 = item_bytes(0x52u8, uid) + (vnpart + extb);
    let n1 = 4 + d1.len() as int;
    let n2 = 4 + uid.len() as int;
    assert(c == item_bytes(0x51u8, d1) + t1) by {
        assert(c =~= item_bytes(0x51u8, d1) + t1);
    };
    assert(spec_parse_item(c) == Some((0x51u8, d1, n1))) by {
        lemma_parse_item(0x51u8, d1, t1);
    };
    assert(c.skip(n1) == t1) by {
        assert(c.skip(n1) =~= t1);
    };
    assert(spec_parse_item(c.skip(n1)) == Some((0x52u8, uid, n2))) by {
        lemma_parse_item(0x52u8, uid, vnpart + extb);
    };
    let rest = c.skip(n1).skip(n2);
    assert(rest == vnpart + extb) by {
        assert(rest =~= vnpart + extb);
    };
    assert(spec_parse_ext_list(extb) == Some(u.extended)) by {
        lemma_parse_ext_list(u.extended);
    };
    match u.implementation_version_name {
        Some(v) => {
            let n3 = 4 + v.len() as int;
            assert(vnpart == item_bytes(0x55u8, v));
            assert(rest == item_bytes(0x55u8, v) + extb);
            assert(rest.len() >= 4 && rest[0] == 0x55u8);
            assert(spec_parse_item(rest) == Some((0x55u8, v, n3))) by {
                lemma_parse_item(0x55u8, v, extb);
            };
            assert(rest.skip(n3) == extb) by {
                assert((item_bytes(0x55u8, v) + extb).skip(n3) =~= extb);
            };
            assert(spec_parse_ui_tail(rest) == Some((Some(v), u.extended)));
            assert(u.implementation_version_name == Some(v));
        },
        None => {
            assert(vnpart == Seq::<u8>::empty());
            assert(rest == extb) by {
                assert(Seq::<u8>::empty() + extb =~= extb);
            };
            assert(!(rest.len() >= 4 && rest[0] == 0x55u8)) by {
                if u.extended.len() == 0 {
                    assert(rest.len() == 0);
                } else {
                    assert(rest[0] == u.extended[0].code);
                    assert(rest[0] != 0x55u8);
                }
            };
            assert(spec_parse_ui_tail(rest) == Some((None::<Seq<u8>>, u.extended)));
        },
    }
    assert(spec_parse_ui_tail(rest) == Some(
        (u.implementation_version_name, u.extended),
    ));
}

proof fn lemma_parse_ui_content(u: UserInformationView)
    requires
        wf_ui(u),
    ensures
        spec_parse_ui_content(ui_content(u)) == Some(u),
{
    lemma_parse_ui_pieces(u);
    let c = ui_content(u);
    let parsed = UserInformationView {
        max_pdu_length: u.max_pdu_length,
        implementation_class_uid: u.implementation_class_uid,
        implementation_version_name: u.implementation_version_name,
        extended: u.extended,
    };
    assert(parsed == u);
    assert(spec_parse_ui_content(c) == Some(parsed));
}

/// The mathematical decoder. `Incomplete` exactly when the buffer holds
/// fewer bytes than the declared PDU length plus the 6-byte header;
/// otherwise the first PDU of the buffer and the bytes it spans, or
/// `Malformed`.
pub open spec fn spec_decode(s: Seq<u8>) -> SpecDecodeOutcome {
    if s.len() < 6 {
        SpecDecodeOutcome::Incomplete
    } else if !(1 <= s[0] <= 7) {
        SpecDecodeOutcome::Malformed
    } else {
        let n = be32_val(s.subrange(2, 6));
        if s.len() < 6 + n {
            SpecDecodeOutcome::Incomplete
        } else {
            match spec_parse_body(s[0], s.subrange(6, 6 + n)) {
                None => SpecDecodeOutcome::Malformed,
                Some(p) => SpecDecodeOutcome::Complete(p, 6 + n),
            }
        }
    }
}

proof fn lemma_assoc_fixed(version: u16, called: Seq<u8>, calling: Seq<u8>, tail: Seq<u8>)
    requires
        wf_ae_title(called),
        wf_ae_title(calling),
    ensures
        ({
            let b = assoc_fixed_bytes(version, called, calling) + tail;
            &&& b.len() == 68 + tail.len()
            &&& be16_val(b.subrange(0, 2)) == version as int
            &&& trim_trailing_spaces(b.subrange(4, 20)) == called
            &&& trim_trailing_spaces(b.subrange(20, 36)) == calling
            &&& b.skip(68) == tail
        }),
{
    let b = assoc_fixed_bytes(version, called, calling) + tail;
    lemma_be16_roundtrip(version as int);
    lemma_trim_pad16(called);
    lemma_trim_pad16(calling);
    assert(b.len() == 68 + tail.len());
    assert(b.subrange(0, 2) =~= be16_bytes(version as int));
    assert(b.subrange(4, 20) =~= pad16(called));
    assert(b.subrange(20, 36) =~= pad16(calling));
    assert(b.skip(68) =~= tail);
}

proof fn lemma_parse_rq_items(rq: AssociateRqView)
    requires
        wf_rq(rq),
    ensures
        ({
            let items = rq_items_bytes(rq);
            let n0 = 4 + rq.application_context.len() as int;
            let n1 = pcs_rq_bytes(rq.presentation_contexts).len() as int;
            let n2 = 4 + ui_content(rq.user_info).len() as int;
            &&& spec_parse_item(items) == Some((0x10u8, rq.application_context, n0))
            &&& spec_parse_pc_rq_list(items.skip(n0)) == Some((rq.presentation_contexts, n1))
            &&& spec_parse_item(items.skip(n0).skip(n1)) == Some(
                (0x50u8, ui_content(rq.user_info), n2),
            )
            &&& items.len() == n0 + n1 + n2
        }),
{
    let items = rq_items_bytes(rq);
    let app = rq.application_context;
    let appi = item_bytes(0x10u8, app);
    let pcsb = pcs_rq_bytes(rq.presentation_contexts);
    let uic = ui_content(rq.user_info);
    let uii = item_bytes(0x50u8, uic);
    let n0 = 4 + app.len() as int;
    let n1 = pcsb.len() as int;
    let n2 = 4 + uic.len() as int;
    assert(items == appi + (pcsb + uii)) by {
        assert(items =~= appi + (pcsb + uii));
    };
    assert(spec_parse_item(items) == Some((0x10u8, app, n0))) by {
        lemma_parse_item(0x10u8, app, pcsb + uii);
    };
    assert(items.skip(n0) == pcsb + uii) by {
        assert((appi + (pcsb + uii)).skip(n0) =~= pcsb + uii);
    };
    assert(uii.len() >= 4 && uii[0] == 0x50u8);
    assert(spec_parse_pc_rq_list(items.skip(n0)) == Some((rq.presentation_contexts, n1))) by {
        lemma_parse_pc_rq_list(rq.presentation_contexts, uii);
    };
    assert(items.skip(n0).skip(n1) == uii) by {
        assert((pcsb + uii).skip(n1) =~= uii);
    };
    assert(spec_parse_item(uii) == Some((0x50u8, uic, n2))) by {
        lemma_parse_item(0x50u8, uic, Seq::empty());
        assert(uii + Seq::<u8>::empty() =~= uii);
    };
}

proof fn lemma_parse_rq_body(rq: AssociateRqView)
    requires
        wf_rq(rq),
    ensures
        spec_parse_rq_body(rq_body_bytes(rq)) == Some(rq),
{
    let b = rq_body_bytes(rq);
    let items = rq_items_bytes(rq);
    lemma_assoc_fixed(rq.protocol_version, rq.called_ae_title, rq.calling_ae_title, items);
    lemma_parse_rq_items(rq);
    lemma_parse_ui_content(rq.user_info);
    let parsed = AssociateRqView {
        protocol_version: rq.protocol_version,
        called_ae_title: rq.called_ae_title,
        calling_ae_title: rq.calling_ae_title,
        application_context: rq.application_context,
        presentation_contexts: rq.presentation_contexts,
        user_info: rq.user_info,
    };
    assert(parsed == rq);
    assert(spec_parse_rq_body(b) == Some(parsed));
}

proof fn lemma_parse_ac_items(ac: AssociateAcView)
    requires
        wf_ac(ac),
    ensures
        ({
            let items = ac_items_bytes(ac);
            let n0 = 4 + ac.application_context.len() as int;
            let n1 = pcs_ac_bytes(ac.presentation_contexts).len() as int;
            let n2 = 4 + ui_content(ac.user_info).len() as int;
            &&& spec_parse_item(items) == Some((0x10u8, ac.application_context, n0))
            &&& spec_parse_pc_ac_list(items.skip(n0)) == Some((ac.presentation_contexts, n1))
            &&& spec_parse_item(items.skip(n0).skip(n1)) == Some(
                (0x50u8, ui_content(ac.user_info), n2),
            )
            &&& items.len() == n0 + n1 + n2
        }),
{
    let items = ac_items_bytes(ac);
    let app = ac.application_context;
    let appi = item_bytes(0x10u8, app);
    let pcsb = pcs_ac_bytes(ac.presentation_contexts);
    let uic = ui_content(ac.user_info);
    let uii = item_bytes(0x50u8, uic);
    let n0 = 4 + app.len() as int;
    let n1 = pcsb.len() as int;
    let n2 = 4 + uic.len() as int;
    assert(items == appi + (pcsb + uii)) by {
        assert(items =~= appi + (pcsb + uii));
    };
    assert(spec_parse_item(items) == Some((0x10u8, app, n0))) by {
        lemma_parse_item(0x10u8, app, pcsb + uii);
    };
    assert(items.skip(n0) == pcsb + uii) by {
        assert((appi + (pcsb + uii)).skip(n0) =~= pcsb + uii);
    };
    assert(uii.len() >= 4 && uii[0] == 0x50u8);
    assert(spec_parse_pc_ac_list(items.skip(n0)) == Some((ac.presentation_contexts, n1))) by {
        lemma_parse_pc_ac_list(ac.presentation_contexts, uii);
    };
    assert(items.skip(n0).skip(n1) == uii) by {
        assert((pcsb + uii).skip(n1) =~= uii);
    };
    assert(spec_parse_item(uii) == Some((0x50u8, uic, n2))) by {
        lemma_parse_item(0x50u8, uic, Seq::empty());
        assert(uii + Seq::<u8>::empty() =~= uii);
    };
}

proof fn lemma_parse_ac_body(ac: AssociateAcView)
    requires
        wf_ac(ac),
    ensures
        spec_parse_ac_body(ac_body_bytes(ac)) == Some(ac),
{
    let b = ac_body_bytes(ac);
    let items = ac_items_bytes(ac);
    lemma_assoc_fixed(ac.protocol_version, ac.called_ae_title, ac.calling_ae_title, items);
    lemma_parse_ac_items(ac);
    lemma_parse_ui_content(ac.user_info);
    let parsed = AssociateAcView {
        protocol_version: ac.protocol_version,
        called_ae_title: ac.called_ae_title,
        calling_ae_title: ac.calling_ae_title,
        application_context: ac.application_context,
        presentation_contexts: ac.presentation_contexts,
        user_info: ac.user_info,
    };
    assert(parsed == ac);
    assert(spec_parse_ac_body(b) == Some(parsed));
}

proof fn lemma_parse_pdv_list(l: Seq<PresentationDataValueView>)
    requires
        forall|i: int| 0 <= i < l.len() ==> wf_pdv(#[trigger] l[i]),
    ensures
        spec_parse_pdv_list(pdvs_bytes(l)) == Some(l),
    decreases l.len(),
{
    if l.len() == 0 {
        assert(l =~= Seq::<PresentationDataValueView>::empty());
    } else {
        let b = pdvs_bytes(l);
        let v = l[0];
        let m = v.data.len() + 2int;
        let tail = pdvs_bytes(l.drop_first());
        lemma_be32_roundtrip(m);
        assert(b.len() == 4 + m + tail.len());
        assert(b.subrange(0, 4) =~= be32_bytes(m));
        assert(b[4] == v.context_id);
        assert(b[5] == mch_byte(v.is_last, v.is_command));
        let mch = mch_byte(v.is_last, v.is_command);
        assert((mch % 2 == 1) == v.is_last && ((mch / 2) % 2 == 1) == v.is_command) by {
            if v.is_last {
                if v.is_command {
                    assert(mch == 3);
                } else {
                    assert(mch == 1);
                }
            } else {
                if v.is_command {
                    assert(mch == 2);
                } else {
                    assert(mch == 0);
                }
            }
        };
        assert(b.subrange(6, 4 + m) =~= v.data);
        assert(b.skip(4 + m) =~= tail);
        lemma_parse_pdv_list(l.drop_first());
        let parsed = PresentationDataValueView {
            context_id: v.context_id,
            is_last: v.is_last,
            is_command: v.is_command,
            data: v.data,
        };
        assert(parsed == v);
        assert(seq![v] + l.drop_first() =~= l);
        assert(spec_parse_pdv_list(b) == Some(seq![v] + l.drop_first()));
    }
}

/// The body of a well-formed PDU parses back to the PDU, its type code is
/// one of the seven, and its length fits the 4-byte length field.
proof fn lemma_parse_body_roundtrip(p: PduView)
    requires
        wf_pdu(p),
    ensures
        1 <= pdu_type_code(p) <= 7,
        pdu_body_bytes(p).len() <= 0xFFFFFFFF,
        spec_parse_body(pdu_type_code(p), pdu_body_bytes(p)) == Some(p),
{
    let body = pdu_body_bytes(p);
    match p {
        PduView::AssociateRq(rq) => {
            lemma_parse_rq_body(rq);
        },
        PduView::AssociateAc(ac) => {
            lemma_parse_ac_body(ac);
        },
        PduView::AssociateRj(rj) => {
            assert(body.len() == 4);
            assert(AssociateRj { result: body[1], source: body[2], reason: body[3] } == rj);
        },
        PduView::PDataTf(pdvs) => {
            lemma_parse_pdv_list(pdvs);
        },
        PduView::ReleaseRq => {
            assert(body.len() == 4);
        },
        PduView::ReleaseRp => {
            assert(body.len() == 4);
        },
        PduView::Abort(ab) => {
            assert(body.len() == 4);
            assert(AbortInfo { source: body[2], reason: body[3] } == ab);
        },
    }
}

/// Decoding inverts encoding: the encoding of any well-formed PDU, however
/// much more of the stream follows it, decodes to the same PDU with exactly
/// the encoding's bytes consumed.
pub proof fn lemma_decode_encode(p: PduView, rest: Seq<u8>)
    requires
        wf_pdu(p),
    ensures
        spec_decode(pdu_bytes(p) + rest) == SpecDecodeOutcome::Complete(
            p,
            pdu_bytes(p).len() as int,
        ),
        pdu_bytes(p).len() == 6 + pdu_body_bytes(p).len(),
{
    lemma_parse_body_roundtrip(p);
    let body = pdu_body_bytes(p);
    lemma_be32_roundtrip(body.len() as int);
    let s = pdu_bytes(p) + rest;
    assert(s[0] == pdu_type_code(p));
    assert(s.subrange(2, 6) =~= be32_bytes(body.len() as int));
    assert(s.len() == 6 + body.len() + rest.len());
    assert(s.subrange(6, 6 + body.len() as int) =~= body);
}

/// Any strict prefix of an encoded PDU decodes to `Incomplete`: never
/// `Malformed`, never a spurious completion.
pub proof fn lemma_decode_prefix_incomplete(p: PduView, n: int)
    requires
        wf_pdu(p),
        0 <= n < pdu_bytes(p).len(),
    ensures
        spec_decode(pdu_bytes(p).take(n)) == SpecDecodeOutcome::Incomplete,
{
    let s = pdu_bytes(p);
    let t = s.take(n);
    if n >= 6 {
        lemma_parse_body_roundtrip(p);
        let body = pdu_body_bytes(p);
        lemma_be32_roundtrip(body.len() as int);
        assert(t[0] == pdu_type_code(p));
        assert(t.subrange(2, 6) =~= s.subrange(2, 6));
        assert(s.subrange(2, 6) =~= be32_bytes(body.len() as int));
        assert(s.len() == 6 + body.len());
        assert(t.len() < 6 + body.len());
    }
}

// ---------------------------------------------------------------------------
// Take-snoc lemmas: extending an encoded prefix by one element
// ---------------------------------------------------------------------------

proof fn lemma_ts_items_bytes_snoc(l: Seq<Seq<u8>>, i: int)
    requires
        0 <= i < l.len(),
    ensures
        ts_items_bytes(l.take(i + 1)) == ts_items_bytes(l.take(i)) + item_bytes(0x40u8, l[i]),
    decreases i,
{
    if i == 0 {
        assert(l.take(0) =~= Seq::<Seq<u8>>::empty());
        assert(l.take(1) =~= seq![l[0]]);
        assert(seq![l[0]].drop_first() =~= Seq::<Seq<u8>>::empty());
        assert(ts_items_bytes(l.take(0)) + item_bytes(0x40u8, l[0]) =~= item_bytes(0x40u8, l[0])
            + Seq::<u8>::empty());
    } else {
        lemma_ts_items_bytes_snoc(l.drop_first(), i - 1);
        assert(l.take(i + 1).drop_first() =~= l.drop_first().take(i));
        assert(l.take(i).drop_first() =~= l.drop_first().take(i - 1));
        assert(l.take(i + 1)[0] == l[0] && l.take(i)[0] == l[0]);
        assert(l.drop_first()[i - 1] == l[i]);
        assert(item_bytes(0x40u8, l[0]) + (ts_items_bytes(l.drop_first().take(i - 1)) + item_bytes(
            0x40u8,
            l[i],
        )) =~= (item_bytes(0x40u8, l[0]) + ts_items_bytes(l.drop_first().take(i - 1))) + item_bytes(
            0x40u8,
            l[i],
        ));
    }
}

proof fn lemma_ext_items_bytes_snoc(l: Seq<RawUserItemView>, i: int)
    requires
        0 <= i < l.len(),
    ensures
        ext_items_bytes(l.take(i + 1)) == ext_items_bytes(l.take(i)) + item_bytes(
            l[i].code,
            l[i].data,
        ),
    decreases i,
{
    if i == 0 {
        assert(l.take(0) =~= Seq::<RawUserItemView>::empty());
        assert(l.take(1) =~= seq![l[0]]);
        assert(seq![l[0]].drop_first() =~= Seq::<RawUserItemView>::empty());
        assert(ext_items_bytes(l.take(0)) + item_bytes(l[0].code, l[0].data) =~= item_bytes(
            l[0].code,
            l[0].data,
        ) + Seq::<u8>::empty());
    } else {
        lemma_ext_items_bytes_snoc(l.drop_first(), i - 1);
        assert(l.take(i + 1).drop_first() =~= l.drop_first().take(i));
        assert(l.take(i).drop_first() =~= l.drop_first().take(i - 1));
        assert(l.take(i + 1)[0] == l[0] && l.take(i)[0] == l[0]);
        assert(l.drop_first()[i - 1] == l[i]);
        assert(item_bytes(l[0].code, l[0].data) + (ext_items_bytes(l.drop_first().take(i - 1))
            + item_bytes(l[i].code, l[i].data)) =~= (item_bytes(l[0].code, l[0].data)
            + ext_items_bytes(l.drop_first().take(i - 1))) + item_bytes(l[i].code, l[i].data));
    }
}

proof fn lemma_pcs_rq_bytes_snoc(l: Seq<PresentationContextProposedView>, i: int)
    requires
        0 <= i < l.len(),
    ensures
        pcs_rq_bytes(l.take(i + 1)) == pcs_rq_bytes(l.take(i)) + item_bytes(
            0x20u8,
            pc_rq_content(l[i]),
        ),
    decreases i,
{
    if i == 0 {
        assert(l.take(0) =~= Seq::<PresentationContextProposedView>::empty());
        assert(l.take(1) =~= seq![l[0]]);
        assert(seq![l[0]].drop_first() =~= Seq::<PresentationContextProposedView>::empty());
        assert(pcs_rq_bytes(l.take(0)) + item_bytes(0x20u8, pc_rq_content(l[0])) =~= item_bytes(
            0x20u8,
            pc_rq_content(l[0]),
        ) + Seq::<u8>::empty());
    } else {
        lemma_pcs_rq_bytes_snoc(l.drop_first(), i - 1);
        assert(l.take(i + 1).drop_first() =~= l.drop_first().take(i));
        assert(l.take(i).drop_first() =~= l.drop_first().take(i - 1));
        assert(l.take(i + 1)[0] == l[0] && l.take(i)[0] == l[0]);
        assert(l.drop_first()[i - 1] == l[i]);
        assert(item_bytes(0x20u8, pc_rq_content(l[0])) + (pcs_rq_bytes(
            l.drop_first().take(i - 1),
        ) + item_bytes(0x20u8, pc_rq_content(l[i]))) =~= (item_bytes(0x20u8, pc_rq_content(l[0]))
            + pcs_rq_bytes(l.drop_first().take(i - 1))) + item_bytes(0x20u8, pc_rq_content(l[i])));
    }
}

proof fn lemma_pcs_ac_bytes_snoc(l: Seq<PresentationContextResultView>, i: int)
    requires
        0 <= i < l.len(),
    ensures
        pcs_ac_bytes(l.take(i + 1)) == pcs_ac_bytes(l.take(i)) + item_bytes(
            0x21u8,
            pc_ac_content(l[i]),
        ),
    decreases i,
{
    if i == 0 {
        assert(l.take(0) =~= Seq::<PresentationContextResultView>::empty());
        assert(l.take(1) =~= seq![l[0]]);
        assert(seq![l[0]].drop_first() =~= Seq::<PresentationContextResultView>::empty());
        assert(pcs_ac_bytes(l.take(0)) + item_bytes(0x21u8, pc_ac_content(l[0])) =~= item_bytes(
            0x21u8,
            pc_ac_content(l[0]),
        ) + Seq::<u8>::empty());
    } else {
        lemma_pcs_ac_bytes_snoc(l.drop_first(), i - 1);
        assert(l.take(i + 1).drop_first() =~= l.drop_first().take(i));
        assert(l.take(i).drop_first() =~= l.drop_first().take(i - 1));
        assert(l.take(i + 1)[0] == l[0] && l.take(i)[0] == l[0]);
        assert(l.drop_first()[i - 1] == l[i]);
        assert(item_bytes(0x21u8, pc_ac_content(l[0])) + (pcs_ac_bytes(
            l.drop_first().take(i - 1),
        ) + item_bytes(0x21u8, pc_ac_content(l[i]))) =~= (item_bytes(0x21u8, pc_ac_content(l[0]))
            + pcs_ac_bytes(l.drop_first().take(i - 1))) + item_bytes(0x21u8, pc_ac_content(l[i])));
    }
}

proof fn lemma_pdvs_bytes_snoc(l: Seq<PresentationDataValueView>, i: int)
    requires
        0 <= i < l.len(),
    ensures
        pdvs_bytes(l.take(i + 1)) == pdvs_bytes(l.take(i)) + pdv_bytes(l[i]),
    decreases i,
{
    if i == 0 {
        assert(l.take(0) =~= Seq::<PresentationDataValueView>::empty());
        assert(l.take(1) =~= seq![l[0]]);
        assert(seq![l[0]].drop_first() =~= Seq::<PresentationDataValueView>::empty());
        assert(pdvs_bytes(l.take(0)) + pdv_bytes(l[0]) =~= pdv_bytes(l[0]) + Seq::<u8>::empty());
    } else {
        lemma_pdvs_bytes_snoc(l.drop_first(), i - 1);
        assert(l.take(i + 1).drop_first() =~= l.drop_first().take(i));
        assert(l.take(i).drop_first() =~= l.drop_first().take(i - 1));
        assert(l.take(i + 1)[0] == l[0] && l.take(i)[0] == l[0]);
        assert(l.drop_first()[i - 1] == l[i]);
        assert(pdv_bytes(l[0]) + (pdvs_bytes(l.drop_first().take(i - 1)) + pdv_bytes(l[i])) =~= (
        pdv_bytes(l[0]) + pdvs_bytes(l.drop_first().take(i - 1))) + pdv_bytes(l[i]));
    }
}

// ---------------------------------------------------------------------------
// The executable encoder
// ---------------------------------------------------------------------------

fn push_be16(out: &mut Vec<u8>, n: u16)
    ensures
        final(out)@ == old(out)@ + be16_bytes(n as int),
{
    proof {
        reveal(be16_bytes);
    }
    out.push((n / 256) as u8);
    out.push((n % 256) as u8);
    proof {
        assert(out@ =~= old(out)@ + be16_bytes(n as int));
    }
}

fn push_be32(out: &mut Vec<u8>, n: u32)
    ensures
        final(out)@ == old(out)@ + be32_bytes(n as int),
{
    proof {
        reveal(be32_bytes);
    }
    out.push((n / 0x1000000) as u8);
    out.push(((n / 0x10000) % 256) as u8);
    out.push(((n / 256) % 256) as u8);
    out.push((n % 256) as u8);
    proof {
        assert(n as int / 0x1000000 < 256);
        assert(out@ =~= old(out)@ + be32_bytes(n as int));
    }
}

fn push_bytes(out: &mut Vec<u8>, data: &[u8])
    ensures
        final(out)@ == old(out)@ + data@,
{
    let mut i: usize = 0;
    while i < data.len()
        invariant
            i <= data.len(),
            out@ == old(out)@ + data@.take(i as int),
        decreases data.len() - i,
    {
        out.push(*vstd::slice::slice_index_get(data, i));
        proof {
            assert(data@.take(i + 1) =~= data@.take(i as int) + seq![data@[i as int]]);
            assert(old(out)@ + data@.take(i + 1) =~= (old(out)@ + data@.take(i as int)) + seq![
                data@[i as int],
            ]);
        }
        i = i + 1;
    }
    proof {
        assert(data@.take(data@.len() as int) =~= data@);
    }
}

/// Appends a variable item: code, reserved, 16-bit length, content.
fn push_item(out: &mut Vec<u8>, code: u8, content: &[u8])
    requires
        content@.len() <= 0xFFFF,
    ensures
        final(out)@ == old(out)@ + item_bytes(code, content@),
{
    out.push(code);
    out.push(0u8);
    push_be16(out, content.len() as u16);
    push_bytes(out, content);
    proof {
        assert(out@ =~= old(out)@ + item_bytes(code, content@));
    }
}

/// Appends an AE title padded with spaces to 16 bytes.
fn push_ae_padded(out: &mut Vec<u8>, ae: &[u8])
    requires
        ae@.len() <= 16,
    ensures
        final(out)@ == old(out)@ + pad16(ae@),
{
    push_bytes(out, ae);
    let mut i: usize = ae.len();
    while i < 16
        invariant
            ae@.len() <= i <= 16,
            out@ == old(out)@ + ae@ + Seq::new((i - ae@.len()) as nat, |j: int| 0x20u8),
        decreases 16 - i,
    {
        out.push(0x20u8);
        proof {
            assert(old(out)@ + ae@ + Seq::new((i + 1 - ae@.len()) as nat, |j: int| 0x20u8) =~= (old(
                out,
            )@ + ae@ + Seq::new((i - ae@.len()) as nat, |j: int| 0x20u8)) + seq![0x20u8]);
        }
        i = i + 1;
    }
    proof {
        assert(out@ =~= old(out)@ + pad16(ae@));
    }
}

/// Encodes the user-information content: maximum-length and class-UID
/// sub-items, optional version name, extended sub-items.
fn user_info_content_bytes(u: &UserInformation) -> (r: Vec<u8>)
    requires
        wf_ui(u@),
    ensures
        r@ == ui_content(u@),
{
    let mut out: Vec<u8> = Vec::new();
    out.push(0x51u8);
    out.push(0u8);
    push_be16(&mut out, 4u16);
    push_be32(&mut out, u.max_pdu_length);
    proof {
        assert(out@ =~= item_bytes(0x51u8, be32_bytes(u.max_pdu_length as int)));
    }
    push_item(&mut out, 0x52u8, u.implementation_class_uid.as_slice());
    match &u.implementation_version_name {
        Some(vn) => {
            push_item(&mut out, 0x55u8, vn.as_slice());
        },
        None => {},
    }
    let ghost pre: Seq<u8> = out@;
    let ghost ext_views: Seq<RawUserItemView> = u@.extended;
    let mut i: usize = 0;
    while i < u.extended.len()
        invariant
            i <= u.extended.len(),
            ext_views == u@.extended,
            ext_views.len() == u.extended.len(),
            forall|j: int|
                0 <= j < u.extended.len() ==> (#[trigger] u.extended@[j])@ == ext_views[j],
            forall|j: int|
                0 <= j < ext_views.len() ==> (#[trigger] ext_views[j]).data.len() <= 0xFFFF,
            out@ == pre + ext_items_bytes(ext_views.take(i as int)),
        decreases u.extended.len() - i,
    {
        let it = &u.extended[i];
        push_item(&mut out, it.code, it.data.as_slice());
        proof {
            lemma_ext_items_bytes_snoc(ext_views, i as int);
            assert(pre + ext_items_bytes(ext_views.take(i + 1)) =~= (pre + ext_items_bytes(
                ext_views.take(i as int),
            )) + item_bytes(ext_views[i as int].code, ext_views[i as int].data));
        }
        i = i + 1;
    }
    proof {
        assert(ext_views.take(ext_views.len() as int) =~= ext_views);
        assert(out@ =~= ui_content(u@));
    }
    out
}

/// Encodes the content of one proposed presentation context.
fn pc_rq_content_bytes(pc: &PresentationContextProposed) -> (r: Vec<u8>)
    requires
        wf_pc_rq(pc@),
    ensures
        r@ == pc_rq_content(pc@),
{
    let mut out: Vec<u8> = Vec::new();
    out.push(pc.id);
    out.push(0u8);
    out.push(0u8);
    out.push(0u8);
    push_item(&mut out, 0x30u8, pc.abstract_syntax.as_slice());
    let ghost pre: Seq<u8> = out@;
    let ghost ts_views: Seq<Seq<u8>> = pc@.transfer_syntaxes;
    let mut i: usize = 0;
    while i < pc.transfer_syntaxes.len()
        invariant
            i <= pc.transfer_syntaxes.len(),
            ts_views == pc@.transfer_syntaxes,
            ts_views.len() == pc.transfer_syntaxes.len(),
            forall|j: int|
                0 <= j < pc.transfer_syntaxes.len() ==> (#[trigger] pc.transfer_syntaxes@[j])@
                    == ts_views[j],
            forall|j: int| 0 <= j < ts_views.len() ==> (#[trigger] ts_views[j]).len() <= 0xFFFF,
            out@ == pre + ts_items_bytes(ts_views.take(i as int)),
        decreases pc.transfer_syntaxes.len() - i,
    {
        push_item(&mut out, 0x40u8, pc.transfer_syntaxes[i].as_slice());
        proof {
            lemma_ts_items_bytes_snoc(ts_views, i as int);
            assert(pre + ts_items_bytes(ts_views.take(i + 1)) =~= (pre + ts_items_bytes(
                ts_views.take(i as int),
            )) + item_bytes(0x40u8, ts_views[i as int]));
        }
        i = i + 1;
    }
    proof {
        assert(ts_views.take(ts_views.len() as int) =~= ts_views);
        assert(out@ =~= pc_rq_content(pc@));
    }
    out
}

/// Encodes the content of one presentation-context result.
fn pc_ac_content_bytes(pc: &PresentationContextResult) -> (r: Vec<u8>)
    requires
        wf_pc_ac(pc@),
    ensures
        r@ == pc_ac_content(pc@),
{
    let mut out: Vec<u8> = Vec::new();
    out.push(pc.id);
    out.push(0u8);
    out.push(
        match pc.reason {
            PresResultReason::Acceptance => 0u8,
            PresResultReason::UserRejection => 1u8,
            PresResultReason::NoReason => 2u8,
            PresResultReason::AbstractSyntaxNotSupported => 3u8,
            PresResultReason::TransferSyntaxesNotSupported => 4u8,
        },
    );
    out.push(0u8);
    match &pc.transfer_syntax {
        Some(ts) => {
            push_item(&mut out, 0x40u8, ts.as_slice());
        },
        None => {},
    }
    proof {
        assert(out@ =~= pc_ac_content(pc@));
    }
    out
}

/// Appends the fixed 68-byte prefix of an association body.
fn push_assoc_fixed(out: &mut Vec<u8>, version: u16, called: &[u8], calling: &[u8])
    requires
        called@.len() <= 16,
        calling@.len() <= 16,
    ensures
        final(out)@ == old(out)@ + assoc_fixed_bytes(version, called@, calling@),
{
    push_be16(out, version);
    out.push(0u8);
    out.push(0u8);
    push_ae_padded(out, called);
    push_ae_padded(out, calling);
    let mut i: usize = 0;
    let ghost pre: Seq<u8> = out@;
    while i < 32
        invariant
            i <= 32,
            out@ == pre + Seq::new(i as nat, |j: int| 0u8),
        decreases 32 - i,
    {
        out.push(0u8);
        proof {
            assert(pre + Seq::new((i + 1) as nat, |j: int| 0u8) =~= (pre + Seq::new(
                i as nat,
                |j: int| 0u8,
            )) + seq![0u8]);
        }
        i = i + 1;
    }
    proof {
        assert(out@ =~= old(out)@ + assoc_fixed_bytes(version, called@, calling@));
    }
}

/// Encodes the body of an A-ASSOCIATE-RQ.
fn rq_body_vec(rq: &AssociateRq) -> (r: Vec<u8>)
    requires
        wf_rq(rq@),
    ensures
        r@ == rq_body_bytes(rq@),
{
    let mut out: Vec<u8> = Vec::new();
    push_assoc_fixed(
        &mut out,
        rq.protocol_version,
        rq.called_ae_title.as_slice(),
        rq.calling_ae_title.as_slice(),
    );
    push_item(&mut out, 0x10u8, rq.application_context.as_slice());
    let ghost pre: Seq<u8> = out@;
    let ghost pc_views: Seq<PresentationContextProposedView> = rq@.presentation_contexts;
    let mut i: usize = 0;
    while i < rq.presentation_contexts.len()
        invariant
            i <= rq.presentation_contexts.len(),
            pc_views == rq@.presentation_contexts,
            pc_views.len() == rq.presentation_contexts.len(),
            forall|j: int|
                0 <= j < rq.presentation_contexts.len() ==> (
                #[trigger] rq.presentation_contexts@[j])@ == pc_views[j],
            forall|j: int| 0 <= j < pc_views.len() ==> wf_pc_rq(#[trigger] pc_views[j]),
            out@ == pre + pcs_rq_bytes(pc_views.take(i as int)),
        decreases rq.presentation_contexts.len() - i,
    {
        let content = pc_rq_content_bytes(&rq.presentation_contexts[i]);
        push_item(&mut out, 0x20u8, content.as_slice());
        proof {
            lemma_pcs_rq_bytes_snoc(pc_views, i as int);
            assert(pre + pcs_rq_bytes(pc_views.take(i + 1)) =~= (pre + pcs_rq_bytes(
                pc_views.take(i as int),
            )) + item_bytes(0x20u8, pc_rq_content(pc_views[i as int])));
        }
        i = i + 1;
    }
    proof {
        assert(pc_views.take(pc_views.len() as int) =~= pc_views);
    }
    let ui = user_info_content_bytes(&rq.user_info);
    push_item(&mut out, 0x50u8, ui.as_slice());
    proof {
        assert(out@ =~= rq_body_bytes(rq@));
    }
    out
}

/// Encodes the body of an A-ASSOCIATE-AC.
fn ac_body_vec(ac: &AssociateAc) -> (r: Vec<u8>)
    requires
        wf_ac(ac@),
    ensures
        r@ == ac_body_bytes(ac@),
{
    let mut out: Vec<u8> = Vec::new();
    push_assoc_fixed(
        &mut out,
        ac.protocol_version,
        ac.called_ae_title.as_slice(),
        ac.calling_ae_title.as_slice(),
    );
    push_item(&mut out, 0x10u8, ac.application_context.as_slice());
    let ghost pre: Seq<u8> = out@;
    let ghost pc_views: Seq<PresentationContextResultView> = ac@.presentation_contexts;
    let mut i: usize = 0;
    while i < ac.presentation_contexts.len()
        invariant
            i <= ac.presentation_contexts.len(),
            pc_views == ac@.presentation_contexts,
            pc_views.len() == ac.presentation_contexts.len(),
            forall|j: int|
                0 <= j < ac.presentation_contexts.len() ==> (
                #[trigger] ac.presentation_contexts@[j])@ == pc_views[j],
            forall|j: int| 0 <= j < pc_views.len() ==> wf_pc_ac(#[trigger] pc_views[j]),
            out@ == pre + pcs_ac_bytes(pc_views.take(i as int)),
        decreases ac.presentation_contexts.len() - i,
    {
        let content = pc_ac_content_bytes(&ac.presentation_contexts[i]);
        push_item(&mut out, 0x21u8, content.as_slice());
        proof {
            lemma_pcs_ac_bytes_snoc(pc_views, i as int);
            assert(pre + pcs_ac_bytes(pc_views.take(i + 1)) =~= (pre + pcs_ac_bytes(
                pc_views.take(i as int),
            )) + item_bytes(0x21u8, pc_ac_content(pc_views[i as int])));
        }
        i = i + 1;
    }
    proof {
        assert(pc_views.take(pc_views.len() as int) =~= pc_views);
    }
    let ui = user_info_content_bytes(&ac.user_info);
    push_item(&mut out, 0x50u8, ui.as_slice());
    proof {
        assert(out@ =~= ac_body_bytes(ac@));
    }
    out
}

/// Encodes the body of a P-DATA-TF.
fn pdata_body_vec(pdvs: &Vec<PresentationDataValue>) -> (r: Vec<u8>)
    requires
        wf_pdata(Seq::new(pdvs@.len(), |i: int| pdvs@[i]@)),
    ensures
        r@ == pdvs_bytes(Seq::new(pdvs@.len(), |i: int| pdvs@[i]@)),
{
    let mut out: Vec<u8> = Vec::new();
    let ghost views: Seq<PresentationDataValueView> = Seq::new(pdvs@.len(), |i: int| pdvs@[i]@);
    let mut i: usize = 0;
    while i < pdvs.len()
        invariant
            i <= pdvs.len(),
            views == Seq::new(pdvs@.len(), |k: int| pdvs@[k]@),
            views.len() == pdvs.len(),
            forall|j: int| 0 <= j < views.len() ==> wf_pdv(#[trigger] views[j]),
            out@ == pdvs_bytes(views.take(i as int)),
        decreases pdvs.len() - i,
    {
        let v = &pdvs[i];
        proof {
            assert(views[i as int] == v@);
        }
        push_be32(&mut out, (v.data.len() + 2) as u32);
        out.push(v.context_id);
        let mch: u8 = (if v.is_command {
            2u8
        } else {
            0u8
        }) + (if v.is_last {
            1u8
        } else {
            0u8
        });
        out.push(mch);
        push_bytes(&mut out, v.data.as_slice());
        proof {
            assert(mch == mch_byte(v@.is_last, v@.is_command));
            lemma_pdvs_bytes_snoc(views, i as int);
            assert(out@ =~= pdvs_bytes(views.take(i as int)) + pdv_bytes(views[i as int]));
        }
        i = i + 1;
    }
    proof {
        assert(views.take(views.len() as int) =~= views);
    }
    out
}

/// Encodes one PDU: the 6-byte header followed by the body. Total on every
/// well-formed PDU value.
pub fn encode_pdu(p: &Pdu) -> (r: Vec<u8>)
    requires
        wf_pdu(p@),
    ensures
        r@ == pdu_bytes(p@),
{
    let (code, body): (u8, Vec<u8>) = match p {
        Pdu::AssociateRq(rq) => (1u8, rq_body_vec(rq)),
        Pdu::AssociateAc(ac) => (2u8, ac_body_vec(ac)),
        Pdu::AssociateRj(rj) => {
            let mut b: Vec<u8> = Vec::new();
            b.push(0u8);
            b.push(rj.result);
            b.push(rj.source);
            b.push(rj.reason);
            proof {
                assert(b@ =~= pdu_body_bytes(p@));
            }
            (3u8, b)
        },
        Pdu::PDataTf(pdvs) => (4u8, pdata_body_vec(pdvs)),
        Pdu::ReleaseRq => {
            let mut b: Vec<u8> = Vec::new();
            b.push(0u8);
            b.push(0u8);
            b.push(0u8);
            b.push(0u8);
            proof {
                assert(b@ =~= pdu_body_bytes(p@));
            }
            (5u8, b)
        },
        Pdu::ReleaseRp => {
            let mut b: Vec<u8> = Vec::new();
            b.push(0u8);
            b.push(0u8);
            b.push(0u8);
            b.push(0u8);
            proof {
                assert(b@ =~= pdu_body_bytes(p@));
            }
            (6u8, b)
        },
        Pdu::Abort(ab) => {
            let mut b: Vec<u8> = Vec::new();
            b.push(0u8);
            b.push(0u8);
            b.push(ab.source);
            b.push(ab.reason);
            proof {
                assert(b@ =~= pdu_body_bytes(p@));
            }
            (7u8, b)
        },
    };
    proof {
        assert(body@ == pdu_body_bytes(p@));
        assert(code == pdu_type_code(p@));
        assert(pdu_body_bytes(p@).len() <= 0xFFFFFFFF) by {
            lemma_parse_body_roundtrip(p@);
        };
    }
    let mut out: Vec<u8> = Vec::new();
    out.push(code);
    out.push(0u8);
    push_be32(&mut out, body.len() as u32);
    push_bytes(&mut out, body.as_slice());
    proof {
        assert(out@ =~= pdu_bytes(p@));
    }
    out
}

// ---------------------------------------------------------------------------
// Runtime well-formedness checks: `wf_pdu`, computed
// ---------------------------------------------------------------------------

proof fn lemma_ts_items_bytes_take_le(l: Seq<Seq<u8>>, i: int)
    requires
        0 <= i <= l.len(),
    ensures
        ts_items_bytes(l.take(i)).len() <= ts_items_bytes(l).len(),
    decreases l.len() - i,
{
    if i == l.len() {
        assert(l.take(i) =~= l);
    } else {
        lemma_ts_items_bytes_snoc(l, i);
        lemma_ts_items_bytes_take_le(l, i + 1);
    }
}

proof fn lemma_ext_items_bytes_take_le(l: Seq<RawUserItemView>, i: int)
    requires
        0 <= i <= l.len(),
    ensures
        ext_items_bytes(l.take(i)).len() <= ext_items_bytes(l).len(),
    decreases l.len() - i,
{
    if i == l.len() {
        assert(l.take(i) =~= l);
    } else {
        lemma_ext_items_bytes_snoc(l, i);
        lemma_ext_items_bytes_take_le(l, i + 1);
    }
}

proof fn lemma_pcs_rq_bytes_take_le(l: Seq<PresentationContextProposedView>, i: int)
    requires
        0 <= i <= l.len(),
    ensures
        pcs_rq_bytes(l.take(i)).len() <= pcs_rq_bytes(l).len(),
    decreases l.len() - i,
{
    if i == l.len() {
        assert(l.take(i) =~= l);
    } else {
        lemma_pcs_rq_bytes_snoc(l, i);
        lemma_pcs_rq_bytes_take_le(l, i + 1);
    }
}

proof fn lemma_pcs_ac_bytes_take_le(l: Seq<PresentationContextResultView>, i: int)
    requires
        0 <= i <= l.len(),
    ensures
        pcs_ac_bytes(l.take(i)).len() <= pcs_ac_bytes(l).len(),
    decreases l.len() - i,
{
    if i == l.len() {
        assert(l.take(i) =~= l);
    } else {
        lemma_pcs_ac_bytes_snoc(l, i);
        lemma_pcs_ac_bytes_take_le(l, i + 1);
    }
}

proof fn lemma_pdvs_bytes_take_le(l: Seq<PresentationDataValueView>, i: int)
    requires
        0 <= i <= l.len(),
    ensures
        pdvs_bytes(l.take(i)).len() <= pdvs_bytes(l).len(),
    decreases l.len() - i,
{
    if i == l.len() {
        assert(l.take(i) =~= l);
    } else {
        lemma_pdvs_bytes_snoc(l, i);
        lemma_pdvs_bytes_take_le(l, i + 1);
    }
}

/// The encoded length of a run of transfer-syntax sub-items, or `None` when
/// it overruns a 16-bit item length.
fn ts_items_len_checked(l: &Vec<Vec<u8>>) -> (r: Option<u64>)
    ensures
        match r {
            Some(n) => {
                &&& n as int == ts_items_bytes(ts_deep(l@)).len()
                &&& n <= 0xFFFF
                &&& forall|i: int|
                    0 <= i < l@.len() ==> (#[trigger] ts_deep(l@)[i]).len() <= 0xFFFF
            },
            None => ts_items_bytes(ts_deep(l@)).len() > 0xFFFF || exists|i: int|
                0 <= i < l@.len() && (#[trigger] ts_deep(l@)[i]).len() > 0xFFFF,
        },
{
    let ghost views: Seq<Seq<u8>> = ts_deep(l@);
    let mut acc: u64 = 0;
    let mut i: usize = 0;
    while i < l.len()
        invariant
            i <= l@.len(),
            views == ts_deep(l@),
            acc as int == ts_items_bytes(views.take(i as int)).len(),
            acc <= 0xFFFF,
            forall|j: int| 0 <= j < i ==> (#[trigger] views[j]).len() <= 0xFFFF,
        decreases l@.len() - i,
    {
        if l[i].len() > 0xFFFF {
            proof {
                assert(views[i as int].len() > 0xFFFF);
            }
            return None;
        }
        proof {
            lemma_ts_items_bytes_snoc(views, i as int);
        }
        let step: u64 = 4 + l[i].len() as u64;
        acc = acc + step;
        i = i + 1;
        if acc > 0xFFFF {
            proof {
                lemma_ts_items_bytes_take_le(views, i as int);
            }
            return None;
        }
    }
    proof {
        assert(views.take(views.len() as int) =~= views);
    }
    Some(acc)
}

/// Whether one proposed presentation context can be framed.
fn pc_rq_is_wf(pc: &PresentationContextProposed) -> (r: bool)
    ensures
        r == wf_pc_rq(pc@),
{
    if pc.transfer_syntaxes.len() == 0 {
        return false;
    }
    if pc.abstract_syntax.len() > 0xFFFF {
        return false;
    }
    match ts_items_len_checked(&pc.transfer_syntaxes) {
        None => {
            proof {
                assert(pc@.transfer_syntaxes == ts_deep(pc.transfer_syntaxes@));
                assert(!wf_pc_rq(pc@)) by {
                    let tss = ts_deep(pc.transfer_syntaxes@);
                    if ts_items_bytes(tss).len() > 0xFFFF {
                        assert(pc_rq_content(pc@).len() > 0xFFFF);
                    } else {
                        let i = choose|i: int| 0 <= i < tss.len() && (#[trigger] tss[i]).len()
                            > 0xFFFF;
                        assert(pc@.transfer_syntaxes[i].len() > 0xFFFF);
                    }
                };
            }
            false
        },
        Some(n) => {
            let content_len: u64 = 4 + 4 + pc.abstract_syntax.len() as u64 + n;
            proof {
                assert(pc@.transfer_syntaxes == ts_deep(pc.transfer_syntaxes@));
                assert(pc_rq_content(pc@).len() == content_len as int);
            }
            content_len <= 0xFFFF
        },
    }
}

/// Whether one presentation-context result can be framed.
fn pc_ac_is_wf(pc: &PresentationContextResult) -> (r: bool)
    ensures
        r == wf_pc_ac(pc@),
{
    match &pc.transfer_syntax {
        Some(ts) => {
            if !matches!(pc.reason, PresResultReason::Acceptance) {
                return false;
            }
            if ts.len() > 0xFFFF {
                return false;
            }
            proof {
                assert(pc_ac_content(pc@).len() == 8 + ts@.len());
            }
            ts.len() <= 0xFFF7
        },
        None => !matches!(pc.reason, PresResultReason::Acceptance),
    }
}

/// The encoded length of the user-information content, or `None` when it
/// cannot be framed.
fn ui_len_checked(u: &UserInformation) -> (r: Option<u64>)
    ensures
        match r {
            Some(n) => n as int == ui_content(u@).len() && n <= 0xFFFF && wf_ui(u@),
            None => !wf_ui(u@),
        },
{
    if u.implementation_class_uid.len() > 0xFFFF {
        return None;
    }
    let mut acc: u64 = 8 + 4 + u.implementation_class_uid.len() as u64;
    match &u.implementation_version_name {
        Some(vn) => {
            if vn.len() > 0xFFFF {
                return None;
            }
            acc = acc + 4 + vn.len() as u64;
        },
        None => {},
    }
    let ghost views: Seq<RawUserItemView> = ext_deep(u.extended@);
    let ghost base: int = acc as int;
    proof {
        assert(u@.extended =~= views);
        assert(ui_content(u@).len() == base + ext_items_bytes(views).len());
    }
    let mut i: usize = 0;
    while i < u.extended.len()
        invariant
            i <= u.extended@.len(),
            views == ext_deep(u.extended@),
            u@.extended == views,
            ui_content(u@).len() == base + ext_items_bytes(views).len(),
            base + ext_items_bytes(views.take(i as int)).len() == acc as int,
            acc <= 0x30000,
            base <= 0x30000,
            acc as int <= base + ext_items_bytes(views).len(),
            forall|j: int|
                0 <= j < i ==> {
                    &&& (#[trigger] views[j]).data.len() <= 0xFFFF
                    &&& views[j].code != 0x51u8
                    &&& views[j].code != 0x52u8
                    &&& views[j].code != 0x55u8
                },
        decreases u.extended@.len() - i,
    {
        let it = &u.extended[i];
        if it.data.len() > 0xFFFF || it.code == 0x51u8 || it.code == 0x52u8 || it.code == 0x55u8 {
            proof {
                assert(u@.extended[i as int] == it@);
            }
            return None;
        }
        if acc > 0xFFFF {
            proof {
                lemma_ext_items_bytes_take_le(views, i as int);
            }
            return None;
        }
        proof {
            lemma_ext_items_bytes_snoc(views, i as int);
            lemma_ext_items_bytes_take_le(views, i + 1);
        }
        acc = acc + 4 + it.data.len() as u64;
        i = i + 1;
    }
    proof {
        assert(views.take(views.len() as int) =~= views);
    }
    if acc <= 0xFFFF {
        Some(acc)
    } else {
        None
    }
}

/// Whether an A-ASSOCIATE-RQ value can be framed.
fn rq_is_wf(rq: &AssociateRq) -> (r: bool)
    ensures
        r == wf_rq(rq@),
{
    if rq.called_ae_title.len() > 16 || rq.calling_ae_title.len() > 16 {
        return false;
    }
    if rq.called_ae_title.len() > 0 && rq.called_ae_title[rq.called_ae_title.len() - 1] == 0x20u8 {
        return false;
    }
    if rq.calling_ae_title.len() > 0 && rq.calling_ae_title[rq.calling_ae_title.len() - 1]
        == 0x20u8 {
        return false;
    }
    if rq.application_context.len() > 0xFFFF {
        return false;
    }
    if rq.presentation_contexts.len() == 0 {
        return false;
    }
    let ghost views: Seq<PresentationContextProposedView> = rq@.presentation_contexts;
    let mut acc: u64 = 0;
    let mut i: usize = 0;
    while i < rq.presentation_contexts.len()
        invariant
            i <= rq.presentation_contexts@.len(),
            views == rq@.presentation_contexts,
            views.len() == rq.presentation_contexts@.len(),
            forall|j: int|
                0 <= j < rq.presentation_contexts@.len() ==> (
                #[trigger] rq.presentation_contexts@[j])@ == views[j],
            acc as int == pcs_rq_bytes(views.take(i as int)).len(),
            acc <= 0xFFFFFFFF,
            forall|j: int| 0 <= j < i ==> wf_pc_rq(#[trigger] views[j]),
        decreases rq.presentation_contexts@.len() - i,
    {
        if !pc_rq_is_wf(&rq.presentation_contexts[i]) {
            return false;
        }
        proof {
            lemma_pcs_rq_bytes_snoc(views, i as int);
        }
        acc = acc + 4 + {
            let c = pc_rq_content_bytes(&rq.presentation_contexts[i]);
            c.len() as u64
        };
        i = i + 1;
        if acc > 0xFFFFFFFF {
            proof {
                lemma_pcs_rq_bytes_take_le(views, i as int);
            }
            return false;
        }
    }
    proof {
        assert(views.take(views.len() as int) =~= views);
    }
    match ui_len_checked(&rq.user_info) {
        None => false,
        Some(ui_len) => {
            let total: u64 = 68 + 4 + rq.application_context.len() as u64 + acc + 4 + ui_len;
            proof {
                assert(rq_body_bytes(rq@).len() == total as int);
            }
            total <= 0xFFFFFFFF
        },
    }
}

/// Whether an A-ASSOCIATE-AC value can be framed.
fn ac_is_wf(ac: &AssociateAc) -> (r: bool)
    ensures
        r == wf_ac(ac@),
{
    if ac.called_ae_title.len() > 16 || ac.calling_ae_title.len() > 16 {
        return false;
    }
    if ac.called_ae_title.len() > 0 && ac.called_ae_title[ac.called_ae_title.len() - 1] == 0x20u8 {
        return false;
    }
    if ac.calling_ae_title.len() > 0 && ac.calling_ae_title[ac.calling_ae_title.len() - 1]
        == 0x20u8 {
        return false;
    }
    if ac.application_context.len() > 0xFFFF {
        return false;
    }
    if ac.presentation_contexts.len() == 0 {
        return false;
    }
    let ghost views: Seq<PresentationContextResultView> = ac@.presentation_contexts;
    let mut acc: u64 = 0;
    let mut i: usize = 0;
    while i < ac.presentation_contexts.len()
        invariant
            i <= ac.presentation_contexts@.len(),
            views == ac@.presentation_contexts,
            views.len() == ac.presentation_contexts@.len(),
            forall|j: int|
                0 <= j < ac.presentation_contexts@.len() ==> (
                #[trigger] ac.presentation_contexts@[j])@ == views[j],
            acc as int == pcs_ac_bytes(views.take(i as int)).len(),
            acc <= 0xFFFFFFFF,
            forall|j: int| 0 <= j < i ==> wf_pc_ac(#[trigger] views[j]),
        decreases ac.presentation_contexts@.len() - i,
    {
        if !pc_ac_is_wf(&ac.presentation_contexts[i]) {
            return false;
        }
        proof {
            lemma_pcs_ac_bytes_snoc(views, i as int);
        }
        acc = acc + 4 + {
            let c = pc_ac_content_bytes(&ac.presentation_contexts[i]);
            c.len() as u64
        };
        i = i + 1;
        if acc > 0xFFFFFFFF {
            proof {
                lemma_pcs_ac_bytes_take_le(views, i as int);
            }
            return false;
        }
    }
    proof {
        assert(views.take(views.len() as int) =~= views);
    }
    match ui_len_checked(&ac.user_info) {
        None => false,
        Some(ui_len) => {
            let total: u64 = 68 + 4 + ac.application_context.len() as u64 + acc + 4 + ui_len;
            proof {
                assert(ac_body_bytes(ac@).len() == total as int);
            }
            total <= 0xFFFFFFFF
        },
    }
}

/// The encoded body length of a P-DATA-TF, or `None` when it cannot be
/// framed.
pub fn pdata_body_len_checked(pdvs: &Vec<PresentationDataValue>) -> (r: Option<u64>)
    ensures
        match r {
            Some(n) => wf_pdata(pdvs_deep(pdvs@)) && n as int == pdvs_bytes(
                pdvs_deep(pdvs@),
            ).len(),
            None => !wf_pdata(pdvs_deep(pdvs@)),
        },
{
    if pdvs.len() == 0 {
        return None;
    }
    let ghost views: Seq<PresentationDataValueView> = pdvs_deep(pdvs@);
    let mut acc: u64 = 0;
    let mut i: usize = 0;
    while i < pdvs.len()
        invariant
            i <= pdvs@.len(),
            views == pdvs_deep(pdvs@),
            acc as int == pdvs_bytes(views.take(i as int)).len(),
            acc <= 0xFFFFFFFF,
            forall|j: int| 0 <= j < i ==> wf_pdv(#[trigger] views[j]),
        decreases pdvs@.len() - i,
    {
        if pdvs[i].data.len() as u64 > 0xFFFFFFFF - 2 {
            proof {
                assert(!wf_pdv(views[i as int]));
            }
            return None;
        }
        proof {
            lemma_pdvs_bytes_snoc(views, i as int);
        }
        acc = acc + 6 + pdvs[i].data.len() as u64;
        i = i + 1;
        if acc > 0xFFFFFFFF {
            proof {
                lemma_pdvs_bytes_take_le(views, i as int);
            }
            return None;
        }
    }
    proof {
        assert(views.take(views.len() as int) =~= views);
    }
    Some(acc)
}

/// Whether a P-DATA-TF body can be framed.
fn pdata_is_wf(pdvs: &Vec<PresentationDataValue>) -> (r: bool)
    ensures
        r == wf_pdata(pdvs_deep(pdvs@)),
{
    pdata_body_len_checked(pdvs).is_some()
}

/// Whether a PDU value can be framed: the executable form of `wf_pdu`,
/// for callers that must test `encode_pdu`'s precondition at run time.
pub fn pdu_is_wf(p: &Pdu) -> (r: bool)
    ensures
        r == wf_pdu(p@),
{
    match p {
        Pdu::AssociateRq(rq) => rq_is_wf(rq),
        Pdu::AssociateAc(ac) => ac_is_wf(ac),
        Pdu::AssociateRj(_) => true,
        Pdu::PDataTf(pdvs) => {
            let r = pdata_is_wf(pdvs);
            proof {
                assert(pdvs_deep(pdvs@) =~= p@->PDataTf_0);
            }
            r
        },
        Pdu::ReleaseRq => true,
        Pdu::ReleaseRp => true,
        Pdu::Abort(_) => true,
    }
}

// ---------------------------------------------------------------------------
// The executable decoder
// ---------------------------------------------------------------------------

/// What `decode_pdu` found wrong with a buffer that can never become a
/// valid PDU however many bytes follow.
#[derive(Debug, Clone, Copy, PartialEq, Eq, Structural)]
pub enum MalformedReason {
    UnknownPduType,
    TruncatedItem,
    UnexpectedItem,
    ZeroTransferSyntaxes,
    UnknownResultCode,
    MissingMandatorySubItem,
    LengthMismatch,
    NoPresentationContexts,
    NoDataValues,
}

/// Outcome of decoding a buffer: the first PDU and the bytes it spans, a
/// request for more bytes, or a malformation that more bytes cannot cure.
#[derive(Debug, Clone, PartialEq, Eq)]
pub enum DecodeResult {
    Complete(Pdu, usize),
    Incomplete,
    Malformed(MalformedReason),
}

/// The deep view of a list of byte strings.
pub open spec fn ts_deep(l: Seq<Vec<u8>>) -> Seq<Seq<u8>> {
    Seq::new(l.len(), |i: int| l[i]@)
}

/// The deep view of a list of raw user sub-items.
pub open spec fn ext_deep(l: Seq<RawUserItem>) -> Seq<RawUserItemView> {
    Seq::new(l.len(), |i: int| l[i]@)
}

/// The deep view of a list of proposed presentation contexts.
pub open spec fn pcs_rq_deep(l: Seq<PresentationContextProposed>) -> Seq<
    PresentationContextProposedView,
> {
    Seq::new(l.len(), |i: int| l[i]@)
}

/// The deep view of a list of presentation-context results.
pub open spec fn pcs_ac_deep(l: Seq<PresentationContextResult>) -> Seq<
    PresentationContextResultView,
> {
    Seq::new(l.len(), |i: int| l[i]@)
}

/// The deep view of a list of presentation-data values.
pub open spec fn pdvs_deep(l: Seq<PresentationDataValue>) -> Seq<PresentationDataValueView> {
    Seq::new(l.len(), |i: int| l[i]@)
}

spec fn opt_prepend_ts(a: Seq<Seq<u8>>, o: Option<Seq<Seq<u8>>>) -> Option<Seq<Seq<u8>>> {
    match o {
        Some(t) => Some(a + t),
        None => None,
    }
}

spec fn opt_prepend_ext(a: Seq<RawUserItemView>, o: Option<Seq<RawUserItemView>>) -> Option<
    Seq<RawUserItemView>,
> {
    match o {
        Some(t) => Some(a + t),
        None => None,
    }
}

spec fn opt_prepend_pdv(
    a: Seq<PresentationDataValueView>,
    o: Option<Seq<PresentationDataValueView>>,
) -> Option<Seq<PresentationDataValueView>> {
    match o {
        Some(t) => Some(a + t),
        None => None,
    }
}

spec fn opt_prepend_pc_rq(
    a: Seq<PresentationContextProposedView>,
    used: int,
    o: Option<(Seq<PresentationContextProposedView>, int)>,
) -> Option<(Seq<PresentationContextProposedView>, int)> {
    match o {
        Some(t) => Some((a + t.0, used + t.1)),
        None => None,
    }
}

spec fn opt_prepend_pc_ac(
    a: Seq<PresentationContextResultView>,
    used: int,
    o: Option<(Seq<PresentationContextResultView>, int)>,
) -> Option<(Seq<PresentationContextResultView>, int)> {
    match o {
        Some(t) => Some((a + t.0, used + t.1)),
        None => None,
    }
}

/// Takes one variable item off the front of a region.
fn parse_item(s: &[u8]) -> (r: Option<(u8, &[u8], usize)>)
    ensures
        match r {
            Some(t) => {
                &&& spec_parse_item(s@) == Some((t.0, t.1@, t.2 as int))
                &&& 4 <= t.2 <= s@.len()
            },
            None => spec_parse_item(s@) is None,
        },
{
    if s.len() < 4 {
        None
    } else {
        let hi = *vstd::slice::slice_index_get(s, 2);
        let lo = *vstd::slice::slice_index_get(s, 3);
        let ln: usize = (hi as usize) * 256 + (lo as usize);
        proof {
            assert(s@.subrange(2, 4) =~= seq![s@[2], s@[3]]);
            assert(be16_val(s@.subrange(2, 4)) == ln as int);
        }
        if s.len() - 4 < ln {
            None
        } else {
            let content = vstd::slice::slice_subrange(s, 4, 4 + ln);
            Some((*vstd::slice::slice_index_get(s, 0), content, 4 + ln))
        }
    }
}

/// The outcome a result byte stands for, if any.
fn reason_from_code(c: u8) -> (r: Option<PresResultReason>)
    ensures
        r == reason_of_code(c),
{
    if c == 0 {
        Some(PresResultReason::Acceptance)
    } else if c == 1 {
        Some(PresResultReason::UserRejection)
    } else if c == 2 {
        Some(PresResultReason::NoReason)
    } else if c == 3 {
        Some(PresResultReason::AbstractSyntaxNotSupported)
    } else if c == 4 {
        Some(PresResultReason::TransferSyntaxesNotSupported)
    } else {
        None
    }
}

/// Copies a field with its trailing ASCII spaces removed.
fn trim_trailing(s: &[u8]) -> (r: Vec<u8>)
    ensures
        r@ == trim_trailing_spaces(s@),
{
    let mut end: usize = s.len();
    proof {
        assert(s@.take(end as int) =~= s@);
    }
    while end > 0 && *vstd::slice::slice_index_get(s, end - 1) == 0x20u8
        invariant
            end <= s@.len(),
            trim_trailing_spaces(s@) == trim_trailing_spaces(s@.take(end as int)),
        decreases end,
    {
        proof {
            assert(s@.take(end as int).drop_last() =~= s@.take(end - 1));
        }
        end = end - 1;
    }
    let out = vstd::slice::slice_to_vec(vstd::slice::slice_subrange(s, 0, end));
    proof {
        assert(s@.subrange(0, end as int) == s@.take(end as int));
    }
    out
}

/// The transfer-syntax sub-items filling a region exactly.
fn parse_ts_list(s: &[u8]) -> (r: Option<Vec<Vec<u8>>>)
    ensures
        match r {
            Some(l) => spec_parse_ts_list(s@) == Some(ts_deep(l@)),
            None => spec_parse_ts_list(s@) is None,
        },
{
    let mut rem: &[u8] = s;
    let mut acc: Vec<Vec<u8>> = Vec::new();
    proof {
        assert(ts_deep(acc@) =~= Seq::<Seq<u8>>::empty());
    }
    while rem.len() > 0
        invariant
            spec_parse_ts_list(s@) == opt_prepend_ts(ts_deep(acc@), spec_parse_ts_list(rem@)),
        decreases rem@.len(),
    {
        match parse_item(rem) {
            None => {
                return None;
            },
            Some((code, content, n)) => {
                if code != 0x40u8 {
                    return None;
                }
                let ghost prev: Seq<Seq<u8>> = ts_deep(acc@);
                let ghost old_rem: Seq<u8> = rem@;
                acc.push(vstd::slice::slice_to_vec(content));
                rem = vstd::slice::slice_subrange(rem, n, rem.len());
                proof {
                    assert(rem@ == old_rem.skip(n as int));
                    assert(ts_deep(acc@) =~= prev + seq![content@]);
                    assert(spec_parse_ts_list(old_rem) == opt_prepend_ts(
                        seq![content@],
                        spec_parse_ts_list(rem@),
                    ));
                    match spec_parse_ts_list(rem@) {
                        Some(t) => {
                            assert(prev + (seq![content@] + t) =~= (prev + seq![content@]) + t);
                        },
                        None => {},
                    }
                }
            },
        }
    }
    proof {
        assert(rem@ =~= Seq::<u8>::empty());
        assert(spec_parse_ts_list(rem@) == Some(Seq::<Seq<u8>>::empty()));
        assert(ts_deep(acc@) + Seq::<Seq<u8>>::empty() =~= ts_deep(acc@));
    }
    Some(acc)
}

/// The extended-negotiation sub-items filling a region exactly.
fn parse_ext_list(s: &[u8]) -> (r: Option<Vec<RawUserItem>>)
    ensures
        match r {
            Some(l) => spec_parse_ext_list(s@) == Some(ext_deep(l@)),
            None => spec_parse_ext_list(s@) is None,
        },
{
    let mut rem: &[u8] = s;
    let mut acc: Vec<RawUserItem> = Vec::new();
    proof {
        assert(ext_deep(acc@) =~= Seq::<RawUserItemView>::empty());
    }
    while rem.len() > 0
        invariant
            spec_parse_ext_list(s@) == opt_prepend_ext(ext_deep(acc@), spec_parse_ext_list(rem@)),
        decreases rem@.len(),
    {
        match parse_item(rem) {
            None => {
                return None;
            },
            Some((code, content, n)) => {
                let ghost prev: Seq<RawUserItemView> = ext_deep(acc@);
                let ghost old_rem: Seq<u8> = rem@;
                let item = RawUserItem { code, data: vstd::slice::slice_to_vec(content) };
                proof {
                    assert(item@ == (RawUserItemView { code, data: content@ }));
                }
                acc.push(item);
                rem = vstd::slice::slice_subrange(rem, n, rem.len());
                proof {
                    assert(rem@ == old_rem.skip(n as int));
                    assert(ext_deep(acc@) =~= prev + seq![RawUserItemView { code, data: content@ }]);
                    assert(spec_parse_ext_list(old_rem) == opt_prepend_ext(
                        seq![RawUserItemView { code, data: content@ }],
                        spec_parse_ext_list(rem@),
                    ));
                    match spec_parse_ext_list(rem@) {
                        Some(t) => {
                            assert(prev + (seq![RawUserItemView { code, data: content@ }] + t) =~= (
                            prev + seq![RawUserItemView { code, data: content@ }]) + t);
                        },
                        None => {},
                    }
                }
            },
        }
    }
    proof {
        assert(rem@ =~= Seq::<u8>::empty());
        assert(ext_deep(acc@) + Seq::<RawUserItemView>::empty() =~= ext_deep(acc@));
    }
    Some(acc)
}

/// The content of one proposed presentation context.
fn parse_pc_rq_content(c: &[u8]) -> (r: Result<PresentationContextProposed, MalformedReason>)
    ensures
        match r {
            Ok(pc) => spec_parse_pc_rq_content(c@) == Some(pc@),
            Err(_) => spec_parse_pc_rq_content(c@) is None,
        },
{
    if c.len() < 4 {
        return Err(MalformedReason::TruncatedItem);
    }
    let id = *vstd::slice::slice_index_get(c, 0);
    let tail = vstd::slice::slice_subrange(c, 4, c.len());
    proof {
        assert(tail@ == c@.skip(4));
    }
    match parse_item(tail) {
        None => Err(MalformedReason::TruncatedItem),
        Some((code, abs, n)) => {
            if code != 0x30u8 {
                return Err(MalformedReason::UnexpectedItem);
            }
            let ts_region = vstd::slice::slice_subrange(tail, n, tail.len());
            proof {
                assert(ts_region@ == c@.skip(4).skip(n as int));
            }
            match parse_ts_list(ts_region) {
                None => Err(MalformedReason::TruncatedItem),
                Some(tss) => {
                    if tss.len() == 0 {
                        return Err(MalformedReason::ZeroTransferSyntaxes);
                    }
                    let pc = PresentationContextProposed {
                        id,
                        abstract_syntax: vstd::slice::slice_to_vec(abs),
                        transfer_syntaxes: tss,
                    };
                    proof {
                        assert(pc@.transfer_syntaxes =~= ts_deep(pc.transfer_syntaxes@));
                        assert(spec_parse_pc_rq_content(c@) == Some(pc@));
                    }
                    Ok(pc)
                },
            }
        },
    }
}

/// The content of one presentation-context result.
fn parse_pc_ac_content(c: &[u8]) -> (r: Result<PresentationContextResult, MalformedReason>)
    ensures
        match r {
            Ok(pc) => spec_parse_pc_ac_content(c@) == Some(pc@),
            Err(_) => spec_parse_pc_ac_content(c@) is None,
        },
{
    if c.len() < 4 {
        return Err(MalformedReason::TruncatedItem);
    }
    let id = *vstd::slice::slice_index_get(c, 0);
    let reason = match reason_from_code(*vstd::slice::slice_index_get(c, 2)) {
        None => {
            return Err(MalformedReason::UnknownResultCode);
        },
        Some(reason) => reason,
    };
    if matches!(reason, PresResultReason::Acceptance) {
        let tail = vstd::slice::slice_subrange(c, 4, c.len());
        proof {
            assert(tail@ == c@.skip(4));
        }
        match parse_item(tail) {
            None => Err(MalformedReason::TruncatedItem),
            Some((code, ts, n)) => {
                if code != 0x40u8 || c.len() != 4 + n {
                    return Err(MalformedReason::LengthMismatch);
                }
                let pc = PresentationContextResult {
                    id,
                    reason,
                    transfer_syntax: Some(vstd::slice::slice_to_vec(ts)),
                };
                proof {
                    assert(spec_parse_pc_ac_content(c@) == Some(pc@));
                }
                Ok(pc)
            },
        }
    } else {
        if c.len() != 4 {
            return Err(MalformedReason::LengthMismatch);
        }
        let pc = PresentationContextResult { id, reason, transfer_syntax: None };
        proof {
            assert(spec_parse_pc_ac_content(c@) == Some(pc@));
        }
        Ok(pc)
    }
}

/// The run of presentation-context request items at the front of a region.
fn parse_pc_rq_list(s: &[u8]) -> (r: Result<(Vec<PresentationContextProposed>, usize), MalformedReason>)
    ensures
        match r {
            Ok(t) => {
                &&& spec_parse_pc_rq_list(s@) == Some((pcs_rq_deep(t.0@), t.1 as int))
                &&& t.1 <= s@.len()
            },
            Err(_) => spec_parse_pc_rq_list(s@) is None,
        },
{
    let slen: usize = s.len();
    let mut rem: &[u8] = s;
    let mut acc: Vec<PresentationContextProposed> = Vec::new();
    let mut used: usize = 0;
    proof {
        assert(pcs_rq_deep(acc@) =~= Seq::<PresentationContextProposedView>::empty());
    }
    while rem.len() >= 4 && *vstd::slice::slice_index_get(rem, 0) == 0x20u8
        invariant
            slen == s@.len(),
            used + rem@.len() <= slen,
            spec_parse_pc_rq_list(s@) == opt_prepend_pc_rq(
                pcs_rq_deep(acc@),
                used as int,
                spec_parse_pc_rq_list(rem@),
            ),
        decreases rem@.len(),
    {
        match parse_item(rem) {
            None => {
                return Err(MalformedReason::TruncatedItem);
            },
            Some((code, content, n)) => {
                match parse_pc_rq_content(content) {
                    Err(e) => {
                        return Err(e);
                    },
                    Ok(pc) => {
                        let ghost prev: Seq<PresentationContextProposedView> = pcs_rq_deep(acc@);
                        let ghost old_rem: Seq<u8> = rem@;
                        let ghost pcv: PresentationContextProposedView = pc@;
                        acc.push(pc);
                        rem = vstd::slice::slice_subrange(rem, n, rem.len());
                        used = used + n;
                        proof {
                            assert(rem@ == old_rem.skip(n as int));
                            assert(pcs_rq_deep(acc@) =~= prev + seq![pcv]);
                            assert(spec_parse_pc_rq_list(old_rem) == opt_prepend_pc_rq(
                                seq![pcv],
                                n as int,
                                spec_parse_pc_rq_list(rem@),
                            ));
                            match spec_parse_pc_rq_list(rem@) {
                                Some(t) => {
                                    assert(prev + (seq![pcv] + t.0) =~= (prev + seq![pcv]) + t.0);
                                },
                                None => {},
                            }
                        }
                    },
                }
            },
        }
    }
    proof {
        assert(spec_parse_pc_rq_list(rem@) == Some(
            (Seq::<PresentationContextProposedView>::empty(), 0int),
        ));
        assert(pcs_rq_deep(acc@) + Seq::<PresentationContextProposedView>::empty() =~= pcs_rq_deep(
            acc@,
        ));
    }
    Ok((acc, used))
}

/// The run of presentation-context result items at the front of a region.
fn parse_pc_ac_list(s: &[u8]) -> (r: Result<(Vec<PresentationContextResult>, usize), MalformedReason>)
    ensures
        match r {
            Ok(t) => {
                &&& spec_parse_pc_ac_list(s@) == Some((pcs_ac_deep(t.0@), t.1 as int))
                &&& t.1 <= s@.len()
            },
            Err(_) => spec_parse_pc_ac_list(s@) is None,
        },
{
    let slen: usize = s.len();
    let mut rem: &[u8] = s;
    let mut acc: Vec<PresentationContextResult> = Vec::new();
    let mut used: usize = 0;
    proof {
        assert(pcs_ac_deep(acc@) =~= Seq::<PresentationContextResultView>::empty());
    }
    while rem.len() >= 4 && *vstd::slice::slice_index_get(rem, 0) == 0x21u8
        invariant
            slen == s@.len(),
            used + rem@.len() <= slen,
            spec_parse_pc_ac_list(s@) == opt_prepend_pc_ac(
                pcs_ac_deep(acc@),
                used as int,
                spec_parse_pc_ac_list(rem@),
            ),
        decreases rem@.len(),
    {
        match parse_item(rem) {
            None => {
                return Err(MalformedReason::TruncatedItem);
            },
            Some((code, content, n)) => {
                match parse_pc_ac_content(content) {
                    Err(e) => {
                        return Err(e);
                    },
                    Ok(pc) => {
                        let ghost prev: Seq<PresentationContextResultView> = pcs_ac_deep(acc@);
                        let ghost old_rem: Seq<u8> = rem@;
                        let ghost pcv: PresentationContextResultView = pc@;
                        acc.push(pc);
                        rem = vstd::slice::slice_subrange(rem, n, rem.len());
                        used = used + n;
                        proof {
                            assert(rem@ == old_rem.skip(n as int));
                            assert(pcs_ac_deep(acc@) =~= prev + seq![pcv]);
                            assert(spec_parse_pc_ac_list(old_rem) == opt_prepend_pc_ac(
                                seq![pcv],
                                n as int,
                                spec_parse_pc_ac_list(rem@),
                            ));
                            match spec_parse_pc_ac_list(rem@) {
                                Some(t) => {
                                    assert(prev + (seq![pcv] + t.0) =~= (prev + seq![pcv]) + t.0);
                                },
                                None => {},
                            }
                        }
                    },
                }
            },
        }
    }
    proof {
        assert(spec_parse_pc_ac_list(rem@) == Some(
            (Seq::<PresentationContextResultView>::empty(), 0int),
        ));
        assert(pcs_ac_deep(acc@) + Seq::<PresentationContextResultView>::empty() =~= pcs_ac_deep(
            acc@,
        ));
    }
    Ok((acc, used))
}

/// The content of the user-information item.
fn parse_ui_content(c: &[u8]) -> (r: Result<UserInformation, MalformedReason>)
    ensures
        match r {
            Ok(u) => spec_parse_ui_content(c@) == Some(u@),
            Err(_) => spec_parse_ui_content(c@) is None,
        },
{
    let (code1, d1, n1) = match parse_item(c) {
        None => {
            return Err(MalformedReason::TruncatedItem);
        },
        Some(t) => t,
    };
    if code1 != 0x51u8 || d1.len() != 4 {
        return Err(MalformedReason::MissingMandatorySubItem);
    }
    let max_pdu_length: u32 = (*vstd::slice::slice_index_get(d1, 0) as u32) * 0x1000000 + (
    *vstd::slice::slice_index_get(d1, 1) as u32) * 0x10000 + (*vstd::slice::slice_index_get(
        d1,
        2,
    ) as u32) * 256 + (*vstd::slice::slice_index_get(d1, 3) as u32);
    proof {
        assert(be32_val(d1@) == max_pdu_length as int);
    }
    let after1 = vstd::slice::slice_subrange(c, n1, c.len());
    proof {
        assert(after1@ == c@.skip(n1 as int));
    }
    let (code2, uid, n2) = match parse_item(after1) {
        None => {
            return Err(MalformedReason::TruncatedItem);
        },
        Some(t) => t,
    };
    if code2 != 0x52u8 {
        return Err(MalformedReason::MissingMandatorySubItem);
    }
    let rest = vstd::slice::slice_subrange(after1, n2, after1.len());
    proof {
        assert(rest@ == c@.skip(n1 as int).skip(n2 as int));
    }
    if rest.len() >= 4 && *vstd::slice::slice_index_get(rest, 0) == 0x55u8 {
        let (_code3, vn, n3) = match parse_item(rest) {
            None => {
                return Err(MalformedReason::TruncatedItem);
            },
            Some(t) => t,
        };
        let ext_region = vstd::slice::slice_subrange(rest, n3, rest.len());
        proof {
            assert(ext_region@ == rest@.skip(n3 as int));
        }
        match parse_ext_list(ext_region) {
            None => Err(MalformedReason::TruncatedItem),
            Some(ext) => {
                let u = UserInformation {
                    max_pdu_length,
                    implementation_class_uid: vstd::slice::slice_to_vec(uid),
                    implementation_version_name: Some(vstd::slice::slice_to_vec(vn)),
                    extended: ext,
                };
                proof {
                    assert(u@.extended =~= ext_deep(u.extended@));
                    assert(spec_parse_ui_content(c@) == Some(u@));
                }
                Ok(u)
            },
        }
    } else {
        match parse_ext_list(rest) {
            None => Err(MalformedReason::TruncatedItem),
            Some(ext) => {
                let u = UserInformation {
                    max_pdu_length,
                    implementation_class_uid: vstd::slice::slice_to_vec(uid),
                    implementation_version_name: None,
                    extended: ext,
                };
                proof {
                    assert(u@.extended =~= ext_deep(u.extended@));
                    assert(spec_parse_ui_content(c@) == Some(u@));
                }
                Ok(u)
            },
        }
    }
}

/// Reads the 16-bit protocol-version field of an association body.
fn read_version(b: &[u8]) -> (r: u16)
    requires
        b@.len() >= 2,
    ensures
        r as int == be16_val(b@.subrange(0, 2)),
{
    let r = (*vstd::slice::slice_index_get(b, 0) as u16) * 256 + (*vstd::slice::slice_index_get(
        b,
        1,
    ) as u16);
    proof {
        assert(b@.subrange(0, 2) =~= seq![b@[0], b@[1]]);
    }
    r
}

/// The body of an A-ASSOCIATE-RQ.
fn parse_rq_body(b: &[u8]) -> (r: Result<AssociateRq, MalformedReason>)
    ensures
        match r {
            Ok(rq) => spec_parse_rq_body(b@) == Some(rq@),
            Err(_) => spec_parse_rq_body(b@) is None,
        },
{
    if b.len() < 68 {
        return Err(MalformedReason::LengthMismatch);
    }
    let protocol_version = read_version(b);
    let called_ae_title = trim_trailing(vstd::slice::slice_subrange(b, 4, 20));
    let calling_ae_title = trim_trailing(vstd::slice::slice_subrange(b, 20, 36));
    let items = vstd::slice::slice_subrange(b, 68, b.len());
    proof {
        assert(items@ == b@.skip(68));
    }
    let (c0, app, n0) = match parse_item(items) {
        None => {
            return Err(MalformedReason::TruncatedItem);
        },
        Some(t) => t,
    };
    if c0 != 0x10u8 {
        return Err(MalformedReason::UnexpectedItem);
    }
    let after_app = vstd::slice::slice_subrange(items, n0, items.len());
    proof {
        assert(after_app@ == items@.skip(n0 as int));
    }
    let (pcs, n1) = match parse_pc_rq_list(after_app) {
        Err(e) => {
            return Err(e);
        },
        Ok(t) => t,
    };
    if pcs.len() == 0 {
        return Err(MalformedReason::NoPresentationContexts);
    }
    let after_pcs = vstd::slice::slice_subrange(after_app, n1, after_app.len());
    proof {
        assert(after_pcs@ == items@.skip(n0 as int).skip(n1 as int));
    }
    let (c2, uic, n2) = match parse_item(after_pcs) {
        None => {
            return Err(MalformedReason::TruncatedItem);
        },
        Some(t) => t,
    };
    if c2 != 0x50u8 || n2 != after_pcs.len() {
        return Err(MalformedReason::LengthMismatch);
    }
    proof {
        assert(n0 + n1 + n2 == items@.len());
    }
    let user_info = match parse_ui_content(uic) {
        Err(e) => {
            return Err(e);
        },
        Ok(u) => u,
    };
    let rq = AssociateRq {
        protocol_version,
        called_ae_title,
        calling_ae_title,
        application_context: vstd::slice::slice_to_vec(app),
        presentation_contexts: pcs,
        user_info,
    };
    proof {
        assert(rq@.presentation_contexts =~= pcs_rq_deep(rq.presentation_contexts@));
        assert(spec_parse_rq_body(b@) == Some(rq@));
    }
    Ok(rq)
}

/// The body of an A-ASSOCIATE-AC.
fn parse_ac_body(b: &[u8]) -> (r: Result<AssociateAc, MalformedReason>)
    ensures
        match r {
            Ok(ac) => spec_parse_ac_body(b@) == Some(ac@),
            Err(_) => spec_parse_ac_body(b@) is None,
        },
{
    if b.len() < 68 {
        return Err(MalformedReason::LengthMismatch);
    }
    let protocol_version = read_version(b);
    let called_ae_title = trim_trailing(vstd::slice::slice_subrange(b, 4, 20));
    let calling_ae_title = trim_trailing(vstd::slice::slice_subrange(b, 20, 36));
    let items = vstd::slice::slice_subrange(b, 68, b.len());
    proof {
        assert(items@ == b@.skip(68));
    }
    let (c0, app, n0) = match parse_item(items) {
        None => {
            return Err(MalformedReason::TruncatedItem);
        },
        Some(t) => t,
    };
    if c0 != 0x10u8 {
        return Err(MalformedReason::UnexpectedItem);
    }
    let after_app = vstd::slice::slice_subrange(items, n0, items.len());
    proof {
        assert(after_app@ == items@.skip(n0 as int));
    }
    let (pcs, n1) = match parse_pc_ac_list(after_app) {
        Err(e) => {
            return Err(e);
        },
        Ok(t) => t,
    };
    if pcs.len() == 0 {
        return Err(MalformedReason::NoPresentationContexts);
    }
    let after_pcs = vstd::slice::slice_subrange(after_app, n1, after_app.len());
    proof {
        assert(after_pcs@ == items@.skip(n0 as int).skip(n1 as int));
    }
    let (c2, uic, n2) = match parse_item(after_pcs) {
        None => {
            return Err(MalformedReason::TruncatedItem);
        },
        Some(t) => t,
    };
    if c2 != 0x50u8 || n2 != after_pcs.len() {
        return Err(MalformedReason::LengthMismatch);
    }
    proof {
        assert(n0 + n1 + n2 == items@.len());
    }
    let user_info = match parse_ui_content(uic) {
        Err(e) => {
            return Err(e);
        },
        Ok(u) => u,
    };
    let ac = AssociateAc {
        protocol_version,
        called_ae_title,
        calling_ae_title,
        application_context: vstd::slice::slice_to_vec(app),
        presentation_contexts: pcs,
        user_info,
    };
    proof {
        assert(ac@.presentation_contexts =~= pcs_ac_deep(ac.presentation_contexts@));
        assert(spec_parse_ac_body(b@) == Some(ac@));
    }
    Ok(ac)
}

/// The presentation-data-value items filling a P-DATA-TF body exactly.
fn parse_pdv_list(b: &[u8]) -> (r: Result<Vec<PresentationDataValue>, MalformedReason>)
    ensures
        match r {
            Ok(l) => spec_parse_pdv_list(b@) == Some(pdvs_deep(l@)),
            Err(_) => spec_parse_pdv_list(b@) is None,
        },
{
    let mut rem: &[u8] = b;
    let mut acc: Vec<PresentationDataValue> = Vec::new();
    proof {
        assert(pdvs_deep(acc@) =~= Seq::<PresentationDataValueView>::empty());
    }
    while rem.len() > 0
        invariant
            spec_parse_pdv_list(b@) == opt_prepend_pdv(pdvs_deep(acc@), spec_parse_pdv_list(rem@)),
        decreases rem@.len(),
    {
        if rem.len() < 6 {
            return Err(MalformedReason::TruncatedItem);
        }
        let m: u64 = (*vstd::slice::slice_index_get(rem, 0) as u64) * 0x1000000 + (
        *vstd::slice::slice_index_get(rem, 1) as u64) * 0x10000 + (*vstd::slice::slice_index_get(
            rem,
            2,
        ) as u64) * 256 + (*vstd::slice::slice_index_get(rem, 3) as u64);
        proof {
            assert(rem@.subrange(0, 4) =~= seq![rem@[0], rem@[1], rem@[2], rem@[3]]);
            assert(be32_val(rem@.subrange(0, 4)) == m as int);
        }
        if m < 2 || (rem.len() as u64) - 4 < m {
            return Err(MalformedReason::LengthMismatch);
        }
        let mu: usize = m as usize;
        let mch = *vstd::slice::slice_index_get(rem, 5);
        let v = PresentationDataValue {
            context_id: *vstd::slice::slice_index_get(rem, 4),
            is_last: mch % 2 == 1,
            is_command: (mch / 2) % 2 == 1,
            data: vstd::slice::slice_to_vec(vstd::slice::slice_subrange(rem, 6, 4 + mu)),
        };
        let ghost prev: Seq<PresentationDataValueView> = pdvs_deep(acc@);
        let ghost old_rem: Seq<u8> = rem@;
        let ghost vv: PresentationDataValueView = v@;
        acc.push(v);
        rem = vstd::slice::slice_subrange(rem, 4 + mu, rem.len());
        proof {
            assert(rem@ == old_rem.skip(4 + m as int));
            assert(vv.data == old_rem.subrange(6, 4 + m as int));
            assert(pdvs_deep(acc@) =~= prev + seq![vv]);
            assert(spec_parse_pdv_list(old_rem) == opt_prepend_pdv(
                seq![vv],
                spec_parse_pdv_list(rem@),
            ));
            match spec_parse_pdv_list(rem@) {
                Some(t) => {
                    assert(prev + (seq![vv] + t) =~= (prev + seq![vv]) + t);
                },
                None => {},
            }
        }
    }
    proof {
        assert(rem@ =~= Seq::<u8>::empty());
        assert(pdvs_deep(acc@) + Seq::<PresentationDataValueView>::empty() =~= pdvs_deep(acc@));
    }
    Ok(acc)
}

/// The body of a PDU of the given type code.
fn parse_body(t: u8, b: &[u8]) -> (r: Result<Pdu, MalformedReason>)
    requires
        1 <= t <= 7,
    ensures
        match r {
            Ok(p) => spec_parse_body(t, b@) == Some(p@),
            Err(_) => spec_parse_body(t, b@) is None,
        },
{
    if t == 1 {
        match parse_rq_body(b) {
            Ok(rq) => Ok(Pdu::AssociateRq(rq)),
            Err(e) => Err(e),
        }
    } else if t == 2 {
        match parse_ac_body(b) {
            Ok(ac) => Ok(Pdu::AssociateAc(ac)),
            Err(e) => Err(e),
        }
    } else if t == 3 {
        if b.len() != 4 {
            return Err(MalformedReason::LengthMismatch);
        }
        Ok(
            Pdu::AssociateRj(
                AssociateRj {
                    result: *vstd::slice::slice_index_get(b, 1),
                    source: *vstd::slice::slice_index_get(b, 2),
                    reason: *vstd::slice::slice_index_get(b, 3),
                },
            ),
        )
    } else if t == 4 {
        match parse_pdv_list(b) {
            Err(e) => Err(e),
            Ok(pdvs) => {
                if pdvs.len() == 0 {
                    return Err(MalformedReason::NoDataValues);
                }
                let p = Pdu::PDataTf(pdvs);
                proof {
                    assert(p@ is PDataTf);
                    assert(p@->PDataTf_0 =~= pdvs_deep(p.arrow_PDataTf_0()@));
                }
                Ok(p)
            },
        }
    } else if t == 5 {
        if b.len() != 4 {
            return Err(MalformedReason::LengthMismatch);
        }
        Ok(Pdu::ReleaseRq)
    } else if t == 6 {
        if b.len() != 4 {
            return Err(MalformedReason::LengthMismatch);
        }
        Ok(Pdu::ReleaseRp)
    } else {
        if b.len() != 4 {
            return Err(MalformedReason::LengthMismatch);
        }
        Ok(
            Pdu::Abort(
                AbortInfo {
                    source: *vstd::slice::slice_index_get(b, 2),
                    reason: *vstd::slice::slice_index_get(b, 3),
                },
            ),
        )
    }
}

/// Decodes the first PDU of a buffer. Yields `Incomplete` exactly when the
/// buffer holds fewer bytes than the declared PDU length plus the 6-byte
/// header — read more and retry; yields `Malformed` only for buffers no
/// further bytes can repair.
pub fn decode_pdu(buf: &[u8]) -> (r: DecodeResult)
    ensures
        match r {
            DecodeResult::Complete(p, n) => spec_decode(buf@) == SpecDecodeOutcome::Complete(
                p@,
                n as int,
            ),
            DecodeResult::Incomplete => spec_decode(buf@) == SpecDecodeOutcome::Incomplete,
            DecodeResult::Malformed(_) => spec_decode(buf@) == SpecDecodeOutcome::Malformed,
        },
{
    if buf.len() < 6 {
        return DecodeResult::Incomplete;
    }
    let t = *vstd::slice::slice_index_get(buf, 0);
    if t < 1 || t > 7 {
        return DecodeResult::Malformed(MalformedReason::UnknownPduType);
    }
    let n: u64 = (*vstd::slice::slice_index_get(buf, 2) as u64) * 0x1000000 + (
    *vstd::slice::slice_index_get(buf, 3) as u64) * 0x10000 + (*vstd::slice::slice_index_get(
        buf,
        4,
    ) as u64) * 256 + (*vstd::slice::slice_index_get(buf, 5) as u64);
    proof {
        assert(buf@.subrange(2, 6) =~= seq![buf@[2], buf@[3], buf@[4], buf@[5]]);
        assert(be32_val(buf@.subrange(2, 6)) == n as int);
    }
    if (buf.len() as u64) - 6 < n {
        return DecodeResult::Incomplete;
    }
    let nu: usize = n as usize;
    let body = vstd::slice::slice_subrange(buf, 6, 6 + nu);
    proof {
        assert(body@ == buf@.subrange(6, 6 + n as int));
    }
    match parse_body(t, body) {
        Ok(p) => DecodeResult::Complete(p, 6 + nu),
        Err(e) => DecodeResult::Malformed(e),
    }
}

} // verus!
