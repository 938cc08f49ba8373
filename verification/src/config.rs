//! Association configuration: the options a client or a server fixes before
//! an association attempt, immutable once handed to one, and the
//! construction of the A-ASSOCIATE-RQ a client opens with.
use vstd::prelude::*;

use crate::codec::wf_pdu;
use crate::codec::wf_rq;
use crate::codec::pdu_is_wf;
use crate::codec::ts_deep;
use crate::negotiation::AcceptorRegistry;
use crate::negotiation::RegistryEntry;
use crate::negotiation::RegistryEntryView;
use crate::pdu::AssociateRq;
use crate::pdu::AssociateRqView;
use crate::pdu::Pdu;
use crate::pdu::PduView;
use crate::pdu::PresentationContextProposed;
use crate::pdu::PresentationContextProposedView;
use crate::pdu::UserInformation;
use crate::pdu::UserInformationView;

verus! {

/// The DICOM application-context name, "1.2.840.10008.3.1.1.1", as ASCII.
pub open spec fn application_context_name() -> Seq<u8> {
    seq![
        49u8, 46u8, 50u8, 46u8, 56u8, 52u8, 48u8, 46u8, 49u8, 48u8, 48u8, 48u8, 56u8, 46u8, 51u8,
        46u8, 49u8, 46u8, 49u8, 46u8, 49u8,
    ]
}

/// Builds the standard application-context name.
pub fn default_application_context() -> (r: Vec<u8>)
    ensures
        r@ == application_context_name(),
{
    let mut v: Vec<u8> = Vec::new();
    v.push(49u8);
    v.push(46u8);
    v.push(50u8);
    v.push(46u8);
    v.push(56u8);
    v.push(52u8);
    v.push(48u8);
    v.push(46u8);
    v.push(49u8);
    v.push(48u8);
    v.push(48u8);
    v.push(48u8);
    v.push(56u8);
    v.push(46u8);
    v.push(51u8);
    v.push(46u8);
    v.push(49u8);
    v.push(46u8);
    v.push(49u8);
    v.push(46u8);
    v.push(49u8);
    proof {
        assert(v@ =~= application_context_name());
    }
    v
}

/// What a client fixes before initiating an association: AE titles, the
/// contexts it proposes in preference order, its maximum PDU length, its
/// implementation identifiers, and the two timeout bounds the transport
/// driver must honor.
#[derive(Debug, Clone, PartialEq, Eq)]
pub struct ClientOptions {
    pub calling_ae_title: Vec<u8>,
    pub called_ae_title: Vec<u8>,
    pub application_context: Vec<u8>,
    pub proposed_contexts: Vec<RegistryEntry>,
    pub max_pdu_length: u32,
    pub implementation_class_uid: Vec<u8>,
    pub implementation_version_name: Option<Vec<u8>>,
    pub connect_timeout_ms: Option<u64>,
    pub read_timeout_ms: Option<u64>,
}

#[verifier::ext_equal]
pub ghost struct ClientOptionsView {
    pub calling_ae_title: Seq<u8>,
    pub called_ae_title: Seq<u8>,
    pub application_context: Seq<u8>,
    pub proposed_contexts: Seq<RegistryEntryView>,
    pub max_pdu_length: u32,
    pub implementation_class_uid: Seq<u8>,
    pub implementation_version_name: Option<Seq<u8>>,
    pub connect_timeout_ms: Option<u64>,
    pub read_timeout_ms: Option<u64>,
}

impl View for ClientOptions {
    type V = ClientOptionsView;

    open spec fn view(&self) -> ClientOptionsView {
        ClientOptionsView {
            calling_ae_title: self.calling_ae_title@,
            called_ae_title: self.called_ae_title@,
            application_context: self.application_context@,
            proposed_contexts: Seq::new(
                self.proposed_contexts@.len(),
                |i: int| self.proposed_contexts@[i]@,
            ),
            max_pdu_length: self.max_pdu_length,
            implementation_class_uid: self.implementation_class_uid@,
            implementation_version_name: match self.implementation_version_name {
                Some(v) => Some(v@),
                None => None,
            },
            connect_timeout_ms: self.connect_timeout_ms,
            read_timeout_ms: self.read_timeout_ms,
        }
    }
}

impl ClientOptions {
    /// Fresh options: empty AE titles, the standard application context, no
    /// proposed contexts yet, a 16384-byte maximum PDU length, no timeouts.
    pub fn new() -> (r: Self)
        ensures
            r@.calling_ae_title.len() == 0,
            r@.called_ae_title.len() == 0,
            r@.application_context == application_context_name(),
            r@.proposed_contexts.len() == 0,
            r@.max_pdu_length == 16384u32,
            r@.implementation_class_uid.len() == 0,
            r@.implementation_version_name is None,
            r@.connect_timeout_ms is None,
            r@.read_timeout_ms is None,
    {
        ClientOptions {
            calling_ae_title: Vec::new(),
            called_ae_title: Vec::new(),
            application_context: default_application_context(),
            proposed_contexts: Vec::new(),
            max_pdu_length: 16384,
            implementation_class_uid: Vec::new(),
            implementation_version_name: None,
            connect_timeout_ms: None,
            read_timeout_ms: None,
        }
    }

    /// Sets the called AE title.
    pub fn called_ae_title(self, v: Vec<u8>) -> (r: Self)
        ensures
            r@ == (ClientOptionsView { called_ae_title: v@, ..self@ }),
    {
        let r = ClientOptions { called_ae_title: v, ..self };
        proof {
            assert(r@ =~= (ClientOptionsView { called_ae_title: r.called_ae_title@, ..self@ }));
        }
        r
    }

    /// Sets the calling AE title.
    pub fn calling_ae_title(self, v: Vec<u8>) -> (r: Self)
        ensures
            r@ == (ClientOptionsView { calling_ae_title: v@, ..self@ }),
    {
        let r = ClientOptions { calling_ae_title: v, ..self };
        proof {
            assert(r@ =~= (ClientOptionsView { calling_ae_title: r.calling_ae_title@, ..self@ }));
        }
        r
    }

    /// Adds one proposed presentation context: an abstract syntax and the
    /// transfer syntaxes offered for it, in preference order.
    pub fn with_presentation_context(self, abstract_syntax: Vec<u8>, transfer_syntaxes: Vec<
        Vec<u8>,
    >) -> (r: Self)
        ensures
            r@ == (ClientOptionsView {
                proposed_contexts: self@.proposed_contexts.push(
                    RegistryEntryView {
                        abstract_syntax: abstract_syntax@,
                        transfer_syntaxes: ts_deep(transfer_syntaxes@),
                    },
                ),
                ..self@
            }),
    {
        let entry = RegistryEntry { abstract_syntax, transfer_syntaxes };
        let ghost ev: RegistryEntryView = entry@;
        let mut contexts = self.proposed_contexts;
        contexts.push(entry);
        let r = ClientOptions { proposed_contexts: contexts, ..self };
        proof {
            assert(r@ =~= (ClientOptionsView {
                proposed_contexts: self@.proposed_contexts.push(ev),
                ..self@
            }));
        }
        r
    }

    /// Sets the maximum PDU length this side will accept.
    pub fn max_pdu_length(self, v: u32) -> (r: Self)
        ensures
            r@ == (ClientOptionsView { max_pdu_length: v, ..self@ }),
    {
        let r = ClientOptions { max_pdu_length: v, ..self };
        proof {
            assert(r@ =~= (ClientOptionsView { max_pdu_length: r.max_pdu_length, ..self@ }));
        }
        r
    }

    /// Bounds the transport connect step.
    pub fn connect_timeout_ms(self, v: u64) -> (r: Self)
        ensures
            r@ == (ClientOptionsView { connect_timeout_ms: Some(v), ..self@ }),
    {
        let r = ClientOptions { connect_timeout_ms: Some(v), ..self };
        proof {
            assert(r@ =~= (ClientOptionsView { connect_timeout_ms: r.connect_timeout_ms, ..self@ }));
        }
        r
    }

    /// Bounds the wait for each expected PDU.
    pub fn read_timeout_ms(self, v: u64) -> (r: Self)
        ensures
            r@ == (ClientOptionsView { read_timeout_ms: Some(v), ..self@ }),
    {
        let r = ClientOptions { read_timeout_ms: Some(v), ..self };
        proof {
            assert(r@ =~= (ClientOptionsView { read_timeout_ms: r.read_timeout_ms, ..self@ }));
        }
        r
    }

    /// The A-ASSOCIATE-RQ these options open with, as a mathematical value:
    /// protocol version 1, the configured titles and application context,
    /// the proposed contexts under the odd ids 1, 3, 5, ..., and this side's
    /// user information.
    pub open spec fn spec_associate_rq(self) -> AssociateRqView {
        AssociateRqView {
            protocol_version: 1u16,
            called_ae_title: self@.called_ae_title,
            calling_ae_title: self@.calling_ae_title,
            application_context: self@.application_context,
            presentation_contexts: Seq::new(
                self@.proposed_contexts.len(),
                |i: int| PresentationContextProposedView {
                    id: (2 * i + 1) as u8,
                    abstract_syntax: self@.proposed_contexts[i].abstract_syntax,
                    transfer_syntaxes: self@.proposed_contexts[i].transfer_syntaxes,
                },
            ),
            user_info: UserInformationView {
                max_pdu_length: self@.max_pdu_length,
                implementation_class_uid: self@.implementation_class_uid,
                implementation_version_name: self@.implementation_version_name,
                extended: Seq::empty(),
            },
        }
    }

    /// Builds the opening A-ASSOCIATE-RQ. Succeeds exactly when between one
    /// and 128 contexts are proposed (the odd one-byte ids run out at 255)
    /// and the resulting PDU is framable.
    pub fn build_associate_rq(&self) -> (r: Option<Pdu>)
        ensures
            ({
                let rq = self.spec_associate_rq();
                if 1 <= self@.proposed_contexts.len() <= 128 && wf_rq(rq) {
                    &&& r is Some
                    &&& (r matches Some(p) ==> p@ == PduView::AssociateRq(rq) && wf_pdu(p@))
                } else {
                    r is None
                }
            }),
    {
        if self.proposed_contexts.len() == 0 || self.proposed_contexts.len() > 128 {
            return None;
        }
        let mut pcs: Vec<PresentationContextProposed> = Vec::new();
        let mut i: usize = 0;
        while i < self.proposed_contexts.len()
            invariant
                i <= self.proposed_contexts@.len(),
                self.proposed_contexts@.len() <= 128,
                pcs@.len() == i,
                forall|j: int|
                    0 <= j < i ==> (#[trigger] pcs@[j])@
                        == self.spec_associate_rq().presentation_contexts[j],
            decreases self.proposed_contexts@.len() - i,
        {
            let entry = &self.proposed_contexts[i];
            let id: u8 = (2 * i + 1) as u8;
            let pc = PresentationContextProposed {
                id,
                abstract_syntax: vstd::slice::slice_to_vec(entry.abstract_syntax.as_slice()),
                transfer_syntaxes: clone_byte_lists(&entry.transfer_syntaxes),
            };
            proof {
                assert(pc@ =~= self.spec_associate_rq().presentation_contexts[i as int]);
            }
            pcs.push(pc);
            i = i + 1;
        }
        let user_info = UserInformation {
            max_pdu_length: self.max_pdu_length,
            implementation_class_uid: vstd::slice::slice_to_vec(
                self.implementation_class_uid.as_slice(),
            ),
            implementation_version_name: match &self.implementation_version_name {
                Some(v) => Some(vstd::slice::slice_to_vec(v.as_slice())),
                None => None,
            },
            extended: Vec::new(),
        };
        let rq = AssociateRq {
            protocol_version: 1,
            called_ae_title: vstd::slice::slice_to_vec(self.called_ae_title.as_slice()),
            calling_ae_title: vstd::slice::slice_to_vec(self.calling_ae_title.as_slice()),
            application_context: vstd::slice::slice_to_vec(self.application_context.as_slice()),
            presentation_contexts: pcs,
            user_info,
        };
        proof {
            assert(rq@ =~= self.spec_associate_rq());
        }
        let p = Pdu::AssociateRq(rq);
        if pdu_is_wf(&p) {
            Some(p)
        } else {
            None
        }
    }
}

/// Copies a list of byte strings.
fn clone_byte_lists(l: &Vec<Vec<u8>>) -> (r: Vec<Vec<u8>>)
    ensures
        ts_deep(r@) == ts_deep(l@),
        r@.len() == l@.len(),
{
    let mut out: Vec<Vec<u8>> = Vec::new();
    let mut i: usize = 0;
    while i < l.len()
        invariant
            i <= l@.len(),
            out@.len() == i,
            forall|j: int| 0 <= j < i ==> (#[trigger] out@[j])@ == l@[j]@,
        decreases l@.len() - i,
    {
        out.push(vstd::slice::slice_to_vec(l[i].as_slice()));
        i = i + 1;
    }
    proof {
        assert(ts_deep(out@) =~= ts_deep(l@));
    }
    out
}

/// What a server fixes before accepting associations: its AE title and
/// whether the caller must address it exactly, the registry the policy
/// negotiates against, its maximum PDU length and implementation
/// identifiers, and the read-timeout bound for its transport driver.
#[derive(Debug, Clone, PartialEq, Eq)]
pub struct ServerOptions {
    pub ae_title: Vec<u8>,
    pub require_called_ae_title: bool,
    pub registry: AcceptorRegistry,
    pub max_pdu_length: u32,
    pub implementation_class_uid: Vec<u8>,
    pub implementation_version_name: Option<Vec<u8>>,
    pub read_timeout_ms: Option<u64>,
}

#[verifier::ext_equal]
pub ghost struct ServerOptionsView {
    pub ae_title: Seq<u8>,
    pub require_called_ae_title: bool,
    pub registry: Seq<RegistryEntryView>,
    pub max_pdu_length: u32,
    pub implementation_class_uid: Seq<u8>,
    pub implementation_version_name: Option<Seq<u8>>,
    pub read_timeout_ms: Option<u64>,
}

impl View for ServerOptions {
    type V = ServerOptionsView;

    open spec fn view(&self) -> ServerOptionsView {
        ServerOptionsView {
            ae_title: self.ae_title@,
            require_called_ae_title: self.require_called_ae_title,
            registry: self.registry@,
            max_pdu_length: self.max_pdu_length,
            implementation_class_uid: self.implementation_class_uid@,
            implementation_version_name: match self.implementation_version_name {
                Some(v) => Some(v@),
                None => None,
            },
            read_timeout_ms: self.read_timeout_ms,
        }
    }
}

impl ServerOptions {
    /// Fresh options: empty AE title accepted from any caller, an empty
    /// registry, a 16384-byte maximum PDU length, no read timeout.
    pub fn new() -> (r: Self)
        ensures
            r@.ae_title.len() == 0,
            r@.require_called_ae_title == false,
            r@.registry.len() == 0,
            r@.max_pdu_length == 16384u32,
            r@.implementation_class_uid.len() == 0,
            r@.implementation_version_name is None,
            r@.read_timeout_ms is None,
    {
        ServerOptions {
            ae_title: Vec::new(),
            require_called_ae_title: false,
            registry: AcceptorRegistry { entries: Vec::new() },
            max_pdu_length: 16384,
            implementation_class_uid: Vec::new(),
            implementation_version_name: None,
            read_timeout_ms: None,
        }
    }

    /// Sets this server's AE title and requires callers to address it.
    pub fn ae_title(self, v: Vec<u8>) -> (r: Self)
        ensures
            r@ == (ServerOptionsView {
                ae_title: v@,
                require_called_ae_title: true,
                ..self@
            }),
    {
        let r = ServerOptions { ae_title: v, require_called_ae_title: true, ..self };
        proof {
            assert(r@ =~= (ServerOptionsView {
                ae_title: r.ae_title@,
                require_called_ae_title: true,
                ..self@
            }));
        }
        r
    }

    /// Accepts any called AE title.
    pub fn any_called_ae_title(self) -> (r: Self)
        ensures
            r@ == (ServerOptionsView { require_called_ae_title: false, ..self@ }),
    {
        let r = ServerOptions { require_called_ae_title: false, ..self };
        proof {
            assert(r@ =~= (ServerOptionsView { require_called_ae_title: false, ..self@ }));
        }
        r
    }

    /// Registers one abstract syntax with the transfer syntaxes the server
    /// accepts for it.
    pub fn with_abstract_syntax(self, abstract_syntax: Vec<u8>, transfer_syntaxes: Vec<Vec<u8>>)
        -> (r: Self)
        ensures
            r@ == (ServerOptionsView {
                registry: self@.registry.push(
                    RegistryEntryView {
                        abstract_syntax: abstract_syntax@,
                        transfer_syntaxes: ts_deep(transfer_syntaxes@),
                    },
                ),
                ..self@
            }),
    {
        let entry = RegistryEntry { abstract_syntax, transfer_syntaxes };
        let ghost ev: RegistryEntryView = entry@;
        let mut registry = self.registry;
        registry.entries.push(entry);
        let r = ServerOptions { registry, ..self };
        proof {
            assert(r@ =~= (ServerOptionsView { registry: self@.registry.push(ev), ..self@ }));
        }
        r
    }

    /// Sets the maximum PDU length this side will accept.
    pub fn max_pdu_length(self, v: u32) -> (r: Self)
        ensures
            r@ == (ServerOptionsView { max_pdu_length: v, ..self@ }),
    {
        let r = ServerOptions { max_pdu_length: v, ..self };
        proof {
            assert(r@ =~= (ServerOptionsView { max_pdu_length: r.max_pdu_length, ..self@ }));
        }
        r
    }

    /// Bounds the wait for each expected PDU.
    pub fn read_timeout_ms(self, v: u64) -> (r: Self)
        ensures
            r@ == (ServerOptionsView { read_timeout_ms: Some(v), ..self@ }),
    {
        let r = ServerOptions { read_timeout_ms: Some(v), ..self };
        proof {
            assert(r@ =~= (ServerOptionsView { read_timeout_ms: r.read_timeout_ms, ..self@ }));
        }
        r
    }
}

} // verus!
