//! The negotiation policy: given the acceptor's registered abstract
//! syntaxes and a client's proposed presentation contexts, the per-context
//! accept/reject outcome. The result is a function of the registry contents
//! and the proposal order alone; ties among transfer syntaxes are broken by
//! the client's proposed order, never reordered by the acceptor.
use vstd::prelude::*;

use crate::codec::pcs_ac_deep;
use crate::codec::pcs_rq_deep;
use crate::codec::ts_deep;
use crate::pdu::PresResultReason;
use crate::pdu::PresentationContextProposed;
use crate::pdu::PresentationContextProposedView;
use crate::pdu::PresentationContextResult;
use crate::pdu::PresentationContextResultView;

verus! {

/// One abstract syntax the acceptor serves, with the transfer syntaxes it
/// accepts for it.
#[derive(Debug, Clone, PartialEq, Eq)]
pub struct RegistryEntry {
    pub abstract_syntax: Vec<u8>,
    pub transfer_syntaxes: Vec<Vec<u8>>,
}

#[verifier::ext_equal]
pub ghost struct RegistryEntryView {
    pub abstract_syntax: Seq<u8>,
    pub transfer_syntaxes: Seq<Seq<u8>>,
}

impl View for RegistryEntry {
    type V = RegistryEntryView;

    open spec fn view(&self) -> RegistryEntryView {
        RegistryEntryView {
            abstract_syntax: self.abstract_syntax@,
            transfer_syntaxes: ts_deep(self.transfer_syntaxes@),
        }
    }
}

/// The acceptor's read-only registry, shared by every association the
/// acceptor negotiates.
#[derive(Debug, Clone, PartialEq, Eq)]
pub struct AcceptorRegistry {
    pub entries: Vec<RegistryEntry>,
}

impl View for AcceptorRegistry {
    type V = Seq<RegistryEntryView>;

    open spec fn view(&self) -> Seq<RegistryEntryView> {
        Seq::new(self.entries@.len(), |i: int| self.entries@[i]@)
    }
}

/// The transfer syntaxes registered for an abstract syntax: the first
/// matching entry decides.
pub open spec fn reg_lookup(reg: Seq<RegistryEntryView>, abs: Seq<u8>) -> Option<Seq<Seq<u8>>>
    decreases reg.len(),
{
    if reg.len() == 0 {
        None
    } else if reg[0].abstract_syntax == abs {
        Some(reg[0].transfer_syntaxes)
    } else {
        reg_lookup(reg.drop_first(), abs)
    }
}

/// The first proposed transfer syntax the acceptor supports, in the order
/// the client listed them.
pub open spec fn first_supported(proposed: Seq<Seq<u8>>, supported: Seq<Seq<u8>>) -> Option<Seq<u8>>
    decreases proposed.len(),
{
    if proposed.len() == 0 {
        None
    } else if supported.contains(proposed[0]) {
        Some(proposed[0])
    } else {
        first_supported(proposed.drop_first(), supported)
    }
}

/// The outcome for one proposed presentation context: unknown abstract
/// syntax is refused as such; otherwise the first supported transfer syntax
/// is accepted; otherwise the transfer syntaxes are refused.
pub open spec fn spec_negotiate_one(
    reg: Seq<RegistryEntryView>,
    pc: PresentationContextProposedView,
) -> PresentationContextResultView {
    match reg_lookup(reg, pc.abstract_syntax) {
        None => PresentationContextResultView {
            id: pc.id,
            reason: PresResultReason::AbstractSyntaxNotSupported,
            transfer_syntax: None,
        },
        Some(supported) => match first_supported(pc.transfer_syntaxes, supported) {
            Some(ts) => PresentationContextResultView {
                id: pc.id,
                reason: PresResultReason::Acceptance,
                transfer_syntax: Some(ts),
            },
            None => PresentationContextResultView {
                id: pc.id,
                reason: PresResultReason::TransferSyntaxesNotSupported,
                transfer_syntax: None,
            },
        },
    }
}

/// The whole negotiation: one result per proposal, in request order.
pub open spec fn spec_negotiate(
    reg: Seq<RegistryEntryView>,
    pcs: Seq<PresentationContextProposedView>,
) -> Seq<PresentationContextResultView> {
    Seq::new(pcs.len(), |i: int| spec_negotiate_one(reg, pcs[i]))
}

/// Negotiation is deterministic: the outcome is a function of the registry
/// contents and the proposals alone, so re-running it on the same input
/// yields the same per-context results.
pub proof fn lemma_negotiation_deterministic(
    reg: Seq<RegistryEntryView>,
    pcs: Seq<PresentationContextProposedView>,
    r1: Seq<PresentationContextResultView>,
    r2: Seq<PresentationContextResultView>,
)
    requires
        r1 == spec_negotiate(reg, pcs),
        r2 == spec_negotiate(reg, pcs),
    ensures
        r1 == r2,
{
}

/// Context-id fidelity: negotiation answers every proposal at its own
/// position, under the proposal's own id — no result invents an id.
pub proof fn lemma_negotiation_id_fidelity(
    reg: Seq<RegistryEntryView>,
    pcs: Seq<PresentationContextProposedView>,
)
    ensures
        spec_negotiate(reg, pcs).len() == pcs.len(),
        forall|i: int|
            0 <= i < pcs.len() ==> #[trigger] spec_negotiate(reg, pcs)[i].id == pcs[i].id,
        forall|i: int|
            0 <= i < spec_negotiate(reg, pcs).len() ==> exists|j: int|
                0 <= j < pcs.len() && #[trigger] spec_negotiate(reg, pcs)[i].id == pcs[j].id,
{
    assert forall|i: int| 0 <= i < spec_negotiate(reg, pcs).len() implies exists|j: int|
        0 <= j < pcs.len() && #[trigger] spec_negotiate(reg, pcs)[i].id == pcs[j].id by {
        assert(spec_negotiate(reg, pcs)[i].id == pcs[i].id);
    }
}

/// An accepted context carries exactly one transfer syntax, and a rejected
/// one carries none.
pub proof fn lemma_negotiation_result_shape(
    reg: Seq<RegistryEntryView>,
    pcs: Seq<PresentationContextProposedView>,
)
    ensures
        forall|i: int|
            0 <= i < pcs.len() ==> ((#[trigger] spec_negotiate(reg, pcs)[i]).reason
                is Acceptance <==> spec_negotiate(reg, pcs)[i].transfer_syntax is Some),
{
}

/// Byte-string equality, pinned to the views.
pub fn bytes_equal(a: &[u8], b: &[u8]) -> (r: bool)
    ensures
        r == (a@ == b@),
{
    if a.len() != b.len() {
        assert(a@.len() != b@.len());
        return false;
    }
    let mut i: usize = 0;
    while i < a.len()
        invariant
            i <= a@.len(),
            a@.len() == b@.len(),
            forall|j: int| 0 <= j < i ==> a@[j] == b@[j],
        decreases a@.len() - i,
    {
        if *vstd::slice::slice_index_get(a, i) != *vstd::slice::slice_index_get(b, i) {
            assert(a@[i as int] != b@[i as int]);
            return false;
        }
        i = i + 1;
    }
    proof {
        assert(a@ =~= b@);
    }
    true
}

/// Whether a list of byte strings holds the given one.
fn contains_bytes(l: &Vec<Vec<u8>>, x: &[u8]) -> (r: bool)
    ensures
        r == ts_deep(l@).contains(x@),
{
    let mut i: usize = 0;
    while i < l.len()
        invariant
            i <= l@.len(),
            forall|j: int| 0 <= j < i ==> ts_deep(l@)[j] != x@,
        decreases l@.len() - i,
    {
        if bytes_equal(l[i].as_slice(), x) {
            assert(ts_deep(l@)[i as int] == x@);
            return true;
        }
        i = i + 1;
    }
    proof {
        if ts_deep(l@).contains(x@) {
            let j = choose|j: int| 0 <= j < ts_deep(l@).len() && ts_deep(l@)[j] == x@;
            assert(ts_deep(l@)[j] != x@);
        }
    }
    false
}

proof fn lemma_reg_lookup_skip(reg: Seq<RegistryEntryView>, abs: Seq<u8>, i: int)
    requires
        0 <= i <= reg.len(),
        forall|j: int| 0 <= j < i ==> (#[trigger] reg[j]).abstract_syntax != abs,
    ensures
        reg_lookup(reg, abs) == reg_lookup(reg.skip(i), abs),
    decreases i,
{
    if i > 0 {
        lemma_reg_lookup_skip(reg, abs, i - 1);
        let t = reg.skip(i - 1);
        assert(t.len() > 0);
        assert(t[0] == reg[i - 1]);
        assert(t[0].abstract_syntax != abs);
        assert(t.drop_first() =~= reg.skip(i));
    } else {
        assert(reg.skip(0) =~= reg);
    }
}

proof fn lemma_first_supported_skip(proposed: Seq<Seq<u8>>, supported: Seq<Seq<u8>>, i: int)
    requires
        0 <= i <= proposed.len(),
        forall|j: int| 0 <= j < i ==> !supported.contains(#[trigger] proposed[j]),
    ensures
        first_supported(proposed, supported) == first_supported(proposed.skip(i), supported),
    decreases i,
{
    if i > 0 {
        lemma_first_supported_skip(proposed, supported, i - 1);
        let t = proposed.skip(i - 1);
        assert(t.len() > 0);
        assert(t[0] == proposed[i - 1]);
        assert(!supported.contains(t[0]));
        assert(t.drop_first() =~= proposed.skip(i));
    } else {
        assert(proposed.skip(0) =~= proposed);
    }
}

/// The registered transfer syntaxes for an abstract syntax, if any: the
/// first matching registry entry decides.
fn lookup_entry<'a>(registry: &'a AcceptorRegistry, abs: &[u8]) -> (r: Option<&'a Vec<Vec<u8>>>)
    ensures
        match r {
            Some(ts) => reg_lookup(registry@, abs@) == Some(ts_deep(ts@)),
            None => reg_lookup(registry@, abs@) is None,
        },
{
    let mut i: usize = 0;
    while i < registry.entries.len()
        invariant
            i <= registry.entries@.len(),
            forall|j: int| 0 <= j < i ==> (#[trigger] registry@[j]).abstract_syntax != abs@,
        decreases registry.entries@.len() - i,
    {
        if bytes_equal(registry.entries[i].abstract_syntax.as_slice(), abs) {
            proof {
                lemma_reg_lookup_skip(registry@, abs@, i as int);
                let t = registry@.skip(i as int);
                assert(t[0] == registry@[i as int]);
                assert(t[0].abstract_syntax == abs@);
            }
            return Some(&registry.entries[i].transfer_syntaxes);
        }
        i = i + 1;
    }
    proof {
        lemma_reg_lookup_skip(registry@, abs@, registry@.len() as int);
        assert(registry@.skip(registry@.len() as int) =~= Seq::<RegistryEntryView>::empty());
    }
    None
}

/// The outcome for one proposed presentation context.
pub fn negotiate_one(registry: &AcceptorRegistry, pc: &PresentationContextProposed) -> (r:
    PresentationContextResult)
    ensures
        r@ == spec_negotiate_one(registry@, pc@),
{
    match lookup_entry(registry, pc.abstract_syntax.as_slice()) {
        None => PresentationContextResult {
            id: pc.id,
            reason: PresResultReason::AbstractSyntaxNotSupported,
            transfer_syntax: None,
        },
        Some(supported) => {
            let mut i: usize = 0;
            while i < pc.transfer_syntaxes.len()
                invariant
                    i <= pc.transfer_syntaxes@.len(),
                    forall|j: int|
                        0 <= j < i ==> !ts_deep(supported@).contains(
                            #[trigger] pc@.transfer_syntaxes[j],
                        ),
                    reg_lookup(registry@, pc@.abstract_syntax) == Some(ts_deep(supported@)),
                decreases pc.transfer_syntaxes@.len() - i,
            {
                if contains_bytes(supported, pc.transfer_syntaxes[i].as_slice()) {
                    proof {
                        lemma_first_supported_skip(
                            pc@.transfer_syntaxes,
                            ts_deep(supported@),
                            i as int,
                        );
                        let t = pc@.transfer_syntaxes.skip(i as int);
                        assert(t[0] == pc@.transfer_syntaxes[i as int]);
                        assert(ts_deep(supported@).contains(t[0]));
                    }
                    return PresentationContextResult {
                        id: pc.id,
                        reason: PresResultReason::Acceptance,
                        transfer_syntax: Some(pc.transfer_syntaxes[i].clone()),
                    };
                }
                i = i + 1;
            }
            proof {
                lemma_first_supported_skip(
                    pc@.transfer_syntaxes,
                    ts_deep(supported@),
                    pc@.transfer_syntaxes.len() as int,
                );
                assert(pc@.transfer_syntaxes.skip(pc@.transfer_syntaxes.len() as int)
                    =~= Seq::<Seq<u8>>::empty());
            }
            PresentationContextResult {
                id: pc.id,
                reason: PresResultReason::TransferSyntaxesNotSupported,
                transfer_syntax: None,
            }
        },
    }
}

/// Runs the policy over every proposed context, in request order: one
/// result per proposal, each under the proposal's id.
pub fn negotiate(registry: &AcceptorRegistry, proposals: &Vec<PresentationContextProposed>) -> (r:
    Vec<PresentationContextResult>)
    ensures
        pcs_ac_deep(r@) == spec_negotiate(registry@, pcs_rq_deep(proposals@)),
        r@.len() == proposals@.len(),
{
    let mut out: Vec<PresentationContextResult> = Vec::new();
    let mut i: usize = 0;
    while i < proposals.len()
        invariant
            i <= proposals@.len(),
            out@.len() == i,
            forall|j: int|
                0 <= j < i ==> (#[trigger] out@[j])@ == spec_negotiate_one(
                    registry@,
                    proposals@[j]@,
                ),
        decreases proposals@.len() - i,
    {
        let one = negotiate_one(registry, &proposals[i]);
        out.push(one);
        i = i + 1;
    }
    proof {
        assert(pcs_ac_deep(out@) =~= spec_negotiate(registry@, pcs_rq_deep(proposals@)));
    }
    out
}

} // verus!
