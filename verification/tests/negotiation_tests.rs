use dicom_ul::negotiation::{negotiate, AcceptorRegistry, RegistryEntry};
use dicom_ul::pdu::{PresResultReason, PresentationContextProposed};

const VERIFICATION: &[u8] = b"1.2.840.10008.1.1";
const IMPLICIT_LE: &[u8] = b"1.2.840.10008.1.2";
const EXPLICIT_LE: &[u8] = b"1.2.840.10008.1.2.1";

fn registry(entries: Vec<(&[u8], Vec<&[u8]>)>) -> AcceptorRegistry {
    AcceptorRegistry {
        entries: entries
            .into_iter()
            .map(|(a, ts)| RegistryEntry {
                abstract_syntax: a.to_vec(),
                transfer_syntaxes: ts.into_iter().map(|t| t.to_vec()).collect(),
            })
            .collect(),
    }
}

fn proposal(id: u8, a: &[u8], ts: Vec<&[u8]>) -> PresentationContextProposed {
    PresentationContextProposed {
        id,
        abstract_syntax: a.to_vec(),
        transfer_syntaxes: ts.into_iter().map(|t| t.to_vec()).collect(),
    }
}

#[test]
fn accepts_first_proposed_transfer_syntax_supported() {
    let reg = registry(vec![(VERIFICATION, vec![IMPLICIT_LE, EXPLICIT_LE])]);
    let proposals = vec![proposal(1, VERIFICATION, vec![EXPLICIT_LE, IMPLICIT_LE])];
    let results = negotiate(&reg, &proposals);
    assert_eq!(results.len(), 1);
    assert_eq!(results[0].id, 1);
    assert_eq!(results[0].reason, PresResultReason::Acceptance);
    // the client listed the explicit syntax first, so it wins even though
    // the registry lists the implicit one first
    assert_eq!(results[0].transfer_syntax, Some(EXPLICIT_LE.to_vec()));
}

#[test]
fn unknown_abstract_syntax_is_refused_as_such() {
    let reg = registry(vec![(VERIFICATION, vec![IMPLICIT_LE])]);
    let proposals = vec![proposal(1, b"1.2.840.10008.5.1.4.1.1.2", vec![IMPLICIT_LE])];
    let results = negotiate(&reg, &proposals);
    assert_eq!(results[0].reason, PresResultReason::AbstractSyntaxNotSupported);
    assert_eq!(results[0].transfer_syntax, None);
}

#[test]
fn no_transfer_syntax_overlap_is_refused_as_such() {
    let reg = registry(vec![(VERIFICATION, vec![IMPLICIT_LE])]);
    let proposals = vec![proposal(1, VERIFICATION, vec![EXPLICIT_LE])];
    let results = negotiate(&reg, &proposals);
    assert_eq!(results[0].reason, PresResultReason::TransferSyntaxesNotSupported);
    assert_eq!(results[0].transfer_syntax, None);
}

#[test]
fn negotiation_is_deterministic_across_runs() {
    let reg = registry(vec![
        (VERIFICATION, vec![IMPLICIT_LE]),
        (b"1.9.9", vec![EXPLICIT_LE, IMPLICIT_LE]),
    ]);
    let proposals = vec![
        proposal(1, VERIFICATION, vec![EXPLICIT_LE, IMPLICIT_LE]),
        proposal(3, b"1.9.9", vec![IMPLICIT_LE]),
        proposal(5, b"0.0", vec![IMPLICIT_LE]),
    ];
    let first = negotiate(&reg, &proposals);
    let second = negotiate(&reg, &proposals);
    assert_eq!(first, second);
}

#[test]
fn every_result_id_comes_from_the_request() {
    let reg = registry(vec![(VERIFICATION, vec![IMPLICIT_LE])]);
    let proposals = vec![
        proposal(7, VERIFICATION, vec![IMPLICIT_LE]),
        proposal(11, b"9.9", vec![IMPLICIT_LE]),
    ];
    let results = negotiate(&reg, &proposals);
    assert_eq!(results.len(), proposals.len());
    for (r, p) in results.iter().zip(proposals.iter()) {
        assert_eq!(r.id, p.id);
    }
}

#[test]
fn first_registry_entry_decides_on_duplicates() {
    let reg = registry(vec![
        (VERIFICATION, vec![IMPLICIT_LE]),
        (VERIFICATION, vec![EXPLICIT_LE]),
    ]);
    let proposals = vec![proposal(1, VERIFICATION, vec![EXPLICIT_LE])];
    let results = negotiate(&reg, &proposals);
    // only the first entry for the abstract syntax counts
    assert_eq!(results[0].reason, PresResultReason::TransferSyntaxesNotSupported);
}
