//! Stable diagnostic codes and structured diagnostics.
use amphion::diagnostic::{Diagnostic, DiagnosticCode, DiagnosticPathSegment, Severity};
use amphion::identity::SemanticId;

#[test]
fn diagnostic_codes_are_stable_tokens() {
    assert!(DiagnosticCode::try_new("TOPOLOGY.LOOP.NOT_CLOSED").is_ok());
    assert!(DiagnosticCode::try_new("Topology loop").is_err());
    assert!(DiagnosticCode::try_new("TOPOLOGY..LOOP").is_err());
}

#[test]
fn diagnostic_code_edge_cases() {
    assert!(DiagnosticCode::try_new("").is_err());
    assert!(DiagnosticCode::try_new(".LEADING").is_err());
    assert!(DiagnosticCode::try_new("TRAILING.").is_err());
    assert!(DiagnosticCode::try_new("A").is_ok());
    assert!(DiagnosticCode::try_new("A1_B2.C3").is_ok());
    assert!(DiagnosticCode::try_new("lower.case").is_err());
    assert!(DiagnosticCode::try_new("DASH-ED").is_err());
}

#[test]
fn diagnostic_code_keeps_its_text() {
    let code = DiagnosticCode::try_new("GEOMETRY.CURVE.DEGENERATE").unwrap();
    assert_eq!(code.as_str(), "GEOMETRY.CURVE.DEGENERATE");
}

#[test]
fn diagnostic_accessors_return_constructor_arguments() {
    let code = DiagnosticCode::try_new("TOPOLOGY.EDGE.OPEN").unwrap();
    let related = vec![SemanticId::from_bytes([7; 16])];
    let path = vec![DiagnosticPathSegment::Index(3)];
    let diagnostic = Diagnostic::new(
        Severity::Warning,
        code,
        "edge is open".to_string(),
        path.clone(),
        related.clone(),
    );
    assert_eq!(diagnostic.severity(), Severity::Warning);
    assert_eq!(diagnostic.code().as_str(), "TOPOLOGY.EDGE.OPEN");
    assert_eq!(diagnostic.message(), "edge is open");
    assert_eq!(diagnostic.path(), &path[..]);
    assert_eq!(diagnostic.related(), &related[..]);
}

#[test]
fn severities_are_ordered() {
    assert!(Severity::Info < Severity::Warning);
    assert!(Severity::Warning < Severity::Error);
}
