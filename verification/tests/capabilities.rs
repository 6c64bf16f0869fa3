use pika::lsp::capabilities::{supports_feature, ServerFeatures};

fn no_features() -> ServerFeatures {
    ServerFeatures {
        completion: false,
        hover: false,
        definition: false,
        references: false,
        rename: false,
        code_action: false,
        formatting: false,
        signature_help: false,
    }
}

#[test]
fn test_supports_feature_completion() {
    let mut caps = no_features();
    assert!(!supports_feature(&caps, "completion"));
    caps.completion = true;
    assert!(supports_feature(&caps, "completion"));
}

#[test]
fn test_supports_feature_hover() {
    let mut caps = no_features();
    assert!(!supports_feature(&caps, "hover"));
    caps.hover = true;
    assert!(supports_feature(&caps, "hover"));
}

#[test]
fn test_supports_feature_definition() {
    let mut caps = no_features();
    assert!(!supports_feature(&caps, "definition"));
    caps.definition = true;
    assert!(supports_feature(&caps, "definition"));
}

#[test]
fn test_supports_feature_references() {
    let mut caps = no_features();
    assert!(!supports_feature(&caps, "references"));
    caps.references = true;
    assert!(supports_feature(&caps, "references"));
}

#[test]
fn test_supports_feature_rename() {
    let mut caps = no_features();
    assert!(!supports_feature(&caps, "rename"));
    caps.rename = true;
    assert!(supports_feature(&caps, "rename"));
}

#[test]
fn test_supports_feature_code_action() {
    let mut caps = no_features();
    assert!(!supports_feature(&caps, "codeAction"));
    caps.code_action = true;
    assert!(supports_feature(&caps, "codeAction"));
}

#[test]
fn test_supports_feature_formatting() {
    let mut caps = no_features();
    assert!(!supports_feature(&caps, "formatting"));
    caps.formatting = true;
    assert!(supports_feature(&caps, "formatting"));
}

#[test]
fn test_supports_feature_signature_help() {
    let mut caps = no_features();
    assert!(!supports_feature(&caps, "signatureHelp"));
    caps.signature_help = true;
    assert!(supports_feature(&caps, "signatureHelp"));
}

#[test]
fn test_supports_feature_diagnostics_always_true() {
    assert!(supports_feature(&no_features(), "diagnostics"));
}

#[test]
fn test_supports_feature_unknown_returns_false() {
    let caps = no_features();
    assert!(!supports_feature(&caps, "nonexistentFeature"));
    assert!(!supports_feature(&caps, ""));
}
