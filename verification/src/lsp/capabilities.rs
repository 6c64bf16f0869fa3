//! Which features a language server advertises.
use vstd::prelude::*;
use crate::editor::language::string_is;

verus! {

/// The features a server advertises in its capabilities: for each, whether
/// the server sent a provider for it.
#[derive(Debug, Clone, Copy, PartialEq, Eq, Structural)]
pub struct ServerFeatures {
    pub completion: bool,
    pub hover: bool,
    pub definition: bool,
    pub references: bool,
    pub rename: bool,
    pub code_action: bool,
    pub formatting: bool,
    pub signature_help: bool,
}

/// Whether a server with `f` supports the feature called `name`;
/// diagnostics are pushed by every server, and unknown names are not
/// supported.
pub open spec fn feature_supported(f: ServerFeatures, name: Seq<char>) -> bool {
    if name == "completion"@ {
        f.completion
    } else if name == "hover"@ {
        f.hover
    } else if name == "definition"@ {
        f.definition
    } else if name == "references"@ {
        f.references
    } else if name == "rename"@ {
        f.rename
    } else if name == "codeAction"@ {
        f.code_action
    } else if name == "formatting"@ {
        f.formatting
    } else if name == "signatureHelp"@ {
        f.signature_help
    } else if name == "diagnostics"@ {
        true
    } else {
        false
    }
}

/// Whether a server advertises support for a feature: `"completion"`,
/// `"hover"`, `"definition"`, `"references"`, `"rename"`, `"codeAction"`,
/// `"formatting"`, `"signatureHelp"` or `"diagnostics"` (always); `false`
/// for unrecognised names.
pub fn supports_feature(features: &ServerFeatures, feature: &str) -> (r: bool)
    ensures
        r == feature_supported(*features, feature@),
{
    let f = feature.to_owned();
    if string_is(&f, "completion") {
        features.completion
    } else if string_is(&f, "hover") {
        features.hover
    } else if string_is(&f, "definition") {
        features.definition
    } else if string_is(&f, "references") {
        features.references
    } else if string_is(&f, "rename") {
        features.rename
    } else if string_is(&f, "codeAction") {
        features.code_action
    } else if string_is(&f, "formatting") {
        features.formatting
    } else if string_is(&f, "signatureHelp") {
        features.signature_help
    } else if string_is(&f, "diagnostics") {
        true
    } else {
        false
    }
}

} // verus!
