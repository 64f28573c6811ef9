use vstd::prelude::*;

verus! {

/// A failure of compilation. Every variant carries either the position in the
/// markup text (a character index) where the fault was found, or the name of
/// the attribute or panel concerned.
#[derive(Debug, Clone, PartialEq, Eq)]
pub enum CompileError {
    /// The markup text itself is not well formed: an unterminated or
    /// ill-formed tag, a close tag that does not match its open tag, or
    /// an element left open at the end of the text.
    MalformedMarkup { position: usize },
    /// An attribute value could not be decoded as text. With string input
    /// this cannot arise; the variant completes the error taxonomy.
    Encoding { position: usize },
    /// A tag name that is not one of the recognized elements.
    UnknownElement { name: String, position: usize },
    /// A close tag with no matching open tag.
    UnbalancedTree { position: usize },
    /// An open tag or a text run appeared under a leaf (host-code) element.
    NoChildrenAllowed { position: usize },
    /// A required attribute is absent (or present with an empty value).
    MissingAttribute { attribute: String },
    /// An enumerated attribute holds a token outside its alias table.
    UnknownEnumValue { attribute: String, value: String },
    /// An attribute value without the sigil does not parse as its type.
    InvalidLiteral { attribute: String },
    /// An attribute value after the sigil is not a well-formed
    /// host-expression fragment.
    InvalidExpression { attribute: String },
    /// An attribute value carries the sigil although the rest parses as a
    /// literal of the declared type, so the sigil is redundant.
    RedundantSigil { attribute: String },
    /// A child of a strip has no `size` attribute. The index is the panel's
    /// position among the strip's children in declaration order.
    MissingSizeAttribute { panel: usize },
    /// A panel whose size kind needs a `value` attribute has none. The index
    /// is the panel's position in declaration order.
    MissingValueAttribute { panel: usize },
}

/// Mathematical model of a `CompileError`: strings become character
/// sequences, indices become integers.
pub enum ErrModel {
    MalformedMarkup { position: int },
    Encoding { position: int },
    UnknownElement { name: Seq<char>, position: int },
    UnbalancedTree { position: int },
    NoChildrenAllowed { position: int },
    MissingAttribute { attribute: Seq<char> },
    UnknownEnumValue { attribute: Seq<char>, value: Seq<char> },
    InvalidLiteral { attribute: Seq<char> },
    InvalidExpression { attribute: Seq<char> },
    RedundantSigil { attribute: Seq<char> },
    MissingSizeAttribute { panel: int },
    MissingValueAttribute { panel: int },
}

pub open spec fn err_model(e: CompileError) -> ErrModel {
    match e {
        CompileError::MalformedMarkup { position } => ErrModel::MalformedMarkup {
            position: position as int,
        },
        CompileError::Encoding { position } => ErrModel::Encoding { position: position as int },
        CompileError::UnknownElement { name, position } => ErrModel::UnknownElement {
            name: name@,
            position: position as int,
        },
        CompileError::UnbalancedTree { position } => ErrModel::UnbalancedTree {
            position: position as int,
        },
        CompileError::NoChildrenAllowed { position } => ErrModel::NoChildrenAllowed {
            position: position as int,
        },
        CompileError::MissingAttribute { attribute } => ErrModel::MissingAttribute {
            attribute: attribute@,
        },
        CompileError::UnknownEnumValue { attribute, value } => ErrModel::UnknownEnumValue {
            attribute: attribute@,
            value: value@,
        },
        CompileError::InvalidLiteral { attribute } => ErrModel::InvalidLiteral {
            attribute: attribute@,
        },
        CompileError::InvalidExpression { attribute } => ErrModel::InvalidExpression {
            attribute: attribute@,
        },
        CompileError::RedundantSigil { attribute } => ErrModel::RedundantSigil {
            attribute: attribute@,
        },
        CompileError::MissingSizeAttribute { panel } => ErrModel::MissingSizeAttribute {
            panel: panel as int,
        },
        CompileError::MissingValueAttribute { panel } => ErrModel::MissingValueAttribute {
            panel: panel as int,
        },
    }
}

} // verus!
