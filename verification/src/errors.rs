//! What is reported of a declaration list: each item that contributes
//! nothing to the block, with its place and a message.

use vstd::prelude::*;
use vstd::string::*;
use crate::syntax::SourceLocation;

verus! {

/// Why an item of a declaration list contributes nothing.
#[derive(Clone, Copy, Debug, PartialEq, Eq, Structural)]
pub enum CssErrorKind {
    UnsupportedAtRule,
    UnknownProperty,
    ExperimentalProperty,
    InvalidValue,
}

/// One report: where the item stands, why it was passed over, and the
/// message for whoever reads the log.
#[derive(Clone, Debug, PartialEq, Eq)]
pub struct CssError {
    pub location: SourceLocation,
    pub kind: CssErrorKind,
    pub message: String,
}

/// A `CssError` with its message as a sequence of characters.
pub struct CssErrorView {
    pub location: SourceLocation,
    pub kind: CssErrorKind,
    pub message: Seq<char>,
}

impl View for CssError {
    type V = CssErrorView;

    open spec fn view(&self) -> CssErrorView {
        CssErrorView { location: self.location, kind: self.kind, message: self.message@ }
    }
}

/// The reports of a log, each by its view.
pub open spec fn errors_view(log: Seq<CssError>) -> Seq<CssErrorView> {
    log.map_values(|error: CssError| error@)
}

/// How the message for each kind of report begins.
pub open spec fn message_prefix(kind: CssErrorKind) -> Seq<char> {
    match kind {
        CssErrorKind::UnsupportedAtRule => "Unsupported at-rule in declaration list: @"@,
        CssErrorKind::UnknownProperty => "Unsupported property: "@,
        CssErrorKind::ExperimentalProperty =>
            "Experimental property, use `servo --enable_experimental` or `servo -e` to enable: "@,
        CssErrorKind::InvalidValue => "Invalid value: "@,
    }
}

/// The message about an at-rule: the prefix, then the rule's name.
pub open spec fn at_rule_message(name: Seq<char>) -> Seq<char> {
    message_prefix(CssErrorKind::UnsupportedAtRule) + name
}

/// The message about a declaration: the prefix of its kind, the property
/// name, a colon, and the value as it was written.
pub open spec fn declaration_message(kind: CssErrorKind, name: Seq<char>, value: Seq<char>) -> Seq<
    char,
> {
    message_prefix(kind) + name + ":"@ + value
}

fn prefix_of(kind: CssErrorKind) -> (prefix: &'static str)
    ensures
        prefix@ == message_prefix(kind),
{
    match kind {
        CssErrorKind::UnsupportedAtRule => "Unsupported at-rule in declaration list: @",
        CssErrorKind::UnknownProperty => "Unsupported property: ",
        CssErrorKind::ExperimentalProperty =>
            "Experimental property, use `servo --enable_experimental` or `servo -e` to enable: ",
        CssErrorKind::InvalidValue => "Invalid value: ",
    }
}

/// Reports an at-rule among declarations.
pub fn at_rule_error(location: SourceLocation, name: &str) -> (error: CssError)
    ensures
        error@ == (CssErrorView {
            location,
            kind: CssErrorKind::UnsupportedAtRule,
            message: at_rule_message(name@),
        }),
{
    let mut message = String::from_str(prefix_of(CssErrorKind::UnsupportedAtRule));
    message.append(name);
    CssError { location, kind: CssErrorKind::UnsupportedAtRule, message }
}

/// Reports a declaration that contributes nothing.
pub fn declaration_error(
    location: SourceLocation,
    kind: CssErrorKind,
    name: &str,
    value: &str,
) -> (error: CssError)
    ensures
        error@ == (CssErrorView {
            location,
            kind,
            message: declaration_message(kind, name@, value@),
        }),
{
    let mut message = String::from_str(prefix_of(kind));
    message.append(name);
    message.append(":");
    message.append(value);
    CssError { location, kind, message }
}

} // verus!
