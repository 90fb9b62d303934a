use crate::tag::Span;
use vstd::prelude::*;

verus! {

/// The error taxonomy of the engine.
///
/// `LabeledError` reports a user-facing evaluation mistake (wrong argument
/// shape, malformed block, missing condition) with a message, a short label
/// and the offending source span. `CoercionError` reports an arithmetic or
/// comparison type mismatch with both operand type descriptions and spans.
/// `UnimplementedError` marks a code path that is deliberately not built.
#[derive(Debug)]
pub enum ShellError {
    LabeledError { msg: String, label: String, span: Span },
    CoercionError { left: String, left_span: Span, right: String, right_span: Span },
    UnimplementedError { reason: String },
}

/// The mathematical content of a `ShellError`.
pub enum ErrV {
    Labeled { msg: Seq<char>, label: Seq<char>, span: Span },
    Coercion { left: Seq<char>, left_span: Span, right: Seq<char>, right_span: Span },
    Unimplemented { reason: Seq<char> },
}

impl View for ShellError {
    type V = ErrV;

    open spec fn view(&self) -> ErrV {
        match self {
            ShellError::LabeledError { msg, label, span } => ErrV::Labeled {
                msg: msg@,
                label: label@,
                span: *span,
            },
            ShellError::CoercionError { left, left_span, right, right_span } => ErrV::Coercion {
                left: left@,
                left_span: *left_span,
                right: right@,
                right_span: *right_span,
            },
            ShellError::UnimplementedError { reason } => ErrV::Unimplemented { reason: reason@ },
        }
    }
}

pub open spec fn labeled_err(msg: Seq<char>, label: Seq<char>, span: Span) -> ErrV {
    ErrV::Labeled { msg, label, span }
}

pub open spec fn coercion_err(
    left: Seq<char>,
    left_span: Span,
    right: Seq<char>,
    right_span: Span,
) -> ErrV {
    ErrV::Coercion { left, left_span, right, right_span }
}

impl ShellError {
    pub fn labeled_error(msg: &str, label: &str, span: Span) -> (r: ShellError)
        ensures
            r@ == labeled_err(msg@, label@, span),
    {
        ShellError::LabeledError { msg: msg.to_owned(), label: label.to_owned(), span }
    }

    pub fn coerce_error(left: &str, left_span: Span, right: &str, right_span: Span) -> (r:
        ShellError)
        ensures
            r@ == coercion_err(left@, left_span, right@, right_span),
    {
        ShellError::CoercionError {
            left: left.to_owned(),
            left_span,
            right: right.to_owned(),
            right_span,
        }
    }

    pub fn unimplemented(reason: &str) -> (r: ShellError)
        ensures
            r@ == (ErrV::Unimplemented { reason: reason@ }),
    {
        ShellError::UnimplementedError { reason: reason.to_owned() }
    }

    pub fn duplicate(&self) -> (r: ShellError)
        ensures
            r@ == self@,
    {
        match self {
            ShellError::LabeledError { msg, label, span } => ShellError::LabeledError {
                msg: msg.clone(),
                label: label.clone(),
                span: *span,
            },
            ShellError::CoercionError { left, left_span, right, right_span } =>
                ShellError::CoercionError {
                left: left.clone(),
                left_span: *left_span,
                right: right.clone(),
                right_span: *right_span,
            },
            ShellError::UnimplementedError { reason } => ShellError::UnimplementedError {
                reason: reason.clone(),
            },
        }
    }

    /// Structural equality of two errors.
    pub fn same_error(&self, other: &ShellError) -> (r: bool)
        ensures
            r == (self@ == other@),
    {
        match (self, other) {
            (
                ShellError::LabeledError { msg, label, span },
                ShellError::LabeledError { msg: m2, label: l2, span: s2 },
            ) => *msg == *m2 && *label == *l2 && *span == *s2,
            (
                ShellError::CoercionError { left, left_span, right, right_span },
                ShellError::CoercionError {
                    left: ol,
                    left_span: ols,
                    right: or_,
                    right_span: ors,
                },
            ) => *left == *ol && *left_span == *ols && *right == *or_ && *right_span == *ors,
            (
                ShellError::UnimplementedError { reason },
                ShellError::UnimplementedError { reason: r2 },
            ) => *reason == *r2,
            _ => false,
        }
    }

    /// A human-readable description, used by unverified front ends.
    pub fn message(&self) -> &String {
        match self {
            ShellError::LabeledError { msg, .. } => msg,
            ShellError::CoercionError { left, .. } => left,
            ShellError::UnimplementedError { reason } => reason,
        }
    }
}

} // verus!
