//! A source-to-source rewriter for closure capture lists.
//!
//! A closure may be annotated with a directive list, `#[closure(clone a,
//! ref b, weak c, ...)]`, naming how each externally defined variable is to
//! be captured: by clone, by reference, by move, or through a weak handle
//! with a chosen failure policy.  The rewriter finds every annotated closure
//! in an item, parses its directives, and replaces the closure with an
//! equivalent one: a block of prelude bindings in the enclosing scope, a
//! forced whole-value use for value captures, and a per-call upgrade
//! prologue for weak captures.  Errors never stop the traversal; they are
//! collected and emitted ahead of the rewritten item as inert markers.
//!
//! The rewriter works on its own model of the host language: plain tokens
//! ([`token`]), parsed directives ([`directive`]), generated fragments
//! ([`emit`]), per-site decisions ([`site`]) and the annotated item's
//! expression tree ([`tree`]).  The host toolchain's parser and printer
//! stand outside; they hand the model in and take it back out.  The
//! capability contracts for weak handles are in [`weak`].

use vstd::prelude::*;

pub mod directive;
pub mod emit;
pub mod site;
pub mod tree;
pub mod weak;

pub use weak::Downgrade;
pub use weak::Upgrade;
pub mod token;

verus! {

/// One diagnostic: the span of the offending fragment and a message for the
/// host toolchain.
#[derive(PartialEq, Eq, Debug)]
pub struct Diag {
    pub span: crate::token::SpanId,
    pub msg: String,
}

/// The mathematical value of a diagnostic.
pub ghost struct SDiag {
    pub span: crate::token::SpanId,
    pub msg: Seq<char>,
}

impl View for Diag {
    type V = SDiag;

    open spec fn view(&self) -> SDiag {
        SDiag { span: self.span, msg: self.msg@ }
    }
}

impl DeepView for Diag {
    type V = SDiag;

    open spec fn deep_view(&self) -> SDiag {
        self@
    }
}

/// The mathematical value of a diagnostic sequence.
pub open spec fn sdiags(ds: Seq<Diag>) -> Seq<SDiag> {
    Seq::new(ds.len(), |i: int| ds[i]@)
}

} // verus!
