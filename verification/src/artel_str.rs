//! Rendering of the syntax nodes as Artel source text.

use vstd::prelude::*;

verus! {

/// Something that can be written out as Artel text at an indentation level.
pub trait ArtelStr {
    /// Whether rendering at `ident_level` succeeds.
    spec fn artel_ready(&self, ident_level: usize) -> bool;

    /// The text rendered at `ident_level`.
    spec fn artel_text(&self, ident_level: usize) -> Seq<char>;

    fn artel_str(&self, ident_level: usize) -> (r: String)
        requires
            self.artel_ready(ident_level),
        ensures
            r@ == self.artel_text(ident_level),
    ;
}

} // verus!
