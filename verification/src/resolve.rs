//! The one contract both span-resolution strategies answer: a selector —
//! either a byte offset seeded inside the target identifier, or the
//! definition's kind and identifier — resolves to the definition's byte
//! range, or fails with `Unresolvable`.

use vstd::prelude::*;

verus! {

use crate::cauterize::{
    ByteRange,
    line_offsets,
    line_offsets_spec,
    resolve_selector,
    span_to_range,
};
use crate::lexical::{lexical_resolve, lexical_resolve_spec};
use crate::syntax::{parse_source, parsed_items_of, ParseError};
use crate::unused::UnusedDiagnosticKind;

/// One resolution request: a byte offset inside the target identifier (for
/// the lexical strategy), or the definition's kind and identifier (for the
/// structural strategy).
#[derive(Debug)]
pub enum Selector {
    Seed(usize),
    Named(UnusedDiagnosticKind, Vec<u8>),
}

/// Resolution found no byte range: nothing in the buffer answers to the
/// selector, or the structural strategy could not parse the buffer.
#[derive(Debug)]
pub enum Unresolvable {
    NoMatch,
    Parse(ParseError),
}

/// Resolves one selector against a buffer, with the strategy the selector
/// calls for: a seed is scanned lexically, a kind/identifier pair is looked
/// up in the parsed items.  Fails closed: a selector that names nothing in
/// the buffer resolves to no range.
pub fn resolve(src: &[u8], selector: &Selector) -> (r: Result<ByteRange, Unresolvable>)
    requires
        selector matches Selector::Seed(seed) ==> seed <= src@.len(),
    ensures
        selector matches Selector::Seed(seed) ==> match r {
            Ok(br) => lexical_resolve_spec(src@, seed as int) == Some(br),
            Err(e) => e is NoMatch && lexical_resolve_spec(src@, seed as int) is None,
        },
        selector matches Selector::Named(kind, ident) ==> match parsed_items_of(src@) {
            None => r matches Err(e) && e is Parse,
            Some(items) => match resolve_selector(items, *kind, ident@, 0) {
                Some(sp) => match span_to_range(line_offsets_spec(src@), sp, src@.len() as int) {
                    Some(br) => r matches Ok(out) && out == br,
                    None => r matches Err(e) && e is NoMatch,
                },
                None => r matches Err(e) && e is NoMatch,
            },
        },
{
    match selector {
        Selector::Seed(seed) => match lexical_resolve(src, *seed) {
            Some(br) => Ok(br),
            None => Err(Unresolvable::NoMatch),
        },
        Selector::Named(kind, ident) => {
            let items = match parse_source(src) {
                Ok(items) => items,
                Err(e) => {
                    return Err(Unresolvable::Parse(e));
                },
            };
            let offsets = line_offsets(src);
            match crate::cauterize::resolve_named(&items, &offsets, kind, ident.as_slice(), src.len()) {
                Some(br) => Ok(br),
                None => Err(Unresolvable::NoMatch),
            }
        },
    }
}

} // verus!
