//! The structural view of a source buffer: the buffer is parsed by the `syn`
//! crate, and the parsed items are converted into plain records — kind,
//! identifier bytes, line/column span, members — that the verified
//! resolution and cleanup logic works on.

use vstd::prelude::*;
use syn::spanned::Spanned;

verus! {

use vstd::slice::slice_to_vec;

/// The category of one top-level item, as far as the pruning engine cares.
#[derive(Clone, Copy, Debug, PartialEq, Eq, Structural)]
pub enum ItemKind {
    Const,
    Enum,
    Fn,
    Macro,
    Static,
    Struct,
    TypeAlias,
    Union,
    Impl,
    ForeignMod,
    Other,
}

/// The category of a member of an implementation or external block.
#[derive(Clone, Copy, Debug, PartialEq, Eq, Structural)]
pub enum MemberKind {
    Const,
    Fn,
    Static,
    Type,
    Other,
}

/// A line/column span as the parser reports it: lines are 1-based, columns
/// are 0-based.
#[derive(Clone, Copy, Debug, PartialEq, Eq, Structural)]
pub struct LineColSpan {
    pub start_line: usize,
    pub start_col: usize,
    pub end_line: usize,
    pub end_col: usize,
}

/// One member of an implementation or external block.
#[derive(Debug)]
pub struct Member {
    pub kind: MemberKind,
    pub ident: Option<Vec<u8>>,
    pub span: LineColSpan,
}

/// One top-level item of the parsed buffer.  `has_attrs` and `has_trait` are
/// meaningful for implementation and external blocks, which also carry their
/// members; every other kind carries its own identifier.
#[derive(Debug)]
pub struct SourceItem {
    pub kind: ItemKind,
    pub ident: Option<Vec<u8>>,
    pub span: LineColSpan,
    pub has_attrs: bool,
    pub has_trait: bool,
    pub members: Vec<Member>,
}

/// The buffer failed to parse; deletion must not proceed on it.
#[derive(Debug)]
pub struct ParseError {
    pub message: String,
}

#[verifier::external_type_specification]
#[verifier::external_body]
pub struct ExSynFile(syn::File);

#[verifier::external_type_specification]
#[verifier::external_body]
pub struct ExSynItem(syn::Item);

#[verifier::external_type_specification]
#[verifier::external_body]
pub struct ExSynImplItem(syn::ImplItem);

#[verifier::external_type_specification]
#[verifier::external_body]
pub struct ExSynForeignItem(syn::ForeignItem);

/// Relies on String::from_utf8_lossy: bytes that are valid UTF-8 — in
/// particular, ASCII bytes — are kept unchanged.
#[verifier::external_body]
fn utf8_lossy(bytes: &[u8]) -> (s: String)
    ensures
        (forall|i: int| 0 <= i < bytes@.len() ==> bytes@[i] < 128) ==> s@ == bytes@.map_values(
            |b: u8| b as char,
        ),
{
    String::from_utf8_lossy(bytes).to_string()
}

/// Relies on syn::parse_str::<syn::File>: parses a whole source file, and
/// fails exactly when the text does not parse as a source file.
#[verifier::external_body]
fn parse_str_file(s: &str) -> (r: Result<syn::File, ParseError>) {
    match syn::parse_str::<syn::File>(s) {
        Ok(f) => Ok(f),
        Err(e) => Err(ParseError { message: e.to_string() }),
    }
}

/// Relies on the public `items` field of syn::File: the file's top-level
/// items in source order.
#[verifier::external_body]
fn file_items(f: syn::File) -> Vec<syn::Item> {
    f.items
}

/// Relies on the variants of syn::Item to classify one top-level item.
#[verifier::external_body]
fn item_kind(i: &syn::Item) -> ItemKind {
    match i {
        syn::Item::Const(_) => ItemKind::Const,
        syn::Item::Enum(_) => ItemKind::Enum,
        syn::Item::Fn(_) => ItemKind::Fn,
        syn::Item::Macro(_) => ItemKind::Macro,
        syn::Item::Static(_) => ItemKind::Static,
        syn::Item::Struct(_) => ItemKind::Struct,
        syn::Item::Type(_) => ItemKind::TypeAlias,
        syn::Item::Union(_) => ItemKind::Union,
        syn::Item::Impl(_) => ItemKind::Impl,
        syn::Item::ForeignMod(_) => ItemKind::ForeignMod,
        _ => ItemKind::Other,
    }
}

/// Relies on the `ident` fields of syn's item structs (via
/// proc_macro2::Ident's Display form): the item's name, when it has one.
#[verifier::external_body]
fn item_ident(i: &syn::Item) -> Option<String> {
    match i {
        syn::Item::Const(o) => Some(o.ident.to_string()),
        syn::Item::Enum(o) => Some(o.ident.to_string()),
        syn::Item::Fn(o) => Some(o.sig.ident.to_string()),
        syn::Item::Macro(o) => o.ident.as_ref().map(|x| x.to_string()),
        syn::Item::Static(o) => Some(o.ident.to_string()),
        syn::Item::Struct(o) => Some(o.ident.to_string()),
        syn::Item::Type(o) => Some(o.ident.to_string()),
        syn::Item::Union(o) => Some(o.ident.to_string()),
        _ => None,
    }
}

/// Relies on syn::spanned::Spanned::span and proc_macro2::Span::start/end
/// (with real positions from the span-locations feature): the item's
/// 1-based start/end line and 0-based start/end column.
#[verifier::external_body]
fn item_span(i: &syn::Item) -> (usize, usize, usize, usize) {
    let sp = i.span();
    (sp.start().line, sp.start().column, sp.end().line, sp.end().column)
}

/// Relies on the public fields of syn::ItemImpl: whether the block carries
/// attributes, whether it implements a named trait, and its members.
#[verifier::external_body]
fn impl_parts(i: &syn::Item) -> Option<(bool, bool, Vec<syn::ImplItem>)> {
    match i {
        syn::Item::Impl(b) => Some((!b.attrs.is_empty(), b.trait_.is_some(), b.items.clone())),
        _ => None,
    }
}

/// Relies on the public fields of syn::ItemForeignMod: whether the block
/// carries attributes, and its members.
#[verifier::external_body]
fn foreign_parts(i: &syn::Item) -> Option<(bool, Vec<syn::ForeignItem>)> {
    match i {
        syn::Item::ForeignMod(b) => Some((!b.attrs.is_empty(), b.items.clone())),
        _ => None,
    }
}

/// Relies on the variants of syn::ImplItem, their `ident` fields, and
/// Spanned::span: one impl member's kind, name, and span.
#[verifier::external_body]
fn impl_member_info(m: &syn::ImplItem) -> (MemberKind, Option<String>, (usize, usize, usize, usize)) {
    let sp = m.span();
    let lc = (sp.start().line, sp.start().column, sp.end().line, sp.end().column);
    match m {
        syn::ImplItem::Const(o) => (MemberKind::Const, Some(o.ident.to_string()), lc),
        syn::ImplItem::Fn(o) => (MemberKind::Fn, Some(o.sig.ident.to_string()), lc),
        syn::ImplItem::Type(o) => (MemberKind::Type, Some(o.ident.to_string()), lc),
        _ => (MemberKind::Other, None, lc),
    }
}

/// Relies on the variants of syn::ForeignItem, their `ident` fields, and
/// Spanned::span: one external-block member's kind, name, and span.
#[verifier::external_body]
fn foreign_member_info(m: &syn::ForeignItem) -> (
    MemberKind,
    Option<String>,
    (usize, usize, usize, usize),
) {
    let sp = m.span();
    let lc = (sp.start().line, sp.start().column, sp.end().line, sp.end().column);
    match m {
        syn::ForeignItem::Fn(o) => (MemberKind::Fn, Some(o.sig.ident.to_string()), lc),
        syn::ForeignItem::Static(o) => (MemberKind::Static, Some(o.ident.to_string()), lc),
        syn::ForeignItem::Type(o) => (MemberKind::Type, Some(o.ident.to_string()), lc),
        _ => (MemberKind::Other, None, lc),
    }
}

fn ident_bytes(id: Option<String>) -> Option<Vec<u8>> {
    match id {
        Some(s) => Some(slice_to_vec(s.as_str().as_bytes())),
        None => None,
    }
}

fn to_span(t: (usize, usize, usize, usize)) -> LineColSpan {
    LineColSpan { start_line: t.0, start_col: t.1, end_line: t.2, end_col: t.3 }
}

fn convert_impl_members(ms: &Vec<syn::ImplItem>) -> Vec<Member> {
    let mut out: Vec<Member> = Vec::new();
    let mut i: usize = 0;
    while i < ms.len()
        decreases ms@.len() - i,
    {
        let (kind, id, sp) = impl_member_info(&ms[i]);
        out.push(Member { kind, ident: ident_bytes(id), span: to_span(sp) });
        i += 1;
    }
    out
}

fn convert_foreign_members(ms: &Vec<syn::ForeignItem>) -> Vec<Member> {
    let mut out: Vec<Member> = Vec::new();
    let mut i: usize = 0;
    while i < ms.len()
        decreases ms@.len() - i,
    {
        let (kind, id, sp) = foreign_member_info(&ms[i]);
        out.push(Member { kind, ident: ident_bytes(id), span: to_span(sp) });
        i += 1;
    }
    out
}

/// The item records of the parse of a buffer, when the buffer parses as a
/// source file; `None` when it does not.  Parsing is a function of the bytes
/// alone — `syn` consults nothing else, and span locations are deterministic
/// with the span-locations feature — so the result carries a name, and every
/// contract downstream of the parse is stated over it.
pub uninterp spec fn parsed_items_of(s: Seq<u8>) -> Option<Seq<SourceItem>>;

/// Parses a source buffer into the plain item records the resolution and
/// cleanup logic works on.  Relies on String::from_utf8_lossy and
/// syn::parse_str::<syn::File> (through the wrappers above): the body is the
/// parse plus the one-for-one conversion of each parsed item, and its result
/// is what `parsed_items_of` names — it succeeds exactly when the buffer
/// parses.
#[verifier::external_body]
pub(crate) fn parse_source(src: &[u8]) -> (r: Result<Vec<SourceItem>, ParseError>)
    ensures
        r matches Ok(v) ==> parsed_items_of(src@) == Some(v@),
        r matches Err(_) ==> parsed_items_of(src@) is None,
{
    let text = utf8_lossy(src);
    match parse_str_file(text.as_str()) {
        Ok(f) => Ok(file_items(f).iter().map(convert_item).collect()),
        Err(e) => Err(e),
    }
}

/// Converts one parsed item to its plain record, through the field readers
/// above; for implementation and external blocks the members are converted
/// one for one as well.
#[verifier::external_body]
fn convert_item(i: &syn::Item) -> SourceItem {
    let (has_attrs, has_trait, members) = match (impl_parts(i), foreign_parts(i)) {
        (Some((a, t, ms)), _) => (a, t, convert_impl_members(&ms)),
        (_, Some((a2, ms2))) => (a2, false, convert_foreign_members(&ms2)),
        _ => (false, false, Vec::new()),
    };
    SourceItem {
        kind: item_kind(i),
        ident: ident_bytes(item_ident(i)),
        span: to_span(item_span(i)),
        has_attrs,
        has_trait,
        members,
    }
}

} // verus!
