//! The diagnostic normalizer: free-text compiler messages are parsed into
//! `{kind, identifier, span}` records, and anything that does not match a
//! known dead-code template is rejected.

use vstd::prelude::*;

verus! {

use vstd::string::StringSliceAdditionalSpecFns;
use vstd::slice::slice_to_vec;
use crate::text::{find_from_spec, find_byte_from, token_is};

/// The closed set of definition categories the pruning engine understands.
#[derive(Clone, Copy, Debug, PartialEq, Eq, Structural)]
pub enum UnusedDiagnosticKind {
    Constant,
    Static,
    Function,
    Struct,
    Enum,
    Union,
    TypeAlias,
    AssociatedFunction,
    MacroDefinition,
}

/// One source location reported by a diagnostic.  `expansion` records whether
/// the span originates from macro-generated text, which has no literal byte
/// range in the original source.
#[derive(Debug, PartialEq, Eq)]
pub struct DiagnosticSpan {
    pub file_name: Vec<u8>,
    pub byte_start: u32,
    pub byte_end: u32,
    pub line_start: usize,
    pub line_end: usize,
    pub column_start: usize,
    pub column_end: usize,
    pub expansion: bool,
}

/// A raw compiler diagnostic: its message text and its spans.
#[derive(Debug, PartialEq, Eq)]
pub struct Diagnostic {
    pub message: Vec<u8>,
    pub spans: Vec<DiagnosticSpan>,
}

/// A diagnostic recognized as a dead-code report: what kind of definition is
/// unused, its identifier, and where it stands.
#[derive(Debug, PartialEq, Eq)]
pub struct UnusedDiagnostic {
    pub kind: UnusedDiagnosticKind,
    pub ident: Vec<u8>,
    pub span: DiagnosticSpan,
}

/// The rejection value for messages that match no dead-code template.
#[derive(Clone, Copy, Debug, PartialEq, Eq)]
pub struct NotUnusedDiagnostic;

impl NotUnusedDiagnostic {
    /// A short description, for display by callers.
    pub fn message(&self) -> (r: String)
        ensures
            r@ == "not an unused-diagnostic"@,
    {
        "not an unused-diagnostic".to_owned()
    }
}

/// ASCII letters and digits, the bytes the kind lookup keeps.
pub open spec fn is_ascii_alnum(b: u8) -> bool {
    (48 <= b <= 57) || (65 <= b <= 90) || (97 <= b <= 122)
}

/// ASCII lowercasing of one byte.
pub open spec fn to_lower(b: u8) -> u8 {
    if 65 <= b <= 90 {
        (b + 32) as u8
    } else {
        b
    }
}

/// The first `n` bytes of `s`, stripped of ASCII punctuation and lowercased.
/// Bytes outside ASCII are kept as they are, so a word that carries any is
/// no known kind word and the lookup fails closed.
pub open spec fn normalize_upto(s: Seq<u8>, n: int) -> Seq<u8>
    decreases n,
{
    if n <= 0 {
        Seq::empty()
    } else {
        let p = normalize_upto(s, n - 1);
        if is_ascii_alnum(s[n - 1]) || s[n - 1] >= 128 {
            p.push(to_lower(s[n - 1]))
        } else {
            p
        }
    }
}

/// The punctuation-stripped, lowercased form of a kind word.
pub open spec fn normalize_spec(s: Seq<u8>) -> Seq<u8> {
    normalize_upto(s, s.len() as int)
}

/// The kind named by a word, after case-insensitive, punctuation-stripped
/// lookup; `None` when the word names no kind.
pub open spec fn kind_from_str_spec(s: Seq<u8>) -> Option<UnusedDiagnosticKind> {
    let n = normalize_spec(s);
    if n == "constant".spec_bytes() {
        Some(UnusedDiagnosticKind::Constant)
    } else if n == "static".spec_bytes() {
        Some(UnusedDiagnosticKind::Static)
    } else if n == "function".spec_bytes() {
        Some(UnusedDiagnosticKind::Function)
    } else if n == "struct".spec_bytes() {
        Some(UnusedDiagnosticKind::Struct)
    } else if n == "enum".spec_bytes() {
        Some(UnusedDiagnosticKind::Enum)
    } else if n == "union".spec_bytes() {
        Some(UnusedDiagnosticKind::Union)
    } else if n == "type".spec_bytes() || n == "typealias".spec_bytes() {
        Some(UnusedDiagnosticKind::TypeAlias)
    } else if n == "associated".spec_bytes() || n == "associatedfunction".spec_bytes() {
        Some(UnusedDiagnosticKind::AssociatedFunction)
    } else if n == "macro".spec_bytes() || n == "macrodefinition".spec_bytes() {
        Some(UnusedDiagnosticKind::MacroDefinition)
    } else {
        None
    }
}

impl UnusedDiagnosticKind {
    /// Parses a kind word such as `constant` or `type alias` (given as its
    /// first token), ignoring case and ASCII punctuation; a word carrying
    /// bytes outside ASCII matches nothing.
    pub fn from_str(s: &[u8]) -> (r: Result<UnusedDiagnosticKind, NotUnusedDiagnostic>)
        ensures
            match r {
                Ok(kind) => kind_from_str_spec(s@) == Some(kind),
                Err(_) => kind_from_str_spec(s@) is None,
            },
    {
        let mut n: Vec<u8> = Vec::new();
        let mut i: usize = 0;
        while i < s.len()
            invariant
                0 <= i <= s@.len(),
                n@ == normalize_upto(s@, i as int),
            decreases s@.len() - i,
        {
            let b = s[i];
            if (48 <= b && b <= 57) || (97 <= b && b <= 122) || b >= 128 {
                n.push(b);
            } else if 65 <= b && b <= 90 {
                n.push(b + 32);
            }
            i += 1;
        }
        let ns = n.as_slice();
        if token_is(ns, "constant") {
            Ok(UnusedDiagnosticKind::Constant)
        } else if token_is(ns, "static") {
            Ok(UnusedDiagnosticKind::Static)
        } else if token_is(ns, "function") {
            Ok(UnusedDiagnosticKind::Function)
        } else if token_is(ns, "struct") {
            Ok(UnusedDiagnosticKind::Struct)
        } else if token_is(ns, "enum") {
            Ok(UnusedDiagnosticKind::Enum)
        } else if token_is(ns, "union") {
            Ok(UnusedDiagnosticKind::Union)
        } else if token_is(ns, "type") || token_is(ns, "typealias") {
            Ok(UnusedDiagnosticKind::TypeAlias)
        } else if token_is(ns, "associated") || token_is(ns, "associatedfunction") {
            Ok(UnusedDiagnosticKind::AssociatedFunction)
        } else if token_is(ns, "macro") || token_is(ns, "macrodefinition") {
            Ok(UnusedDiagnosticKind::MacroDefinition)
        } else {
            Err(NotUnusedDiagnostic)
        }
    }
}

/// Splits at the first space: the part before it and the part after it;
/// `None` when the sequence holds no space.
pub open spec fn split_first_space(s: Seq<u8>) -> Option<(Seq<u8>, Seq<u8>)> {
    let i = find_from_spec(s, 32, 0);
    if i == s.len() {
        None
    } else {
        Some((s.take(i), s.skip(i + 1)))
    }
}

/// Splits at the first space, keeping everything when there is none
/// (the remainder is then empty).
pub open spec fn split_first_space_or_all(s: Seq<u8>) -> (Seq<u8>, Seq<u8>) {
    let i = find_from_spec(s, 32, 0);
    if i == s.len() {
        (s, Seq::empty())
    } else {
        (s.take(i), s.skip(i + 1))
    }
}

/// The identifier inside one pair of backticks, or `None` when the token is
/// not backtick-delimited.
pub open spec fn backtick_ident(t: Seq<u8>) -> Option<Seq<u8>> {
    if t.len() >= 2 && t[0] == 96 && t[t.len() - 1] == 96 {
        Some(t.subrange(1, t.len() - 1))
    } else {
        None
    }
}

/// The kind-specific extra word that must follow the kind word, consumed:
/// `alias` for a type alias, `function` for an associated function.  A macro
/// definition never matches this message form.
pub open spec fn strip_infix(kind: UnusedDiagnosticKind, m: Seq<u8>) -> Option<Seq<u8>> {
    match kind {
        UnusedDiagnosticKind::TypeAlias => match split_first_space(m) {
            Some(p) => if p.0 == "alias".spec_bytes() {
                Some(p.1)
            } else {
                None
            },
            None => None,
        },
        UnusedDiagnosticKind::AssociatedFunction => match split_first_space(m) {
            Some(p) => if p.0 == "function".spec_bytes() {
                Some(p.1)
            } else {
                None
            },
            None => None,
        },
        UnusedDiagnosticKind::MacroDefinition => None,
        _ => Some(m),
    }
}

/// The exact message suffix each kind requires.
pub open spec fn suffix_spec(kind: UnusedDiagnosticKind) -> Seq<u8> {
    if kind == UnusedDiagnosticKind::Struct {
        "is never constructed".spec_bytes()
    } else {
        "is never used".spec_bytes()
    }
}

/// The message form that begins with the kind word itself: the kind-specific
/// infix, then the backticked identifier, then the exact suffix.
pub open spec fn parse_direct(kind: UnusedDiagnosticKind, rest: Seq<u8>) -> Option<Seq<u8>> {
    match strip_infix(kind, rest) {
        Some(m) => match split_first_space(m) {
            Some(p) => match backtick_ident(p.0) {
                Some(id) => if p.1 == suffix_spec(kind) {
                    Some(id)
                } else {
                    None
                },
                None => None,
            },
            None => None,
        },
        None => None,
    }
}

/// A kind word with one trailing colon removed.
pub open spec fn strip_colon(t: Seq<u8>) -> Seq<u8> {
    if t.len() > 0 && t[t.len() - 1] == 58 {
        t.take(t.len() - 1)
    } else {
        t
    }
}

/// The message form that begins with a generic `unused` marker: only a macro
/// definition is reported this way, as
/// ``unused macro definition: `name` ``.
pub open spec fn parse_unused_prefixed(rest: Seq<u8>) -> Option<(UnusedDiagnosticKind, Seq<u8>)> {
    match split_first_space(rest) {
        Some(p) => match kind_from_str_spec(strip_colon(p.0)) {
            Some(kind) => if kind == UnusedDiagnosticKind::MacroDefinition {
                match split_first_space(p.1) {
                    Some(q) => if q.0 == "definition:".spec_bytes() {
                        let r = split_first_space_or_all(q.1);
                        match backtick_ident(r.0) {
                            Some(id) => if r.1.len() == 0 {
                                Some((kind, id))
                            } else {
                                None
                            },
                            None => None,
                        }
                    } else {
                        None
                    },
                    None => None,
                }
            } else {
                None
            },
            None => None,
        },
        None => None,
    }
}

/// What a whole diagnostic message means: the reported kind and identifier,
/// or `None` when the message matches no dead-code template.
pub open spec fn parse_message_spec(msg: Seq<u8>) -> Option<(UnusedDiagnosticKind, Seq<u8>)> {
    match split_first_space(msg) {
        Some(p) => match kind_from_str_spec(p.0) {
            Some(kind) => match parse_direct(kind, p.1) {
                Some(id) => Some((kind, id)),
                None => None,
            },
            None => if p.0 == "unused".spec_bytes() {
                parse_unused_prefixed(p.1)
            } else {
                None
            },
        },
        None => None,
    }
}

impl UnusedDiagnostic {
    /// Normalizes one raw diagnostic: succeeds exactly when the message
    /// matches a known dead-code template and the diagnostic carries at least
    /// one span; the first span is taken.
    pub fn try_from(value: Diagnostic) -> (r: Result<UnusedDiagnostic, NotUnusedDiagnostic>)
        ensures
            match r {
                Ok(u) => {
                    &&& parse_message_spec(value.message@) == Some((u.kind, u.ident@))
                    &&& value.spans@.len() > 0
                    &&& u.span == value.spans@[0]
                },
                Err(_) => parse_message_spec(value.message@) is None || value.spans@.len() == 0,
            },
    {
        let Diagnostic { message, mut spans } = value;
        let msg = message.as_slice();
        let i = find_byte_from(msg, 32, 0);
        if i == msg.len() {
            return Err(NotUnusedDiagnostic);
        }
        let first = &msg[0..i];
        let rest = &msg[i + 1..msg.len()];
        let parsed: (UnusedDiagnosticKind, Vec<u8>) = match UnusedDiagnosticKind::from_str(first) {
            Ok(kind) => {
                match Self::parse_direct_exec(kind, rest) {
                    Some(id) => (kind, id),
                    None => {
                        return Err(NotUnusedDiagnostic);
                    },
                }
            },
            Err(_) => {
                if !token_is(first, "unused") {
                    return Err(NotUnusedDiagnostic);
                }
                match Self::parse_unused_prefixed_exec(rest) {
                    Some(ki) => ki,
                    None => {
                        return Err(NotUnusedDiagnostic);
                    },
                }
            },
        };
        if spans.len() == 0 {
            return Err(NotUnusedDiagnostic);
        }
        let span = spans.remove(0);
        Ok(UnusedDiagnostic { kind: parsed.0, ident: parsed.1, span })
    }

    fn parse_direct_exec(kind: UnusedDiagnosticKind, rest: &[u8]) -> (r: Option<Vec<u8>>)
        ensures
            match r {
                Some(id) => parse_direct(kind, rest@) == Some(id@),
                None => parse_direct(kind, rest@) is None,
            },
    {
        let m: &[u8] = match kind {
            UnusedDiagnosticKind::TypeAlias => {
                let j = find_byte_from(rest, 32, 0);
                if j == rest.len() {
                    return None;
                }
                if !token_is(&rest[0..j], "alias") {
                    return None;
                }
                &rest[j + 1..rest.len()]
            },
            UnusedDiagnosticKind::AssociatedFunction => {
                let j = find_byte_from(rest, 32, 0);
                if j == rest.len() {
                    return None;
                }
                if !token_is(&rest[0..j], "function") {
                    return None;
                }
                &rest[j + 1..rest.len()]
            },
            UnusedDiagnosticKind::MacroDefinition => {
                return None;
            },
            _ => rest,
        };
        let j2 = find_byte_from(m, 32, 0);
        if j2 == m.len() {
            return None;
        }
        let t = &m[0..j2];
        let tail = &m[j2 + 1..m.len()];
        if t.len() < 2 || t[0] != 96 || t[t.len() - 1] != 96 {
            return None;
        }
        let id = &t[1..t.len() - 1];
        let suffix_ok = if matches!(kind, UnusedDiagnosticKind::Struct) {
            token_is(tail, "is never constructed")
        } else {
            token_is(tail, "is never used")
        };
        if !suffix_ok {
            return None;
        }
        Some(slice_to_vec(id))
    }

    fn parse_unused_prefixed_exec(rest: &[u8]) -> (r: Option<(UnusedDiagnosticKind, Vec<u8>)>)
        ensures
            match r {
                Some(ki) => parse_unused_prefixed(rest@) == Some((ki.0, ki.1@)),
                None => parse_unused_prefixed(rest@) is None,
            },
    {
        let j = find_byte_from(rest, 32, 0);
        if j == rest.len() {
            return None;
        }
        let ktok = &rest[0..j];
        let m = &rest[j + 1..rest.len()];
        let ktok_stripped: &[u8] = if ktok.len() > 0 && ktok[ktok.len() - 1] == 58 {
            &ktok[0..ktok.len() - 1]
        } else {
            ktok
        };
        let kind = match UnusedDiagnosticKind::from_str(ktok_stripped) {
            Ok(kind) => kind,
            Err(_) => {
                return None;
            },
        };
        if !matches!(kind, UnusedDiagnosticKind::MacroDefinition) {
            return None;
        }
        let j2 = find_byte_from(m, 32, 0);
        if j2 == m.len() {
            return None;
        }
        if !token_is(&m[0..j2], "definition:") {
            return None;
        }
        let m2 = &m[j2 + 1..m.len()];
        let j3 = find_byte_from(m2, 32, 0);
        let idtok: &[u8] = if j3 == m2.len() {
            m2
        } else {
            &m2[0..j3]
        };
        let tail_len: usize = if j3 == m2.len() {
            0
        } else {
            m2.len() - (j3 + 1)
        };
        if idtok.len() < 2 || idtok[0] != 96 || idtok[idtok.len() - 1] != 96 {
            return None;
        }
        if tail_len != 0 {
            return None;
        }
        let id = &idtok[1..idtok.len() - 1];
        Some((kind, slice_to_vec(id)))
    }
}

/// True when the caller-supplied kind filter admits `kind`: an empty filter
/// admits every kind.
pub fn kind_selected(kinds: &[UnusedDiagnosticKind], kind: &UnusedDiagnosticKind) -> (r: bool)
    ensures
        r == (kinds@.len() == 0 || kinds@.contains(*kind)),
{
    if kinds.len() == 0 {
        return true;
    }
    let mut i: usize = 0;
    while i < kinds.len()
        invariant
            0 <= i <= kinds@.len(),
            forall|j: int| 0 <= j < i ==> kinds@[j] != *kind,
        decreases kinds@.len() - i,
    {
        if kinds[i] == *kind {
            assert(kinds@.contains(*kind)) by {
                assert(kinds@[i as int] == *kind);
            }
            return true;
        }
        i += 1;
    }
    assert(!kinds@.contains(*kind));
    false
}

} // verus!
