use cargo_minify::unused::{
    kind_selected, Diagnostic, DiagnosticSpan, UnusedDiagnostic, UnusedDiagnosticKind,
};

fn span(file: &str) -> DiagnosticSpan {
    DiagnosticSpan {
        file_name: file.as_bytes().to_vec(),
        byte_start: 0,
        byte_end: 0,
        line_start: 1,
        line_end: 1,
        column_start: 1,
        column_end: 1,
        expansion: false,
    }
}

fn diag(message: &str) -> Diagnostic {
    Diagnostic {
        message: message.as_bytes().to_vec(),
        spans: vec![span("src/lib.rs")],
    }
}

fn parse(message: &str) -> Result<UnusedDiagnostic, ()> {
    UnusedDiagnostic::try_from(diag(message)).map_err(|_| ())
}

#[test]
fn recognizes_plain_kinds() {
    let u = parse("constant `FOO` is never used").unwrap();
    assert_eq!(u.kind, UnusedDiagnosticKind::Constant);
    assert_eq!(u.ident, b"FOO".to_vec());

    let u = parse("function `frobnicate` is never used").unwrap();
    assert_eq!(u.kind, UnusedDiagnosticKind::Function);
    assert_eq!(u.ident, b"frobnicate".to_vec());

    let u = parse("static `CACHE` is never used").unwrap();
    assert_eq!(u.kind, UnusedDiagnosticKind::Static);

    let u = parse("enum `Color` is never used").unwrap();
    assert_eq!(u.kind, UnusedDiagnosticKind::Enum);

    let u = parse("union `Bits` is never used").unwrap();
    assert_eq!(u.kind, UnusedDiagnosticKind::Union);
}

#[test]
fn struct_takes_the_constructed_suffix() {
    let u = parse("struct `Widget` is never constructed").unwrap();
    assert_eq!(u.kind, UnusedDiagnosticKind::Struct);
    assert_eq!(u.ident, b"Widget".to_vec());
    assert!(parse("struct `Widget` is never used").is_err());
    assert!(parse("constant `FOO` is never constructed").is_err());
}

#[test]
fn kind_specific_infixes_are_required() {
    let u = parse("type alias `Meters` is never used").unwrap();
    assert_eq!(u.kind, UnusedDiagnosticKind::TypeAlias);
    assert_eq!(u.ident, b"Meters".to_vec());
    assert!(parse("type `Meters` is never used").is_err());

    let u = parse("associated function `new` is never used").unwrap();
    assert_eq!(u.kind, UnusedDiagnosticKind::AssociatedFunction);
    assert_eq!(u.ident, b"new".to_vec());
    assert!(parse("associated `new` is never used").is_err());
}

#[test]
fn macro_definitions_use_the_unused_prefix() {
    let u = parse("unused macro definition: `my_macro`").unwrap();
    assert_eq!(u.kind, UnusedDiagnosticKind::MacroDefinition);
    assert_eq!(u.ident, b"my_macro".to_vec());
    assert!(parse("macro definition `my_macro` is never used").is_err());
    assert!(parse("unused macro definition: `my_macro` trailing").is_err());
    assert!(parse("unused variable: `x`").is_err());
}

#[test]
fn unrecognized_messages_fail_closed() {
    assert!(parse("borrow of moved value: `x`").is_err());
    assert!(parse("constant FOO is never used").is_err());
    assert!(parse("constant").is_err());
    assert!(parse("").is_err());
    let no_spans = Diagnostic {
        message: b"constant `FOO` is never used".to_vec(),
        spans: vec![],
    };
    assert!(UnusedDiagnostic::try_from(no_spans).is_err());
}

#[test]
fn kind_lookup_ignores_case_and_punctuation() {
    assert_eq!(
        UnusedDiagnosticKind::from_str(b"Constant,").unwrap(),
        UnusedDiagnosticKind::Constant
    );
    assert_eq!(
        UnusedDiagnosticKind::from_str(b"TYPEALIAS").unwrap(),
        UnusedDiagnosticKind::TypeAlias
    );
    assert_eq!(
        UnusedDiagnosticKind::from_str(b"macro").unwrap(),
        UnusedDiagnosticKind::MacroDefinition
    );
    assert!(UnusedDiagnosticKind::from_str(b"variable").is_err());
}

#[test]
fn kind_lookup_fails_closed_on_non_ascii_words() {
    // bytes outside ASCII are kept by the lookup's normalization, so a kind
    // word carrying any never matches
    assert!(UnusedDiagnosticKind::from_str("type\u{00BD}".as_bytes()).is_err());
    assert!(UnusedDiagnosticKind::from_str("function\u{00AB}".as_bytes()).is_err());
    assert!(parse("type\u{00BD} `Meters` is never used").is_err());
}

#[test]
fn first_span_is_taken() {
    let d = Diagnostic {
        message: b"function `f` is never used".to_vec(),
        spans: vec![span("a.rs"), span("b.rs")],
    };
    let u = UnusedDiagnostic::try_from(d).unwrap();
    assert_eq!(u.span.file_name, b"a.rs".to_vec());
}

#[test]
fn empty_kind_filter_admits_everything() {
    let none: Vec<UnusedDiagnosticKind> = vec![];
    assert!(kind_selected(&none, &UnusedDiagnosticKind::Constant));
    let some = vec![UnusedDiagnosticKind::Function, UnusedDiagnosticKind::Enum];
    assert!(kind_selected(&some, &UnusedDiagnosticKind::Enum));
    assert!(!kind_selected(&some, &UnusedDiagnosticKind::Constant));
}
