use cargo_minify::cauterize::{
    expand_ranges_to_include_whitespace, find_prefix_whitespace, find_suffix_whitespace,
    group_by_file, line_offsets, process_buffer, remove_empty_blocks, Change, ByteRange,
};
use cargo_minify::lexical::{lexical_delete, lexical_resolve};
use cargo_minify::resolve::{resolve, Selector, Unresolvable};
use cargo_minify::unused::{Diagnostic, DiagnosticSpan, UnusedDiagnostic, UnusedDiagnosticKind};

fn assoc(name: &str) -> (UnusedDiagnosticKind, Vec<u8>) {
    (
        UnusedDiagnosticKind::AssociatedFunction,
        name.as_bytes().to_vec(),
    )
}

#[test]
fn empty_impl_block_is_removed_after_sole_method_deletion() {
    let src = b"struct S;\nimpl S {\n    fn unused_method(&self) {}\n}\n";
    let out = process_buffer(src, &vec![assoc("unused_method")]).unwrap();
    assert_eq!(out, b"struct S;\n\n");
}

#[test]
fn empty_trait_impl_block_is_kept() {
    let src = b"struct S;\ntrait T { fn m(&self); }\nimpl T for S {\n    fn m(&self) {}\n}\n";
    let out = process_buffer(src, &vec![assoc("m")]).unwrap();
    assert_eq!(out, b"struct S;\ntrait T { fn m(&self); }\nimpl T for S {\n}\n");
}

#[test]
fn cleanup_leaves_populated_and_attributed_blocks_alone() {
    let src = b"struct S;\nimpl S {\n    fn keep(&self) {}\n}\n";
    let out = remove_empty_blocks(src).unwrap();
    assert_eq!(out, src);

    let attributed = b"struct S;\n#[cfg(test)]\nimpl S {}\n";
    let out = remove_empty_blocks(attributed).unwrap();
    assert_eq!(out, attributed);

    let bare = b"struct S;\nimpl S {}\n";
    let out = remove_empty_blocks(bare).unwrap();
    assert_eq!(out, b"struct S;\n\n");
}

#[test]
fn lexical_seed_deletion() {
    let src = b"fn foo(); fn foo -> huk { barf; } constant FOO: i32 = 42;";
    //          0123456789012345678901234567890123456789
    // seed 13 lies inside the identifier of the second definition
    let out = lexical_delete(src, &vec![13]);
    assert_eq!(out, b"fn foo(); constant FOO: i32 = 42;");
}

#[test]
fn lexical_resolution_finds_statement_and_block_ends() {
    let src = b"fn foo(); fn foo -> huk { barf; } constant FOO: i32 = 42;";
    assert_eq!(
        lexical_resolve(src, 3),
        Some(ByteRange { start: 0, end: 9 })
    );
    assert_eq!(
        lexical_resolve(src, 13),
        Some(ByteRange { start: 10, end: 33 })
    );
    // a brace inside a string literal does not end the block
    let tricky = b"fn f() { let s = \"}\"; g(); } fn h() {}";
    assert_eq!(
        lexical_resolve(tricky, 3),
        Some(ByteRange { start: 0, end: 28 })
    );
    // a backslash-escaped quote does not close the literal, so the brace
    // after it stays inert
    let escaped = b"fn f() { let s = \"a\\\"}\"; g(); } fn h() {}";
    assert_eq!(
        lexical_resolve(escaped, 3),
        Some(ByteRange { start: 0, end: 31 })
    );
    // no terminator at all: resolution fails closed
    assert_eq!(lexical_resolve(b"fn foo() { bar(", 3), None);
}

#[test]
fn full_pipeline_round_trip_on_clean_buffer() {
    let src = b"fn keep() {}\nstruct S;\nimpl S {\n    fn used(&self) {}\n}\n";
    let out = process_buffer(src, &vec![]).unwrap();
    assert_eq!(out, src);
}

#[test]
fn foreign_block_member_deletion_and_cleanup() {
    let src = b"extern \"C\" {\n    fn dead_ext();\n}\nfn main() {}\n";
    let sel = vec![(UnusedDiagnosticKind::Function, b"dead_ext".to_vec())];
    let deleted = cargo_minify::cauterize::rust_delete(src, &sel).unwrap();
    assert_eq!(deleted, b"extern \"C\" {\n}\nfn main() {}\n");
    let out = process_buffer(src, &sel).unwrap();
    assert_eq!(out, b"\nfn main() {}\n");
}

#[test]
fn macro_definition_deletion() {
    let src = b"macro_rules! dead_macro { () => {}; }\nfn main() {}\n";
    let sel = vec![(
        UnusedDiagnosticKind::MacroDefinition,
        b"dead_macro".to_vec(),
    )];
    let out = cargo_minify::cauterize::rust_delete(src, &sel).unwrap();
    assert_eq!(out, b"fn main() {}\n");
}

#[test]
fn static_and_union_deletion() {
    let src = b"static DEAD: i32 = 1;\nfn main() {}\n";
    let sel = vec![(UnusedDiagnosticKind::Static, b"DEAD".to_vec())];
    let out = cargo_minify::cauterize::rust_delete(src, &sel).unwrap();
    assert_eq!(out, b"fn main() {}\n");

    let src = b"union Dead { a: u8 }\nfn main() {}\n";
    let sel = vec![(UnusedDiagnosticKind::Union, b"Dead".to_vec())];
    let out = cargo_minify::cauterize::rust_delete(src, &sel).unwrap();
    assert_eq!(out, b"fn main() {}\n");
}

#[test]
fn empty_buffer_edges() {
    let empty = b"";
    assert_eq!(
        cargo_minify::cauterize::delete_chunks(empty, &[ByteRange { start: 0, end: 4 }]),
        b""
    );
    assert_eq!(cargo_minify::cauterize::rust_delete(empty, &vec![]).unwrap(), b"");
    let none: Vec<UnusedDiagnostic> = vec![];
    assert!(group_by_file(&none).is_empty());
}

#[test]
fn both_strategies_answer_one_contract() {
    let src = b"fn foo() {}  fn foa() -> i32 { barf; } const FOO: i32 = 42;";
    // structural: kind and identifier
    let named = Selector::Named(UnusedDiagnosticKind::Function, b"foa".to_vec());
    assert_eq!(resolve(src, &named).unwrap(), ByteRange { start: 13, end: 38 });
    // lexical: a seed inside the identifier (byte 16 is inside `foa`)
    let seeded = Selector::Seed(16);
    assert_eq!(resolve(src, &seeded).unwrap(), ByteRange { start: 13, end: 38 });
    // a kind/identifier mismatch fails closed
    let mismatch = Selector::Named(UnusedDiagnosticKind::Constant, b"foa".to_vec());
    assert!(matches!(resolve(src, &mismatch), Err(Unresolvable::NoMatch)));
    // the structural strategy needs the buffer to parse
    let named = Selector::Named(UnusedDiagnosticKind::Function, b"foa".to_vec());
    assert!(matches!(
        resolve(b"fn broken( {", &named),
        Err(Unresolvable::Parse(_))
    ));
}

#[test]
fn whitespace_scan_positions() {
    assert_eq!(find_prefix_whitespace(b"fn foo();"), 9);
    assert_eq!(find_prefix_whitespace(b"fn foo(); "), 10);
    assert_eq!(find_prefix_whitespace(b"fn foo();\n   "), 10);
    assert_eq!(find_prefix_whitespace(b"fn foo();\n"), 10);
    assert_eq!(find_suffix_whitespace(b"  fn"), 2);
    assert_eq!(find_suffix_whitespace(b"  \nfn"), 3);
    assert_eq!(find_suffix_whitespace(b"\n\nfn"), 1);
    assert_eq!(find_suffix_whitespace(b"   "), 3);
    // tabs count as horizontal whitespace
    assert_eq!(find_suffix_whitespace(b"\t\nfn"), 2);
    assert_eq!(find_suffix_whitespace(b" \t fn"), 3);
}

#[test]
fn whitespace_expansion_of_ranges() {
    let src = b"fn a() {}\n   fn b() {}\nfn c() {}";
    // "fn b() {}" occupies bytes 13..22
    let out = expand_ranges_to_include_whitespace(src, &[ByteRange { start: 13, end: 22 }]);
    assert_eq!(out, vec![ByteRange { start: 10, end: 23 }]);
}

#[test]
fn line_offset_table() {
    assert_eq!(line_offsets(b""), vec![0]);
    assert_eq!(line_offsets(b"a\nbb\n"), vec![0, 2, 5]);
    assert_eq!(line_offsets(b"a\nbb\nc"), vec![0, 2, 5]);
}

#[test]
fn change_accessors_return_what_was_given() {
    let c = Change::new(
        b"src/lib.rs".to_vec(),
        b"original".to_vec(),
        b"proposed".to_vec(),
    );
    assert_eq!(c.file_name(), &b"src/lib.rs".to_vec());
    assert_eq!(c.original_content(), b"original");
    assert_eq!(c.proposed_content(), b"proposed");
}

fn diag_for(file: &str, name: &str) -> UnusedDiagnostic {
    let d = Diagnostic {
        message: format!("function `{}` is never used", name).into_bytes(),
        spans: vec![DiagnosticSpan {
            file_name: file.as_bytes().to_vec(),
            byte_start: 0,
            byte_end: 0,
            line_start: 1,
            line_end: 1,
            column_start: 1,
            column_end: 1,
            expansion: false,
        }],
    };
    UnusedDiagnostic::try_from(d).unwrap()
}

#[test]
fn grouping_by_file_keeps_first_occurrence_order() {
    let diags = vec![
        diag_for("b.rs", "f1"),
        diag_for("a.rs", "f2"),
        diag_for("b.rs", "f3"),
    ];
    let groups = group_by_file(&diags);
    assert_eq!(groups.len(), 2);
    assert_eq!(groups[0].0, b"b.rs".to_vec());
    assert_eq!(groups[0].1, vec![0, 2]);
    assert_eq!(groups[1].0, b"a.rs".to_vec());
    assert_eq!(groups[1].1, vec![1]);
}
