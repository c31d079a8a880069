use cargo_minify::cauterize::{delete_chunks, diagnostics_to_ranges, rust_delete, ByteRange};
use cargo_minify::unused::UnusedDiagnosticKind;

fn fun(name: &str) -> (UnusedDiagnosticKind, Vec<u8>) {
    (UnusedDiagnosticKind::Function, name.as_bytes().to_vec())
}

fn constant(name: &str) -> (UnusedDiagnosticKind, Vec<u8>) {
    (UnusedDiagnosticKind::Constant, name.as_bytes().to_vec())
}

fn br(start: usize, end: usize) -> ByteRange {
    ByteRange { start, end }
}

#[test]
fn identifier_to_span() {
    let src = b"fn foo() {}  fn foa() -> i32 { barf; } const FOO: i32 = 42;";
    //          01234567890123456789012345678901234567890123456789012345678
    //                    1         2         3         4         5
    let pos = diagnostics_to_ranges(src, &vec![fun("foo"), fun("foa"), constant("FOO")]).unwrap();
    assert_eq!(pos, vec![br(0, 11), br(13, 38), br(39, 59)]);
}

#[test]
fn chunk_deletion() {
    let src = b"fn foo() {}  fn foa() -> i32 { barf; } const FOO: i32 = 42;";
    //          012345678901234567890123456789012345678901234567890123456
    assert_eq!(
        delete_chunks(src, &[br(5, 8)]),
        b"fn fo {}  fn foa() -> i32 { barf; } const FOO: i32 = 42;"
    );
}

#[test]
fn deletion() {
    let src = b"fn foo() { }fn foa() -> i32 { barf; }const FOO: i32 = 42;";
    assert_eq!(
        rust_delete(src, &vec![fun("foo")]).unwrap(),
        b"fn foa() -> i32 { barf; }const FOO: i32 = 42;"
    );
    assert_eq!(
        rust_delete(src, &vec![fun("foa")]).unwrap(),
        b"fn foo() { }const FOO: i32 = 42;"
    );
    assert_eq!(
        rust_delete(src, &vec![constant("FOO")]).unwrap(),
        b"fn foo() { }fn foa() -> i32 { barf; }"
    );
}

#[test]
fn type_check() {
    let src = b"fn foo() { }fn foa() -> i32 { barf; }const FOO: i32 = 42;";
    assert_eq!(
        rust_delete(src, &vec![constant("foo")]).unwrap(),
        b"fn foo() { }fn foa() -> i32 { barf; }const FOO: i32 = 42;"
    );
    assert_eq!(
        rust_delete(src, &vec![constant("foa")]).unwrap(),
        b"fn foo() { }fn foa() -> i32 { barf; }const FOO: i32 = 42;"
    );
    assert_eq!(
        rust_delete(src, &vec![fun("FOO")]).unwrap(),
        b"fn foo() { }fn foa() -> i32 { barf; }const FOO: i32 = 42;"
    );
}

#[test]
fn formatting_preserval() {
    let src = b" fn foo(){}  fn foa()  -> huk {  barf; }   const FOO: i32 = 42;  fn bar(){ } ";
    assert_eq!(
        rust_delete(src, &vec![fun("foo")]).unwrap(),
        b" fn foa()  -> huk {  barf; }   const FOO: i32 = 42;  fn bar(){ } "
    );
    assert_eq!(
        rust_delete(src, &vec![fun("foa")]).unwrap(),
        b" fn foo(){}  const FOO: i32 = 42;  fn bar(){ } "
    );
    assert_eq!(
        rust_delete(src, &vec![constant("FOO")]).unwrap(),
        b" fn foo(){}  fn foa()  -> huk {  barf; }   fn bar(){ } "
    );
    assert_eq!(
        rust_delete(src, &vec![fun("bar")]).unwrap(),
        b" fn foo(){}  fn foa()  -> huk {  barf; }   const FOO: i32 = 42;  "
    );

    assert_eq!(
        rust_delete(src, &vec![fun("foa"), fun("foo")]).unwrap(),
        b" const FOO: i32 = 42;  fn bar(){ } "
    );
    assert_eq!(
        rust_delete(src, &vec![fun("foa"), constant("FOO")]).unwrap(),
        b" fn foo(){}  fn bar(){ } "
    );
}

#[test]
fn whitespace_semi_preserval() {
    let src = b" fn foo() {} fn fixme() {} fn main() {}";
    assert_eq!(
        rust_delete(src, &vec![fun("fixme")]).unwrap(),
        b" fn foo() {} fn main() {}"
    );
    let src = b" fn foo() {} fn fixme() {}fn main() {}";
    assert_eq!(
        rust_delete(src, &vec![fun("fixme")]).unwrap(),
        b" fn foo() {} fn main() {}"
    );
    let src = b" fn foo() {}fn fixme() {} fn main() {}";
    assert_eq!(
        rust_delete(src, &vec![fun("fixme")]).unwrap(),
        b" fn foo() {}fn main() {}"
    );
    let src = b" fn foo() {}\nfn fixme() {}\nfn main() {}";
    assert_eq!(
        rust_delete(src, &vec![fun("fixme")]).unwrap(),
        b" fn foo() {}\nfn main() {}"
    );
    let src = b" fn foo() {}\n\nfn fixme() {}\nfn main() {}";
    assert_eq!(
        rust_delete(src, &vec![fun("fixme")]).unwrap(),
        b" fn foo() {}\n\nfn main() {}"
    );
    let src = b" fn foo() {}\nfn fixme() {}\n\nfn main() {}";
    assert_eq!(
        rust_delete(src, &vec![fun("fixme")]).unwrap(),
        b" fn foo() {}\n\nfn main() {}"
    );
    let src = b" fn foo() {}\n\nfn fixme() {}\n\nfn main() {}";
    assert_eq!(
        rust_delete(src, &vec![fun("fixme")]).unwrap(),
        b" fn foo() {}\n\n\nfn main() {}"
    );

    let src = b"fn foo() {}\n          fn fixme() {}\n   fn main() {}";
    assert_eq!(
        rust_delete(src, &vec![fun("fixme")]).unwrap(),
        b"fn foo() {}\n   fn main() {}"
    );
}

#[test]
fn deletion_is_order_independent() {
    let src = b"fn foo() {}  fn foa() -> i32 { barf; } const FOO: i32 = 42;";
    let a = delete_chunks(src, &[br(0, 3), br(13, 20), br(45, 48)]);
    let b = delete_chunks(src, &[br(45, 48), br(0, 3), br(13, 20)]);
    let c = delete_chunks(src, &[br(13, 20), br(45, 48), br(0, 3)]);
    assert_eq!(a, b);
    assert_eq!(b, c);
}

#[test]
fn deletion_tolerates_duplicates_and_overlap() {
    let src = b"abcdefgh";
    let once = delete_chunks(src, &[br(2, 5)]);
    let twice = delete_chunks(src, &[br(2, 5), br(2, 5)]);
    let overlap = delete_chunks(src, &[br(2, 4), br(3, 5)]);
    assert_eq!(once, b"abfgh");
    assert_eq!(twice, once);
    assert_eq!(overlap, once);
}

#[test]
fn deleting_a_suffix_twice_is_a_no_op() {
    let src = b"abcdef";
    let first = delete_chunks(src, &[br(4, 6)]);
    assert_eq!(first, b"abcd");
    let second = delete_chunks(&first, &[br(4, 6)]);
    assert_eq!(second, first);
}

#[test]
fn repeated_deletion_is_a_no_op() {
    let src = b"fn a() {}\nfn dead() {}\nfn b() {}\n";
    let sel = vec![fun("dead")];
    let once = rust_delete(src, &sel).unwrap();
    let twice = rust_delete(&once, &sel).unwrap();
    assert_eq!(twice, once);
}

#[test]
fn empty_selector_set_returns_buffer_unchanged() {
    let src = b"fn foo() {}\nconst FOO: i32 = 42;\n";
    assert_eq!(rust_delete(src, &vec![]).unwrap(), src);
}

#[test]
fn unparsable_buffer_is_rejected() {
    let src = b"fn foo( {";
    assert!(rust_delete(src, &vec![fun("foo")]).is_err());
}

#[test]
fn deleting_a_whole_line_shrinks_line_count_by_one() {
    let src = b"fn a() {}\nfn dead() {}\nfn b() {}\n";
    let out = rust_delete(src, &vec![fun("dead")]).unwrap();
    assert_eq!(out, b"fn a() {}\nfn b() {}\n");
    let count = |s: &[u8]| s.iter().filter(|&&b| b == b'\n').count();
    assert_eq!(count(&out), count(src) - 1);
}
