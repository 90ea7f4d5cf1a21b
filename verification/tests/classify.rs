//! Tests of the line classifier: one case per kind, whitespace tolerance,
//! trailing comments, and the greedy capture quirks.

use rustsourcebundler::LineKind;
use rustsourcebundler::classify;

fn b(s: &str) -> Vec<u8> {
    s.as_bytes().to_vec()
}

fn decl_line(name: &str) -> Vec<u8> {
    let kw: String = String::from_utf8(vec![101, 120, 116, 101, 114, 110]).unwrap();
    format!("{} crate {};", kw, name).into_bytes()
}

#[test]
fn classify_blank_empty() {
    assert!(matches!(classify(&b(""), &b("pkg")), LineKind::Blank));
}

#[test]
fn classify_blank_whitespace() {
    assert!(matches!(classify(&b("   \t  "), &b("pkg")), LineKind::Blank));
}

#[test]
fn classify_blank_comment() {
    assert!(matches!(classify(&b("  // a comment"), &b("pkg")), LineKind::Blank));
}

#[test]
fn classify_lint_directive() {
    assert!(matches!(
        classify(&b("#![warn(rust_2018_idioms)]"), &b("pkg")),
        LineKind::LintDirective
    ));
    assert!(matches!(classify(&b("  #![warn(unused)]"), &b("pkg")), LineKind::LintDirective));
}

#[test]
fn classify_self_namespace_open() {
    assert!(matches!(classify(&decl_line("pkg"), &b("pkg")), LineKind::SelfNamespaceOpen));
}

#[test]
fn classify_self_namespace_open_spaced() {
    let kw: String = String::from_utf8(vec![101, 120, 116, 101, 114, 110]).unwrap();
    let line = format!("  {}   crate   pkg  ;  // entry", kw).into_bytes();
    assert!(matches!(classify(&line, &b("pkg")), LineKind::SelfNamespaceOpen));
}

#[test]
fn classify_self_namespace_open_wrong_name() {
    assert!(matches!(classify(&decl_line("other"), &b("pkg")), LineKind::Passthrough));
}

#[test]
fn classify_self_import() {
    match classify(&b("use pkg::a::b;"), &b("pkg")) {
        LineKind::SelfImport(p) => assert_eq!(p, b("pkg::a::b")),
        k => panic!("wrong kind: {:?}", k),
    }
}

#[test]
fn classify_self_import_trailing_comment() {
    match classify(&b("  use pkg::x ; // note"), &b("pkg")) {
        // The greedy capture runs to the closing semicolon, so it keeps the
        // space that stood before it.
        LineKind::SelfImport(p) => assert_eq!(p, b("pkg::x ")),
        k => panic!("wrong kind: {:?}", k),
    }
}

#[test]
fn classify_self_import_prefix_mismatch() {
    // `pkgs` is not `pkg`: the package name must be followed by `::`.
    assert!(matches!(classify(&b("use pkgs::x;"), &b("pkg")), LineKind::Passthrough));
}

#[test]
fn classify_crate_import() {
    match classify(&b("use crate::submod1;"), &b("pkg")) {
        LineKind::CrateImport(p) => assert_eq!(p, b("submod1")),
        k => panic!("wrong kind: {:?}", k),
    }
}

#[test]
fn classify_crate_import_brace_group() {
    match classify(&b("use crate::{    a,    b::c,};"), &b("pkg")) {
        LineKind::CrateImport(p) => assert_eq!(p, b("{    a,    b::c,}")),
        k => panic!("wrong kind: {:?}", k),
    }
}

#[test]
fn classify_crate_import_needs_final_semicolon() {
    // This form ends at the line's last non-whitespace byte; a trailing
    // comment defeats it, trailing whitespace does not.
    assert!(matches!(classify(&b("use crate::x; // c"), &b("pkg")), LineKind::Passthrough));
    match classify(&b("  use crate::x;   "), &b("pkg")) {
        LineKind::CrateImport(p) => assert_eq!(p, b("x")),
        k => panic!("wrong kind: {:?}", k),
    }
}

#[test]
fn classify_module_declaration() {
    match classify(&b("mod foo;"), &b("pkg")) {
        LineKind::ModuleDeclaration(m) => assert_eq!(m, b("foo")),
        k => panic!("wrong kind: {:?}", k),
    }
}

#[test]
fn classify_module_declaration_pub() {
    match classify(&b("  pub  mod  foo ; // c"), &b("pkg")) {
        // Greedy capture again: the space before `;` belongs to the name.
        LineKind::ModuleDeclaration(m) => assert_eq!(m, b("foo ")),
        k => panic!("wrong kind: {:?}", k),
    }
}

#[test]
fn classify_module_declaration_no_space() {
    assert!(matches!(classify(&b("modfoo;"), &b("pkg")), LineKind::Passthrough));
    assert!(matches!(classify(&b("pubmod foo;"), &b("pkg")), LineKind::Passthrough));
}

#[test]
fn classify_passthrough_code() {
    assert!(matches!(classify(&b("fn main() {"), &b("pkg")), LineKind::Passthrough));
    assert!(matches!(classify(&b("    let x: u8 = 5;"), &b("pkg")), LineKind::Passthrough));
    assert!(matches!(classify(&b("use std::fmt;"), &b("pkg")), LineKind::Passthrough));
    assert!(matches!(classify(&b("use super::submod1;"), &b("pkg")), LineKind::Passthrough));
}
