//! End-to-end tests of the expander on in-memory packages: the flattened
//! output of small multi-module packages, the reserved test-module exclusion,
//! import suppression, minified emission, and every error kind.

use rustsourcebundler::BundleError;
use rustsourcebundler::FileTable;
use rustsourcebundler::SourceFile;
use rustsourcebundler::bundler::Bundler;

fn lines(xs: &[&str]) -> Vec<Vec<u8>> {
    let mut v: Vec<Vec<u8>> = Vec::new();
    for x in xs {
        v.push(x.as_bytes().to_vec());
    }
    v
}

fn table(files: &[(&str, &[&str])]) -> FileTable {
    let mut t = FileTable::new();
    for (path, ls) in files {
        t.add(SourceFile { path: path.as_bytes().to_vec(), lines: lines(ls) });
    }
    t
}

fn decl_line(name: &str) -> String {
    let kw: String = String::from_utf8(vec![101, 120, 116, 101, 114, 110]).unwrap();
    format!("{} crate {};", kw, name)
}

fn to_strings(v: Vec<Vec<u8>>) -> Vec<String> {
    let mut r: Vec<String> = Vec::new();
    for x in v {
        r.push(String::from_utf8(x).unwrap());
    }
    r
}

fn bundle(entry: &[&str], name: &str, files: &[(&str, &[&str])]) -> Result<Vec<String>, BundleError> {
    let mut b = Bundler::new_fd(lines(entry));
    b.crate_name(name.as_bytes().to_vec());
    b.run(&table(files)).map(to_strings)
}

#[test]
fn golden_hello_world() {
    // A binary-only package: no namespace declaration, everything passes
    // through, comments vanish.
    let entry = [
        "// a hello world program",
        "fn main() {",
        "    println!(\"Hello, world!\");",
        "}",
    ];
    let out = bundle(&entry, "hello_world", &[]).unwrap();
    assert_eq!(out, vec![
        "fn main() {".to_string(),
        "    println!(\"Hello, world!\");".to_string(),
        "}".to_string(),
    ]);
}

#[test]
fn golden_basic() {
    let open = decl_line("basic_test");
    let entry = [
        open.as_str(),
        "use basic_test::hello_external_world;",
        "use basic_test::internal::hello_world;",
        "",
        "fn main() {",
        "    hello_world();",
        "    hello_external_world();",
        "}",
    ];
    let files: [(&str, &[&str]); 2] = [
        ("src/lib.rs", &[
            "pub mod internal;",
            "pub fn hello_external_world() {",
            "    println!(\"Hello, external world!\");",
            "}",
        ]),
        ("src/internal.rs", &[
            "pub fn hello_world() {",
            "    println!(\"Hello, world!\");",
            "}",
        ]),
    ];
    let out = bundle(&entry, "basic_test", &files).unwrap();
    assert_eq!(out, vec![
        "pub mod basic_test {".to_string(),
        "pub mod internal {".to_string(),
        "pub fn hello_world() {".to_string(),
        "    println!(\"Hello, world!\");".to_string(),
        "}".to_string(),
        "}".to_string(),
        "pub fn hello_external_world() {".to_string(),
        "    println!(\"Hello, external world!\");".to_string(),
        "}".to_string(),
        "}".to_string(),
        "use ::basic_test::hello_external_world;".to_string(),
        "use ::basic_test::internal::hello_world;".to_string(),
        "fn main() {".to_string(),
        "    hello_world();".to_string(),
        "    hello_external_world();".to_string(),
        "}".to_string(),
    ]);
}

#[test]
fn golden_usecrate() {
    let open = decl_line("usecrate");
    let entry = [
        open.as_str(),
        "use usecrate::submod2::hello_world2;",
        "use usecrate::submod4::hello_world4;",
        "fn main() {",
        "    hello_world2();",
        "    hello_world4();",
        "}",
    ];
    let files: [(&str, &[&str]); 5] = [
        ("src/lib.rs", &[
            "pub mod submod1;",
            "pub mod submod2;",
            "pub mod submod3;",
            "pub mod submod4;",
        ]),
        ("src/submod1.rs", &[
            "pub fn hello_world1() {",
            "    println!(\"Hello, world 1!\");",
            "}",
        ]),
        ("src/submod2.rs", &[
            "use crate::submod1;",
            "pub fn hello_world2() {",
            "    submod1::hello_world1();",
            "    println!(\"Hello, world 2!\");",
            "}",
        ]),
        ("src/submod3.rs", &[
            "pub fn hello_world3__long_identifier_name_for_multiline() {",
            "    println!(\"Hello, world 3!\");",
            "}",
        ]),
        ("src/submod4.rs", &[
            "use crate::{    submod1,    submod3::hello_world3__long_identifier_name_for_multiline,};",
            "pub fn hello_world4() {",
            "    submod1::hello_world1();",
            "    hello_world3__long_identifier_name_for_multiline();",
            "    println!(\"Hello, world 4!\");",
            "}",
        ]),
    ];
    let out = bundle(&entry, "usecrate", &files).unwrap();
    assert_eq!(out, vec![
        "pub mod usecrate {".to_string(),
        "pub mod submod1 {".to_string(),
        "pub fn hello_world1() {".to_string(),
        "    println!(\"Hello, world 1!\");".to_string(),
        "}".to_string(),
        "}".to_string(),
        "pub mod submod2 {".to_string(),
        "use super::submod1;".to_string(),
        "pub fn hello_world2() {".to_string(),
        "    submod1::hello_world1();".to_string(),
        "    println!(\"Hello, world 2!\");".to_string(),
        "}".to_string(),
        "}".to_string(),
        "pub mod submod3 {".to_string(),
        "pub fn hello_world3__long_identifier_name_for_multiline() {".to_string(),
        "    println!(\"Hello, world 3!\");".to_string(),
        "}".to_string(),
        "}".to_string(),
        "pub mod submod4 {".to_string(),
        "use super::{    submod1,    submod3::hello_world3__long_identifier_name_for_multiline,};".to_string(),
        "pub fn hello_world4() {".to_string(),
        "    submod1::hello_world1();".to_string(),
        "    hello_world3__long_identifier_name_for_multiline();".to_string(),
        "    println!(\"Hello, world 4!\");".to_string(),
        "}".to_string(),
        "}".to_string(),
        "}".to_string(),
        "use ::usecrate::submod2::hello_world2;".to_string(),
        "use ::usecrate::submod4::hello_world4;".to_string(),
        "fn main() {".to_string(),
        "    hello_world2();".to_string(),
        "    hello_world4();".to_string(),
        "}".to_string(),
    ]);
}

#[test]
fn golden_complicated() {
    // Nested modules across both file conventions, a depth-two
    // crate-qualified import, and a reserved test module with a real file.
    let open = decl_line("complicated");
    let entry = [
        open.as_str(),
        "use complicated::outer::outer_fn;",
        "fn main() {",
        "    outer_fn();",
        "}",
    ];
    let files: [(&str, &[&str]); 5] = [
        ("src/lib.rs", &[
            "pub mod helper;",
            "pub mod outer;",
            "mod tests;",
        ]),
        ("src/helper.rs", &[
            "pub fn help() {}",
        ]),
        ("src/outer/mod.rs", &[
            "pub mod inner;",
            "pub fn outer_fn() {",
            "    inner::inner_fn();",
            "}",
        ]),
        ("src/outer/inner.rs", &[
            "use crate::helper;",
            "pub fn inner_fn() {",
            "    helper::help();",
            "}",
        ]),
        ("src/tests.rs", &[
            "pub fn only_for_tests() {}",
        ]),
    ];
    let out = bundle(&entry, "complicated", &files).unwrap();
    assert_eq!(out, vec![
        "pub mod complicated {".to_string(),
        "pub mod helper {".to_string(),
        "pub fn help() {}".to_string(),
        "}".to_string(),
        "pub mod outer {".to_string(),
        "pub mod inner {".to_string(),
        "use super::super::helper;".to_string(),
        "pub fn inner_fn() {".to_string(),
        "    helper::help();".to_string(),
        "}".to_string(),
        "}".to_string(),
        "pub fn outer_fn() {".to_string(),
        "    inner::inner_fn();".to_string(),
        "}".to_string(),
        "}".to_string(),
        "}".to_string(),
        "use ::complicated::outer::outer_fn;".to_string(),
        "fn main() {".to_string(),
        "    outer_fn();".to_string(),
        "}".to_string(),
    ]);
    // Test-module exclusion: nothing from the test file, no wrap for it.
    for l in &out {
        assert!(!l.contains("only_for_tests"));
        assert!(!l.contains("pub mod tests {"));
    }
}

#[test]
fn sibling_step_up_preserved_at_depth_one() {
    // A module that already says `use super::submod1;` keeps it unchanged:
    // the depth-aware rewrite only applies to crate-qualified imports.
    let open = decl_line("pkg");
    let entry = [open.as_str()];
    let files: [(&str, &[&str]); 3] = [
        ("src/lib.rs", &["pub mod submod1;", "pub mod submod2;"]),
        ("src/submod1.rs", &["pub fn one() {}"]),
        ("src/submod2.rs", &["use super::submod1;", "pub fn two() {}"]),
    ];
    let out = bundle(&entry, "pkg", &files).unwrap();
    assert!(out.contains(&"use super::submod1;".to_string()));
}

#[test]
fn import_suppressed_after_inlining() {
    // `use crate::foo;` in the root module vanishes once `foo` was inlined
    // into the same scope.
    let open = decl_line("pkg");
    let entry = [open.as_str()];
    let files: [(&str, &[&str]); 2] = [
        ("src/lib.rs", &["mod foo;", "use crate::foo;", "pub fn top() {}"]),
        ("src/foo.rs", &["pub fn f() {}"]),
    ];
    let out = bundle(&entry, "pkg", &files).unwrap();
    assert_eq!(out, vec![
        "pub mod pkg {".to_string(),
        "pub mod foo {".to_string(),
        "pub fn f() {}".to_string(),
        "}".to_string(),
        "pub fn top() {}".to_string(),
        "}".to_string(),
    ]);
}

#[test]
fn import_kept_before_inlining() {
    // The suppression is temporal: an import that precedes the declaration
    // has nothing inlined yet and passes through.
    let open = decl_line("pkg");
    let entry = [open.as_str()];
    let files: [(&str, &[&str]); 2] = [
        ("src/lib.rs", &["use crate::foo;", "mod foo;"]),
        ("src/foo.rs", &["pub fn f() {}"]),
    ];
    let out = bundle(&entry, "pkg", &files).unwrap();
    assert_eq!(out[1], "use crate::foo;".to_string());
}

#[test]
fn minify_strips_surrounding_whitespace() {
    let entry = ["   fn main() {   ", "\tlet x: u8 = 1;\t", "}"];
    let mut b = Bundler::new_fd(lines(&entry));
    b.crate_name(b"pkg".to_vec());
    b.minify_set(true);
    let out = to_strings(b.run(&table(&[])).unwrap());
    assert_eq!(out, vec![
        "fn main() {".to_string(),
        "let x: u8 = 1;".to_string(),
        "}".to_string(),
    ]);
}

#[test]
fn flat_file_preferred_over_directory() {
    let open = decl_line("pkg");
    let entry = [open.as_str()];
    let files: [(&str, &[&str]); 3] = [
        ("src/lib.rs", &["mod m;"]),
        ("src/m.rs", &["pub fn from_flat() {}"]),
        ("src/m/mod.rs", &["pub fn from_dir() {}"]),
    ];
    let out = bundle(&entry, "pkg", &files).unwrap();
    assert!(out.contains(&"pub fn from_flat() {}".to_string()));
    assert!(!out.contains(&"pub fn from_dir() {}".to_string()));
}

#[test]
fn error_pattern_on_bad_name() {
    let entry = ["fn main() {}"];
    assert_eq!(bundle(&entry, "foo-bar", &[]).unwrap_err(), BundleError::Pattern);
    assert_eq!(bundle(&entry, "", &[]).unwrap_err(), BundleError::Pattern);
    assert_eq!(bundle(&entry, "1abc", &[]).unwrap_err(), BundleError::Pattern);
    assert_eq!(bundle(&entry, "crate", &[]).unwrap_err(), BundleError::Pattern);
}

#[test]
fn error_io_on_missing_root_file() {
    let open = decl_line("pkg");
    let entry = [open.as_str()];
    assert_eq!(bundle(&entry, "pkg", &[]).unwrap_err(), BundleError::Io);
}

#[test]
fn error_module_not_found() {
    let open = decl_line("pkg");
    let entry = [open.as_str()];
    let files: [(&str, &[&str]); 1] = [("src/lib.rs", &["mod nowhere;"])];
    assert_eq!(bundle(&entry, "pkg", &files).unwrap_err(), BundleError::ModuleNotFound);
}

#[test]
fn lint_directives_dropped() {
    let entry = ["#![warn(rust_2018_idioms)]", "fn main() {}"];
    let out = bundle(&entry, "pkg", &[]).unwrap();
    assert_eq!(out, vec!["fn main() {}".to_string()]);
}

#[test]
fn empty_entry_gives_empty_output() {
    let out = bundle(&[], "pkg", &[]).unwrap();
    assert!(out.is_empty());
}

#[test]
fn empty_root_module_gives_bare_wrapper() {
    let open = decl_line("pkg");
    let entry = [open.as_str()];
    let files: [(&str, &[&str]); 1] = [("src/lib.rs", &[])];
    let out = bundle(&entry, "pkg", &files).unwrap();
    assert_eq!(out, vec!["pub mod pkg {".to_string(), "}".to_string()]);
}

#[test]
fn minified_package_keeps_structure() {
    let open = decl_line("pkg");
    let entry = [open.as_str(), "use pkg::f;", "fn main() {", "    f();", "}"];
    let files: [(&str, &[&str]); 1] = [("src/lib.rs", &["pub fn f() {", "    ", "}"])];
    let mut b = Bundler::new_fd(lines(&entry));
    b.crate_name(b"pkg".to_vec());
    b.minify_set(true);
    let out = to_strings(b.run(&table(&files)).unwrap());
    assert_eq!(out, vec![
        "pub mod pkg {".to_string(),
        "pub fn f() {".to_string(),
        "}".to_string(),
        "}".to_string(),
        "use ::pkg::f;".to_string(),
        "fn main() {".to_string(),
        "f();".to_string(),
        "}".to_string(),
    ]);
}

#[test]
fn entry_keeps_crate_imports_and_module_declarations() {
    // In the entry file a crate-qualified import and a module declaration
    // are ordinary code: the binary crate is its own root.
    let entry = ["mod helper;", "use crate::helper;", "fn main() {}"];
    let out = bundle(&entry, "pkg", &[]).unwrap();
    assert_eq!(out, vec![
        "mod helper;".to_string(),
        "use crate::helper;".to_string(),
        "fn main() {}".to_string(),
    ]);
}

#[test]
fn wrap_tokens_balance_in_nested_output() {
    // A scenario check of the nesting-balance law: the wrap tokens the
    // engine emits are one `pub mod ... {` line per inlined module, plus the
    // package wrapper, each matched by one closing token.
    let open = decl_line("pkg");
    let entry = [open.as_str()];
    let files: [(&str, &[&str]); 3] = [
        ("src/lib.rs", &["mod a;"]),
        ("src/a.rs", &["mod b;"]),
        ("src/a/b.rs", &["pub fn leaf() {}"]),
    ];
    let out = bundle(&entry, "pkg", &files).unwrap();
    assert_eq!(out, vec![
        "pub mod pkg {".to_string(),
        "pub mod a {".to_string(),
        "pub mod b {".to_string(),
        "pub fn leaf() {}".to_string(),
        "}".to_string(),
        "}".to_string(),
        "}".to_string(),
    ]);
    let opens = out.iter().filter(|l| l.starts_with("pub mod ") && l.ends_with(" {")).count();
    let closes = out.iter().filter(|l| l.as_str() == "}").count();
    assert_eq!(opens, closes);
}
