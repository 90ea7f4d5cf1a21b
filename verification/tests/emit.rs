//! Tests of the per-line emission transform: identity without minify,
//! whitespace-only stripping with it, and the bundler's own sink.

use rustsourcebundler::bundler::Bundler;
use rustsourcebundler::emit_line;

fn b(s: &str) -> Vec<u8> {
    s.as_bytes().to_vec()
}

#[test]
fn emit_passthrough_is_identity() {
    // Emitting a passthrough line without minify reproduces it byte for byte.
    let cases = ["fn main() {", "    let x: u8 = 1;   ", "\t }  ", ""];
    for c in cases {
        assert_eq!(emit_line(&b(c), false), b(c));
    }
}

#[test]
fn emit_minify_strips_only_surrounding_whitespace() {
    assert_eq!(emit_line(&b("   a + b  "), true), b("a + b"));
    assert_eq!(emit_line(&b("\t\tx\t"), true), b("x"));
    assert_eq!(emit_line(&b("nothing to strip"), true), b("nothing to strip"));
    assert_eq!(emit_line(&b("  inner  spacing  kept  "), true), b("inner  spacing  kept"));
    assert_eq!(emit_line(&b("   \t "), true), b(""));
}

#[test]
fn emit_minify_differs_only_in_surrounding_whitespace() {
    let cases = ["  x  ", "y", " a b ", "\tz"];
    for c in cases {
        let plain = emit_line(&b(c), false);
        let minified = emit_line(&b(c), true);
        // The minified line is a contiguous slice of the plain line, and
        // what was cut is whitespace.
        let start = plain
            .iter()
            .position(|x| !x.is_ascii_whitespace())
            .unwrap_or(plain.len());
        assert!(plain[..start].iter().all(|x| x.is_ascii_whitespace()));
        if start == plain.len() {
            assert!(minified.is_empty());
        } else {
            let end = plain.len()
                - plain.iter().rev().position(|x| !x.is_ascii_whitespace()).unwrap();
            assert_eq!(minified, plain[start..end].to_vec());
            assert!(plain[end..].iter().all(|x| x.is_ascii_whitespace()));
        }
    }
}

#[test]
fn write_line_collects_output() {
    let mut bd = Bundler::new_fd(Vec::new());
    bd.write_line(&b("  one  "));
    bd.minify_set(true);
    bd.write_line(&b("  two  "));
    let out = bd.output();
    assert_eq!(out, vec![b("  one  "), b("two")]);
}
