//! The line classifier: decides, for one line of source text, whether it is
//! blank or comment-only, a lint-suppression directive, the declaration that
//! opens the package's own namespace in the entry file, an import qualified by
//! the package's own name, an import qualified by the `crate` keyword, a
//! sub-module declaration, or plain code to pass through.
//!
//! Matching is pattern-based and tolerates irregular horizontal whitespace and
//! trailing `//` comments; a line that fits no pattern falls through to
//! `Passthrough`, so malformed input degrades to "copy the line unchanged".

use vstd::prelude::*;

use crate::text::{
    has_lit_at, is_ws, lit_at, skip_ws, tail_is_ok, tail_ok, trim_end, trim_end_idx, ws_end,
};

verus! {

/// The keyword that declares an outside crate at the top of a file
/// (`e` `x` `t` `e` `r` `n`), written out in bytes.
pub open spec fn kw_decl() -> Seq<u8> {
    seq![101u8, 120u8, 116u8, 101u8, 114u8, 110u8]
}

/// `crate`
pub open spec fn kw_crate() -> Seq<u8> {
    seq![99u8, 114u8, 97u8, 116u8, 101u8]
}

/// `use`
pub open spec fn kw_use() -> Seq<u8> {
    seq![117u8, 115u8, 101u8]
}

/// `mod`
pub open spec fn kw_mod() -> Seq<u8> {
    seq![109u8, 111u8, 100u8]
}

/// `pub`
pub open spec fn kw_pub() -> Seq<u8> {
    seq![112u8, 117u8, 98u8]
}

/// `::`
pub open spec fn dcolon() -> Seq<u8> {
    seq![58u8, 58u8]
}

/// `crate::`
pub open spec fn kw_crate_dcolon() -> Seq<u8> {
    kw_crate() + dcolon()
}

/// `#![warn(`
pub open spec fn lint_prefix() -> Seq<u8> {
    seq![35u8, 33u8, 91u8, 119u8, 97u8, 114u8, 110u8, 40u8]
}

/// `tests`: the reserved module name whose declarations are always skipped.
pub open spec fn tests_name() -> Seq<u8> {
    seq![116u8, 101u8, 115u8, 116u8, 115u8]
}

/// How one line of source is treated by the expander.
#[derive(Debug)]
pub enum LineKind {
    /// Whitespace-only, or a bare `//` comment: emitted as nothing.
    Blank,
    /// A `#![warn(...)]` annotation: emitted as nothing.
    LintDirective,
    /// The declaration of the package's own crate in the entry file: replaced
    /// by the inlined, namespace-wrapped package contents.
    SelfNamespaceOpen,
    /// `use <package>::...;` — the captured path starts with the package name.
    SelfImport(Vec<u8>),
    /// `use crate::...;` — the captured path is the part after `crate::`.
    CrateImport(Vec<u8>),
    /// `mod <name>;` or `pub mod <name>;` — the captured module name.
    ModuleDeclaration(Vec<u8>),
    /// None of the above: emitted as it stands.
    Passthrough,
}

/// The mathematical counterpart of [`LineKind`], over byte sequences.
pub enum LineClass {
    Blank,
    LintDirective,
    SelfNamespaceOpen,
    SelfImport(Seq<u8>),
    CrateImport(Seq<u8>),
    ModuleDeclaration(Seq<u8>),
    Passthrough,
}

impl View for LineKind {
    type V = LineClass;

    open spec fn view(&self) -> LineClass {
        match self {
            LineKind::Blank => LineClass::Blank,
            LineKind::LintDirective => LineClass::LintDirective,
            LineKind::SelfNamespaceOpen => LineClass::SelfNamespaceOpen,
            LineKind::SelfImport(p) => LineClass::SelfImport(p@),
            LineKind::CrateImport(p) => LineClass::CrateImport(p@),
            LineKind::ModuleDeclaration(p) => LineClass::ModuleDeclaration(p@),
            LineKind::Passthrough => LineClass::Passthrough,
        }
    }
}

/// Whitespace only, or a bare comment line with no code.
pub open spec fn is_blank(s: Seq<u8>) -> bool {
    tail_ok(s, 0)
}

/// A lint-configuration annotation line.
pub open spec fn is_lint(s: Seq<u8>) -> bool {
    lit_at(s, ws_end(s, 0), lint_prefix())
}

/// The largest index `q` at or before `j` where `s[q]` is `;` and the rest of
/// the line after it is whitespace and an optional `//` comment. This is the
/// semicolon on which the greedy statement patterns end their capture.
pub open spec fn semi_pos(s: Seq<u8>, j: int) -> Option<int>
    decreases j + 1,
{
    if j < 0 {
        None
    } else if j >= s.len() {
        semi_pos(s, s.len() - 1)
    } else if s[j] == 59 && tail_ok(s, j + 1) {
        Some(j)
    } else {
        semi_pos(s, j - 1)
    }
}

/// What a found closing semicolon guarantees about its position.
pub proof fn lemma_semi_pos(s: Seq<u8>, j: int)
    ensures
        semi_pos(s, j) matches Some(q) ==> 0 <= q && q <= j && q < s.len() && s[q] == 59
            && tail_ok(s, q + 1),
    decreases j + 1,
{
    if j < 0 {
    } else if j >= s.len() {
        lemma_semi_pos(s, s.len() - 1);
    } else if s[j] == 59 && tail_ok(s, j + 1) {
    } else {
        lemma_semi_pos(s, j - 1);
    }
}

/// The line declares the package's own crate: the namespace-open keyword,
/// `crate`, and the package name, ended by `;`, with whitespace tolerated.
pub open spec fn self_open_match(s: Seq<u8>, name: Seq<u8>) -> bool {
    let j0 = ws_end(s, 0);
    let j1 = j0 + 6;
    let j2 = ws_end(s, j1);
    let j3 = j2 + 5;
    let j4 = ws_end(s, j3);
    let j5 = j4 + name.len();
    let j6 = ws_end(s, j5);
    &&& lit_at(s, j0, kw_decl())
    &&& j2 > j1
    &&& lit_at(s, j2, kw_crate())
    &&& j4 > j3
    &&& lit_at(s, j4, name)
    &&& j6 < s.len() && s[j6] == 59
    &&& tail_ok(s, j6 + 1)
}

/// Where the captured path of a self-import begins: right at the package name.
pub open spec fn self_import_start(s: Seq<u8>, name: Seq<u8>) -> int {
    ws_end(s, ws_end(s, 0) + 3)
}

/// The line imports a path qualified by the package's own name:
/// `use <name>::...;`.
pub open spec fn self_import_match(s: Seq<u8>, name: Seq<u8>) -> bool {
    let j0 = ws_end(s, 0);
    let j2 = ws_end(s, j0 + 3);
    &&& lit_at(s, j0, kw_use())
    &&& j2 > j0 + 3
    &&& lit_at(s, j2, name)
    &&& lit_at(s, j2 + name.len(), dcolon())
    &&& (semi_pos(s, s.len() - 1) matches Some(q) && q >= j2 + name.len() + 2)
}

/// The captured path of a self-import, package name included: everything from
/// the package name up to the ending semicolon.
pub open spec fn self_import_path(s: Seq<u8>, name: Seq<u8>) -> Seq<u8> {
    s.subrange(self_import_start(s, name), semi_pos(s, s.len() - 1)->Some_0)
}

/// The line imports a path qualified by the `crate` keyword:
/// `use crate::...;`, with the semicolon as the last byte before any trailing
/// whitespace; a trailing comment defeats this form.
pub open spec fn crate_import_match(s: Seq<u8>) -> bool {
    let j0 = ws_end(s, 0);
    let j2 = ws_end(s, j0 + 3);
    let e = trim_end_idx(s, s.len() as int);
    &&& lit_at(s, j0, kw_use())
    &&& j2 > j0 + 3
    &&& lit_at(s, j2, kw_crate_dcolon())
    &&& e >= 1 && s[e - 1] == 59
    &&& e - 1 >= j2 + 7
}

/// The captured path of a crate-qualified import: the part between `crate::`
/// and the final semicolon.
pub open spec fn crate_import_path(s: Seq<u8>) -> Seq<u8> {
    let j2 = ws_end(s, ws_end(s, 0) + 3);
    s.subrange(j2 + 7, trim_end_idx(s, s.len() as int) - 1)
}

/// Where the `mod` keyword of a module declaration would stand: after leading
/// whitespace and an optional `pub` with at least one whitespace byte after it.
pub open spec fn mod_kw_pos(s: Seq<u8>) -> int {
    let j0 = ws_end(s, 0);
    if lit_at(s, j0, kw_pub()) && ws_end(s, j0 + 3) > j0 + 3 {
        ws_end(s, j0 + 3)
    } else {
        j0
    }
}

/// The line declares a sub-module: `mod <m>;` or `pub mod <m>;`. The captured
/// name is greedy, running to the last semicolon that closes the statement;
/// when that semicolon is the first non-whitespace byte after `mod`, the
/// capture falls back to a single whitespace byte, as the greedy pattern
/// backtracks into the whitespace run.
pub open spec fn mod_decl_match(s: Seq<u8>) -> bool {
    let jp = mod_kw_pos(s);
    let jm = jp + 3;
    let js = ws_end(s, jm);
    &&& lit_at(s, jp, kw_mod())
    &&& js > jm
    &&& (semi_pos(s, s.len() - 1) matches Some(q) && q >= js && (q > js || js >= jm + 2))
}

/// The captured name of a module declaration.
pub open spec fn mod_decl_name(s: Seq<u8>) -> Seq<u8> {
    let js = ws_end(s, mod_kw_pos(s) + 3);
    let q = semi_pos(s, s.len() - 1)->Some_0;
    if q > js {
        s.subrange(js, q)
    } else {
        s.subrange(js - 1, q)
    }
}

/// A captured module name is never empty: the greedy capture runs from the
/// byte after the whitespace that follows `mod` (or from one whitespace byte
/// back, when the closing semicolon stands right there) up to that semicolon.
pub proof fn lemma_mod_decl_name_nonempty(s: Seq<u8>, name: Seq<u8>)
    ensures
        classify_spec(s, name) matches LineClass::ModuleDeclaration(m) ==> m.len() >= 1,
{
    if mod_decl_match(s) {
        lemma_semi_pos(s, s.len() - 1);
        crate::text::lemma_ws_end(s, 0);
        let jp = mod_kw_pos(s);
        let jm = jp + 3;
        crate::text::lemma_ws_end(s, jm);
    }
}

/// How the expander treats the line `s` when the package is called `name`.
/// The patterns are checked in a fixed order; the first match decides.
pub open spec fn classify_spec(s: Seq<u8>, name: Seq<u8>) -> LineClass {
    if is_blank(s) {
        LineClass::Blank
    } else if is_lint(s) {
        LineClass::LintDirective
    } else if self_open_match(s, name) {
        LineClass::SelfNamespaceOpen
    } else if self_import_match(s, name) {
        LineClass::SelfImport(self_import_path(s, name))
    } else if crate_import_match(s) {
        LineClass::CrateImport(crate_import_path(s))
    } else if mod_decl_match(s) {
        LineClass::ModuleDeclaration(mod_decl_name(s))
    } else {
        LineClass::Passthrough
    }
}

/// The largest index holding a `;` that ends a statement (only whitespace and
/// an optional `//` comment after it), if the line has one.
fn find_semi(s: &Vec<u8>) -> (r: Option<usize>)
    ensures
        match r {
            Some(q) => semi_pos(s@, s@.len() - 1) == Some(q as int),
            None => semi_pos(s@, s@.len() - 1) is None,
        },
{
    let mut j: usize = s.len();
    loop
        invariant
            0 <= j <= s.len(),
            semi_pos(s@, s@.len() - 1) == semi_pos(s@, j - 1),
        decreases j,
    {
        if j == 0 {
            return None;
        }
        if s[j - 1] == 59 && tail_is_ok(s, j) {
            return Some(j - 1);
        }
        j = j - 1;
    }
}

/// Classifies one line of source for a package called `name`.
pub fn classify(line: &Vec<u8>, name: &Vec<u8>) -> (k: LineKind)
    ensures
        k@ == classify_spec(line@, name@),
{
    proof {
        assert([47u8, 47u8]@ =~= seq![47u8, 47u8]);
        assert([35u8, 33u8, 91u8, 119u8, 97u8, 114u8, 110u8, 40u8]@ =~= lint_prefix());
        assert([117u8, 115u8, 101u8]@ =~= kw_use());
        assert([58u8, 58u8]@ =~= dcolon());
        assert([99u8, 114u8, 97u8, 116u8, 101u8, 58u8, 58u8]@ =~= kw_crate_dcolon());
        assert([109u8, 111u8, 100u8]@ =~= kw_mod());
    }
    let s_len = line.len();
    let j0 = skip_ws(line, 0);
    // Blank: nothing but whitespace, or a bare comment.
    if j0 == s_len || has_lit_at(line, j0, &[47u8, 47u8]) {
        return LineKind::Blank;
    }
    // Lint directive.
    if has_lit_at(line, j0, &[35u8, 33u8, 91u8, 119u8, 97u8, 114u8, 110u8, 40u8]) {
        return LineKind::LintDirective;
    }
    // The declaration of the package's own crate.
    if match_self_open(line, name, j0) {
        return LineKind::SelfNamespaceOpen;
    }
    // The two import patterns share the `use` prefix.
    if has_lit_at(line, j0, &[117u8, 115u8, 101u8]) {
        let j2 = skip_ws(line, j0 + 3);
        if j2 > j0 + 3 {
            // Self-import: `use <name>::...;`.
            if has_lit_at(line, j2, name.as_slice()) && has_lit_at(
                line,
                j2 + name.len(),
                &[58u8, 58u8],
            ) {
                match find_semi(line) {
                    Some(q) => {
                        proof {
                            lemma_semi_pos(line@, line@.len() - 1);
                        }
                        if q >= j2 + name.len() + 2 {
                            let mut p: Vec<u8> = Vec::new();
                            crate::text::push_byte_range(&mut p, line, j2, q);
                            return LineKind::SelfImport(p);
                        }
                    },
                    None => {},
                }
            }
            // Crate-qualified import: `use crate::...;`.
            let e = trim_end(line);
            proof {
                crate::text::lemma_trim_end_idx(line@, line@.len() as int);
            }
            if has_lit_at(line, j2, &[99u8, 114u8, 97u8, 116u8, 101u8, 58u8, 58u8]) && e >= 1
                && line[e - 1] == 59 && e - 1 >= j2 + 7 {
                let mut p: Vec<u8> = Vec::new();
                crate::text::push_byte_range(&mut p, line, j2 + 7, e - 1);
                return LineKind::CrateImport(p);
            }
        }
    }
    // Module declaration.
    let jp = mod_pos(line, j0);
    if has_lit_at(line, jp, &[109u8, 111u8, 100u8]) {
        let js = skip_ws(line, jp + 3);
        if js > jp + 3 {
            match find_semi(line) {
                Some(q) => {
                    proof {
                        lemma_semi_pos(line@, line@.len() - 1);
                    }
                    if q > js {
                        let mut p: Vec<u8> = Vec::new();
                        crate::text::push_byte_range(&mut p, line, js, q);
                        return LineKind::ModuleDeclaration(p);
                    } else if q == js && js - (jp + 3) >= 2 {
                        let mut p: Vec<u8> = Vec::new();
                        crate::text::push_byte_range(&mut p, line, js - 1, q);
                        return LineKind::ModuleDeclaration(p);
                    }
                },
                None => {},
            }
        }
    }
    LineKind::Passthrough
}

/// Where the `mod` keyword would stand, skipping an optional leading `pub`.
fn mod_pos(line: &Vec<u8>, j0: usize) -> (r: usize)
    requires
        j0 == ws_end(line@, 0),
        0 <= j0 <= line@.len(),
    ensures
        r == mod_kw_pos(line@),
        j0 <= r <= line@.len(),
{
    proof {
        crate::text::lemma_ws_end(line@, 0);
    }
    let n = line.len();
    if has_lit_at(line, j0, &[112u8, 117u8, 98u8]) {
        proof {
            assert([112u8, 117u8, 98u8]@ =~= kw_pub());
            assert(j0 + 3 <= n);
        }
        let jw = skip_ws(line, j0 + 3);
        if jw > j0 + 3 {
            return jw;
        }
        return j0;
    }
    proof {
        assert([112u8, 117u8, 98u8]@ =~= kw_pub());
    }
    j0
}

/// Checks the pattern that opens the package's own namespace.
fn match_self_open(line: &Vec<u8>, name: &Vec<u8>, j0: usize) -> (r: bool)
    requires
        j0 == ws_end(line@, 0),
        0 <= j0 <= line@.len(),
    ensures
        r == self_open_match(line@, name@),
{
    proof {
        assert([101u8, 120u8, 116u8, 101u8, 114u8, 110u8]@ =~= kw_decl());
        assert([99u8, 114u8, 97u8, 116u8, 101u8]@ =~= kw_crate());
    }
    let n = line.len();
    if !has_lit_at(line, j0, &[101u8, 120u8, 116u8, 101u8, 114u8, 110u8]) {
        return false;
    }
    proof {
        assert(j0 + 6 <= n);
    }
    let j1 = j0 + 6;
    let j2 = skip_ws(line, j1);
    if j2 <= j1 || !has_lit_at(line, j2, &[99u8, 114u8, 97u8, 116u8, 101u8]) {
        return false;
    }
    let j3 = j2 + 5;
    let j4 = skip_ws(line, j3);
    if j4 <= j3 || !has_lit_at(line, j4, name.as_slice()) {
        return false;
    }
    let j5 = j4 + name.len();
    let j6 = skip_ws(line, j5);
    if j6 < line.len() && line[j6] == 59 && tail_is_ok(line, j6 + 1) {
        true
    } else {
        false
    }
}

} // verus!
