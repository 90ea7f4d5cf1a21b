//! The functional model of the whole expansion: what the bundler's output is,
//! line for line, as a recursive function over the entry file, the file table
//! and the package name. The executable passes are proved to return exactly
//! what this model says.
//!
//! Output lines carry a tag: a namespace-wrap opener, a namespace-wrap closer,
//! or plain text. The tags let the nesting discipline of the wrap tokens be
//! stated and proved; the byte-level output is the rendering of the tagged
//! lines.

use vstd::prelude::*;

use crate::classify::{
    classify_spec, dcolon, kw_crate, tests_name, LineClass,
};
use crate::table::{find_file, max_path_len, FileSpec};
use crate::text::emit_spec;

verus! {

/// Why a run was given up: a file that should exist is missing from the table,
/// a module declaration resolves to no file, or the configured package name
/// cannot be used to build the line patterns.
#[derive(Clone, Copy, Debug, PartialEq, Eq, Structural)]
pub enum BundleError {
    /// The package's root module file is not in the table.
    Io,
    /// A declared sub-module has no file under either naming convention.
    ModuleNotFound,
    /// The package name is empty, not an identifier, or the reserved word
    /// `crate`.
    Pattern,
}

/// One output line, tagged with its role.
pub enum OutLine {
    /// The opening token of an inlined module's namespace wrap.
    Open(Seq<u8>),
    /// The matching closing token.
    Close,
    /// Any other emitted line.
    Text(Seq<u8>),
}

/// What one run of the expander produces: the tagged output and the set of
/// module import paths that were inlined, or the error it stopped on.
pub enum Expansion {
    Done { out: Seq<OutLine>, seen: Set<Seq<u8>> },
    Failed(BundleError),
}

/// `src/`
pub open spec fn src_prefix() -> Seq<u8> {
    seq![115u8, 114u8, 99u8, 47u8]
}

/// `.rs`
pub open spec fn rs_suffix() -> Seq<u8> {
    seq![46u8, 114u8, 115u8]
}

/// `/mod.rs`
pub open spec fn mod_rs_suffix() -> Seq<u8> {
    seq![47u8, 109u8, 111u8, 100u8, 46u8, 114u8, 115u8]
}

/// `src/lib.rs`: where the package's root module lives.
pub open spec fn lib_path() -> Seq<u8> {
    seq![115u8, 114u8, 99u8, 47u8, 108u8, 105u8, 98u8, 46u8, 114u8, 115u8]
}

/// `pub mod `
pub open spec fn open_prefix() -> Seq<u8> {
    seq![112u8, 117u8, 98u8, 32u8, 109u8, 111u8, 100u8, 32u8]
}

/// ` {`
pub open spec fn open_suffix() -> Seq<u8> {
    seq![32u8, 123u8]
}

/// `}`
pub open spec fn close_tok() -> Seq<u8> {
    seq![125u8]
}

/// `use ::`
pub open spec fn use_self_prefix() -> Seq<u8> {
    seq![117u8, 115u8, 101u8, 32u8, 58u8, 58u8]
}

/// `use `
pub open spec fn use_prefix() -> Seq<u8> {
    seq![117u8, 115u8, 101u8, 32u8]
}

/// `super::`
pub open spec fn super_seg() -> Seq<u8> {
    seq![115u8, 117u8, 112u8, 101u8, 114u8, 58u8, 58u8]
}

/// `lvl` copies of `super::`, one for each enclosing namespace level.
pub open spec fn supers(lvl: nat) -> Seq<u8>
    decreases lvl,
{
    if lvl == 0 {
        Seq::empty()
    } else {
        supers((lvl - 1) as nat) + super_seg()
    }
}

/// The bytes of one rendered output line.
pub open spec fn render_line(t: OutLine) -> Seq<u8> {
    match t {
        OutLine::Open(name) => open_prefix() + name + open_suffix(),
        OutLine::Close => close_tok(),
        OutLine::Text(l) => l,
    }
}

/// The rendering of the whole tagged output.
pub open spec fn render(ts: Seq<OutLine>) -> Seq<Seq<u8>> {
    ts.map_values(|t: OutLine| render_line(t))
}

/// The rewritten form of an entry-file import of the package's own namespace:
/// `use ::<path>;`, rooted at the flattened output's top level.
pub open spec fn use_self_line(sub: Seq<u8>) -> Seq<u8> {
    use_self_prefix() + sub + seq![59u8]
}

/// The rewritten form of a crate-qualified import inside an inlined module:
/// `use super::...<path>;`, stepping up one namespace per nesting level.
pub open spec fn use_super_line(lvl: nat, p: Seq<u8>) -> Seq<u8> {
    use_prefix() + supers(lvl) + p + seq![59u8]
}

/// An ASCII letter or underscore.
pub open spec fn is_ident_start(b: u8) -> bool {
    (65 <= b && b <= 90) || (97 <= b && b <= 122) || b == 95
}

/// An ASCII letter, digit or underscore.
pub open spec fn is_ident_char(b: u8) -> bool {
    is_ident_start(b) || (48 <= b && b <= 57)
}

/// A package name the patterns can be built from: a nonempty identifier other
/// than the reserved word `crate`, whose pattern would clash with the
/// crate-qualified import form.
pub open spec fn acceptable_name(s: Seq<u8>) -> bool {
    &&& s.len() >= 1
    &&& is_ident_start(s[0])
    &&& forall|i: int| 1 <= i < s.len() ==> is_ident_char(s[i])
    &&& s != kw_crate()
}

/// The path of a module's flat source file: `src/<fragment>.rs`.
pub open spec fn flat_path(path: Seq<u8>) -> Seq<u8> {
    src_prefix() + path + rs_suffix()
}

/// The path of a module's directory-form source file: `src/<fragment>/mod.rs`.
pub open spec fn dir_path(path: Seq<u8>) -> Seq<u8> {
    src_prefix() + path + mod_rs_suffix()
}

/// The lines of a module's source file under the two-convention lookup, the
/// flat file preferred.
pub open spec fn resolve_module(files: Seq<FileSpec>, path: Seq<u8>) -> Option<Seq<Seq<u8>>> {
    match find_file(files, flat_path(path)) {
        Some(ls) => Some(ls),
        None => find_file(files, dir_path(path)),
    }
}

/// How many lines the resolved module file has; part of the termination
/// measure of the mutual recursion below.
pub open spec fn resolve_len(files: Seq<FileSpec>, path: Seq<u8>) -> nat {
    match resolve_module(files, path) {
        Some(ls) => ls.len(),
        None => 0,
    }
}

/// How much longer than the module path the longest path in the table is;
/// every recursive descent lengthens the path, so this measure shrinks.
pub open spec fn rem_depth(files: Seq<FileSpec>, path: Seq<u8>) -> nat {
    if path.len() <= max_path_len(files) {
        (max_path_len(files) - path.len()) as nat
    } else {
        0
    }
}

/// Whether the expansion succeeded.
pub open spec fn is_done(e: Expansion) -> bool {
    e is Done
}

/// The tagged output of a successful expansion.
pub open spec fn exp_out(e: Expansion) -> Seq<OutLine> {
    match e {
        Expansion::Done { out, .. } => out,
        Expansion::Failed(_) => Seq::empty(),
    }
}

/// The seen-import set a successful expansion ends with.
pub open spec fn exp_seen(e: Expansion) -> Set<Seq<u8>> {
    match e {
        Expansion::Done { seen, .. } => seen,
        Expansion::Failed(_) => Set::empty(),
    }
}

/// `t` put in front of the output of `rest`, errors passed along.
pub open spec fn prepend(t: OutLine, rest: Expansion) -> Expansion {
    match rest {
        Expansion::Failed(e) => Expansion::Failed(e),
        Expansion::Done { out, seen } => Expansion::Done { out: seq![t] + out, seen },
    }
}

/// The expansion of one declared sub-module: its file resolved, its import
/// path recorded as inlined, its lines expanded, and the whole wrapped in the
/// module's namespace tokens.
pub open spec fn expand_mod_spec(
    files: Seq<FileSpec>,
    mname: Seq<u8>,
    path: Seq<u8>,
    import: Seq<u8>,
    lvl: nat,
    name: Seq<u8>,
    minify: bool,
    seen: Set<Seq<u8>>,
) -> Expansion
    decreases rem_depth(files, path), resolve_len(files, path) + 1,
{
    match resolve_module(files, path) {
        None => Expansion::Failed(BundleError::ModuleNotFound),
        Some(ls) => match mod_lines_spec(
            files,
            ls,
            0,
            path,
            import,
            lvl,
            name,
            minify,
            seen.insert(import),
        ) {
            Expansion::Failed(e) => Expansion::Failed(e),
            Expansion::Done { out, seen: s2 } => Expansion::Done {
                out: seq![OutLine::Open(mname)] + out + seq![OutLine::Close],
                seen: s2,
            },
        },
    }
}

/// The expansion of an inlined module's lines from line `i` on: blank and
/// lint lines vanish, crate-qualified imports are rewritten to step up
/// through `lvl` namespaces, sub-module declarations recurse (the reserved
/// test module is skipped), and everything else is passed through.
pub open spec fn mod_lines_spec(
    files: Seq<FileSpec>,
    lines: Seq<Seq<u8>>,
    i: int,
    path: Seq<u8>,
    import: Seq<u8>,
    lvl: nat,
    name: Seq<u8>,
    minify: bool,
    seen: Set<Seq<u8>>,
) -> Expansion
    decreases rem_depth(files, path), lines.len() - i
        when rem_depth(files, path) > 0
{
    if i < 0 || i >= lines.len() {
        Expansion::Done { out: Seq::empty(), seen }
    } else {
        let l = lines[i];
        match classify_spec(l, name) {
            LineClass::Blank => mod_lines_spec(
                files,
                lines,
                i + 1,
                path,
                import,
                lvl,
                name,
                minify,
                seen,
            ),
            LineClass::LintDirective => mod_lines_spec(
                files,
                lines,
                i + 1,
                path,
                import,
                lvl,
                name,
                minify,
                seen,
            ),
            LineClass::CrateImport(p) => prepend(
                OutLine::Text(use_super_line(lvl, p)),
                mod_lines_spec(files, lines, i + 1, path, import, lvl, name, minify, seen),
            ),
            LineClass::ModuleDeclaration(m) => {
                if m == tests_name() {
                    mod_lines_spec(files, lines, i + 1, path, import, lvl, name, minify, seen)
                } else {
                    let path2 = path + seq![47u8] + m;
                    let import2 = import + dcolon() + m;
                    match expand_mod_spec(files, m, path2, import2, lvl + 1, name, minify, seen) {
                        Expansion::Failed(e) => Expansion::Failed(e),
                        Expansion::Done { out: chunk, seen: s2 } => match mod_lines_spec(
                            files,
                            lines,
                            i + 1,
                            path,
                            import,
                            lvl,
                            name,
                            minify,
                            s2,
                        ) {
                            Expansion::Failed(e) => Expansion::Failed(e),
                            Expansion::Done { out: rest, seen: s3 } => Expansion::Done {
                                out: chunk + rest,
                                seen: s3,
                            },
                        },
                    }
                }
            },
            _ => prepend(
                OutLine::Text(emit_spec(l, minify)),
                mod_lines_spec(files, lines, i + 1, path, import, lvl, name, minify, seen),
            ),
        }
    }
}

/// The expansion of the package's root module file from line `i` on: like a
/// sub-module's lines, except that nothing is wrapped, a declared sub-module
/// starts at nesting level 1, and a crate-qualified import whose path was
/// already inlined as a whole module is suppressed, since the module stands
/// in the same scope.
pub open spec fn root_lines_spec(
    files: Seq<FileSpec>,
    lines: Seq<Seq<u8>>,
    i: int,
    name: Seq<u8>,
    minify: bool,
    seen: Set<Seq<u8>>,
) -> Expansion
    decreases rem_depth(files, Seq::<u8>::empty()), lines.len() - i
        when max_path_len(files) >= 1
        via root_lines_spec_decreases
{
    if i < 0 || i >= lines.len() {
        Expansion::Done { out: Seq::empty(), seen }
    } else {
        let l = lines[i];
        match classify_spec(l, name) {
            LineClass::Blank => root_lines_spec(files, lines, i + 1, name, minify, seen),
            LineClass::LintDirective => root_lines_spec(files, lines, i + 1, name, minify, seen),
            LineClass::CrateImport(p) => {
                if seen.contains(p) {
                    root_lines_spec(files, lines, i + 1, name, minify, seen)
                } else {
                    prepend(
                        OutLine::Text(emit_spec(l, minify)),
                        root_lines_spec(files, lines, i + 1, name, minify, seen),
                    )
                }
            },
            LineClass::ModuleDeclaration(m) => {
                if m == tests_name() {
                    root_lines_spec(files, lines, i + 1, name, minify, seen)
                } else {
                    match expand_mod_spec(files, m, m, m, 1, name, minify, seen) {
                        Expansion::Failed(e) => Expansion::Failed(e),
                        Expansion::Done { out: chunk, seen: s2 } => match root_lines_spec(
                            files,
                            lines,
                            i + 1,
                            name,
                            minify,
                            s2,
                        ) {
                            Expansion::Failed(e) => Expansion::Failed(e),
                            Expansion::Done { out: rest, seen: s3 } => Expansion::Done {
                                out: chunk + rest,
                                seen: s3,
                            },
                        },
                    }
                }
            },
            _ => prepend(
                OutLine::Text(emit_spec(l, minify)),
                root_lines_spec(files, lines, i + 1, name, minify, seen),
            ),
        }
    }
}

#[via_fn]
proof fn root_lines_spec_decreases(
    files: Seq<FileSpec>,
    lines: Seq<Seq<u8>>,
    i: int,
    name: Seq<u8>,
    minify: bool,
    seen: Set<Seq<u8>>,
) {
    if 0 <= i < lines.len() {
        match classify_spec(lines[i], name) {
            LineClass::ModuleDeclaration(_) => {
                crate::classify::lemma_mod_decl_name_nonempty(lines[i], name);
            },
            _ => {},
        }
    }
}

/// The expansion of the entry file from line `i` on: blank and lint lines
/// vanish, the declaration of the package's own crate is replaced by the
/// wrapped root module, imports of the package's own namespace are rewritten
/// to the flattened root, and everything else is passed through.
pub open spec fn entry_lines_spec(
    files: Seq<FileSpec>,
    lines: Seq<Seq<u8>>,
    i: int,
    name: Seq<u8>,
    minify: bool,
    seen: Set<Seq<u8>>,
) -> Expansion
    decreases lines.len() - i,
{
    if i < 0 || i >= lines.len() {
        Expansion::Done { out: Seq::empty(), seen }
    } else {
        let l = lines[i];
        match classify_spec(l, name) {
            LineClass::Blank => entry_lines_spec(files, lines, i + 1, name, minify, seen),
            LineClass::LintDirective => entry_lines_spec(files, lines, i + 1, name, minify, seen),
            LineClass::SelfNamespaceOpen => match find_file(files, lib_path()) {
                None => Expansion::Failed(BundleError::Io),
                Some(libls) => match root_lines_spec(files, libls, 0, name, minify, seen) {
                    Expansion::Failed(e) => Expansion::Failed(e),
                    Expansion::Done { out: inner, seen: s2 } => match entry_lines_spec(
                        files,
                        lines,
                        i + 1,
                        name,
                        minify,
                        s2,
                    ) {
                        Expansion::Failed(e) => Expansion::Failed(e),
                        Expansion::Done { out: rest, seen: s3 } => Expansion::Done {
                            out: seq![OutLine::Open(name)] + inner + seq![OutLine::Close] + rest,
                            seen: s3,
                        },
                    },
                },
            },
            LineClass::SelfImport(sub) => prepend(
                OutLine::Text(use_self_line(sub)),
                entry_lines_spec(files, lines, i + 1, name, minify, seen),
            ),
            _ => prepend(
                OutLine::Text(emit_spec(l, minify)),
                entry_lines_spec(files, lines, i + 1, name, minify, seen),
            ),
        }
    }
}

/// The whole run: the package name is checked, then the entry file is
/// expanded starting from the given seen-import set (empty for a fresh
/// bundler).
pub open spec fn run_spec(
    files: Seq<FileSpec>,
    entry: Seq<Seq<u8>>,
    name: Seq<u8>,
    minify: bool,
    seen: Set<Seq<u8>>,
) -> Expansion {
    if !acceptable_name(name) {
        Expansion::Failed(BundleError::Pattern)
    } else {
        entry_lines_spec(files, entry, 0, name, minify, seen)
    }
}

} // verus!
