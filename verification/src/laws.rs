//! The laws the expansion obeys, each stated over the functional model and
//! proved once and for all: passthrough emission is the identity, the
//! reserved test module never contributes output, suppressed imports emit
//! nothing, the namespace-wrap tokens are balanced and properly nested, and
//! minified emission differs from plain emission only in surrounding
//! whitespace.

use vstd::prelude::*;

use crate::classify::{classify_spec, tests_name, LineClass};
use crate::model::{
    entry_lines_spec, exp_out, expand_mod_spec, is_done, lib_path, mod_lines_spec, rem_depth,
    resolve_module, root_lines_spec, run_spec, OutLine,
};
use crate::table::{find_file, lemma_find_file_len, max_path_len, FileSpec};
use crate::text::{
    emit_spec, is_ws, lemma_trim_end_idx, lemma_ws_end, trim_end_idx, ws_end,
};

verus! {

/// A line that classifies as passthrough is emitted byte for byte when minify
/// is off.
pub proof fn lemma_passthrough_identity(line: Seq<u8>, name: Seq<u8>)
    requires
        classify_spec(line, name) is Passthrough,
    ensures
        emit_spec(line, false) == line,
{
}

/// Minified emission differs from plain emission only in leading and
/// trailing whitespace: it is a contiguous slice of the line, and every byte
/// outside that slice is whitespace.
pub proof fn lemma_minify_whitespace_only(line: Seq<u8>)
    ensures
        ({
            let a = ws_end(line, 0);
            let b = trim_end_idx(line, line.len() as int);
            if a == line.len() {
                emit_spec(line, true) == Seq::<u8>::empty() && (forall|k: int|
                    0 <= k < line.len() ==> is_ws(line[k]))
            } else {
                emit_spec(line, true) == line.subrange(a, b) && (forall|k: int|
                    0 <= k < a ==> is_ws(line[k])) && (forall|k: int|
                    b <= k < line.len() ==> is_ws(line[k]))
            }
        }),
{
    lemma_ws_end(line, 0);
    lemma_trim_end_idx(line, line.len() as int);
}

/// A declaration of the reserved test module contributes nothing to the root
/// pass: neither content nor wrap tokens, and the seen-import set is
/// untouched.
pub proof fn lemma_test_module_exclusion_root(
    files: Seq<FileSpec>,
    lines: Seq<Seq<u8>>,
    i: int,
    name: Seq<u8>,
    minify: bool,
    seen: Set<Seq<u8>>,
)
    requires
        0 <= i < lines.len(),
        classify_spec(lines[i], name) == LineClass::ModuleDeclaration(tests_name()),
        max_path_len(files) >= 1,
    ensures
        root_lines_spec(files, lines, i, name, minify, seen) == root_lines_spec(
            files,
            lines,
            i + 1,
            name,
            minify,
            seen,
        ),
{
}

/// A declaration of the reserved test module contributes nothing inside an
/// inlined module either.
pub proof fn lemma_test_module_exclusion_mod(
    files: Seq<FileSpec>,
    lines: Seq<Seq<u8>>,
    i: int,
    path: Seq<u8>,
    import: Seq<u8>,
    lvl: nat,
    name: Seq<u8>,
    minify: bool,
    seen: Set<Seq<u8>>,
)
    requires
        0 <= i < lines.len(),
        classify_spec(lines[i], name) == LineClass::ModuleDeclaration(tests_name()),
        rem_depth(files, path) > 0,
    ensures
        mod_lines_spec(files, lines, i, path, import, lvl, name, minify, seen) == mod_lines_spec(
            files,
            lines,
            i + 1,
            path,
            import,
            lvl,
            name,
            minify,
            seen,
        ),
{
}

/// A crate-qualified import whose target path was already inlined as a whole
/// module emits nothing in the root pass: the module stands in the same
/// scope, so repeating the import would only duplicate it.
pub proof fn lemma_import_suppression(
    files: Seq<FileSpec>,
    lines: Seq<Seq<u8>>,
    i: int,
    name: Seq<u8>,
    minify: bool,
    seen: Set<Seq<u8>>,
)
    requires
        0 <= i < lines.len(),
        classify_spec(lines[i], name) matches LineClass::CrateImport(p) && seen.contains(p),
        max_path_len(files) >= 1,
    ensures
        root_lines_spec(files, lines, i, name, minify, seen) == root_lines_spec(
            files,
            lines,
            i + 1,
            name,
            minify,
            seen,
        ),
{
}

/// What one tagged output line adds to the wrap-nesting depth.
pub open spec fn wrap_delta(t: OutLine) -> int {
    match t {
        OutLine::Open(_) => 1,
        OutLine::Close => -1,
        OutLine::Text(_) => 0,
    }
}

/// The net nesting depth over a tagged output.
pub open spec fn wrap_sum(ts: Seq<OutLine>) -> int
    decreases ts.len(),
{
    if ts.len() == 0 {
        0
    } else {
        wrap_delta(ts[0]) + wrap_sum(ts.drop_first())
    }
}

/// How many opening wrap tokens the output holds.
pub open spec fn opens_count(ts: Seq<OutLine>) -> int
    decreases ts.len(),
{
    if ts.len() == 0 {
        0
    } else {
        (if ts[0] is Open {
            1int
        } else {
            0int
        }) + opens_count(ts.drop_first())
    }
}

/// How many closing wrap tokens the output holds.
pub open spec fn closes_count(ts: Seq<OutLine>) -> int
    decreases ts.len(),
{
    if ts.len() == 0 {
        0
    } else {
        (if ts[0] is Close {
            1int
        } else {
            0int
        }) + closes_count(ts.drop_first())
    }
}

/// A stack-based scan of the output never goes negative.
pub open spec fn balanced_prefixes(ts: Seq<OutLine>) -> bool {
    forall|k: int| 0 <= k <= ts.len() ==> wrap_sum(#[trigger] ts.subrange(0, k)) >= 0
}

/// A tagged output whose wrap tokens are balanced: as many openers as
/// closers, and no prefix closes more than it has opened.
pub open spec fn well_nested(ts: Seq<OutLine>) -> bool {
    &&& wrap_sum(ts) == 0
    &&& balanced_prefixes(ts)
}

proof fn lemma_wrap_sum_one(t: OutLine)
    ensures
        wrap_sum(seq![t]) == wrap_delta(t),
{
    let s = seq![t];
    assert(s.drop_first() =~= Seq::<OutLine>::empty());
    assert(wrap_sum(Seq::<OutLine>::empty()) == 0);
}

proof fn lemma_wrap_sum_app(a: Seq<OutLine>, b: Seq<OutLine>)
    ensures
        wrap_sum(a + b) == wrap_sum(a) + wrap_sum(b),
    decreases a.len(),
{
    if a.len() == 0 {
        assert(a + b =~= b);
    } else {
        assert((a + b).drop_first() =~= a.drop_first() + b);
        lemma_wrap_sum_app(a.drop_first(), b);
    }
}

/// The net depth is the difference between openers and closers.
proof fn lemma_wrap_sum_counts(ts: Seq<OutLine>)
    ensures
        wrap_sum(ts) == opens_count(ts) - closes_count(ts),
    decreases ts.len(),
{
    if ts.len() > 0 {
        lemma_wrap_sum_counts(ts.drop_first());
    }
}

/// Two well-nested outputs concatenate to a well-nested output.
proof fn lemma_well_nested_concat(a: Seq<OutLine>, b: Seq<OutLine>)
    requires
        well_nested(a),
        well_nested(b),
    ensures
        well_nested(a + b),
{
    lemma_wrap_sum_app(a, b);
    assert forall|k: int| 0 <= k <= (a + b).len() implies wrap_sum(
        #[trigger] (a + b).subrange(0, k),
    ) >= 0 by {
        if k <= a.len() {
            assert((a + b).subrange(0, k) =~= a.subrange(0, k));
        } else {
            assert((a + b).subrange(0, k) =~= a + b.subrange(0, k - a.len()));
            lemma_wrap_sum_app(a, b.subrange(0, k - a.len()));
        }
    }
}

/// Wrapping a well-nested output in one opener and one closer keeps it well
/// nested.
proof fn lemma_well_nested_wrap(mname: Seq<u8>, inner: Seq<OutLine>)
    requires
        well_nested(inner),
    ensures
        well_nested(seq![OutLine::Open(mname)] + inner + seq![OutLine::Close]),
{
    let o = seq![OutLine::Open(mname)];
    let c = seq![OutLine::Close];
    let w = o + inner + c;
    lemma_wrap_sum_one(OutLine::Open(mname));
    lemma_wrap_sum_one(OutLine::Close);
    lemma_wrap_sum_app(o, inner);
    lemma_wrap_sum_app(o + inner, c);
    assert forall|k: int| 0 <= k <= w.len() implies wrap_sum(#[trigger] w.subrange(0, k)) >= 0 by {
        if k == 0 {
            assert(w.subrange(0, 0) =~= Seq::<OutLine>::empty());
        } else if k <= 1 + inner.len() {
            assert(w.subrange(0, k) =~= o + inner.subrange(0, k - 1));
            lemma_wrap_sum_app(o, inner.subrange(0, k - 1));
        } else {
            assert(w.subrange(0, k) =~= w);
        }
    }
}

/// The empty output is well nested.
proof fn lemma_well_nested_empty()
    ensures
        well_nested(Seq::<OutLine>::empty()),
{
    assert forall|k: int| 0 <= k <= 0 implies wrap_sum(
        #[trigger] Seq::<OutLine>::empty().subrange(0, k),
    ) >= 0 by {
        assert(Seq::<OutLine>::empty().subrange(0, k) =~= Seq::<OutLine>::empty());
    }
}

/// A single text line is well nested.
proof fn lemma_well_nested_text(l: Seq<u8>)
    ensures
        well_nested(seq![OutLine::Text(l)]),
{
    let t = seq![OutLine::Text(l)];
    lemma_wrap_sum_one(OutLine::Text(l));
    assert forall|k: int| 0 <= k <= t.len() implies wrap_sum(#[trigger] t.subrange(0, k)) >= 0 by {
        if k == 0 {
            assert(t.subrange(0, k) =~= Seq::<OutLine>::empty());
        } else {
            assert(t.subrange(0, k) =~= t);
        }
    }
}

proof fn lemma_balance_expand_mod(
    files: Seq<FileSpec>,
    mname: Seq<u8>,
    path: Seq<u8>,
    import: Seq<u8>,
    lvl: nat,
    name: Seq<u8>,
    minify: bool,
    seen: Set<Seq<u8>>,
)
    ensures
        ({
            let m = expand_mod_spec(files, mname, path, import, lvl, name, minify, seen);
            is_done(m) ==> well_nested(exp_out(m))
        }),
    decreases rem_depth(files, path), crate::model::resolve_len(files, path) + 1,
{
    match resolve_module(files, path) {
        None => {},
        Some(ls) => {
            lemma_find_file_len(files, crate::model::flat_path(path));
            lemma_find_file_len(files, crate::model::dir_path(path));
            lemma_balance_mod_lines(files, ls, 0, path, import, lvl, name, minify, seen.insert(import));
            let m = expand_mod_spec(files, mname, path, import, lvl, name, minify, seen);
            if is_done(m) {
                let inner = mod_lines_spec(files, ls, 0, path, import, lvl, name, minify, seen.insert(import));
                lemma_well_nested_wrap(mname, exp_out(inner));
            }
        },
    }
}

proof fn lemma_balance_mod_lines(
    files: Seq<FileSpec>,
    lines: Seq<Seq<u8>>,
    i: int,
    path: Seq<u8>,
    import: Seq<u8>,
    lvl: nat,
    name: Seq<u8>,
    minify: bool,
    seen: Set<Seq<u8>>,
)
    requires
        rem_depth(files, path) > 0,
    ensures
        ({
            let m = mod_lines_spec(files, lines, i, path, import, lvl, name, minify, seen);
            is_done(m) ==> well_nested(exp_out(m))
        }),
    decreases rem_depth(files, path), lines.len() - i,
{
    if i < 0 || i >= lines.len() {
        lemma_well_nested_empty();
    } else {
        let l = lines[i];
        match classify_spec(l, name) {
            LineClass::Blank => {
                lemma_balance_mod_lines(files, lines, i + 1, path, import, lvl, name, minify, seen);
            },
            LineClass::LintDirective => {
                lemma_balance_mod_lines(files, lines, i + 1, path, import, lvl, name, minify, seen);
            },
            LineClass::CrateImport(p) => {
                lemma_balance_mod_lines(files, lines, i + 1, path, import, lvl, name, minify, seen);
                let rest = mod_lines_spec(files, lines, i + 1, path, import, lvl, name, minify, seen);
                if is_done(rest) {
                    lemma_well_nested_text(crate::model::use_super_line(lvl, p));
                    lemma_well_nested_concat(
                        seq![OutLine::Text(crate::model::use_super_line(lvl, p))],
                        exp_out(rest),
                    );
                }
            },
            LineClass::ModuleDeclaration(m) => {
                if m == tests_name() {
                    lemma_balance_mod_lines(files, lines, i + 1, path, import, lvl, name, minify, seen);
                } else {
                    let path2 = path + seq![47u8] + m;
                    let import2 = import + crate::classify::dcolon() + m;
                    lemma_balance_expand_mod(files, m, path2, import2, lvl + 1, name, minify, seen);
                    let sub = expand_mod_spec(files, m, path2, import2, lvl + 1, name, minify, seen);
                    if is_done(sub) {
                        lemma_balance_mod_lines(
                            files,
                            lines,
                            i + 1,
                            path,
                            import,
                            lvl,
                            name,
                            minify,
                            crate::model::exp_seen(sub),
                        );
                        let rest = mod_lines_spec(
                            files,
                            lines,
                            i + 1,
                            path,
                            import,
                            lvl,
                            name,
                            minify,
                            crate::model::exp_seen(sub),
                        );
                        if is_done(rest) {
                            lemma_well_nested_concat(exp_out(sub), exp_out(rest));
                        }
                    }
                }
            },
            _ => {
                lemma_balance_mod_lines(files, lines, i + 1, path, import, lvl, name, minify, seen);
                let rest = mod_lines_spec(files, lines, i + 1, path, import, lvl, name, minify, seen);
                if is_done(rest) {
                    lemma_well_nested_text(emit_spec(l, minify));
                    lemma_well_nested_concat(
                        seq![OutLine::Text(emit_spec(l, minify))],
                        exp_out(rest),
                    );
                }
            },
        }
    }
}

proof fn lemma_balance_root_lines(
    files: Seq<FileSpec>,
    lines: Seq<Seq<u8>>,
    i: int,
    name: Seq<u8>,
    minify: bool,
    seen: Set<Seq<u8>>,
)
    requires
        max_path_len(files) >= 1,
    ensures
        ({
            let m = root_lines_spec(files, lines, i, name, minify, seen);
            is_done(m) ==> well_nested(exp_out(m))
        }),
    decreases lines.len() - i,
{
    if i < 0 || i >= lines.len() {
        lemma_well_nested_empty();
    } else {
        let l = lines[i];
        match classify_spec(l, name) {
            LineClass::Blank => {
                lemma_balance_root_lines(files, lines, i + 1, name, minify, seen);
            },
            LineClass::LintDirective => {
                lemma_balance_root_lines(files, lines, i + 1, name, minify, seen);
            },
            LineClass::CrateImport(p) => {
                if seen.contains(p) {
                    lemma_balance_root_lines(files, lines, i + 1, name, minify, seen);
                } else {
                    lemma_balance_root_lines(files, lines, i + 1, name, minify, seen);
                    let rest = root_lines_spec(files, lines, i + 1, name, minify, seen);
                    if is_done(rest) {
                        lemma_well_nested_text(emit_spec(l, minify));
                        lemma_well_nested_concat(
                            seq![OutLine::Text(emit_spec(l, minify))],
                            exp_out(rest),
                        );
                    }
                }
            },
            LineClass::ModuleDeclaration(m) => {
                if m == tests_name() {
                    lemma_balance_root_lines(files, lines, i + 1, name, minify, seen);
                } else {
                    lemma_balance_expand_mod(files, m, m, m, 1, name, minify, seen);
                    let sub = expand_mod_spec(files, m, m, m, 1, name, minify, seen);
                    if is_done(sub) {
                        lemma_balance_root_lines(
                            files,
                            lines,
                            i + 1,
                            name,
                            minify,
                            crate::model::exp_seen(sub),
                        );
                        let rest = root_lines_spec(
                            files,
                            lines,
                            i + 1,
                            name,
                            minify,
                            crate::model::exp_seen(sub),
                        );
                        if is_done(rest) {
                            lemma_well_nested_concat(exp_out(sub), exp_out(rest));
                        }
                    }
                }
            },
            _ => {
                lemma_balance_root_lines(files, lines, i + 1, name, minify, seen);
                let rest = root_lines_spec(files, lines, i + 1, name, minify, seen);
                if is_done(rest) {
                    lemma_well_nested_text(emit_spec(l, minify));
                    lemma_well_nested_concat(
                        seq![OutLine::Text(emit_spec(l, minify))],
                        exp_out(rest),
                    );
                }
            },
        }
    }
}

proof fn lemma_balance_entry_lines(
    files: Seq<FileSpec>,
    lines: Seq<Seq<u8>>,
    i: int,
    name: Seq<u8>,
    minify: bool,
    seen: Set<Seq<u8>>,
)
    ensures
        ({
            let m = entry_lines_spec(files, lines, i, name, minify, seen);
            is_done(m) ==> well_nested(exp_out(m))
        }),
    decreases lines.len() - i,
{
    if i < 0 || i >= lines.len() {
        lemma_well_nested_empty();
    } else {
        let l = lines[i];
        match classify_spec(l, name) {
            LineClass::Blank => {
                lemma_balance_entry_lines(files, lines, i + 1, name, minify, seen);
            },
            LineClass::LintDirective => {
                lemma_balance_entry_lines(files, lines, i + 1, name, minify, seen);
            },
            LineClass::SelfNamespaceOpen => {
                match find_file(files, lib_path()) {
                    None => {},
                    Some(libls) => {
                        lemma_find_file_len(files, lib_path());
                        lemma_balance_root_lines(files, libls, 0, name, minify, seen);
                        let inner = root_lines_spec(files, libls, 0, name, minify, seen);
                        if is_done(inner) {
                            lemma_balance_entry_lines(
                                files,
                                lines,
                                i + 1,
                                name,
                                minify,
                                crate::model::exp_seen(inner),
                            );
                            let rest = entry_lines_spec(
                                files,
                                lines,
                                i + 1,
                                name,
                                minify,
                                crate::model::exp_seen(inner),
                            );
                            if is_done(rest) {
                                lemma_well_nested_wrap(name, exp_out(inner));
                                lemma_well_nested_concat(
                                    seq![OutLine::Open(name)] + exp_out(inner)
                                        + seq![OutLine::Close],
                                    exp_out(rest),
                                );
                            }
                        }
                    },
                }
            },
            LineClass::SelfImport(sub) => {
                lemma_balance_entry_lines(files, lines, i + 1, name, minify, seen);
                let rest = entry_lines_spec(files, lines, i + 1, name, minify, seen);
                if is_done(rest) {
                    lemma_well_nested_text(crate::model::use_self_line(sub));
                    lemma_well_nested_concat(
                        seq![OutLine::Text(crate::model::use_self_line(sub))],
                        exp_out(rest),
                    );
                }
            },
            _ => {
                lemma_balance_entry_lines(files, lines, i + 1, name, minify, seen);
                let rest = entry_lines_spec(files, lines, i + 1, name, minify, seen);
                if is_done(rest) {
                    lemma_well_nested_text(emit_spec(l, minify));
                    lemma_well_nested_concat(
                        seq![OutLine::Text(emit_spec(l, minify))],
                        exp_out(rest),
                    );
                }
            },
        }
    }
}

/// For any successful run, the output holds as many opening namespace-wrap
/// tokens as closing ones, and a stack-based scan of it never goes negative.
pub proof fn lemma_nesting_balance(
    files: Seq<FileSpec>,
    entry: Seq<Seq<u8>>,
    name: Seq<u8>,
    minify: bool,
    seen: Set<Seq<u8>>,
)
    ensures
        ({
            let m = run_spec(files, entry, name, minify, seen);
            is_done(m) ==> opens_count(exp_out(m)) == closes_count(exp_out(m))
                && balanced_prefixes(exp_out(m))
        }),
{
    let m = run_spec(files, entry, name, minify, seen);
    if is_done(m) {
        lemma_balance_entry_lines(files, entry, 0, name, minify, seen);
        lemma_wrap_sum_counts(exp_out(m));
    }
}

} // verus!
