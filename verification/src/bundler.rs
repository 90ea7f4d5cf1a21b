//! The recursive expander. A [`Bundler`] is configured with the entry file's
//! lines, the package name and the minify toggle; [`Bundler::run`] walks the
//! module declaration graph through a [`FileTable`] and returns the flattened
//! output, exactly as the functional model in [`crate::model`] describes it.

use vstd::prelude::*;

use crate::classify::{classify, dcolon, tests_name, LineKind};
use crate::model::{
    acceptable_name, close_tok, dir_path, entry_lines_spec, exp_out, exp_seen, expand_mod_spec,
    flat_path, is_done, lib_path, mod_lines_spec, open_prefix, open_suffix, rem_depth,
    render, render_line, resolve_len, root_lines_spec, run_spec, super_seg,
    supers, use_prefix, use_self_line, use_self_prefix, use_super_line, BundleError, Expansion,
    OutLine,
};
use crate::table::{bytes_eq, lemma_find_file_len, lines_view, max_path_len, FileTable};
use crate::text::{emit_line, emit_spec, push_bytes};

verus! {

/// The set of paths held by a sequence of byte vectors.
pub open spec fn seen_set(q: Seq<Seq<u8>>) -> Set<Seq<u8>> {
    Set::new(|p: Seq<u8>| q.contains(p))
}

/// Appending a path to the sequence inserts it into the set.
proof fn lemma_seen_insert(q: Seq<Seq<u8>>, x: Seq<u8>)
    ensures
        seen_set(q.push(x)) == seen_set(q).insert(x),
{
    assert forall|p: Seq<u8>| seen_set(q.push(x)).contains(p) == seen_set(q).insert(x).contains(
        p,
    ) by {
        if q.push(x).contains(p) {
            let k = choose|k: int| 0 <= k < q.push(x).len() && q.push(x)[k] == p;
            if k < q.len() {
                assert(q[k] == p);
            }
        }
        if q.contains(p) {
            let k = choose|k: int| 0 <= k < q.len() && q[k] == p;
            assert(q.push(x)[k] == p);
        }
        if p == x {
            assert(q.push(x)[q.len() as int] == p);
        }
    }
    assert(seen_set(q.push(x)) =~= seen_set(q).insert(x));
}

/// Rendering distributes over concatenation of tagged outputs.
proof fn lemma_render_app(a: Seq<OutLine>, b: Seq<OutLine>)
    ensures
        render(a + b) == render(a) + render(b),
{
    assert(render(a + b) =~= render(a) + render(b));
}

/// Rendering a single tagged line gives that line, rendered.
proof fn lemma_render_one(t: OutLine)
    ensures
        render(seq![t]) == seq![render_line(t)],
{
    assert(render(seq![t]) =~= seq![render_line(t)]);
}

/// One state keeps another's configuration: same entry lines, package name
/// and minify toggle.
pub open spec fn keeps_config(a: &Bundler, b: &Bundler) -> bool {
    &&& b.entry_spec() == a.entry_spec()
    &&& b.name_spec() == a.name_spec()
    &&& b.minify_spec() == a.minify_spec()
}

/// Whether `v` holds a vector with the same bytes as `p`.
fn contains_path(v: &Vec<Vec<u8>>, p: &Vec<u8>) -> (r: bool)
    ensures
        r == lines_view(v@).contains(p@),
{
    let n = v.len();
    let mut i: usize = 0;
    while i < n
        invariant
            0 <= i <= n == v@.len(),
            forall|k: int| 0 <= k < i ==> lines_view(v@)[k] != p@,
        decreases n - i,
    {
        if bytes_eq(&v[i], p) {
            proof {
                assert(lines_view(v@)[i as int] == p@);
            }
            return true;
        }
        i += 1;
    }
    proof {
        if lines_view(v@).contains(p@) {
            let k = choose|k: int| 0 <= k < lines_view(v@).len() && lines_view(v@)[k] == p@;
            assert(false);
        }
    }
    false
}

/// A fresh vector with the same bytes as `v`.
fn copy_bytes(v: &Vec<u8>) -> (r: Vec<u8>)
    ensures
        r@ == v@,
{
    let mut r: Vec<u8> = Vec::new();
    crate::text::push_byte_range(&mut r, v, 0, v.len());
    proof {
        assert(v@.subrange(0, v@.len() as int) =~= v@);
    }
    r
}

/// The opening namespace-wrap token for a module: `pub mod <name> {`.
fn make_open_line(name: &Vec<u8>) -> (r: Vec<u8>)
    ensures
        r@ == render_line(OutLine::Open(name@)),
{
    let mut r: Vec<u8> = Vec::new();
    push_bytes(&mut r, &[112u8, 117u8, 98u8, 32u8, 109u8, 111u8, 100u8, 32u8]);
    push_bytes(&mut r, name.as_slice());
    push_bytes(&mut r, &[32u8, 123u8]);
    proof {
        assert([112u8, 117u8, 98u8, 32u8, 109u8, 111u8, 100u8, 32u8]@ =~= open_prefix());
        assert([32u8, 123u8]@ =~= open_suffix());
    }
    r
}

/// The closing namespace-wrap token: `}`.
fn make_close_line() -> (r: Vec<u8>)
    ensures
        r@ == render_line(OutLine::Close),
{
    let mut r: Vec<u8> = Vec::new();
    push_bytes(&mut r, &[125u8]);
    proof {
        assert(r@ =~= close_tok());
    }
    r
}

/// The rewritten entry-file import: `use ::<sub>;`.
fn make_self_import_line(sub: &Vec<u8>) -> (r: Vec<u8>)
    ensures
        r@ == use_self_line(sub@),
{
    let mut r: Vec<u8> = Vec::new();
    push_bytes(&mut r, &[117u8, 115u8, 101u8, 32u8, 58u8, 58u8]);
    push_bytes(&mut r, sub.as_slice());
    push_bytes(&mut r, &[59u8]);
    proof {
        assert([117u8, 115u8, 101u8, 32u8, 58u8, 58u8]@ =~= use_self_prefix());
        assert([59u8]@ =~= seq![59u8]);
    }
    r
}

/// The rewritten module import: `use super::...<p>;` with `lvl` steps up.
fn make_super_import_line(lvl: usize, p: &Vec<u8>) -> (r: Vec<u8>)
    ensures
        r@ == use_super_line(lvl as nat, p@),
{
    let mut r: Vec<u8> = Vec::new();
    push_bytes(&mut r, &[117u8, 115u8, 101u8, 32u8]);
    proof {
        assert([117u8, 115u8, 101u8, 32u8]@ =~= use_prefix());
        assert(supers(0) =~= Seq::<u8>::empty());
        assert(r@ =~= use_prefix() + supers(0));
    }
    let mut k: usize = 0;
    while k < lvl
        invariant
            0 <= k <= lvl,
            r@ == use_prefix() + supers(k as nat),
        decreases lvl - k,
    {
        push_bytes(&mut r, &[115u8, 117u8, 112u8, 101u8, 114u8, 58u8, 58u8]);
        proof {
            assert([115u8, 117u8, 112u8, 101u8, 114u8, 58u8, 58u8]@ =~= super_seg());
            assert(supers(k as nat + 1) == supers(k as nat) + super_seg());
            assert(r@ =~= use_prefix() + supers(k as nat + 1));
        }
        k += 1;
    }
    push_bytes(&mut r, p.as_slice());
    push_bytes(&mut r, &[59u8]);
    proof {
        assert([59u8]@ =~= seq![59u8]);
    }
    r
}

/// The bytes of the reserved test-module name.
fn make_tests_vec() -> (r: Vec<u8>)
    ensures
        r@ == tests_name(),
{
    let mut r: Vec<u8> = Vec::new();
    push_bytes(&mut r, &[116u8, 101u8, 115u8, 116u8, 115u8]);
    proof {
        assert(r@ =~= tests_name());
    }
    r
}

/// The table path of a module's flat source file: `src/<path>.rs`.
fn make_flat_key(path: &Vec<u8>) -> (r: Vec<u8>)
    ensures
        r@ == flat_path(path@),
{
    let mut r: Vec<u8> = Vec::new();
    push_bytes(&mut r, &[115u8, 114u8, 99u8, 47u8]);
    push_bytes(&mut r, path.as_slice());
    push_bytes(&mut r, &[46u8, 114u8, 115u8]);
    proof {
        assert([115u8, 114u8, 99u8, 47u8]@ =~= crate::model::src_prefix());
        assert([46u8, 114u8, 115u8]@ =~= crate::model::rs_suffix());
    }
    r
}

/// The table path of a module's directory-form source file:
/// `src/<path>/mod.rs`.
fn make_dir_key(path: &Vec<u8>) -> (r: Vec<u8>)
    ensures
        r@ == dir_path(path@),
{
    let mut r: Vec<u8> = Vec::new();
    push_bytes(&mut r, &[115u8, 114u8, 99u8, 47u8]);
    push_bytes(&mut r, path.as_slice());
    push_bytes(&mut r, &[47u8, 109u8, 111u8, 100u8, 46u8, 114u8, 115u8]);
    proof {
        assert([115u8, 114u8, 99u8, 47u8]@ =~= crate::model::src_prefix());
        assert([47u8, 109u8, 111u8, 100u8, 46u8, 114u8, 115u8]@ =~= crate::model::mod_rs_suffix());
    }
    r
}

/// The table path of the package's root module file: `src/lib.rs`.
fn make_lib_key() -> (r: Vec<u8>)
    ensures
        r@ == lib_path(),
{
    let mut r: Vec<u8> = Vec::new();
    push_bytes(&mut r, &[115u8, 114u8, 99u8, 47u8, 108u8, 105u8, 98u8, 46u8, 114u8, 115u8]);
    proof {
        assert(r@ =~= lib_path());
    }
    r
}

/// A child module's path fragment: `<path>/<m>`.
fn make_child_path(path: &Vec<u8>, m: &Vec<u8>) -> (r: Vec<u8>)
    ensures
        r@ == path@ + seq![47u8] + m@,
{
    let mut r: Vec<u8> = Vec::new();
    push_bytes(&mut r, path.as_slice());
    push_bytes(&mut r, &[47u8]);
    push_bytes(&mut r, m.as_slice());
    proof {
        assert([47u8]@ =~= seq![47u8]);
    }
    r
}

/// A child module's fully-qualified import path: `<import>::<m>`.
fn make_child_import(import: &Vec<u8>, m: &Vec<u8>) -> (r: Vec<u8>)
    ensures
        r@ == import@ + dcolon() + m@,
{
    let mut r: Vec<u8> = Vec::new();
    push_bytes(&mut r, import.as_slice());
    push_bytes(&mut r, &[58u8, 58u8]);
    push_bytes(&mut r, m.as_slice());
    proof {
        assert([58u8, 58u8]@ =~= dcolon());
    }
    r
}

/// Whether `v` is a package name the patterns can be built from.
fn valid_name(v: &Vec<u8>) -> (r: bool)
    ensures
        r == acceptable_name(v@),
{
    if v.len() == 0 {
        return false;
    }
    let b0 = v[0];
    if !((65 <= b0 && b0 <= 90) || (97 <= b0 && b0 <= 122) || b0 == 95) {
        return false;
    }
    let mut i: usize = 1;
    while i < v.len()
        invariant
            1 <= i <= v@.len(),
            forall|k: int| 1 <= k < i ==> crate::model::is_ident_char(v@[k]),
        decreases v@.len() - i,
    {
        let b = v[i];
        if !((65 <= b && b <= 90) || (97 <= b && b <= 122) || b == 95 || (48 <= b && b <= 57)) {
            return false;
        }
        i += 1;
    }
    let mut kw: Vec<u8> = Vec::new();
    push_bytes(&mut kw, &[99u8, 114u8, 97u8, 116u8, 101u8]);
    proof {
        assert(kw@ =~= crate::classify::kw_crate());
    }
    if bytes_eq(v, &kw) {
        return false;
    }
    true
}

/// The expander's state: the entry file's lines, the package name, the minify
/// toggle, the set of import paths already inlined as whole modules, and the
/// output collected so far.
pub struct Bundler {
    entry: Vec<Vec<u8>>,
    name: Vec<u8>,
    minify: bool,
    skip_use: Vec<Vec<u8>>,
    out: Vec<Vec<u8>>,
}

impl Bundler {
    /// The entry file's lines.
    pub closed spec fn entry_spec(&self) -> Seq<Seq<u8>> {
        lines_view(self.entry@)
    }

    /// The configured package name.
    pub closed spec fn name_spec(&self) -> Seq<u8> {
        self.name@
    }

    /// Whether emitted lines are stripped of surrounding whitespace.
    pub closed spec fn minify_spec(&self) -> bool {
        self.minify
    }

    /// The import paths already inlined as whole modules.
    pub closed spec fn seen_spec(&self) -> Set<Seq<u8>> {
        seen_set(lines_view(self.skip_use@))
    }

    /// The lines emitted so far.
    pub closed spec fn out_spec(&self) -> Seq<Seq<u8>> {
        lines_view(self.out@)
    }

    /// A bundler over the given entry-file lines, with no package name set,
    /// minify off, and nothing emitted yet.
    pub fn new_fd(entry_lines: Vec<Vec<u8>>) -> (r: Bundler)
        ensures
            r.entry_spec() == lines_view(entry_lines@),
            r.name_spec() == Seq::<u8>::empty(),
            r.minify_spec() == false,
            r.seen_spec() == Set::<Seq<u8>>::empty(),
            r.out_spec() == Seq::<Seq<u8>>::empty(),
    {
        let r = Bundler {
            entry: entry_lines,
            name: Vec::new(),
            minify: false,
            skip_use: Vec::new(),
            out: Vec::new(),
        };
        proof {
            assert(r.seen_spec() =~= Set::<Seq<u8>>::empty());
            assert(r.out_spec() =~= Seq::<Seq<u8>>::empty());
        }
        r
    }

    /// Turns whitespace stripping of emitted lines on or off.
    pub fn minify_set(&mut self, enable: bool)
        ensures
            final(self).minify_spec() == enable,
            final(self).entry_spec() == old(self).entry_spec(),
            final(self).name_spec() == old(self).name_spec(),
            final(self).seen_spec() == old(self).seen_spec(),
            final(self).out_spec() == old(self).out_spec(),
    {
        self.minify = enable;
    }

    /// Sets the package name the classifier recognizes self-references by.
    pub fn crate_name(&mut self, name: Vec<u8>)
        ensures
            final(self).name_spec() == name@,
            final(self).entry_spec() == old(self).entry_spec(),
            final(self).minify_spec() == old(self).minify_spec(),
            final(self).seen_spec() == old(self).seen_spec(),
            final(self).out_spec() == old(self).out_spec(),
    {
        self.name = name;
    }

    /// Emits one line: unchanged, or stripped of surrounding whitespace when
    /// minify is on.
    pub fn write_line(&mut self, line: &Vec<u8>)
        ensures
            final(self).out_spec() == old(self).out_spec().push(
                emit_spec(line@, old(self).minify_spec()),
            ),
            final(self).entry_spec() == old(self).entry_spec(),
            final(self).name_spec() == old(self).name_spec(),
            final(self).minify_spec() == old(self).minify_spec(),
            final(self).seen_spec() == old(self).seen_spec(),
    {
        let e = emit_line(line, self.minify);
        let ghost v = e@;
        self.out.push(e);
        proof {
            assert(self.out_spec() =~= old(self).out_spec().push(v));
        }
    }

    /// The lines emitted so far, handing the bundler's sink over.
    pub fn output(self) -> (r: Vec<Vec<u8>>)
        ensures
            lines_view(r@) == self.out_spec(),
    {
        let Bundler { entry: _, name: _, minify: _, skip_use: _, out } = self;
        out
    }

    /// Emits one already-built line as it stands.
    fn push_out(&mut self, line: Vec<u8>)
        ensures
            final(self).out_spec() == old(self).out_spec().push(line@),
            final(self).entry_spec() == old(self).entry_spec(),
            final(self).name_spec() == old(self).name_spec(),
            final(self).minify_spec() == old(self).minify_spec(),
            final(self).seen_spec() == old(self).seen_spec(),
    {
        let ghost v = line@;
        self.out.push(line);
        proof {
            assert(self.out_spec() =~= old(self).out_spec().push(v));
        }
    }

    /// Records a module's import path as inlined.
    fn record_import(&mut self, import: &Vec<u8>)
        ensures
            final(self).seen_spec() == old(self).seen_spec().insert(import@),
            final(self).entry_spec() == old(self).entry_spec(),
            final(self).name_spec() == old(self).name_spec(),
            final(self).minify_spec() == old(self).minify_spec(),
            final(self).out_spec() == old(self).out_spec(),
    {
        let c = copy_bytes(import);
        self.skip_use.push(c);
        proof {
            assert(lines_view(self.skip_use@) =~= lines_view(old(self).skip_use@).push(import@));
            lemma_seen_insert(lines_view(old(self).skip_use@), import@);
        }
    }

    /// The entry-file pass from line `i` on: suppresses blank and lint lines,
    /// replaces the package's own crate declaration by the wrapped root
    /// module, rewrites imports of the package's own namespace, and passes
    /// everything else through.
    #[verifier::rlimit(100)]
    fn entry_pass(&mut self, files: &FileTable, lines: &Vec<Vec<u8>>, i: usize) -> (r: Result<
        (),
        BundleError,
    >)
        requires
            i <= lines@.len(),
        ensures
            keeps_config(old(self), final(self)),
            ({
                let m = entry_lines_spec(
                    files@,
                    lines_view(lines@),
                    i as int,
                    old(self).name_spec(),
                    old(self).minify_spec(),
                    old(self).seen_spec(),
                );
                match r {
                    Ok(()) => is_done(m) && final(self).out_spec() == old(self).out_spec()
                        + render(exp_out(m)) && final(self).seen_spec() == exp_seen(m),
                    Err(e) => m == Expansion::Failed(e),
                }
            }),
        decreases lines@.len() - i,
    {
        let ghost gname = old(self).name_spec();
        let ghost gmin = old(self).minify_spec();
        let ghost gseen = old(self).seen_spec();
        let ghost m0 = entry_lines_spec(files@, lines_view(lines@), i as int, gname, gmin, gseen);
        if i == lines.len() {
            proof {
                assert(render(exp_out(m0)) =~= Seq::<Seq<u8>>::empty());
                assert(self.out_spec() + render(exp_out(m0)) =~= self.out_spec());
            }
            return Ok(());
        }
        let k = classify(&lines[i], &self.name);
        let ghost l = lines_view(lines@)[i as int];
        proof {
            assert(l == lines@[i as int]@);
        }
        match k {
            LineKind::Blank => self.entry_pass(files, lines, i + 1),
            LineKind::LintDirective => self.entry_pass(files, lines, i + 1),
            LineKind::SelfNamespaceOpen => {
                let lp = make_lib_key();
                match files.get(&lp) {
                    None => Err(BundleError::Io),
                    Some(libls) => {
                        proof {
                            lemma_find_file_len(files@, lib_path());
                        }
                        let ghost im = root_lines_spec(
                            files@,
                            lines_view(libls@),
                            0,
                            gname,
                            gmin,
                            gseen,
                        );
                        let open_l = make_open_line(&self.name);
                        self.push_out(open_l);
                        match self.root_pass(files, libls, 0) {
                            Err(e) => {
                                return Err(e);
                            },
                            Ok(()) => {},
                        }
                        let close_l = make_close_line();
                        self.push_out(close_l);
                        let ghost rest = entry_lines_spec(
                            files@,
                            lines_view(lines@),
                            i as int + 1,
                            gname,
                            gmin,
                            exp_seen(im),
                        );
                        match self.entry_pass(files, lines, i + 1) {
                            Err(e) => {
                                return Err(e);
                            },
                            Ok(()) => {},
                        }
                        proof {
                            lemma_render_one(OutLine::Open(gname));
                            lemma_render_one(OutLine::Close);
                            lemma_render_app(seq![OutLine::Open(gname)], exp_out(im));
                            lemma_render_app(
                                seq![OutLine::Open(gname)] + exp_out(im),
                                seq![OutLine::Close],
                            );
                            lemma_render_app(
                                seq![OutLine::Open(gname)] + exp_out(im) + seq![OutLine::Close],
                                exp_out(rest),
                            );
                            assert(self.out_spec() =~= old(self).out_spec() + render(exp_out(m0)));
                        }
                        Ok(())
                    },
                }
            },
            LineKind::SelfImport(sub) => {
                let ln = make_self_import_line(&sub);
                self.push_out(ln);
                let ghost rest = entry_lines_spec(
                    files@,
                    lines_view(lines@),
                    i as int + 1,
                    gname,
                    gmin,
                    gseen,
                );
                let r = self.entry_pass(files, lines, i + 1);
                proof {
                    if r is Ok {
                        lemma_render_one(OutLine::Text(use_self_line(sub@)));
                        lemma_render_app(seq![OutLine::Text(use_self_line(sub@))], exp_out(rest));
                        assert(self.out_spec() =~= old(self).out_spec() + render(exp_out(m0)));
                    }
                }
                r
            },
            LineKind::CrateImport(_) => {
                self.write_line(&lines[i]);
                let ghost rest = entry_lines_spec(
                    files@,
                    lines_view(lines@),
                    i as int + 1,
                    gname,
                    gmin,
                    gseen,
                );
                let r = self.entry_pass(files, lines, i + 1);
                proof {
                    if r is Ok {
                        lemma_render_one(OutLine::Text(emit_spec(l, gmin)));
                        lemma_render_app(seq![OutLine::Text(emit_spec(l, gmin))], exp_out(rest));
                        assert(self.out_spec() =~= old(self).out_spec() + render(exp_out(m0)));
                    }
                }
                r
            },
            LineKind::ModuleDeclaration(_) => {
                self.write_line(&lines[i]);
                let ghost rest = entry_lines_spec(
                    files@,
                    lines_view(lines@),
                    i as int + 1,
                    gname,
                    gmin,
                    gseen,
                );
                let r = self.entry_pass(files, lines, i + 1);
                proof {
                    if r is Ok {
                        lemma_render_one(OutLine::Text(emit_spec(l, gmin)));
                        lemma_render_app(seq![OutLine::Text(emit_spec(l, gmin))], exp_out(rest));
                        assert(self.out_spec() =~= old(self).out_spec() + render(exp_out(m0)));
                    }
                }
                r
            },
            LineKind::Passthrough => {
                self.write_line(&lines[i]);
                let ghost rest = entry_lines_spec(
                    files@,
                    lines_view(lines@),
                    i as int + 1,
                    gname,
                    gmin,
                    gseen,
                );
                let r = self.entry_pass(files, lines, i + 1);
                proof {
                    if r is Ok {
                        lemma_render_one(OutLine::Text(emit_spec(l, gmin)));
                        lemma_render_app(seq![OutLine::Text(emit_spec(l, gmin))], exp_out(rest));
                        assert(self.out_spec() =~= old(self).out_spec() + render(exp_out(m0)));
                    }
                }
                r
            },
        }
    }

    /// The root-module pass from line `i` on: sub-module declarations are
    /// inlined (the reserved test module skipped), a crate-qualified import
    /// whose path was already inlined is suppressed, and the rest behaves as
    /// in the entry pass.
    #[verifier::rlimit(100)]
    fn root_pass(&mut self, files: &FileTable, lines: &Vec<Vec<u8>>, i: usize) -> (r: Result<
        (),
        BundleError,
    >)
        requires
            i <= lines@.len(),
            max_path_len(files@) >= 1,
        ensures
            keeps_config(old(self), final(self)),
            ({
                let m = root_lines_spec(
                    files@,
                    lines_view(lines@),
                    i as int,
                    old(self).name_spec(),
                    old(self).minify_spec(),
                    old(self).seen_spec(),
                );
                match r {
                    Ok(()) => is_done(m) && final(self).out_spec() == old(self).out_spec()
                        + render(exp_out(m)) && final(self).seen_spec() == exp_seen(m),
                    Err(e) => m == Expansion::Failed(e),
                }
            }),
        decreases lines@.len() - i,
    {
        let ghost gname = old(self).name_spec();
        let ghost gmin = old(self).minify_spec();
        let ghost gseen = old(self).seen_spec();
        let ghost m0 = root_lines_spec(files@, lines_view(lines@), i as int, gname, gmin, gseen);
        if i == lines.len() {
            proof {
                assert(render(exp_out(m0)) =~= Seq::<Seq<u8>>::empty());
                assert(self.out_spec() + render(exp_out(m0)) =~= self.out_spec());
            }
            return Ok(());
        }
        let k = classify(&lines[i], &self.name);
        let ghost l = lines_view(lines@)[i as int];
        proof {
            assert(l == lines@[i as int]@);
        }
        match k {
            LineKind::Blank => self.root_pass(files, lines, i + 1),
            LineKind::LintDirective => self.root_pass(files, lines, i + 1),
            LineKind::CrateImport(p) => {
                if contains_path(&self.skip_use, &p) {
                    self.root_pass(files, lines, i + 1)
                } else {
                    self.write_line(&lines[i]);
                    let ghost rest = root_lines_spec(
                        files@,
                        lines_view(lines@),
                        i as int + 1,
                        gname,
                        gmin,
                        gseen,
                    );
                    let r = self.root_pass(files, lines, i + 1);
                    proof {
                        if r is Ok {
                            lemma_render_one(OutLine::Text(emit_spec(l, gmin)));
                            lemma_render_app(
                                seq![OutLine::Text(emit_spec(l, gmin))],
                                exp_out(rest),
                            );
                            assert(self.out_spec() =~= old(self).out_spec() + render(exp_out(m0)));
                        }
                    }
                    r
                }
            },
            LineKind::ModuleDeclaration(m) => {
                let tv = make_tests_vec();
                if bytes_eq(&m, &tv) {
                    self.root_pass(files, lines, i + 1)
                } else {
                    let ghost im = expand_mod_spec(files@, m@, m@, m@, 1, gname, gmin, gseen);
                    match self.usemod(files, &m, &m, &m, 1) {
                        Err(e) => {
                            return Err(e);
                        },
                        Ok(()) => {},
                    }
                    let ghost rest = root_lines_spec(
                        files@,
                        lines_view(lines@),
                        i as int + 1,
                        gname,
                        gmin,
                        exp_seen(im),
                    );
                    match self.root_pass(files, lines, i + 1) {
                        Err(e) => {
                            return Err(e);
                        },
                        Ok(()) => {},
                    }
                    proof {
                        lemma_render_app(exp_out(im), exp_out(rest));
                        assert(self.out_spec() =~= old(self).out_spec() + render(exp_out(m0)));
                    }
                    Ok(())
                }
            },
            LineKind::SelfNamespaceOpen | LineKind::SelfImport(_) | LineKind::Passthrough => {
                self.write_line(&lines[i]);
                let ghost rest = root_lines_spec(
                    files@,
                    lines_view(lines@),
                    i as int + 1,
                    gname,
                    gmin,
                    gseen,
                );
                let r = self.root_pass(files, lines, i + 1);
                proof {
                    if r is Ok {
                        lemma_render_one(OutLine::Text(emit_spec(l, gmin)));
                        lemma_render_app(seq![OutLine::Text(emit_spec(l, gmin))], exp_out(rest));
                        assert(self.out_spec() =~= old(self).out_spec() + render(exp_out(m0)));
                    }
                }
                r
            },
        }
    }

    /// One declared sub-module: resolves its file by the two-convention
    /// lookup, emits the namespace-wrap tokens around its expanded lines, and
    /// records its import path as inlined.
    #[verifier::rlimit(100)]
    fn usemod(
        &mut self,
        files: &FileTable,
        mname: &Vec<u8>,
        path: &Vec<u8>,
        import: &Vec<u8>,
        lvl: usize,
    ) -> (r: Result<(), BundleError>)
        requires
            lvl as int <= path@.len() + 1,
        ensures
            keeps_config(old(self), final(self)),
            ({
                let m = expand_mod_spec(
                    files@,
                    mname@,
                    path@,
                    import@,
                    lvl as nat,
                    old(self).name_spec(),
                    old(self).minify_spec(),
                    old(self).seen_spec(),
                );
                match r {
                    Ok(()) => is_done(m) && final(self).out_spec() == old(self).out_spec()
                        + render(exp_out(m)) && final(self).seen_spec() == exp_seen(m),
                    Err(e) => m == Expansion::Failed(e),
                }
            }),
        decreases rem_depth(files@, path@), resolve_len(files@, path@) + 1,
    {
        let ghost gname = old(self).name_spec();
        let ghost gmin = old(self).minify_spec();
        let ghost gseen = old(self).seen_spec();
        let kf = make_flat_key(path);
        let kf_n = kf.len();
        let found: Option<&Vec<Vec<u8>>> = match files.get(&kf) {
            Some(ls) => Some(ls),
            None => {
                let kd = make_dir_key(path);
                files.get(&kd)
            },
        };
        match found {
            None => Err(BundleError::ModuleNotFound),
            Some(ls) => {
                proof {
                    lemma_find_file_len(files@, flat_path(path@));
                    lemma_find_file_len(files@, dir_path(path@));
                    assert(kf_n == path@.len() + 7);
                    assert(path@.len() + 7 <= usize::MAX);
                    assert(rem_depth(files@, path@) > 0);
                }
                let ghost im = mod_lines_spec(
                    files@,
                    lines_view(ls@),
                    0,
                    path@,
                    import@,
                    lvl as nat,
                    gname,
                    gmin,
                    gseen.insert(import@),
                );
                let open_l = make_open_line(mname);
                self.push_out(open_l);
                self.record_import(import);
                match self.mod_pass(files, ls, 0, path, import, lvl) {
                    Err(e) => {
                        return Err(e);
                    },
                    Ok(()) => {},
                }
                let close_l = make_close_line();
                self.push_out(close_l);
                proof {
                    lemma_render_one(OutLine::Open(mname@));
                    lemma_render_one(OutLine::Close);
                    lemma_render_app(seq![OutLine::Open(mname@)], exp_out(im));
                    lemma_render_app(
                        seq![OutLine::Open(mname@)] + exp_out(im),
                        seq![OutLine::Close],
                    );
                    assert(self.out_spec() =~= old(self).out_spec() + render(
                        exp_out(
                            expand_mod_spec(
                                files@,
                                mname@,
                                path@,
                                import@,
                                lvl as nat,
                                gname,
                                gmin,
                                gseen,
                            ),
                        ),
                    ));
                }
                Ok(())
            },
        }
    }

    /// An inlined module's lines from line `i` on: crate-qualified imports
    /// are rewritten to step up `lvl` namespaces, sub-module declarations
    /// recurse one level deeper (the reserved test module skipped), and the
    /// rest behaves as in the entry pass.
    #[verifier::rlimit(100)]
    fn mod_pass(
        &mut self,
        files: &FileTable,
        lines: &Vec<Vec<u8>>,
        i: usize,
        path: &Vec<u8>,
        import: &Vec<u8>,
        lvl: usize,
    ) -> (r: Result<(), BundleError>)
        requires
            i <= lines@.len(),
            rem_depth(files@, path@) > 0,
            lvl as int <= path@.len() + 1,
            path@.len() + 7 <= usize::MAX,
        ensures
            keeps_config(old(self), final(self)),
            ({
                let m = mod_lines_spec(
                    files@,
                    lines_view(lines@),
                    i as int,
                    path@,
                    import@,
                    lvl as nat,
                    old(self).name_spec(),
                    old(self).minify_spec(),
                    old(self).seen_spec(),
                );
                match r {
                    Ok(()) => is_done(m) && final(self).out_spec() == old(self).out_spec()
                        + render(exp_out(m)) && final(self).seen_spec() == exp_seen(m),
                    Err(e) => m == Expansion::Failed(e),
                }
            }),
        decreases rem_depth(files@, path@), lines@.len() - i,
    {
        let ghost gname = old(self).name_spec();
        let ghost gmin = old(self).minify_spec();
        let ghost gseen = old(self).seen_spec();
        let ghost m0 = mod_lines_spec(
            files@,
            lines_view(lines@),
            i as int,
            path@,
            import@,
            lvl as nat,
            gname,
            gmin,
            gseen,
        );
        if i == lines.len() {
            proof {
                assert(render(exp_out(m0)) =~= Seq::<Seq<u8>>::empty());
                assert(self.out_spec() + render(exp_out(m0)) =~= self.out_spec());
            }
            return Ok(());
        }
        let k = classify(&lines[i], &self.name);
        let ghost l = lines_view(lines@)[i as int];
        proof {
            assert(l == lines@[i as int]@);
        }
        match k {
            LineKind::Blank => self.mod_pass(files, lines, i + 1, path, import, lvl),
            LineKind::LintDirective => self.mod_pass(files, lines, i + 1, path, import, lvl),
            LineKind::CrateImport(p) => {
                let ln = make_super_import_line(lvl, &p);
                self.push_out(ln);
                let ghost rest = mod_lines_spec(
                    files@,
                    lines_view(lines@),
                    i as int + 1,
                    path@,
                    import@,
                    lvl as nat,
                    gname,
                    gmin,
                    gseen,
                );
                let r = self.mod_pass(files, lines, i + 1, path, import, lvl);
                proof {
                    if r is Ok {
                        lemma_render_one(OutLine::Text(use_super_line(lvl as nat, p@)));
                        lemma_render_app(
                            seq![OutLine::Text(use_super_line(lvl as nat, p@))],
                            exp_out(rest),
                        );
                        assert(self.out_spec() =~= old(self).out_spec() + render(exp_out(m0)));
                    }
                }
                r
            },
            LineKind::ModuleDeclaration(m) => {
                let tv = make_tests_vec();
                if bytes_eq(&m, &tv) {
                    self.mod_pass(files, lines, i + 1, path, import, lvl)
                } else {
                    let path2 = make_child_path(path, &m);
                    let import2 = make_child_import(import, &m);
                    let ghost im = expand_mod_spec(
                        files@,
                        m@,
                        path2@,
                        import2@,
                        lvl as nat + 1,
                        gname,
                        gmin,
                        gseen,
                    );
                    proof {
                        assert(rem_depth(files@, path2@) < rem_depth(files@, path@));
                    }
                    match self.usemod(files, &m, &path2, &import2, lvl + 1) {
                        Err(e) => {
                            return Err(e);
                        },
                        Ok(()) => {},
                    }
                    let ghost rest = mod_lines_spec(
                        files@,
                        lines_view(lines@),
                        i as int + 1,
                        path@,
                        import@,
                        lvl as nat,
                        gname,
                        gmin,
                        exp_seen(im),
                    );
                    match self.mod_pass(files, lines, i + 1, path, import, lvl) {
                        Err(e) => {
                            return Err(e);
                        },
                        Ok(()) => {},
                    }
                    proof {
                        lemma_render_app(exp_out(im), exp_out(rest));
                        assert(self.out_spec() =~= old(self).out_spec() + render(exp_out(m0)));
                    }
                    Ok(())
                }
            },
            LineKind::SelfNamespaceOpen | LineKind::SelfImport(_) | LineKind::Passthrough => {
                self.write_line(&lines[i]);
                let ghost rest = mod_lines_spec(
                    files@,
                    lines_view(lines@),
                    i as int + 1,
                    path@,
                    import@,
                    lvl as nat,
                    gname,
                    gmin,
                    gseen,
                );
                let r = self.mod_pass(files, lines, i + 1, path, import, lvl);
                proof {
                    if r is Ok {
                        lemma_render_one(OutLine::Text(emit_spec(l, gmin)));
                        lemma_render_app(seq![OutLine::Text(emit_spec(l, gmin))], exp_out(rest));
                        assert(self.out_spec() =~= old(self).out_spec() + render(exp_out(m0)));
                    }
                }
                r
            },
        }
    }

    /// Runs the expansion: checks the package name, then streams the entry
    /// file against the file table. On success the returned lines are
    /// everything emitted so far followed by the rendered expansion; on
    /// failure the error is exactly what the model assigns to these inputs.
    pub fn run(self, files: &FileTable) -> (r: Result<Vec<Vec<u8>>, BundleError>)
        ensures
            ({
                let m = run_spec(
                    files@,
                    self.entry_spec(),
                    self.name_spec(),
                    self.minify_spec(),
                    self.seen_spec(),
                );
                match r {
                    Ok(v) => is_done(m) && lines_view(v@) == self.out_spec() + render(exp_out(m)),
                    Err(e) => m == Expansion::Failed(e),
                }
            }),
    {
        if !valid_name(&self.name) {
            return Err(BundleError::Pattern);
        }
        let Bundler { entry, name, minify, skip_use, out } = self;
        let mut st = Bundler { entry: Vec::new(), name, minify, skip_use, out };
        match st.entry_pass(files, &entry, 0) {
            Err(e) => Err(e),
            Ok(()) => Ok(st.output()),
        }
    }
}

} // verus!
