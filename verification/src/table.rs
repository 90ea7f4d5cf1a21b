//! The in-memory set of source files that one expansion works on: each file is
//! a path relative to the package root together with its lines. The expander
//! never touches the file system; the caller loads the package tree into a
//! [`FileTable`] and hands it over.

use vstd::prelude::*;

verus! {

/// The mathematical content of one source file.
pub struct FileSpec {
    pub path: Seq<u8>,
    pub lines: Seq<Seq<u8>>,
}

/// One source file: a path such as `src/lib.rs`, in bytes, and the file's
/// lines, each without its newline.
pub struct SourceFile {
    pub path: Vec<u8>,
    pub lines: Vec<Vec<u8>>,
}

/// The lines of `v`, as a sequence of byte sequences.
pub open spec fn lines_view(v: Seq<Vec<u8>>) -> Seq<Seq<u8>> {
    Seq::new(v.len(), |i: int| v[i]@)
}

impl View for SourceFile {
    type V = FileSpec;

    open spec fn view(&self) -> FileSpec {
        FileSpec { path: self.path@, lines: lines_view(self.lines@) }
    }
}

/// The files available to one expansion, looked up by path; when two entries
/// share a path the first one wins, mirroring a file system where each path
/// names one file.
pub struct FileTable {
    files: Vec<SourceFile>,
}

/// The table's files, in order.
pub open spec fn table_view(v: Seq<SourceFile>) -> Seq<FileSpec> {
    Seq::new(v.len(), |i: int| v[i]@)
}

impl View for FileTable {
    type V = Seq<FileSpec>;

    closed spec fn view(&self) -> Seq<FileSpec> {
        table_view(self.files@)
    }
}

/// The lines of the first file whose path is `path`, if the table has one.
pub open spec fn find_file(files: Seq<FileSpec>, path: Seq<u8>) -> Option<Seq<Seq<u8>>>
    decreases files.len(),
{
    if files.len() == 0 {
        None
    } else if files[0].path == path {
        Some(files[0].lines)
    } else {
        find_file(files.drop_first(), path)
    }
}

/// The length of the longest path in the table; no resolvable module path is
/// longer, which bounds the depth of the module tree.
pub open spec fn max_path_len(files: Seq<FileSpec>) -> nat
    decreases files.len(),
{
    if files.len() == 0 {
        0
    } else {
        let rest = max_path_len(files.drop_first());
        if files[0].path.len() >= rest {
            files[0].path.len()
        } else {
            rest
        }
    }
}

/// A path that resolves is no longer than the longest path in the table.
pub proof fn lemma_find_file_len(files: Seq<FileSpec>, path: Seq<u8>)
    ensures
        find_file(files, path) is Some ==> path.len() <= max_path_len(files),
    decreases files.len(),
{
    if files.len() > 0 {
        lemma_find_file_len(files.drop_first(), path);
    }
}

/// Whether two byte vectors hold the same bytes.
pub fn bytes_eq(a: &Vec<u8>, b: &Vec<u8>) -> (r: bool)
    ensures
        r == (a@ == b@),
{
    if a.len() != b.len() {
        return false;
    }
    let mut i: usize = 0;
    while i < a.len()
        invariant
            0 <= i <= a@.len(),
            a@.len() == b@.len(),
            forall|k: int| 0 <= k < i ==> a@[k] == b@[k],
        decreases a@.len() - i,
    {
        if a[i] != b[i] {
            return false;
        }
        i += 1;
    }
    proof {
        assert(a@ =~= b@);
    }
    true
}

impl FileTable {
    /// An empty table.
    pub fn new() -> (r: FileTable)
        ensures
            r@ == Seq::<FileSpec>::empty(),
    {
        let r = FileTable { files: Vec::new() };
        proof {
            assert(r@ =~= Seq::<FileSpec>::empty());
        }
        r
    }

    /// Adds one file at the end of the table.
    pub fn add(&mut self, file: SourceFile)
        ensures
            final(self)@ == old(self)@.push(file@),
    {
        let ghost f = file@;
        self.files.push(file);
        proof {
            assert(self@ =~= old(self)@.push(f));
        }
    }

    /// The lines of the first file whose path is `path`, if the table has one.
    pub fn get(&self, path: &Vec<u8>) -> (r: Option<&Vec<Vec<u8>>>)
        ensures
            match r {
                Some(ls) => find_file(self@, path@) == Some(lines_view(ls@)),
                None => find_file(self@, path@) is None,
            },
    {
        let n = self.files.len();
        let mut i: usize = 0;
        proof {
            assert(table_view(self.files@).skip(0) =~= table_view(self.files@));
        }
        while i < n
            invariant
                0 <= i <= n == self.files@.len(),
                find_file(table_view(self.files@), path@) == find_file(
                    table_view(self.files@).skip(i as int),
                    path@,
                ),
            decreases n - i,
        {
            if bytes_eq(&self.files[i].path, path) {
                proof {
                    let rest = table_view(self.files@).skip(i as int);
                    assert(rest[0] == self.files@[i as int]@);
                }
                return Some(&self.files[i].lines);
            }
            proof {
                let rest = table_view(self.files@).skip(i as int);
                assert(rest[0] == self.files@[i as int]@);
                assert(rest.drop_first() =~= table_view(self.files@).skip(i as int + 1));
            }
            i += 1;
        }
        proof {
            assert(table_view(self.files@).skip(n as int).len() == 0);
        }
        None
    }
}

} // verus!
