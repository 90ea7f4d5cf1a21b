//! Byte-level text utilities: whitespace handling, literal matching, and the
//! per-line emission transform (verbatim or with surrounding whitespace
//! stripped).

use vstd::prelude::*;

verus! {

/// ASCII whitespace, as tolerated around the tokens of a source line.
pub open spec fn is_ws(b: u8) -> bool {
    b == 32 || b == 9 || b == 10 || b == 11 || b == 12 || b == 13
}

/// First index at or after `i` that holds a non-whitespace byte, or the length
/// of `s` if the rest of the line is all whitespace.
pub open spec fn ws_end(s: Seq<u8>, i: int) -> int
    decreases s.len() - i,
{
    if i < 0 || i >= s.len() {
        s.len() as int
    } else if is_ws(s[i]) {
        ws_end(s, i + 1)
    } else {
        i
    }
}

pub proof fn lemma_ws_end(s: Seq<u8>, i: int)
    requires
        0 <= i <= s.len(),
    ensures
        i <= ws_end(s, i) <= s.len(),
        forall|k: int| i <= k < ws_end(s, i) ==> is_ws(s[k]),
        ws_end(s, i) < s.len() ==> !is_ws(s[ws_end(s, i)]),
    decreases s.len() - i,
{
    if i < s.len() && is_ws(s[i]) {
        lemma_ws_end(s, i + 1);
    }
}

/// The literal `p` occurs in `s` starting exactly at index `i`.
pub open spec fn lit_at(s: Seq<u8>, i: int, p: Seq<u8>) -> bool {
    &&& 0 <= i
    &&& i + p.len() <= s.len()
    &&& forall|k: int| 0 <= k < p.len() ==> s[i + k] == p[k]
}

/// After `i` the line holds only whitespace, optionally followed by a `//`
/// comment that runs to the end of the line.
pub open spec fn tail_ok(s: Seq<u8>, i: int) -> bool {
    let j = ws_end(s, i);
    j == s.len() || lit_at(s, j, seq![47u8, 47u8])
}

/// Index one past the last non-whitespace byte of `s` at or before `j`, or 0
/// if there is none.
pub open spec fn trim_end_idx(s: Seq<u8>, j: int) -> int
    decreases j,
{
    if j <= 0 || j > s.len() {
        0
    } else if is_ws(s[j - 1]) {
        trim_end_idx(s, j - 1)
    } else {
        j
    }
}

pub proof fn lemma_trim_end_idx(s: Seq<u8>, j: int)
    requires
        0 <= j <= s.len(),
    ensures
        0 <= trim_end_idx(s, j) <= j,
        forall|k: int| trim_end_idx(s, j) <= k < j ==> is_ws(s[k]),
        trim_end_idx(s, j) > 0 ==> !is_ws(s[trim_end_idx(s, j) - 1]),
    decreases j,
{
    if j > 0 && is_ws(s[j - 1]) {
        lemma_trim_end_idx(s, j - 1);
    }
}

/// `s` with leading and trailing whitespace removed.
pub open spec fn trimmed(s: Seq<u8>) -> Seq<u8> {
    let a = ws_end(s, 0);
    if a == s.len() {
        Seq::empty()
    } else {
        s.subrange(a, trim_end_idx(s, s.len() as int))
    }
}

/// What one emitted line looks like: unchanged when `minify` is off, stripped
/// of surrounding whitespace when it is on.
pub open spec fn emit_spec(line: Seq<u8>, minify: bool) -> Seq<u8> {
    if minify {
        trimmed(line)
    } else {
        line
    }
}

/// Whether byte `b` equals any ASCII whitespace byte.
pub fn byte_is_ws(b: u8) -> (r: bool)
    ensures
        r == is_ws(b),
{
    b == 32 || b == 9 || b == 10 || b == 11 || b == 12 || b == 13
}

/// First index at or after `i` with a non-whitespace byte.
pub fn skip_ws(s: &Vec<u8>, i: usize) -> (r: usize)
    requires
        i <= s.len(),
    ensures
        r == ws_end(s@, i as int),
        i <= r <= s.len(),
    decreases s.len() - i,
{
    proof {
        lemma_ws_end(s@, i as int);
    }
    if i == s.len() {
        i
    } else if byte_is_ws(s[i]) {
        skip_ws(s, i + 1)
    } else {
        i
    }
}

/// Whether the literal `p` occurs in `s` starting exactly at index `i`.
pub fn has_lit_at(s: &Vec<u8>, i: usize, p: &[u8]) -> (r: bool)
    ensures
        r == lit_at(s@, i as int, p@),
{
    if i > s.len() || p.len() > s.len() - i {
        return false;
    }
    let mut k: usize = 0;
    while k < p.len()
        invariant
            0 <= k <= p.len(),
            i + p.len() <= s.len(),
            forall|m: int| 0 <= m < k ==> s@[i + m] == p@[m],
        decreases p.len() - k,
    {
        if s[i + k] != p[k] {
            return false;
        }
        k += 1;
    }
    true
}

/// Whether from `i` on the line holds only whitespace, optionally followed by
/// a `//` comment.
pub fn tail_is_ok(s: &Vec<u8>, i: usize) -> (r: bool)
    requires
        i <= s.len(),
    ensures
        r == tail_ok(s@, i as int),
{
    let j = skip_ws(s, i);
    if j == s.len() {
        true
    } else {
        has_lit_at(s, j, &[47u8, 47u8])
    }
}

/// Appends every byte of `src` to `dst`.
pub fn push_bytes(dst: &mut Vec<u8>, src: &[u8])
    ensures
        final(dst)@ == old(dst)@ + src@,
{
    let mut k: usize = 0;
    while k < src.len()
        invariant
            0 <= k <= src@.len(),
            dst@ == old(dst)@ + src@.subrange(0, k as int),
        decreases src@.len() - k,
    {
        dst.push(src[k]);
        proof {
            assert(old(dst)@ + src@.subrange(0, k as int) + seq![src@[k as int]] =~= old(
                dst,
            )@ + src@.subrange(0, k as int + 1));
        }
        k += 1;
    }
    proof {
        assert(src@.subrange(0, src@.len() as int) =~= src@);
    }
}

/// Appends the bytes of `src` between `from` and `to` to `dst`.
pub fn push_byte_range(dst: &mut Vec<u8>, src: &Vec<u8>, from: usize, to: usize)
    requires
        from <= to <= src.len(),
    ensures
        final(dst)@ == old(dst)@ + src@.subrange(from as int, to as int),
{
    let mut k: usize = from;
    while k < to
        invariant
            from <= k <= to <= src@.len(),
            dst@ == old(dst)@ + src@.subrange(from as int, k as int),
        decreases to - k,
    {
        dst.push(src[k]);
        proof {
            assert(old(dst)@ + src@.subrange(from as int, k as int) + seq![src@[k as int]] =~= old(
                dst,
            )@ + src@.subrange(from as int, k as int + 1));
        }
        k += 1;
    }
}

/// One emitted line: `line` itself, or `line` stripped of leading and trailing
/// whitespace when `minify` is on.
pub fn emit_line(line: &Vec<u8>, minify: bool) -> (r: Vec<u8>)
    ensures
        r@ == emit_spec(line@, minify),
{
    if !minify {
        let mut r: Vec<u8> = Vec::new();
        push_byte_range(&mut r, line, 0, line.len());
        proof {
            assert(line@.subrange(0, line@.len() as int) =~= line@);
        }
        return r;
    }
    let a = skip_ws(line, 0);
    if a == line.len() {
        let r: Vec<u8> = Vec::new();
        return r;
    }
    let b = trim_end(line);
    proof {
        lemma_ws_end(line@, 0);
        lemma_trim_end_idx(line@, line@.len() as int);
        if (b as int) < a as int {
            assert(is_ws(line@[a as int]));
            assert(false);
        }
    }
    let mut r: Vec<u8> = Vec::new();
    push_byte_range(&mut r, line, a, b);
    r
}

/// Index one past the last non-whitespace byte of `s`, or 0 if `s` is all
/// whitespace.
pub fn trim_end(s: &Vec<u8>) -> (r: usize)
    ensures
        r == trim_end_idx(s@, s@.len() as int),
{
    let mut j: usize = s.len();
    loop
        invariant
            0 <= j <= s.len(),
            trim_end_idx(s@, s@.len() as int) == trim_end_idx(s@, j as int),
        decreases j,
    {
        if j == 0 {
            return 0;
        }
        if !byte_is_ws(s[j - 1]) {
            return j;
        }
        j = j - 1;
    }
}

} // verus!
