//! Byte-level scanning primitives: character classes, whitespace skipping,
//! token and line boundaries, and literal matching.  Each executable helper
//! is specified by the spec function it computes.

use vstd::prelude::*;

verus! {

/// ASCII decimal digit.
pub open spec fn is_digit(c: u8) -> bool {
    48 <= c && c <= 57
}

/// Horizontal whitespace: space or tab.
pub open spec fn is_hspace(c: u8) -> bool {
    c == 32 || c == 9
}

/// Whitespace between lines: space, tab, newline or carriage return.
pub open spec fn is_line_ws(c: u8) -> bool {
    c == 32 || c == 9 || c == 10 || c == 13
}

/// First position at or after `pos` that does not hold horizontal
/// whitespace, or the end of the input.
pub open spec fn hspace_end(s: Seq<u8>, pos: int) -> int
    decreases s.len() - pos,
{
    if pos < 0 || pos >= s.len() {
        pos
    } else if is_hspace(s[pos]) {
        hspace_end(s, pos + 1)
    } else {
        pos
    }
}

/// First position at or after `pos` that does not hold whitespace of any
/// kind, or the end of the input.
pub open spec fn ws_end(s: Seq<u8>, pos: int) -> int
    decreases s.len() - pos,
{
    if pos < 0 || pos >= s.len() {
        pos
    } else if is_line_ws(s[pos]) {
        ws_end(s, pos + 1)
    } else {
        pos
    }
}

/// First position at or after `pos` that holds whitespace, or the end of
/// the input: the exclusive end of the token starting at `pos`.
pub open spec fn token_end(s: Seq<u8>, pos: int) -> int
    decreases s.len() - pos,
{
    if pos < 0 || pos >= s.len() {
        pos
    } else if !is_line_ws(s[pos]) {
        token_end(s, pos + 1)
    } else {
        pos
    }
}

/// First position at or after `pos` that holds a newline, or the end of the
/// input when there is none.
pub open spec fn line_end(s: Seq<u8>, pos: int) -> int
    decreases s.len() - pos,
{
    if pos < 0 || pos >= s.len() {
        pos
    } else if s[pos] != 10 {
        line_end(s, pos + 1)
    } else {
        pos
    }
}

/// First position in `[pos, end)` that does not hold whitespace, or `end`.
pub open spec fn trim_lo(s: Seq<u8>, pos: int, end: int) -> int
    decreases end - pos,
{
    if pos < end && 0 <= pos < s.len() && is_line_ws(s[pos]) {
        trim_lo(s, pos + 1, end)
    } else {
        pos
    }
}

/// Last position in `(lo, hi]` whose predecessor does not hold whitespace,
/// or `lo`.
pub open spec fn trim_hi(s: Seq<u8>, lo: int, hi: int) -> int
    decreases hi - lo,
{
    if hi > lo && 0 < hi <= s.len() && is_line_ws(s[hi - 1]) {
        trim_hi(s, lo, hi - 1)
    } else {
        hi
    }
}

/// The bytes `lit` appear in `s` at position `pos`.
pub open spec fn matches_at(s: Seq<u8>, pos: int, lit: Seq<u8>) -> bool {
    0 <= pos && pos + lit.len() <= s.len() && s.subrange(pos, pos + lit.len()) == lit
}

pub proof fn lemma_hspace_end(s: Seq<u8>, pos: int)
    requires
        0 <= pos <= s.len(),
    ensures
        pos <= hspace_end(s, pos) <= s.len(),
        hspace_end(s, pos) < s.len() ==> !is_hspace(s[hspace_end(s, pos)]),
    decreases s.len() - pos,
{
    if pos < s.len() && is_hspace(s[pos]) {
        lemma_hspace_end(s, pos + 1);
    }
}

pub proof fn lemma_ws_end(s: Seq<u8>, pos: int)
    requires
        0 <= pos <= s.len(),
    ensures
        pos <= ws_end(s, pos) <= s.len(),
        ws_end(s, pos) < s.len() ==> !is_line_ws(s[ws_end(s, pos)]),
    decreases s.len() - pos,
{
    if pos < s.len() && is_line_ws(s[pos]) {
        lemma_ws_end(s, pos + 1);
    }
}

pub proof fn lemma_token_end(s: Seq<u8>, pos: int)
    requires
        0 <= pos <= s.len(),
    ensures
        pos <= token_end(s, pos) <= s.len(),
    decreases s.len() - pos,
{
    if pos < s.len() && !is_line_ws(s[pos]) {
        lemma_token_end(s, pos + 1);
    }
}

pub proof fn lemma_line_end(s: Seq<u8>, pos: int)
    requires
        0 <= pos <= s.len(),
    ensures
        pos <= line_end(s, pos) <= s.len(),
        line_end(s, pos) < s.len() ==> s[line_end(s, pos)] == 10,
    decreases s.len() - pos,
{
    if pos < s.len() && s[pos] != 10 {
        lemma_line_end(s, pos + 1);
    }
}

pub proof fn lemma_trim_lo(s: Seq<u8>, pos: int, end: int)
    requires
        0 <= pos <= end <= s.len(),
    ensures
        pos <= trim_lo(s, pos, end) <= end,
    decreases end - pos,
{
    if pos < end && is_line_ws(s[pos]) {
        lemma_trim_lo(s, pos + 1, end);
    }
}

pub proof fn lemma_trim_hi(s: Seq<u8>, lo: int, hi: int)
    requires
        0 <= lo <= hi <= s.len(),
    ensures
        lo <= trim_hi(s, lo, hi) <= hi,
    decreases hi - lo,
{
    if hi > lo && is_line_ws(s[hi - 1]) {
        lemma_trim_hi(s, lo, hi - 1);
    }
}

/// Advances past horizontal whitespace.
pub fn skip_hspace(input: &Vec<u8>, pos: usize) -> (r: usize)
    requires
        pos <= input@.len(),
    ensures
        r == hspace_end(input@, pos as int),
        pos <= r <= input@.len(),
{
    let mut i: usize = pos;
    while i < input.len() && (input[i] == 32 || input[i] == 9)
        invariant
            pos <= i <= input@.len(),
            hspace_end(input@, pos as int) == hspace_end(input@, i as int),
        decreases input@.len() - i,
    {
        i = i + 1;
    }
    i
}

/// Advances past whitespace of any kind.
pub fn skip_ws(input: &Vec<u8>, pos: usize) -> (r: usize)
    requires
        pos <= input@.len(),
    ensures
        r == ws_end(input@, pos as int),
        pos <= r <= input@.len(),
{
    let mut i: usize = pos;
    while i < input.len() && (input[i] == 32 || input[i] == 9 || input[i] == 10 || input[i] == 13)
        invariant
            pos <= i <= input@.len(),
            ws_end(input@, pos as int) == ws_end(input@, i as int),
        decreases input@.len() - i,
    {
        i = i + 1;
    }
    i
}

/// Advances to the end of the whitespace-delimited token starting at `pos`.
pub fn find_token_end(input: &Vec<u8>, pos: usize) -> (r: usize)
    requires
        pos <= input@.len(),
    ensures
        r == token_end(input@, pos as int),
        pos <= r <= input@.len(),
{
    let mut i: usize = pos;
    while i < input.len() && !(input[i] == 32 || input[i] == 9 || input[i] == 10 || input[i] == 13)
        invariant
            pos <= i <= input@.len(),
            token_end(input@, pos as int) == token_end(input@, i as int),
        decreases input@.len() - i,
    {
        i = i + 1;
    }
    i
}

/// Advances to the first newline at or after `pos`, or to the end of the
/// input when there is none.
pub fn find_line_end(input: &Vec<u8>, pos: usize) -> (r: usize)
    requires
        pos <= input@.len(),
    ensures
        r == line_end(input@, pos as int),
        pos <= r <= input@.len(),
{
    let mut i: usize = pos;
    while i < input.len() && input[i] != 10
        invariant
            pos <= i <= input@.len(),
            line_end(input@, pos as int) == line_end(input@, i as int),
        decreases input@.len() - i,
    {
        i = i + 1;
    }
    i
}

/// Advances past whitespace within `[pos, end)`.
pub fn skip_trim_lo(input: &Vec<u8>, pos: usize, end: usize) -> (r: usize)
    requires
        pos <= end <= input@.len(),
    ensures
        r == trim_lo(input@, pos as int, end as int),
        pos <= r <= end,
{
    let mut i: usize = pos;
    while i < end && (input[i] == 32 || input[i] == 9 || input[i] == 10 || input[i] == 13)
        invariant
            pos <= i <= end <= input@.len(),
            trim_lo(input@, pos as int, end as int) == trim_lo(input@, i as int, end as int),
        decreases end - i,
    {
        i = i + 1;
    }
    i
}

/// Retreats past trailing whitespace within `(lo, hi]`.
pub fn skip_trim_hi(input: &Vec<u8>, lo: usize, hi: usize) -> (r: usize)
    requires
        lo <= hi <= input@.len(),
    ensures
        r == trim_hi(input@, lo as int, hi as int),
        lo <= r <= hi,
{
    let mut i: usize = hi;
    while i > lo && (input[i - 1] == 32 || input[i - 1] == 9 || input[i - 1] == 10 || input[i - 1]
        == 13)
        invariant
            lo <= i <= hi <= input@.len(),
            trim_hi(input@, lo as int, hi as int) == trim_hi(input@, lo as int, i as int),
        decreases i,
    {
        i = i - 1;
    }
    i
}

/// Copies `input[lo..hi]` out as a fresh vector.
pub fn subvec(input: &Vec<u8>, lo: usize, hi: usize) -> (r: Vec<u8>)
    requires
        lo <= hi <= input@.len(),
    ensures
        r@ == input@.subrange(lo as int, hi as int),
{
    let mut v: Vec<u8> = Vec::new();
    let mut i: usize = lo;
    while i < hi
        invariant
            lo <= i <= hi <= input@.len(),
            v@ == input@.subrange(lo as int, i as int),
        decreases hi - i,
    {
        v.push(input[i]);
        i = i + 1;
        proof {
            assert(input@.subrange(lo as int, i as int) =~= input@.subrange(
                lo as int,
                i - 1,
            ).push(input@[i - 1]));
        }
    }
    v
}

/// Decides whether the bytes of `lit` appear in `input` at position `pos`.
pub fn matches_bytes(input: &Vec<u8>, pos: usize, lit: &Vec<u8>) -> (r: bool)
    requires
        pos <= input@.len(),
    ensures
        r == matches_at(input@, pos as int, lit@),
{
    if input.len() - pos < lit.len() {
        return false;
    }
    let mut i: usize = 0;
    let mut k: usize = pos;
    while i < lit.len()
        invariant
            pos + lit@.len() <= input@.len(),
            input@.len() <= usize::MAX,
            k == pos + i,
            0 <= i <= lit@.len(),
            forall|j: int| 0 <= j < i ==> input@[pos + j] == lit@[j],
        decreases lit@.len() - i,
    {
        if input[k] != lit[i] {
            proof {
                assert(input@.subrange(pos as int, pos + lit@.len())[i as int] == input@[pos + i]);
            }
            return false;
        }
        i = i + 1;
        k = k + 1;
    }
    proof {
        assert(input@.subrange(pos as int, pos + lit@.len()) =~= lit@);
    }
    true
}

} // verus!
