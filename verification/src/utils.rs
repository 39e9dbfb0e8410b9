//! Address helpers: hex-offset parsing and `/proc/self/maps` text
//! lookups.
//!
//! The embedder reads the maps text and hands it in as bytes; the
//! helpers find a library's base address in it and turn library-relative
//! offsets into absolute addresses.

use vstd::prelude::*;

use crate::error::SubstrateError;

verus! {

/// An ASCII hex digit.
pub open spec fn spec_is_hex(b: u8) -> bool {
    (0x30 <= b <= 0x39) || (0x61 <= b <= 0x66) || (0x41 <= b <= 0x46)
}

/// Value of an ASCII hex digit.
pub open spec fn spec_hex_val(b: u8) -> int {
    if 0x30 <= b <= 0x39 {
        b - 0x30
    } else if 0x61 <= b <= 0x66 {
        b - 0x61 + 10
    } else if 0x41 <= b <= 0x46 {
        b - 0x41 + 10
    } else {
        0
    }
}

/// Value of a most-significant-digit-first hex numeral.
pub open spec fn spec_hex_num(s: Seq<u8>) -> int
    decreases s.len(),
{
    if s.len() == 0 {
        0
    } else {
        spec_hex_num(s.drop_last()) * 16 + spec_hex_val(s.last())
    }
}

/// Every byte is a hex digit.
pub open spec fn spec_all_hex(s: Seq<u8>) -> bool {
    forall|i: int| 0 <= i < s.len() ==> spec_is_hex(#[trigger] s[i])
}

/// The text with every leading repetition of the two-byte prefix
/// `p0 p1` removed.
pub open spec fn spec_strip_prefix(s: Seq<u8>, p0: u8, p1: u8) -> Seq<u8>
    decreases s.len(),
{
    if s.len() >= 2 && s[0] == p0 && s[1] == p1 {
        spec_strip_prefix(s.subrange(2, s.len() as int), p0, p1)
    } else {
        s
    }
}

/// The offset text with its `0x` markers removed, as the parser sees it.
pub open spec fn spec_stripped(s: Seq<u8>) -> Seq<u8> {
    spec_strip_prefix(spec_strip_prefix(s, 0x30, 0x78), 0x30, 0x58)
}

/// A hex numeral's value only grows as digits are appended.
pub proof fn lemma_hex_prefix_le(s: Seq<u8>, i: int)
    requires
        0 <= i <= s.len(),
    ensures
        spec_hex_num(s.subrange(0, i)) <= spec_hex_num(s),
        spec_hex_num(s) >= 0,
    decreases s.len() - i,
{
    if i == s.len() {
        assert(s.subrange(0, i) =~= s);
        lemma_hex_nonneg(s);
    } else {
        lemma_hex_prefix_le(s, i + 1);
        let a = s.subrange(0, i);
        let b = s.subrange(0, i + 1);
        assert(b.drop_last() =~= a);
        assert(spec_hex_num(b) == spec_hex_num(a) * 16 + spec_hex_val(b.last()));
        lemma_hex_nonneg(a);
        assert(spec_hex_val(b.last()) >= 0);
    }
}

/// A hex numeral's value is never negative.
proof fn lemma_hex_nonneg(s: Seq<u8>)
    ensures
        spec_hex_num(s) >= 0,
    decreases s.len(),
{
    if s.len() > 0 {
        lemma_hex_nonneg(s.drop_last());
    }
}

/// Whether one byte is a hex digit.
fn is_hex(b: u8) -> (r: bool)
    ensures
        r == spec_is_hex(b),
{
    (0x30 <= b && b <= 0x39) || (0x61 <= b && b <= 0x66) || (0x41 <= b && b <= 0x46)
}

/// Value of one hex digit.
fn hex_val(b: u8) -> (r: u8)
    ensures
        r == spec_hex_val(b),
        r < 16 || !spec_is_hex(b),
{
    if 0x30 <= b && b <= 0x39 {
        b - 0x30
    } else if 0x61 <= b && b <= 0x66 {
        b - 0x61 + 10
    } else if 0x41 <= b && b <= 0x46 {
        b - 0x41 + 10
    } else {
        0
    }
}

/// Parses a hexadecimal offset, with or without a leading `0x` or `0X`
/// marker (every leading repetition of a marker is skipped). The result
/// is exactly the numeral's value; an empty numeral, a stray character
/// or a value beyond the machine word is a `ParseError`.
#[verifier::rlimit(100)]
#[verifier::spinoff_prover]
pub fn string_to_offset(s: &Vec<u8>) -> (r: Result<usize, SubstrateError>)
    ensures
        r is Ok <==> (spec_stripped(s@).len() > 0 && spec_all_hex(spec_stripped(s@))
            && spec_hex_num(spec_stripped(s@)) <= usize::MAX),
        r matches Ok(v) ==> v == spec_hex_num(spec_stripped(s@)),
        r matches Err(e) ==> e is ParseError,
{
    let n = s.len();
    let mut idx: usize = 0;
    proof {
        assert(s@.subrange(0, n as int) =~= s@);
    }
    while n - idx >= 2 && s[idx] == 0x30 && s[idx + 1] == 0x78
        invariant
            n == s@.len(),
            idx <= n,
            spec_strip_prefix(s@.subrange(idx as int, n as int), 0x30, 0x78) == spec_strip_prefix(
                s@,
                0x30,
                0x78,
            ),
        decreases n - idx,
    {
        proof {
            assert(s@.subrange(idx as int, n as int).subrange(2, n - idx) =~= s@.subrange(
                idx + 2,
                n as int,
            ));
        }
        idx = idx + 2;
    }
    let ghost after_x = s@.subrange(idx as int, n as int);
    proof {
        assert(after_x == spec_strip_prefix(s@, 0x30, 0x78));
    }
    while n - idx >= 2 && s[idx] == 0x30 && s[idx + 1] == 0x58
        invariant
            n == s@.len(),
            idx <= n,
            spec_strip_prefix(s@.subrange(idx as int, n as int), 0x30, 0x58) == spec_strip_prefix(
                after_x,
                0x30,
                0x58,
            ),
        decreases n - idx,
    {
        proof {
            assert(s@.subrange(idx as int, n as int).subrange(2, n - idx) =~= s@.subrange(
                idx + 2,
                n as int,
            ));
        }
        idx = idx + 2;
    }
    let ghost body = s@.subrange(idx as int, n as int);
    proof {
        assert(body == spec_stripped(s@));
    }

    if idx == n {
        return Err(SubstrateError::ParseError("empty hexadecimal offset".to_owned()));
    }

    let mut acc: usize = 0;
    let mut k: usize = idx;
    while k < n
        invariant
            n == s@.len(),
            idx <= k <= n,
            body == s@.subrange(idx as int, n as int),
            body == spec_stripped(s@),
            acc == spec_hex_num(s@.subrange(idx as int, k as int)),
            spec_all_hex(s@.subrange(idx as int, k as int)),
        decreases n - k,
    {
        let b = s[k];
        if !is_hex(b) {
            proof {
                assert(body[k - idx] == s@[k as int]);
            }
            return Err(SubstrateError::ParseError("invalid hexadecimal digit".to_owned()));
        }
        let d = hex_val(b);
        if acc > (usize::MAX - d as usize) / 16 {
            proof {
                let pre = s@.subrange(idx as int, k + 1);
                assert(pre.drop_last() =~= s@.subrange(idx as int, k as int));
                lemma_hex_prefix_le(body, k + 1 - idx);
                assert(body.subrange(0, k + 1 - idx) =~= pre);
            }
            return Err(SubstrateError::ParseError("offset out of range".to_owned()));
        }
        proof {
            let pre = s@.subrange(idx as int, k + 1);
            assert(pre.drop_last() =~= s@.subrange(idx as int, k as int));
        }
        acc = acc * 16 + d as usize;
        k = k + 1;
    }
    proof {
        assert(s@.subrange(idx as int, n as int) == body);
    }
    Ok(acc)
}

/// `needle` occurs in `hay` at position `i`.
pub open spec fn spec_contains_at(hay: Seq<u8>, needle: Seq<u8>, i: int) -> bool {
    0 <= i && i + needle.len() <= hay.len() && hay.subrange(i, i + needle.len()) == needle
}

/// `needle` occurs somewhere in `hay`.
pub open spec fn spec_contains(hay: Seq<u8>, needle: Seq<u8>) -> bool {
    exists|i: int| spec_contains_at(hay, needle, i)
}

/// The first position at or after `i` where `needle` occurs in `hay`,
/// or -1 when it does not.
pub open spec fn spec_find(hay: Seq<u8>, needle: Seq<u8>, i: int) -> int
    decreases hay.len() - i + 1,
{
    if i < 0 || i + needle.len() > hay.len() {
        -1
    } else if hay.subrange(i, i + needle.len()) == needle {
        i
    } else {
        spec_find(hay, needle, i + 1)
    }
}

/// The start of the line containing position `p`.
pub open spec fn spec_line_start(hay: Seq<u8>, p: int) -> int
    decreases p,
{
    if p <= 0 {
        0
    } else if hay[p - 1] == 0x0a {
        p
    } else {
        spec_line_start(hay, p - 1)
    }
}

/// The end of the run of hex digits beginning at `k`.
pub open spec fn spec_hex_end(hay: Seq<u8>, k: int) -> int
    decreases hay.len() - k,
{
    if k < 0 || k >= hay.len() {
        k
    } else if !spec_is_hex(hay[k]) {
        k
    } else {
        spec_hex_end(hay, k + 1)
    }
}

/// The hex run extends no earlier than where it starts.
proof fn lemma_hex_end_ge(hay: Seq<u8>, k: int)
    requires
        0 <= k <= hay.len(),
    ensures
        k <= spec_hex_end(hay, k) <= hay.len(),
    decreases hay.len() - k,
{
    if k < hay.len() && spec_is_hex(hay[k]) {
        lemma_hex_end_ge(hay, k + 1);
    }
}

/// The first line of the maps text naming the library parses to a base
/// address: its leading hex run is nonempty, ends at a dash, and fits
/// the machine word.
pub open spec fn spec_maps_line_ok(hay: Seq<u8>, needle: Seq<u8>) -> bool {
    let f = spec_find(hay, needle, 0);
    let ls = spec_line_start(hay, f);
    let e = spec_hex_end(hay, ls);
    f >= 0 && e > ls && e < hay.len() && hay[e] == 0x2d && spec_hex_num(
        hay.subrange(ls, e),
    ) <= usize::MAX
}

/// The base address the maps text gives the library.
pub open spec fn spec_maps_base(hay: Seq<u8>, needle: Seq<u8>) -> int {
    let ls = spec_line_start(hay, spec_find(hay, needle, 0));
    spec_hex_num(hay.subrange(ls, spec_hex_end(hay, ls)))
}

/// Finds the first occurrence of `needle` in `hay`.
#[verifier::rlimit(100)]
#[verifier::spinoff_prover]
fn find_sub(hay: &Vec<u8>, needle: &Vec<u8>) -> (r: Option<usize>)
    requires
        needle@.len() >= 1,
    ensures
        r matches Some(i) ==> spec_contains_at(hay@, needle@, i as int) && i == spec_find(
            hay@,
            needle@,
            0,
        ),
        r is None ==> !spec_contains(hay@, needle@) && spec_find(hay@, needle@, 0) == -1,
{
    let hn = hay.len();
    let nn = needle.len();
    if nn > hn {
        proof {
            assert(forall|i: int| !spec_contains_at(hay@, needle@, i));
        }
        return None;
    }
    let mut i: usize = 0;
    while i <= hn - nn
        invariant
            hn == hay@.len(),
            nn == needle@.len(),
            1 <= nn <= hn,
            i <= hn - nn + 1,
            forall|t: int| 0 <= t < i ==> !spec_contains_at(hay@, needle@, t),
            spec_find(hay@, needle@, 0) == spec_find(hay@, needle@, i as int),
        decreases hn - nn - i + 1,
    {
        let mut j: usize = 0;
        let mut ok = true;
        while j < nn && ok
            invariant
                hn == hay@.len(),
                nn == needle@.len(),
                i + nn <= hn,
                j <= nn,
                ok ==> forall|t: int| 0 <= t < j ==> hay@[i + t] == needle@[t],
                !ok ==> !spec_contains_at(hay@, needle@, i as int),
            decreases nn - j + (if ok {
                1int
            } else {
                0int
            }),
        {
            if hay[i + j] != needle[j] {
                proof {
                    assert(hay@.subrange(i as int, i + nn)[j as int] == hay@[i + j]);
                }
                ok = false;
            } else {
                j = j + 1;
            }
        }
        if ok {
            proof {
                assert(hay@.subrange(i as int, i + nn) =~= needle@);
            }
            return Some(i);
        }
        proof {
            assert(hay@.subrange(i as int, i + nn) != needle@);
        }
        i = i + 1;
    }
    proof {
        assert forall|t: int| !spec_contains_at(hay@, needle@, t) by {
            if 0 <= t && t + nn <= hn {
                assert(t < i);
            }
        }
        assert(spec_find(hay@, needle@, i as int) == -1);
    }
    None
}

/// Whether the maps text mentions the library at all.
pub fn is_library_loaded(library_name: &Vec<u8>, maps: &Vec<u8>) -> (r: bool)
    requires
        library_name@.len() >= 1,
    ensures
        r == spec_contains(maps@, library_name@),
{
    match find_sub(maps, library_name) {
        Some(_) => true,
        None => false,
    }
}

/// Finds the base address of a loaded library in the maps text: the
/// first line mentioning the name is taken and the hex address before
/// its dash is parsed. A name the text does not mention is
/// `LibraryNotFound`; a line whose address field is empty, unterminated
/// or too large is a `ParseError`.
#[verifier::rlimit(100)]
#[verifier::spinoff_prover]
pub fn find_library(library_name: &Vec<u8>, maps: &Vec<u8>) -> (r: Result<usize, SubstrateError>)
    requires
        library_name@.len() >= 1,
    ensures
        r is Ok <==> spec_maps_line_ok(maps@, library_name@),
        r matches Ok(v) ==> v == spec_maps_base(maps@, library_name@),
        spec_find(maps@, library_name@, 0) < 0 ==> (r matches Err(e) && e is LibraryNotFound),
        r matches Err(e) ==> e is LibraryNotFound || e is ParseError,
{
    let pos = match find_sub(maps, library_name) {
        Some(p) => p,
        None => {
            return Err(SubstrateError::LibraryNotFound("library not in maps".to_owned()));
        },
    };

    // walk back to the start of the line holding the match
    let mut line_start: usize = pos;
    while line_start > 0 && maps[line_start - 1] != 0x0a
        invariant
            line_start <= maps@.len(),
            spec_line_start(maps@, pos as int) == spec_line_start(maps@, line_start as int),
        decreases line_start,
    {
        line_start = line_start - 1;
    }
    proof {
        assert(line_start as int == spec_line_start(maps@, pos as int));
        lemma_hex_end_ge(maps@, line_start as int);
    }
    let ghost ls: int = line_start as int;
    let ghost e: int = spec_hex_end(maps@, ls);

    // the address field runs from the line start to the dash
    let n = maps.len();
    let mut acc: usize = 0;
    let mut k: usize = line_start;
    let mut any = false;
    while k < n && maps[k] != 0x2d
        invariant
            n == maps@.len(),
            line_start <= k <= n,
            ls == line_start as int,
            e == spec_hex_end(maps@, ls),
            spec_hex_end(maps@, k as int) == e,
            spec_find(maps@, library_name@, 0) == pos,
            spec_line_start(maps@, pos as int) == ls,
            any == (k > line_start),
            acc == spec_hex_num(maps@.subrange(ls, k as int)),
            forall|t: int| ls <= t < k ==> spec_is_hex(#[trigger] maps@[t]),
        decreases n - k,
    {
        let bch = maps[k];
        if !is_hex(bch) {
            proof {
                assert(e == k);
            }
            return Err(SubstrateError::ParseError("malformed maps line".to_owned()));
        }
        let d = hex_val(bch);
        proof {
            lemma_hex_end_ge(maps@, k + 1);
            let body = maps@.subrange(ls, e);
            let pre = maps@.subrange(ls, k + 1);
            assert(pre.drop_last() =~= maps@.subrange(ls, k as int));
        }
        if acc > (usize::MAX - d as usize) / 16 {
            proof {
                let body = maps@.subrange(ls, e);
                lemma_hex_prefix_le(body, k + 1 - ls);
                assert(body.subrange(0, k + 1 - ls) =~= maps@.subrange(ls, k + 1));
            }
            return Err(SubstrateError::ParseError("address out of range".to_owned()));
        }
        acc = acc * 16 + d as usize;
        any = true;
        k = k + 1;
    }
    proof {
        assert(e == k);
    }
    if !any || k >= n {
        return Err(SubstrateError::ParseError("malformed maps line".to_owned()));
    }
    Ok(acc)
}

/// Turns a library-relative offset into an absolute address using the
/// maps text: the library's base plus the offset. The lookup's errors
/// pass through; a sum beyond the machine word is a `ParseError`.
pub fn get_absolute_address(
    library_name: &Vec<u8>,
    relative_addr: usize,
    maps: &Vec<u8>,
) -> (r: Result<usize, SubstrateError>)
    requires
        library_name@.len() >= 1,
    ensures
        r is Ok <==> (spec_maps_line_ok(maps@, library_name@) && spec_maps_base(
            maps@,
            library_name@,
        ) + relative_addr <= usize::MAX),
        r matches Ok(v) ==> v == spec_maps_base(maps@, library_name@) + relative_addr,
        spec_find(maps@, library_name@, 0) < 0 ==> (r matches Err(e) && e is LibraryNotFound),
        r matches Err(e) ==> e is LibraryNotFound || e is ParseError,
{
    let base = match find_library(library_name, maps) {
        Ok(bv) => bv,
        Err(e) => {
            return Err(e);
        },
    };
    if base > usize::MAX - relative_addr {
        return Err(SubstrateError::ParseError("address out of range".to_owned()));
    }
    Ok(base + relative_addr)
}

} // verus!
