//! `/proc/<pid>/maps` text parsing.
//!
//! Each line contributes an address range and a mapping name; ranges of
//! the same name are merged into one span. Anonymous mappings share one
//! bracket name. The embedder reads the file; the parser only sees its
//! bytes.

use vstd::prelude::*;

use crate::error::SubstrateError;

verus! {

/// One merged mapping: the lowest start and highest end seen for a name.
pub struct MemoryMap {
    pub name: Vec<u8>,
    pub start: usize,
    pub end: usize,
}

/// Compares two byte strings.
fn bytes_eq(a: &Vec<u8>, b: &Vec<u8>) -> (r: bool)
    ensures
        r == (a@ == b@),
{
    if a.len() != b.len() {
        return false;
    }
    let n = a.len();
    let mut i: usize = 0;
    while i < n
        invariant
            n == a@.len(),
            n == b@.len(),
            i <= n,
            forall|t: int| 0 <= t < i ==> a@[t] == b@[t],
        decreases n - i,
    {
        if a[i] != b[i] {
            return false;
        }
        i = i + 1;
    }
    proof {
        assert(a@ =~= b@);
    }
    true
}

/// The text is one anonymous span and nothing else: a hex run, a dash,
/// and a second hex run to the end, both values fitting the machine
/// word.
pub open spec fn spec_single_span(content: Seq<u8>, l: int) -> bool {
    &&& 0 < l < content.len()
    &&& l + 1 < content.len()
    &&& content[l] == 0x2d
    &&& (forall|t: int| 0 <= t < l ==> crate::utils::spec_is_hex(#[trigger] content[t]))
    &&& (forall|t: int|
        l + 1 <= t < content.len() ==> crate::utils::spec_is_hex(#[trigger] content[t]))
    &&& crate::utils::spec_hex_num(content.subrange(0, l)) <= usize::MAX
    &&& crate::utils::spec_hex_num(content.subrange(l + 1, content.len() as int)) <= usize::MAX
}

/// Parses the maps text into merged spans: every line is split on
/// whitespace, its first field read as `start-end` in hex, and its sixth
/// field (or a bracket name when absent) taken as the mapping name; a
/// line whose addresses do not parse is an `ElfParsing` error, as the
/// resolver treats the file as part of the image metadata. A text that
/// is a single anonymous span yields exactly that span.
#[verifier::rlimit(100)]
#[verifier::spinoff_prover]
pub fn load_memory_maps(content: &Vec<u8>) -> (r: Result<Vec<MemoryMap>, SubstrateError>)
    ensures
        r matches Err(e) ==> e is ElfParsing,
        ({
            let l = crate::utils::spec_hex_end(content@, 0);
            spec_single_span(content@, l) ==> (r matches Ok(m) && m@.len() == 1 && m@[0].start
                == crate::utils::spec_hex_num(content@.subrange(0, l)) && m@[0].end
                == crate::utils::spec_hex_num(content@.subrange(l + 1, content@.len() as int)))
        }),
{
    let n = content.len();
    let mut maps: Vec<MemoryMap> = Vec::new();
    let mut pos: usize = 0;

    let ghost sl: int = crate::utils::spec_hex_end(content@, 0);
    let ghost wf: bool = spec_single_span(content@, sl);
    let ghost leftval: int = crate::utils::spec_hex_num(content@.subrange(0, sl));
    let ghost rightval: int = crate::utils::spec_hex_num(
        content@.subrange(sl + 1, content@.len() as int),
    );
    proof {
        if wf {
            assert(forall|t: int| 0 <= t < n ==> content@[t] != 0x0a && content@[t] != 0x20);
        }
    }

    while pos < n
        invariant
            n == content@.len(),
            sl == crate::utils::spec_hex_end(content@, 0),
            wf == spec_single_span(content@, sl),
            leftval == crate::utils::spec_hex_num(content@.subrange(0, sl)),
            rightval == crate::utils::spec_hex_num(
                content@.subrange(sl + 1, content@.len() as int),
            ),
            wf ==> ((pos == 0 && maps@.len() == 0) || (pos >= n && maps@.len() == 1 && maps@[
                0
            ].start == leftval && maps@[0].end == rightval)),
        decreases n - pos,
    {
        // the current line is content[pos..line_end)
        let mut line_end: usize = pos;
        while line_end < n && content[line_end] != 0x0a
            invariant
                n == content@.len(),
                pos <= line_end <= n,
            decreases n - line_end,
        {
            line_end = line_end + 1;
        }

        // first whitespace-separated field, holding start-end
        let mut field_end: usize = pos;
        while field_end < line_end && content[field_end] != 0x20
            invariant
                n == content@.len(),
                pos <= field_end <= line_end,
                line_end <= n,
            decreases line_end - field_end,
        {
            field_end = field_end + 1;
        }

        // the field must hold exactly one dash
        let mut dash_count: usize = 0;
        let mut dash_pos: usize = pos;
        let mut t: usize = pos;
        while t < field_end
            invariant
                n == content@.len(),
                pos <= t <= field_end,
                field_end <= n,
                pos <= dash_pos <= field_end,
                dash_count <= t,
                dash_count > 0 ==> dash_pos < field_end,
                wf == spec_single_span(content@, sl),
                wf && pos == 0 ==> (t <= sl ==> dash_count == 0) && (t > sl ==> dash_count == 1
                    && dash_pos == sl),
            decreases field_end - t,
        {
            if content[t] == 0x2d {
                if dash_count == 0 {
                    dash_pos = t;
                }
                dash_count = dash_count + 1;
            }
            t = t + 1;
        }

        if dash_count == 1 {
            let start_v = match parse_hex_span(content, pos, dash_pos) {
                Some(v) => v,
                None => {
                    return Err(SubstrateError::ElfParsing("invalid address".to_owned()));
                },
            };
            let end_v = match parse_hex_span(content, dash_pos + 1, field_end) {
                Some(v) => v,
                None => {
                    return Err(SubstrateError::ElfParsing("invalid address".to_owned()));
                },
            };

            // skip four whitespace-separated fields: perms, offset, dev,
            // inode
            let mut k: usize = field_end;
            let mut field: usize = 0;
            while field < 4 && k < line_end
                invariant
                    n == content@.len(),
                    pos <= k <= line_end,
                    field_end <= k,
                    line_end <= n,
                    field <= 4,
                decreases 4 - field,
            {
                while k < line_end && content[k] == 0x20
                    invariant
                        n == content@.len(),
                        pos <= k <= line_end,
                        field_end <= k,
                        line_end <= n,
                    decreases line_end - k,
                {
                    k = k + 1;
                }
                while k < line_end && content[k] != 0x20
                    invariant
                        n == content@.len(),
                        pos <= k <= line_end,
                        field_end <= k,
                        line_end <= n,
                    decreases line_end - k,
                {
                    k = k + 1;
                }
                field = field + 1;
            }
            while k < line_end && content[k] == 0x20
                invariant
                    n == content@.len(),
                    pos <= k <= line_end,
                    field_end <= k,
                    line_end <= n,
                decreases line_end - k,
            {
                k = k + 1;
            }

            let mut name: Vec<u8> = Vec::new();
            if k < line_end {
                while k < line_end && content[k] != 0x20
                    invariant
                        n == content@.len(),
                        pos <= k <= line_end,
                        line_end <= n,
                    decreases line_end - k,
                {
                    name.push(content[k]);
                    k = k + 1;
                }
            } else {
                // anonymous mapping
                name.push(0x5b);
                name.push(0x6d);
                name.push(0x65);
                name.push(0x6d);
                name.push(0x6f);
                name.push(0x72);
                name.push(0x79);
                name.push(0x5d);
            }

            // merge with an existing span of the same name
            let mut merged = false;
            let mlen = maps.len();
            let ghost maps_snap = maps@;
            let mut mi: usize = 0;
            while mi < mlen && !merged
                invariant
                    mlen == maps@.len(),
                    mi <= mlen,
                    mlen == 0 ==> maps@ == maps_snap && !merged,
                decreases mlen - mi + (if merged {
                    0int
                } else {
                    1int
                }),
            {
                if bytes_eq(&maps[mi].name, &name) {
                    if start_v < maps[mi].start {
                        let old_end = maps[mi].end;
                        let old_name = take_name(&mut maps, mi);
                        maps[mi] = MemoryMap { name: old_name, start: start_v, end: old_end };
                    }
                    if end_v > maps[mi].end {
                        let old_start = maps[mi].start;
                        let old_name = take_name(&mut maps, mi);
                        maps[mi] = MemoryMap { name: old_name, start: old_start, end: end_v };
                    }
                    merged = true;
                }
                mi = mi + 1;
            }
            if !merged {
                maps.push(MemoryMap { name, start: start_v, end: end_v });
            }
        }

        if line_end < n {
            pos = line_end + 1;
        } else {
            pos = n;
        }
    }

    Ok(maps)
}

/// Parses `content[from..to]` as a hex number; an empty span, a stray
/// character or a value beyond the machine word gives nothing.
fn parse_hex_span(content: &Vec<u8>, from: usize, to: usize) -> (r: Option<usize>)
    requires
        from <= to <= content@.len(),
    ensures
        r is Some <==> (from < to && (forall|t: int|
            from <= t < to ==> crate::utils::spec_is_hex(#[trigger] content@[t]))
            && crate::utils::spec_hex_num(content@.subrange(from as int, to as int))
            <= usize::MAX),
        r matches Some(v) ==> v == crate::utils::spec_hex_num(
            content@.subrange(from as int, to as int),
        ),
{
    if from == to {
        return None;
    }
    let mut acc: usize = 0;
    let mut k: usize = from;
    while k < to
        invariant
            from <= k <= to,
            to <= content@.len(),
            acc == crate::utils::spec_hex_num(content@.subrange(from as int, k as int)),
            forall|t: int| from <= t < k ==> crate::utils::spec_is_hex(#[trigger] content@[t]),
        decreases to - k,
    {
        let bch = content[k];
        if !is_hex_digit(bch) {
            proof {
                assert(content@[k as int] == bch);
            }
            return None;
        }
        let d = hex_digit(bch);
        if acc > (usize::MAX - d as usize) / 16 {
            proof {
                let whole = content@.subrange(from as int, to as int);
                let pre = content@.subrange(from as int, k + 1);
                assert(pre.drop_last() =~= content@.subrange(from as int, k as int));
                crate::utils::lemma_hex_prefix_le(whole, k + 1 - from);
                assert(whole.subrange(0, k + 1 - from) =~= pre);
            }
            return None;
        }
        proof {
            assert(content@.subrange(from as int, k + 1).drop_last() =~= content@.subrange(
                from as int,
                k as int,
            ));
        }
        acc = acc * 16 + d as usize;
        k = k + 1;
    }
    Some(acc)
}

/// Takes a map entry's name out, leaving an empty one behind.
fn take_name(maps: &mut Vec<MemoryMap>, t: usize) -> (r: Vec<u8>)
    requires
        t < old(maps)@.len(),
    ensures
        final(maps)@.len() == old(maps)@.len(),
        final(maps)@[t as int].start == old(maps)@[t as int].start,
        final(maps)@[t as int].end == old(maps)@[t as int].end,
        forall|j: int|
            0 <= j < final(maps)@.len() && j != t ==> final(maps)@[j] == old(maps)@[j],
{
    let entry = maps.remove(t);
    let MemoryMap { name, start, end } = entry;
    maps.insert(t, MemoryMap { name: Vec::new(), start, end });
    name
}

/// Whether one byte is a hex digit.
fn is_hex_digit(b: u8) -> (r: bool)
    ensures
        r == crate::utils::spec_is_hex(b),
{
    (0x30 <= b && b <= 0x39) || (0x61 <= b && b <= 0x66) || (0x41 <= b && b <= 0x46)
}

/// Value of one hex digit.
fn hex_digit(b: u8) -> (r: u8)
    ensures
        r == crate::utils::spec_hex_val(b),
        r < 16 || !crate::utils::spec_is_hex(b),
{
    if 0x30 <= b && b <= 0x39 {
        b - 0x30
    } else if 0x61 <= b && b <= 0x66 {
        b - 0x61 + 10
    } else if 0x41 <= b && b <= 0x46 {
        b - 0x41 + 10
    } else {
        0
    }
}

} // verus!
