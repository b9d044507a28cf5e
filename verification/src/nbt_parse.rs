//! Structural decoder for the NBT-encoded chunk payload.
//!
//! The decompressed payload is one named compound tag. The decoder walks
//! the binary tag tree, maps the recognized fields onto the typed chunk
//! records of `model`, skips every unrecognized field, and rejects the
//! payload when a required field is missing or has the wrong shape.
//! Strings are read as UTF-8; packed index arrays are kept as raw 64-bit
//! words. Spec functions mirror every step, so each parser's result is
//! pinned to a mathematical reading of the bytes.

use vstd::prelude::*;
use vstd::slice::{slice_subrange, slice_to_vec};
use vstd::string::*;
use vstd::utf8::{valid_utf8, decode_utf8};

use crate::bytes::{be16, be32, be64, as_i8, as_i16, as_i32, as_i64};
use crate::bytes::{get_u16, get_u32, get_u64, to_i8, to_i16, to_i32, to_i64};
use crate::model::{opt_view, PaletteBlockProperties, PaletteBlockPropertiesView, PaletteBlock,
    PaletteBlockView, BlockStates, BlockStatesView, Biomes, BiomesView, Section, SectionView,
    Chunk, ChunkView};

verus! {

/// One field of a compound: its tag type and the span of its name.
/// The field's value starts at `name_end`; its extent follows from the
/// tag and the bytes themselves.
#[derive(Debug, PartialEq, Eq, Structural, Clone, Copy)]
pub struct RawEntry {
    pub tag: u8,
    pub name_start: usize,
    pub name_end: usize,
}

/// Every entry's name span lies inside the buffer.
pub open spec fn entries_ok(d: Seq<u8>, es: Seq<RawEntry>) -> bool {
    forall|i: int|
        0 <= i < es.len() ==> (#[trigger] es[i]).name_start <= es[i].name_end <= d.len()
}

/// The name bytes of an entry.
pub open spec fn spec_entry_name(d: Seq<u8>, e: RawEntry) -> Seq<u8> {
    d.subrange(e.name_start as int, e.name_end as int)
}

/// Position right after the payload of a tag of type `t` at `p`, or
/// `None` when the payload is malformed or runs past the buffer.
pub open spec fn spec_skip_payload(d: Seq<u8>, p: int, t: u8) -> Option<int>
    decreases d.len() - p, 1nat,
{
    if p < 0 || p > d.len() {
        None
    } else if t == 1 {
        if p + 1 <= d.len() { Some(p + 1) } else { None }
    } else if t == 2 {
        if p + 2 <= d.len() { Some(p + 2) } else { None }
    } else if t == 3 || t == 5 {
        if p + 4 <= d.len() { Some(p + 4) } else { None }
    } else if t == 4 || t == 6 {
        if p + 8 <= d.len() { Some(p + 8) } else { None }
    } else if t == 7 {
        if p + 4 <= d.len() {
            let n = be32(d, p);
            if n < 0x80000000 && p + 4 + n <= d.len() { Some(p + 4 + n) } else { None }
        } else { None }
    } else if t == 8 {
        if p + 2 <= d.len() {
            let n = be16(d, p);
            if p + 2 + n <= d.len() { Some(p + 2 + n) } else { None }
        } else { None }
    } else if t == 9 {
        if p + 5 <= d.len() {
            let et = d[p];
            let n = be32(d, p + 1);
            if n < 0x80000000 { spec_skip_elems(d, p + 5, et, n) } else { None }
        } else { None }
    } else if t == 10 {
        spec_skip_compound(d, p)
    } else if t == 11 {
        if p + 4 <= d.len() {
            let n = be32(d, p);
            if n < 0x80000000 && p + 4 + 4 * n <= d.len() { Some(p + 4 + 4 * n) } else { None }
        } else { None }
    } else if t == 12 {
        if p + 4 <= d.len() {
            let n = be32(d, p);
            if n < 0x80000000 && p + 4 + 8 * n <= d.len() { Some(p + 4 + 8 * n) } else { None }
        } else { None }
    } else {
        None
    }
}

/// Position after `n` consecutive payloads of type `t` starting at `p`.
pub open spec fn spec_skip_elems(d: Seq<u8>, p: int, t: u8, n: nat) -> Option<int>
    decreases d.len() - p, n + 2,
{
    if p < 0 || p > d.len() {
        None
    } else if n == 0 {
        Some(p)
    } else {
        match spec_skip_payload(d, p, t) {
            None => None,
            Some(p2) => if p < p2 && p2 <= d.len() {
                spec_skip_elems(d, p2, t, (n - 1) as nat)
            } else {
                None
            },
        }
    }
}

/// Position after the entries and end marker of a compound whose body
/// starts at `p`.
pub open spec fn spec_skip_compound(d: Seq<u8>, p: int) -> Option<int>
    decreases d.len() - p, 0nat,
{
    if p < 0 || p + 1 > d.len() {
        None
    } else {
        let t = d[p];
        if t == 0 {
            Some(p + 1)
        } else if p + 3 <= d.len() {
            let nl = be16(d, p + 1);
            let q = p + 3 + nl;
            if q <= d.len() {
                match spec_skip_payload(d, q, t) {
                    None => None,
                    Some(p2) => if q < p2 && p2 <= d.len() {
                        spec_skip_compound(d, p2)
                    } else {
                        None
                    },
                }
            } else {
                None
            }
        } else {
            None
        }
    }
}

/// The entries of the compound whose body starts at `p`, appended to
/// `acc`, together with the position after the end marker.
pub open spec fn spec_scan_compound(d: Seq<u8>, p: int, acc: Seq<RawEntry>) -> Option<
    (Seq<RawEntry>, int),
>
    decreases d.len() - p,
{
    if p < 0 || p + 1 > d.len() {
        None
    } else {
        let t = d[p];
        if t == 0 {
            Some((acc, p + 1))
        } else if p + 3 <= d.len() {
            let nl = be16(d, p + 1);
            let q = p + 3 + nl;
            if q <= d.len() {
                match spec_skip_payload(d, q, t) {
                    None => None,
                    Some(p2) => if q < p2 && p2 <= d.len() {
                        spec_scan_compound(
                            d,
                            p2,
                            acc.push(
                                RawEntry {
                                    tag: t,
                                    name_start: (p + 3) as usize,
                                    name_end: q as usize,
                                },
                            ),
                        )
                    } else {
                        None
                    },
                }
            } else {
                None
            }
        } else {
            None
        }
    }
}

/// The first entry whose name equals `name`, if any.
pub open spec fn spec_find_entry(d: Seq<u8>, es: Seq<RawEntry>, name: Seq<u8>) -> Option<RawEntry>
    decreases es.len(),
{
    if es.len() == 0 {
        None
    } else if spec_entry_name(d, es[0]) == name {
        Some(es[0])
    } else {
        spec_find_entry(d, es.drop_first(), name)
    }
}

pub fn skip_payload(d: &[u8], p: usize, t: u8) -> (r: Option<usize>)
    requires
        p <= d@.len(),
    ensures
        (match r {
            Some(q) => spec_skip_payload(d@, p as int, t) == Some(q as int) && p < q <= d@.len(),
            None => spec_skip_payload(d@, p as int, t) is None,
        }),
    decreases d@.len() - p, 1nat,
{
    let n: usize = d.len();
    if t == 1 {
        if n - p >= 1 { Some(p + 1) } else { None }
    } else if t == 2 {
        if n - p >= 2 { Some(p + 2) } else { None }
    } else if t == 3 || t == 5 {
        if n - p >= 4 { Some(p + 4) } else { None }
    } else if t == 4 || t == 6 {
        if n - p >= 8 { Some(p + 8) } else { None }
    } else if t == 7 {
        if n - p >= 4 {
            let c = get_u32(d, p);
            if c < 0x80000000 && (c as usize) <= n - (p + 4) { Some(p + 4 + c as usize) } else { None }
        } else { None }
    } else if t == 8 {
        if n - p >= 2 {
            let c = get_u16(d, p);
            if (c as usize) <= n - (p + 2) { Some(p + 2 + c as usize) } else { None }
        } else { None }
    } else if t == 9 {
        if n - p >= 5 {
            let et = d[p];
            let c = get_u32(d, p + 1);
            if c < 0x80000000 { skip_elems(d, p + 5, et, c) } else { None }
        } else { None }
    } else if t == 10 {
        skip_compound(d, p)
    } else if t == 11 {
        if n - p >= 4 {
            let c = get_u32(d, p);
            if c < 0x80000000 && (c as usize) <= (n - (p + 4)) / 4 { Some(p + 4 + 4 * c as usize) } else { None }
        } else { None }
    } else if t == 12 {
        if n - p >= 4 {
            let c = get_u32(d, p);
            if c < 0x80000000 && (c as usize) <= (n - (p + 4)) / 8 { Some(p + 4 + 8 * c as usize) } else { None }
        } else { None }
    } else {
        None
    }
}

pub fn skip_elems(d: &[u8], p: usize, t: u8, n: u32) -> (r: Option<usize>)
    requires
        p <= d@.len(),
    ensures
        (match r {
            Some(q) => spec_skip_elems(d@, p as int, t, n as nat) == Some(q as int) && p <= q
                <= d@.len(),
            None => spec_skip_elems(d@, p as int, t, n as nat) is None,
        }),
    decreases d@.len() - p, n + 2nat,
{
    let mut pos: usize = p;
    let mut i: u32 = 0;
    while i < n
        invariant
            p <= pos <= d@.len(),
            i <= n,
            spec_skip_elems(d@, p as int, t, n as nat) == spec_skip_elems(
                d@,
                pos as int,
                t,
                (n - i) as nat,
            ),
        decreases n - i,
    {
        match skip_payload(d, pos, t) {
            None => {
                return None;
            },
            Some(q) => {
                pos = q;
                i = i + 1;
            },
        }
    }
    Some(pos)
}

pub fn skip_compound(d: &[u8], p: usize) -> (r: Option<usize>)
    requires
        p <= d@.len(),
    ensures
        (match r {
            Some(q) => spec_skip_compound(d@, p as int) == Some(q as int) && p < q <= d@.len(),
            None => spec_skip_compound(d@, p as int) is None,
        }),
    decreases d@.len() - p, 0nat,
{
    let n: usize = d.len();
    let mut pos: usize = p;
    loop
        invariant
            p <= pos <= n,
            n == d@.len(),
            spec_skip_compound(d@, p as int) == spec_skip_compound(d@, pos as int),
        decreases d@.len() - pos,
    {
        if n - pos < 1 {
            return None;
        }
        let t = d[pos];
        if t == 0 {
            return Some(pos + 1);
        }
        if n - pos < 3 {
            return None;
        }
        let nl = get_u16(d, pos + 1);
        if (nl as usize) > n - (pos + 3) {
            return None;
        }
        let q = pos + 3 + nl as usize;
        match skip_payload(d, q, t) {
            None => {
                return None;
            },
            Some(p2) => {
                pos = p2;
            },
        }
    }
}

pub fn scan_compound(d: &[u8], p: usize) -> (r: Option<(Vec<RawEntry>, usize)>)
    requires
        p <= d@.len(),
    ensures
        (match r {
            Some(res) => spec_scan_compound(d@, p as int, Seq::empty()) == Some(
                (res.0@, res.1 as int),
            ) && entries_ok(d@, res.0@) && p < res.1 <= d@.len(),
            None => spec_scan_compound(d@, p as int, Seq::empty()) is None,
        }),
{
    let n: usize = d.len();
    let mut pos: usize = p;
    let mut entries: Vec<RawEntry> = Vec::new();
    loop
        invariant
            p <= pos <= n,
            n == d@.len(),
            entries_ok(d@, entries@),
            spec_scan_compound(d@, p as int, Seq::empty()) == spec_scan_compound(
                d@,
                pos as int,
                entries@,
            ),
        decreases d@.len() - pos,
    {
        if n - pos < 1 {
            return None;
        }
        let t = d[pos];
        if t == 0 {
            return Some((entries, pos + 1));
        }
        if n - pos < 3 {
            return None;
        }
        let nl = get_u16(d, pos + 1);
        if (nl as usize) > n - (pos + 3) {
            return None;
        }
        let q = pos + 3 + nl as usize;
        match skip_payload(d, q, t) {
            None => {
                return None;
            },
            Some(p2) => {
                entries.push(RawEntry { tag: t, name_start: pos + 3, name_end: q });
                pos = p2;
            },
        }
    }
}

/// Whether the bytes `d[ns..ne]` spell the literal `lit`.
pub fn name_matches(d: &[u8], ns: usize, ne: usize, lit: &str) -> (r: bool)
    requires
        ns <= ne <= d@.len(),
    ensures
        r == (d@.subrange(ns as int, ne as int) == lit.spec_bytes()),
{
    let lb: &[u8] = lit.as_bytes();
    if lb.len() != ne - ns {
        proof {
            assert(d@.subrange(ns as int, ne as int).len() == ne - ns);
        }
        return false;
    }
    let mut i: usize = 0;
    while i < lb.len()
        invariant
            ns <= ne <= d@.len(),
            lb@ == lit.spec_bytes(),
            lb@.len() == ne - ns,
            i <= lb@.len(),
            forall|j: int| 0 <= j < i ==> d@[ns + j] == lb@[j],
        decreases lb@.len() - i,
    {
        if d[ns + i] != lb[i] {
            proof {
                assert(d@.subrange(ns as int, ne as int)[i as int] == d@[ns + i]);
            }
            return false;
        }
        i = i + 1;
    }
    proof {
        assert(d@.subrange(ns as int, ne as int) =~= lb@);
    }
    true
}

/// The first entry named `lit`, if any.
pub fn find_entry(d: &[u8], es: &Vec<RawEntry>, lit: &str) -> (r: Option<RawEntry>)
    requires
        entries_ok(d@, es@),
    ensures
        r == spec_find_entry(d@, es@, lit.spec_bytes()),
{
    proof {
        assert(es@.skip(0) =~= es@);
    }
    let mut i: usize = 0;
    while i < es.len()
        invariant
            entries_ok(d@, es@),
            i <= es@.len(),
            spec_find_entry(d@, es@, lit.spec_bytes()) == spec_find_entry(
                d@,
                es@.skip(i as int),
                lit.spec_bytes(),
            ),
        decreases es@.len() - i,
    {
        let e = es[i];
        proof {
            assert(es@.skip(i as int)[0] == es@[i as int]);
        }
        if name_matches(d, e.name_start, e.name_end, lit) {
            return Some(e);
        }
        proof {
            assert(es@.skip(i as int).drop_first() =~= es@.skip(i as int + 1));
        }
        i = i + 1;
    }
    None
}

/// Relies on String::from_utf8: succeeds exactly on valid UTF-8 and
/// yields the decoded characters.
#[verifier::external_body]
fn string_from_utf8(bytes: Vec<u8>) -> (r: Option<String>)
    ensures
        (match r {
            Some(s) => valid_utf8(bytes@) && s@ == decode_utf8(bytes@),
            None => !valid_utf8(bytes@),
        }),
{
    String::from_utf8(bytes).ok()
}

/// A four-byte signed integer field value.
pub open spec fn spec_entry_i32(d: Seq<u8>, e: RawEntry) -> Option<i32> {
    if e.tag == 3 && e.name_end + 4 <= d.len() {
        Some(as_i32(be32(d, e.name_end as int) as u32))
    } else {
        None
    }
}

fn entry_i32(d: &[u8], e: RawEntry) -> (r: Option<i32>)
    ensures
        r == spec_entry_i32(d@, e),
{
    let n: usize = d.len();
    if e.tag == 3 && e.name_end <= n && n - e.name_end >= 4 {
        Some(to_i32(get_u32(d, e.name_end)))
    } else {
        None
    }
}

/// An eight-byte signed integer field value.
pub open spec fn spec_entry_i64(d: Seq<u8>, e: RawEntry) -> Option<i64> {
    if e.tag == 4 && e.name_end + 8 <= d.len() {
        Some(as_i64(be64(d, e.name_end as int) as u64))
    } else {
        None
    }
}

fn entry_i64(d: &[u8], e: RawEntry) -> (r: Option<i64>)
    ensures
        r == spec_entry_i64(d@, e),
{
    let n: usize = d.len();
    if e.tag == 4 && e.name_end <= n && n - e.name_end >= 8 {
        Some(to_i64(get_u64(d, e.name_end)))
    } else {
        None
    }
}

/// A vertical section index: stored as a one-byte or two-byte signed
/// integer, widened to `i16`.
pub open spec fn spec_entry_y(d: Seq<u8>, e: RawEntry) -> Option<i16> {
    if e.tag == 1 && e.name_end + 1 <= d.len() {
        Some(as_i8(d[e.name_end as int]) as i16)
    } else if e.tag == 2 && e.name_end + 2 <= d.len() {
        Some(as_i16(be16(d, e.name_end as int) as u16))
    } else {
        None
    }
}

fn entry_y(d: &[u8], e: RawEntry) -> (r: Option<i16>)
    ensures
        r == spec_entry_y(d@, e),
{
    let n: usize = d.len();
    if e.tag == 1 && e.name_end < n {
        Some(to_i8(d[e.name_end]) as i16)
    } else if e.tag == 2 && e.name_end <= n && n - e.name_end >= 2 {
        Some(to_i16(get_u16(d, e.name_end)))
    } else {
        None
    }
}

/// A string field value: two-byte length, then that many UTF-8 bytes.
pub open spec fn spec_entry_string(d: Seq<u8>, e: RawEntry) -> Option<Seq<char>> {
    if e.tag == 8 && e.name_end + 2 <= d.len() && e.name_end + 2 + be16(d, e.name_end as int)
        <= d.len() {
        let bs = d.subrange(e.name_end + 2, e.name_end + 2 + be16(d, e.name_end as int));
        if valid_utf8(bs) {
            Some(decode_utf8(bs))
        } else {
            None
        }
    } else {
        None
    }
}

fn entry_string(d: &[u8], e: RawEntry) -> (r: Option<String>)
    ensures
        (match r {
            Some(s) => spec_entry_string(d@, e) == Some(s@),
            None => spec_entry_string(d@, e) is None,
        }),
{
    let n: usize = d.len();
    if e.tag != 8 || e.name_end > n || n - e.name_end < 2 {
        return None;
    }
    let sl = get_u16(d, e.name_end) as usize;
    if sl > n - (e.name_end + 2) {
        return None;
    }
    let bs = slice_to_vec(slice_subrange(d, e.name_end + 2, e.name_end + 2 + sl));
    string_from_utf8(bs)
}

/// A byte-array field value, kept as signed bytes.
pub open spec fn spec_entry_byte_array(d: Seq<u8>, e: RawEntry) -> Option<Seq<i8>> {
    if e.tag == 7 && e.name_end + 4 <= d.len() {
        let n = be32(d, e.name_end as int);
        if n < 0x80000000 && e.name_end + 4 + n <= d.len() {
            Some(Seq::new(n, |j: int| as_i8(d[e.name_end + 4 + j])))
        } else {
            None
        }
    } else {
        None
    }
}

fn entry_byte_array(d: &[u8], e: RawEntry) -> (r: Option<Vec<i8>>)
    ensures
        (match r {
            Some(v) => spec_entry_byte_array(d@, e) == Some(v@),
            None => spec_entry_byte_array(d@, e) is None,
        }),
{
    let n: usize = d.len();
    if e.tag != 7 || e.name_end > n || n - e.name_end < 4 {
        return None;
    }
    let c = get_u32(d, e.name_end);
    if !(c < 0x80000000) {
        return None;
    }
    let cnt = c as usize;
    if cnt > n - (e.name_end + 4) {
        return None;
    }
    let ghost target = Seq::new(c as nat, |j: int| as_i8(d@[e.name_end + 4 + j]));
    let mut out: Vec<i8> = Vec::new();
    let mut i: usize = 0;
    while i < cnt
        invariant
            i <= cnt,
            cnt == c as nat,
            e.name_end + 4 + cnt <= n == d@.len(),
            out@ == target.take(i as int),
            target == Seq::new(c as nat, |j: int| as_i8(d@[e.name_end + 4 + j])),
        decreases cnt - i,
    {
        let b = to_i8(d[e.name_end + 4 + i]);
        proof {
            assert(target.take(i as int).push(as_i8(d@[e.name_end + 4 + i])) =~= target.take(
                i as int + 1,
            ));
        }
        out.push(b);
        i = i + 1;
    }
    proof {
        assert(target.take(cnt as int) =~= target);
    }
    Some(out)
}

/// A long-array field value, kept as raw 64-bit words.
pub open spec fn spec_entry_long_array(d: Seq<u8>, e: RawEntry) -> Option<Seq<i64>> {
    if e.tag == 12 && e.name_end + 4 <= d.len() {
        let n = be32(d, e.name_end as int);
        if n < 0x80000000 && e.name_end + 4 + 8 * n <= d.len() {
            Some(Seq::new(n, |j: int| as_i64(be64(d, e.name_end + 4 + 8 * j) as u64)))
        } else {
            None
        }
    } else {
        None
    }
}

fn entry_long_array(d: &[u8], e: RawEntry) -> (r: Option<Vec<i64>>)
    ensures
        (match r {
            Some(v) => spec_entry_long_array(d@, e) == Some(v@),
            None => spec_entry_long_array(d@, e) is None,
        }),
{
    let n: usize = d.len();
    if e.tag != 12 || e.name_end > n || n - e.name_end < 4 {
        return None;
    }
    let c = get_u32(d, e.name_end);
    if !(c < 0x80000000) {
        return None;
    }
    let cnt = c as usize;
    if cnt > (n - (e.name_end + 4)) / 8 {
        return None;
    }
    let ghost target = Seq::new(c as nat, |j: int| as_i64(be64(d@, e.name_end + 4 + 8 * j) as u64));
    let mut out: Vec<i64> = Vec::new();
    let mut i: usize = 0;
    while i < cnt
        invariant
            i <= cnt,
            cnt == c as nat,
            e.name_end + 4 + 8 * cnt <= n == d@.len(),
            out@ == target.take(i as int),
            target == Seq::new(c as nat, |j: int| as_i64(be64(d@, e.name_end + 4 + 8 * j) as u64)),
        decreases cnt - i,
    {
        let w = get_u64(d, e.name_end + 4 + 8 * i);
        proof {
            assert(w == be64(d@, e.name_end + 4 + 8 * (i as int)) as u64);
            assert(target.take(i as int).push(as_i64(w)) =~= target.take(i as int + 1));
        }
        out.push(to_i64(w));
        i = i + 1;
    }
    proof {
        assert(target.take(cnt as int) =~= target);
    }
    Some(out)
}

/// `n` consecutive string payloads starting at `p`, appended to `acc`.
pub open spec fn spec_parse_strings(d: Seq<u8>, p: int, n: nat, acc: Seq<Seq<char>>) -> Option<
    (Seq<Seq<char>>, int),
>
    decreases n,
{
    if n == 0 {
        Some((acc, p))
    } else if 0 <= p && p + 2 <= d.len() {
        let sl = be16(d, p);
        if p + 2 + sl <= d.len() {
            let bs = d.subrange(p + 2, p + 2 + sl);
            if valid_utf8(bs) {
                spec_parse_strings(d, p + 2 + sl, (n - 1) as nat, acc.push(decode_utf8(bs)))
            } else {
                None
            }
        } else {
            None
        }
    } else {
        None
    }
}

fn parse_strings(d: &[u8], p: usize, n: u32) -> (r: Option<(Vec<String>, usize)>)
    requires
        p <= d@.len(),
    ensures
        (match r {
            Some(res) => spec_parse_strings(d@, p as int, n as nat, Seq::empty()) == Some(
                (res.0@.map_values(|s: String| s@), res.1 as int),
            ) && res.1 <= d@.len(),
            None => spec_parse_strings(d@, p as int, n as nat, Seq::empty()) is None,
        }),
{
    let len: usize = d.len();
    let mut pos: usize = p;
    let mut out: Vec<String> = Vec::new();
    proof {
        assert(out@.map_values(|s: String| s@) =~= Seq::<Seq<char>>::empty());
    }
    let mut i: u32 = 0;
    while i < n
        invariant
            pos <= len,
            len == d@.len(),
            i <= n,
            spec_parse_strings(d@, p as int, n as nat, Seq::empty()) == spec_parse_strings(
                d@,
                pos as int,
                (n - i) as nat,
                out@.map_values(|s: String| s@),
            ),
        decreases n - i,
    {
        if len - pos < 2 {
            return None;
        }
        let sl = get_u16(d, pos) as usize;
        if sl > len - (pos + 2) {
            return None;
        }
        let bs = slice_to_vec(slice_subrange(d, pos + 2, pos + 2 + sl));
        match string_from_utf8(bs) {
            None => {
                return None;
            },
            Some(s) => {
                proof {
                    assert(out@.push(s).map_values(|s2: String| s2@) =~= out@.map_values(
                        |s2: String| s2@,
                    ).push(s@));
                }
                out.push(s);
                pos = pos + 2 + sl;
                i = i + 1;
            },
        }
    }
    Some((out, pos))
}

/// A list-of-strings field value (the biome palette).
pub open spec fn spec_entry_string_list(d: Seq<u8>, e: RawEntry) -> Option<Seq<Seq<char>>> {
    if e.tag == 9 && e.name_end + 5 <= d.len() {
        let et = d[e.name_end as int];
        let n = be32(d, e.name_end + 1);
        if n == 0 {
            Some(Seq::empty())
        } else if et == 8 && n < 0x80000000 {
            match spec_parse_strings(d, e.name_end + 5, n, Seq::empty()) {
                Some(res) => Some(res.0),
                None => None,
            }
        } else {
            None
        }
    } else {
        None
    }
}

fn entry_string_list(d: &[u8], e: RawEntry) -> (r: Option<Vec<String>>)
    ensures
        (match r {
            Some(v) => spec_entry_string_list(d@, e) == Some(v@.map_values(|s: String| s@)),
            None => spec_entry_string_list(d@, e) is None,
        }),
{
    let len: usize = d.len();
    if e.tag != 9 || e.name_end > len || len - e.name_end < 5 {
        return None;
    }
    let et = d[e.name_end];
    let n = get_u32(d, e.name_end + 1);
    if n == 0 {
        let out: Vec<String> = Vec::new();
        proof {
            assert(out@.map_values(|s: String| s@) =~= Seq::<Seq<char>>::empty());
        }
        return Some(out);
    }
    if et != 8 || !(n < 0x80000000) {
        return None;
    }
    match parse_strings(d, e.name_end + 5, n) {
        Some(res) => Some(res.0),
        None => None,
    }
}

/// The entries of a compound-valued field.
pub open spec fn spec_entry_compound(d: Seq<u8>, e: RawEntry) -> Option<Seq<RawEntry>> {
    if e.tag == 10 {
        match spec_scan_compound(d, e.name_end as int, Seq::empty()) {
            Some(sc) => Some(sc.0),
            None => None,
        }
    } else {
        None
    }
}

fn entry_compound(d: &[u8], e: RawEntry) -> (r: Option<Vec<RawEntry>>)
    ensures
        (match r {
            Some(v) => spec_entry_compound(d@, e) == Some(v@) && entries_ok(d@, v@),
            None => spec_entry_compound(d@, e) is None,
        }),
{
    if e.tag != 10 {
        return None;
    }
    if e.name_end > d.len() {
        return None;
    }
    match scan_compound(d, e.name_end) {
        Some(res) => Some(res.0),
        None => None,
    }
}

/// A required string field of a compound.
pub open spec fn spec_req_string(d: Seq<u8>, es: Seq<RawEntry>, name: Seq<u8>) -> Option<
    Seq<char>,
> {
    match spec_find_entry(d, es, name) {
        None => None,
        Some(e) => spec_entry_string(d, e),
    }
}

/// A required four-byte integer field of a compound.
pub open spec fn spec_req_i32(d: Seq<u8>, es: Seq<RawEntry>, name: Seq<u8>) -> Option<i32> {
    match spec_find_entry(d, es, name) {
        None => None,
        Some(e) => spec_entry_i32(d, e),
    }
}

/// A required eight-byte integer field of a compound.
pub open spec fn spec_req_i64(d: Seq<u8>, es: Seq<RawEntry>, name: Seq<u8>) -> Option<i64> {
    match spec_find_entry(d, es, name) {
        None => None,
        Some(e) => spec_entry_i64(d, e),
    }
}

/// An optional string field: absent is fine, a present field must be a
/// well-formed string.
pub open spec fn spec_opt_string_field(d: Seq<u8>, es: Seq<RawEntry>, name: Seq<u8>) -> Option<
    Option<Seq<char>>,
> {
    match spec_find_entry(d, es, name) {
        None => Some(None),
        Some(e) => match spec_entry_string(d, e) {
            Some(s) => Some(Some(s)),
            None => None,
        },
    }
}

fn opt_string_field(d: &[u8], es: &Vec<RawEntry>, lit: &str) -> (r: Option<Option<String>>)
    requires
        entries_ok(d@, es@),
    ensures
        (match r {
            Some(o) => spec_opt_string_field(d@, es@, lit.spec_bytes()) == Some(opt_view(o)),
            None => spec_opt_string_field(d@, es@, lit.spec_bytes()) is None,
        }),
{
    match find_entry(d, es, lit) {
        None => Some(None),
        Some(e) => match entry_string(d, e) {
            Some(s) => Some(Some(s)),
            None => None,
        },
    }
}

/// The recognized block-state properties of a palette entry; every
/// unrecognized property name is ignored.
pub open spec fn spec_props_from_entries(d: Seq<u8>, es: Seq<RawEntry>) -> Option<
    PaletteBlockPropertiesView,
> {
    let level = spec_opt_string_field(d, es, "level".spec_bytes());
    let snowy = spec_opt_string_field(d, es, "snowy".spec_bytes());
    let distance = spec_opt_string_field(d, es, "distance".spec_bytes());
    let persistent = spec_opt_string_field(d, es, "persistent".spec_bytes());
    let waterlogged = spec_opt_string_field(d, es, "waterlogged".spec_bytes());
    let axis = spec_opt_string_field(d, es, "axis".spec_bytes());
    if level is Some && snowy is Some && distance is Some && persistent is Some && waterlogged
        is Some && axis is Some {
        Some(
            PaletteBlockPropertiesView {
                level: level->Some_0,
                snowy: snowy->Some_0,
                distance: distance->Some_0,
                persistent: persistent->Some_0,
                waterlogged: waterlogged->Some_0,
                axis: axis->Some_0,
            },
        )
    } else {
        None
    }
}

fn props_from_entries(d: &[u8], es: &Vec<RawEntry>) -> (r: Option<PaletteBlockProperties>)
    requires
        entries_ok(d@, es@),
    ensures
        (match r {
            Some(p) => spec_props_from_entries(d@, es@) == Some(p@),
            None => spec_props_from_entries(d@, es@) is None,
        }),
{
    let level = match opt_string_field(d, es, "level") {
        None => { return None; },
        Some(v) => v,
    };
    let snowy = match opt_string_field(d, es, "snowy") {
        None => { return None; },
        Some(v) => v,
    };
    let distance = match opt_string_field(d, es, "distance") {
        None => { return None; },
        Some(v) => v,
    };
    let persistent = match opt_string_field(d, es, "persistent") {
        None => { return None; },
        Some(v) => v,
    };
    let waterlogged = match opt_string_field(d, es, "waterlogged") {
        None => { return None; },
        Some(v) => v,
    };
    let axis = match opt_string_field(d, es, "axis") {
        None => { return None; },
        Some(v) => v,
    };
    Some(PaletteBlockProperties { level, snowy, distance, persistent, waterlogged, axis })
}

/// One block-states palette entry: a required name, optional properties.
pub open spec fn spec_palette_block_from_entries(d: Seq<u8>, es: Seq<RawEntry>) -> Option<
    PaletteBlockView,
> {
    match spec_req_string(d, es, "Name".spec_bytes()) {
        None => None,
        Some(name) => match spec_find_entry(d, es, "Properties".spec_bytes()) {
            None => Some(PaletteBlockView { name, properties: None }),
            Some(pe) => match spec_entry_compound(d, pe) {
                None => None,
                Some(pes) => match spec_props_from_entries(d, pes) {
                    None => None,
                    Some(pv) => Some(PaletteBlockView { name, properties: Some(pv) }),
                },
            },
        },
    }
}

fn palette_block_from_entries(d: &[u8], es: &Vec<RawEntry>) -> (r: Option<PaletteBlock>)
    requires
        entries_ok(d@, es@),
    ensures
        (match r {
            Some(b) => spec_palette_block_from_entries(d@, es@) == Some(b@),
            None => spec_palette_block_from_entries(d@, es@) is None,
        }),
{
    let ne = match find_entry(d, es, "Name") {
        None => { return None; },
        Some(e) => e,
    };
    let name = match entry_string(d, ne) {
        None => { return None; },
        Some(s) => s,
    };
    match find_entry(d, es, "Properties") {
        None => Some(PaletteBlock { name, properties: None }),
        Some(pe) => {
            let pes = match entry_compound(d, pe) {
                None => { return None; },
                Some(v) => v,
            };
            match props_from_entries(d, &pes) {
                None => None,
                Some(p) => Some(PaletteBlock { name, properties: Some(p) }),
            }
        },
    }
}

/// `n` consecutive palette-entry compounds starting at `p`.
pub open spec fn spec_parse_palette(d: Seq<u8>, p: int, n: nat, acc: Seq<PaletteBlockView>) -> Option<
    (Seq<PaletteBlockView>, int),
>
    decreases n,
{
    if n == 0 {
        Some((acc, p))
    } else {
        match spec_scan_compound(d, p, Seq::empty()) {
            None => None,
            Some(sc) => match spec_palette_block_from_entries(d, sc.0) {
                None => None,
                Some(pb) => if p < sc.1 <= d.len() {
                    spec_parse_palette(d, sc.1, (n - 1) as nat, acc.push(pb))
                } else {
                    None
                },
            },
        }
    }
}

fn parse_palette(d: &[u8], p: usize, n: u32) -> (r: Option<(Vec<PaletteBlock>, usize)>)
    requires
        p <= d@.len(),
    ensures
        (match r {
            Some(res) => spec_parse_palette(d@, p as int, n as nat, Seq::empty()) == Some(
                (res.0@.map_values(|b: PaletteBlock| b@), res.1 as int),
            ) && res.1 <= d@.len(),
            None => spec_parse_palette(d@, p as int, n as nat, Seq::empty()) is None,
        }),
{
    let mut pos: usize = p;
    let mut out: Vec<PaletteBlock> = Vec::new();
    proof {
        assert(out@.map_values(|b: PaletteBlock| b@) =~= Seq::<PaletteBlockView>::empty());
    }
    let mut i: u32 = 0;
    while i < n
        invariant
            pos <= d@.len(),
            i <= n,
            spec_parse_palette(d@, p as int, n as nat, Seq::empty()) == spec_parse_palette(
                d@,
                pos as int,
                (n - i) as nat,
                out@.map_values(|b: PaletteBlock| b@),
            ),
        decreases n - i,
    {
        match scan_compound(d, pos) {
            None => { return None; },
            Some(res) => {
                match palette_block_from_entries(d, &res.0) {
                    None => { return None; },
                    Some(pb) => {
                        proof {
                            assert(out@.push(pb).map_values(|b: PaletteBlock| b@)
                                =~= out@.map_values(|b: PaletteBlock| b@).push(pb@));
                        }
                        out.push(pb);
                        pos = res.1;
                        i = i + 1;
                    },
                }
            },
        }
    }
    Some((out, pos))
}

/// A list-of-compounds field holding the block-states palette.
pub open spec fn spec_entry_palette_list(d: Seq<u8>, e: RawEntry) -> Option<Seq<PaletteBlockView>> {
    if e.tag == 9 && e.name_end + 5 <= d.len() {
        let et = d[e.name_end as int];
        let n = be32(d, e.name_end + 1);
        if n == 0 {
            Some(Seq::empty())
        } else if et == 10 && n < 0x80000000 {
            match spec_parse_palette(d, e.name_end + 5, n, Seq::empty()) {
                Some(res) => Some(res.0),
                None => None,
            }
        } else {
            None
        }
    } else {
        None
    }
}

fn entry_palette_list(d: &[u8], e: RawEntry) -> (r: Option<Vec<PaletteBlock>>)
    ensures
        (match r {
            Some(v) => spec_entry_palette_list(d@, e) == Some(v@.map_values(|b: PaletteBlock| b@)),
            None => spec_entry_palette_list(d@, e) is None,
        }),
{
    let len: usize = d.len();
    if e.tag != 9 || e.name_end > len || len - e.name_end < 5 {
        return None;
    }
    let et = d[e.name_end];
    let n = get_u32(d, e.name_end + 1);
    if n == 0 {
        let out: Vec<PaletteBlock> = Vec::new();
        proof {
            assert(out@.map_values(|b: PaletteBlock| b@) =~= Seq::<PaletteBlockView>::empty());
        }
        return Some(out);
    }
    if et != 10 || !(n < 0x80000000) {
        return None;
    }
    match parse_palette(d, e.name_end + 5, n) {
        Some(res) => Some(res.0),
        None => None,
    }
}

/// The block-states layer: a required palette, optional packed words.
pub open spec fn spec_block_states_from_entries(d: Seq<u8>, es: Seq<RawEntry>) -> Option<
    BlockStatesView,
> {
    match spec_find_entry(d, es, "palette".spec_bytes()) {
        None => None,
        Some(pe) => match spec_entry_palette_list(d, pe) {
            None => None,
            Some(pal) => match spec_find_entry(d, es, "data".spec_bytes()) {
                None => Some(BlockStatesView { palette: pal, data: None }),
                Some(de) => match spec_entry_long_array(d, de) {
                    None => None,
                    Some(w) => Some(BlockStatesView { palette: pal, data: Some(w) }),
                },
            },
        },
    }
}

fn block_states_from_entries(d: &[u8], es: &Vec<RawEntry>) -> (r: Option<BlockStates>)
    requires
        entries_ok(d@, es@),
    ensures
        (match r {
            Some(b) => spec_block_states_from_entries(d@, es@) == Some(b@),
            None => spec_block_states_from_entries(d@, es@) is None,
        }),
{
    let pe = match find_entry(d, es, "palette") {
        None => { return None; },
        Some(e) => e,
    };
    let pal = match entry_palette_list(d, pe) {
        None => { return None; },
        Some(v) => v,
    };
    match find_entry(d, es, "data") {
        None => Some(BlockStates { palette: pal, data: None }),
        Some(de) => match entry_long_array(d, de) {
            None => None,
            Some(w) => Some(BlockStates { palette: pal, data: Some(w) }),
        },
    }
}

/// The biome layer: a required palette of ids, optional packed words.
pub open spec fn spec_biomes_from_entries(d: Seq<u8>, es: Seq<RawEntry>) -> Option<BiomesView> {
    match spec_find_entry(d, es, "palette".spec_bytes()) {
        None => None,
        Some(pe) => match spec_entry_string_list(d, pe) {
            None => None,
            Some(pal) => match spec_find_entry(d, es, "data".spec_bytes()) {
                None => Some(BiomesView { palette: pal, data: None }),
                Some(de) => match spec_entry_long_array(d, de) {
                    None => None,
                    Some(w) => Some(BiomesView { palette: pal, data: Some(w) }),
                },
            },
        },
    }
}

fn biomes_from_entries(d: &[u8], es: &Vec<RawEntry>) -> (r: Option<Biomes>)
    requires
        entries_ok(d@, es@),
    ensures
        (match r {
            Some(b) => spec_biomes_from_entries(d@, es@) == Some(b@),
            None => spec_biomes_from_entries(d@, es@) is None,
        }),
{
    let pe = match find_entry(d, es, "palette") {
        None => { return None; },
        Some(e) => e,
    };
    let pal = match entry_string_list(d, pe) {
        None => { return None; },
        Some(v) => v,
    };
    match find_entry(d, es, "data") {
        None => Some(Biomes { palette: pal, data: None }),
        Some(de) => match entry_long_array(d, de) {
            None => None,
            Some(w) => Some(Biomes { palette: pal, data: Some(w) }),
        },
    }
}

/// An optional nibble-array field (block light or sky light).
pub open spec fn spec_opt_byte_array_field(d: Seq<u8>, es: Seq<RawEntry>, name: Seq<u8>) -> Option<
    Option<Seq<i8>>,
> {
    match spec_find_entry(d, es, name) {
        None => Some(None),
        Some(e) => match spec_entry_byte_array(d, e) {
            Some(v) => Some(Some(v)),
            None => None,
        },
    }
}

fn opt_byte_array_field(d: &[u8], es: &Vec<RawEntry>, lit: &str) -> (r: Option<Option<Vec<i8>>>)
    requires
        entries_ok(d@, es@),
    ensures
        (match r {
            Some(o) => spec_opt_byte_array_field(d@, es@, lit.spec_bytes()) == Some(opt_view(o)),
            None => spec_opt_byte_array_field(d@, es@, lit.spec_bytes()) is None,
        }),
{
    match find_entry(d, es, lit) {
        None => Some(None),
        Some(e) => match entry_byte_array(d, e) {
            Some(v) => Some(Some(v)),
            None => None,
        },
    }
}

/// One section: vertical index, both layers, optional light arrays.
pub open spec fn spec_section_from_entries(d: Seq<u8>, es: Seq<RawEntry>) -> Option<SectionView> {
    match spec_find_entry(d, es, "Y".spec_bytes()) {
        None => None,
        Some(ye) => match spec_entry_y(d, ye) {
            None => None,
            Some(y) => match spec_find_entry(d, es, "block_states".spec_bytes()) {
                None => None,
                Some(bse) => match spec_entry_compound(d, bse) {
                    None => None,
                    Some(bses) => match spec_block_states_from_entries(d, bses) {
                        None => None,
                        Some(bs) => match spec_find_entry(d, es, "biomes".spec_bytes()) {
                            None => None,
                            Some(bie) => match spec_entry_compound(d, bie) {
                                None => None,
                                Some(bies) => match spec_biomes_from_entries(d, bies) {
                                    None => None,
                                    Some(bi) => match spec_opt_byte_array_field(
                                        d,
                                        es,
                                        "BlockLight".spec_bytes(),
                                    ) {
                                        None => None,
                                        Some(bl) => match spec_opt_byte_array_field(
                                            d,
                                            es,
                                            "SkyLight".spec_bytes(),
                                        ) {
                                            None => None,
                                            Some(sl) => Some(
                                                SectionView {
                                                    y,
                                                    block_states: bs,
                                                    biomes: bi,
                                                    block_light: bl,
                                                    sky_light: sl,
                                                },
                                            ),
                                        },
                                    },
                                },
                            },
                        },
                    },
                },
            },
        },
    }
}

fn section_from_entries(d: &[u8], es: &Vec<RawEntry>) -> (r: Option<Section>)
    requires
        entries_ok(d@, es@),
    ensures
        (match r {
            Some(s) => spec_section_from_entries(d@, es@) == Some(s@),
            None => spec_section_from_entries(d@, es@) is None,
        }),
{
    let ye = match find_entry(d, es, "Y") {
        None => { return None; },
        Some(e) => e,
    };
    let y = match entry_y(d, ye) {
        None => { return None; },
        Some(v) => v,
    };
    let bse = match find_entry(d, es, "block_states") {
        None => { return None; },
        Some(e) => e,
    };
    let bses = match entry_compound(d, bse) {
        None => { return None; },
        Some(v) => v,
    };
    let bs = match block_states_from_entries(d, &bses) {
        None => { return None; },
        Some(v) => v,
    };
    let bie = match find_entry(d, es, "biomes") {
        None => { return None; },
        Some(e) => e,
    };
    let bies = match entry_compound(d, bie) {
        None => { return None; },
        Some(v) => v,
    };
    let bi = match biomes_from_entries(d, &bies) {
        None => { return None; },
        Some(v) => v,
    };
    let bl = match opt_byte_array_field(d, es, "BlockLight") {
        None => { return None; },
        Some(v) => v,
    };
    let sl = match opt_byte_array_field(d, es, "SkyLight") {
        None => { return None; },
        Some(v) => v,
    };
    Some(Section { y, block_states: bs, biomes: bi, block_light: bl, sky_light: sl })
}

/// `n` consecutive section compounds starting at `p`.
pub open spec fn spec_parse_sections(d: Seq<u8>, p: int, n: nat, acc: Seq<SectionView>) -> Option<
    (Seq<SectionView>, int),
>
    decreases n,
{
    if n == 0 {
        Some((acc, p))
    } else {
        match spec_scan_compound(d, p, Seq::empty()) {
            None => None,
            Some(sc) => match spec_section_from_entries(d, sc.0) {
                None => None,
                Some(sv) => if p < sc.1 <= d.len() {
                    spec_parse_sections(d, sc.1, (n - 1) as nat, acc.push(sv))
                } else {
                    None
                },
            },
        }
    }
}

fn parse_sections(d: &[u8], p: usize, n: u32) -> (r: Option<(Vec<Section>, usize)>)
    requires
        p <= d@.len(),
    ensures
        (match r {
            Some(res) => spec_parse_sections(d@, p as int, n as nat, Seq::empty()) == Some(
                (res.0@.map_values(|s: Section| s@), res.1 as int),
            ) && res.1 <= d@.len(),
            None => spec_parse_sections(d@, p as int, n as nat, Seq::empty()) is None,
        }),
{
    let mut pos: usize = p;
    let mut out: Vec<Section> = Vec::new();
    proof {
        assert(out@.map_values(|s: Section| s@) =~= Seq::<SectionView>::empty());
    }
    let mut i: u32 = 0;
    while i < n
        invariant
            pos <= d@.len(),
            i <= n,
            spec_parse_sections(d@, p as int, n as nat, Seq::empty()) == spec_parse_sections(
                d@,
                pos as int,
                (n - i) as nat,
                out@.map_values(|s: Section| s@),
            ),
        decreases n - i,
    {
        match scan_compound(d, pos) {
            None => { return None; },
            Some(res) => {
                match section_from_entries(d, &res.0) {
                    None => { return None; },
                    Some(sv) => {
                        proof {
                            assert(out@.push(sv).map_values(|s: Section| s@)
                                =~= out@.map_values(|s: Section| s@).push(sv@));
                        }
                        out.push(sv);
                        pos = res.1;
                        i = i + 1;
                    },
                }
            },
        }
    }
    Some((out, pos))
}

/// The list-of-compounds field holding the sections.
pub open spec fn spec_entry_sections(d: Seq<u8>, e: RawEntry) -> Option<Seq<SectionView>> {
    if e.tag == 9 && e.name_end + 5 <= d.len() {
        let et = d[e.name_end as int];
        let n = be32(d, e.name_end + 1);
        if n == 0 {
            Some(Seq::empty())
        } else if et == 10 && n < 0x80000000 {
            match spec_parse_sections(d, e.name_end + 5, n, Seq::empty()) {
                Some(res) => Some(res.0),
                None => None,
            }
        } else {
            None
        }
    } else {
        None
    }
}

fn entry_sections(d: &[u8], e: RawEntry) -> (r: Option<Vec<Section>>)
    ensures
        (match r {
            Some(v) => spec_entry_sections(d@, e) == Some(v@.map_values(|s: Section| s@)),
            None => spec_entry_sections(d@, e) is None,
        }),
{
    let len: usize = d.len();
    if e.tag != 9 || e.name_end > len || len - e.name_end < 5 {
        return None;
    }
    let et = d[e.name_end];
    let n = get_u32(d, e.name_end + 1);
    if n == 0 {
        let out: Vec<Section> = Vec::new();
        proof {
            assert(out@.map_values(|s: Section| s@) =~= Seq::<SectionView>::empty());
        }
        return Some(out);
    }
    if et != 10 || !(n < 0x80000000) {
        return None;
    }
    match parse_sections(d, e.name_end + 5, n) {
        Some(res) => Some(res.0),
        None => None,
    }
}

/// A whole chunk record from the entries of the root compound.
pub open spec fn spec_chunk_from_entries(d: Seq<u8>, es: Seq<RawEntry>) -> Option<ChunkView> {
    match spec_req_i32(d, es, "DataVersion".spec_bytes()) {
        None => None,
        Some(dv) => match spec_req_i32(d, es, "xPos".spec_bytes()) {
            None => None,
            Some(x) => match spec_req_i32(d, es, "zPos".spec_bytes()) {
                None => None,
                Some(z) => match spec_req_i32(d, es, "yPos".spec_bytes()) {
                    None => None,
                    Some(y) => match spec_req_string(d, es, "Status".spec_bytes()) {
                        None => None,
                        Some(st) => match spec_req_i64(d, es, "LastUpdate".spec_bytes()) {
                            None => None,
                            Some(lu) => match spec_find_entry(d, es, "sections".spec_bytes()) {
                                None => None,
                                Some(se) => match spec_entry_sections(d, se) {
                                    None => None,
                                    Some(secs) => Some(
                                        ChunkView {
                                            data_version: dv,
                                            chunk_x: x,
                                            chunk_z: z,
                                            chunk_y: y,
                                            status: st,
                                            last_update: lu,
                                            sections: secs,
                                        },
                                    ),
                                },
                            },
                        },
                    },
                },
            },
        },
    }
}

fn chunk_from_entries(d: &[u8], es: &Vec<RawEntry>) -> (r: Option<Chunk>)
    requires
        entries_ok(d@, es@),
    ensures
        (match r {
            Some(c) => spec_chunk_from_entries(d@, es@) == Some(c@),
            None => spec_chunk_from_entries(d@, es@) is None,
        }),
{
    let dve = match find_entry(d, es, "DataVersion") {
        None => { return None; },
        Some(e) => e,
    };
    let dv = match entry_i32(d, dve) {
        None => { return None; },
        Some(v) => v,
    };
    let xe = match find_entry(d, es, "xPos") {
        None => { return None; },
        Some(e) => e,
    };
    let x = match entry_i32(d, xe) {
        None => { return None; },
        Some(v) => v,
    };
    let ze = match find_entry(d, es, "zPos") {
        None => { return None; },
        Some(e) => e,
    };
    let z = match entry_i32(d, ze) {
        None => { return None; },
        Some(v) => v,
    };
    let ye = match find_entry(d, es, "yPos") {
        None => { return None; },
        Some(e) => e,
    };
    let y = match entry_i32(d, ye) {
        None => { return None; },
        Some(v) => v,
    };
    let ste = match find_entry(d, es, "Status") {
        None => { return None; },
        Some(e) => e,
    };
    let st = match entry_string(d, ste) {
        None => { return None; },
        Some(v) => v,
    };
    let lue = match find_entry(d, es, "LastUpdate") {
        None => { return None; },
        Some(e) => e,
    };
    let lu = match entry_i64(d, lue) {
        None => { return None; },
        Some(v) => v,
    };
    let se = match find_entry(d, es, "sections") {
        None => { return None; },
        Some(e) => e,
    };
    let secs = match entry_sections(d, se) {
        None => { return None; },
        Some(v) => v,
    };
    Some(
        Chunk {
            data_version: dv,
            chunk_x: x,
            chunk_z: z,
            chunk_y: y,
            status: st,
            last_update: lu,
            sections: secs,
        },
    )
}

/// A chunk decoded from one decompressed NBT payload: a named root
/// compound whose entries hold the chunk fields. Bytes after the root
/// compound's end marker are ignored.
pub open spec fn spec_parse_chunk(d: Seq<u8>) -> Option<ChunkView> {
    if d.len() >= 3 && d[0] == 10 {
        let nl = be16(d, 1);
        if 3 + nl <= d.len() {
            match spec_scan_compound(d, (3 + nl) as int, Seq::empty()) {
                None => None,
                Some(sc) => spec_chunk_from_entries(d, sc.0),
            }
        } else {
            None
        }
    } else {
        None
    }
}

/// Decodes one decompressed chunk payload.
pub fn parse_chunk(d: &[u8]) -> (r: Option<Chunk>)
    ensures
        (match r {
            Some(c) => spec_parse_chunk(d@) == Some(c@),
            None => spec_parse_chunk(d@) is None,
        }),
{
    let n: usize = d.len();
    if n < 3 {
        return None;
    }
    if d[0] != 10 {
        return None;
    }
    let nl = get_u16(d, 1) as usize;
    if nl > n - 3 {
        return None;
    }
    match scan_compound(d, 3 + nl) {
        None => None,
        Some(res) => chunk_from_entries(d, &res.0),
    }
}

} // verus!


