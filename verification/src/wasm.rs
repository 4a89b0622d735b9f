//! A static scan of WebAssembly module bytes.
//!
//! The execution engine is a black box to this library, but what the cache
//! needs to know about a module is declared in its binary structure alone:
//! the exported names. A module states the capability `x` it needs by
//! exporting a function named `requires_x`, and it reacts to channel and
//! packet events when it exports the six reactive entry points. The scanner
//! walks the section structure exactly; a module whose structure does not
//! parse is malformed.

use vstd::prelude::*;
use vstd::utf8::encode_utf8;
use crate::bytes_util::vec_range;
use crate::text::string_bytes;

verus! {

/// The value and end position of the LEB128-encoded integer at `pos`, read
/// through at most `budget` bytes.
pub open spec fn leb_at(bytes: Seq<u8>, pos: int, budget: nat) -> Option<(nat, int)>
    decreases budget,
{
    if budget == 0 || pos < 0 || pos >= bytes.len() {
        None
    } else {
        let b = bytes[pos];
        if b < 128 {
            Some((b as nat, pos + 1))
        } else {
            match leb_at(bytes, pos + 1, (budget - 1) as nat) {
                Some(vp) => Some(((b - 128) as nat + 128 * vp.0, vp.1)),
                None => None,
            }
        }
    }
}

/// The least value a LEB128 integer of `budget` bytes cannot reach.
pub open spec fn leb_bound(budget: nat) -> nat
    decreases budget,
{
    if budget == 0 {
        1
    } else {
        128 * leb_bound((budget - 1) as nat)
    }
}

/// The bound grows with the budget.
pub proof fn lemma_leb_bound_mono(a: nat, b: nat)
    requires
        a <= b,
    ensures
        leb_bound(a) <= leb_bound(b),
    decreases b,
{
    if a < b && b > 0 {
        lemma_leb_bound_mono(a, (b - 1) as nat);
        lemma_leb_bound_positive((b - 1) as nat);
    }
}

/// The bound is positive.
pub proof fn lemma_leb_bound_positive(budget: nat)
    ensures
        leb_bound(budget) >= 1,
    decreases budget,
{
    if budget > 0 {
        lemma_leb_bound_positive((budget - 1) as nat);
    }
}

/// A LEB128 value read through `budget` bytes is below the bound, and its
/// end lies behind its start, within the input.
pub proof fn lemma_leb_at_bounds(bytes: Seq<u8>, pos: int, budget: nat)
    ensures
        (leb_at(bytes, pos, budget) matches Some(vp) ==> vp.0 < leb_bound(budget) && pos < vp.1
            <= bytes.len()),
    decreases budget,
{
    if budget > 0 && 0 <= pos < bytes.len() {
        let b = bytes[pos];
        if b >= 128 {
            lemma_leb_at_bounds(bytes, pos + 1, (budget - 1) as nat);
            match leb_at(bytes, pos + 1, (budget - 1) as nat) {
                Some(vp) => {
                    assert((b - 128) as nat + 128 * vp.0 < 128 * leb_bound((budget - 1) as nat))
                        by {
                        assert(vp.0 <= leb_bound((budget - 1) as nat) - 1);
                        assert(128 * vp.0 <= 128 * (leb_bound((budget - 1) as nat) - 1))
                            by (nonlinear_arith)
                            requires
                                vp.0 <= leb_bound((budget - 1) as nat) - 1,
                        ;
                    }
                },
                None => {},
            }
        } else {
            lemma_leb_bound_positive((budget - 1) as nat);
        }
    }
}

/// Reads the LEB128-encoded integer at `pos` through at most `budget` bytes.
fn leb_read(bytes: &Vec<u8>, pos: usize, budget: u8) -> (r: Option<(u64, usize)>)
    requires
        budget <= 5,
    ensures
        (r is Some <==> leb_at(bytes@, pos as int, budget as nat) is Some),
        (r matches Some(vp) ==> leb_at(bytes@, pos as int, budget as nat) == Some(
            (vp.0 as nat, vp.1 as int),
        ) && pos < vp.1 <= bytes@.len() && vp.0 < 0x800000000),
    decreases budget,
{
    proof {
        lemma_leb_at_bounds(bytes@, pos as int, budget as nat);
        lemma_leb_bound_mono(budget as nat, 5);
        assert(leb_bound(5) == 0x800000000) by {
            assert(leb_bound(0) == 1);
            assert(leb_bound(1) == 128 * leb_bound(0));
            assert(leb_bound(2) == 128 * leb_bound(1));
            assert(leb_bound(3) == 128 * leb_bound(2));
            assert(leb_bound(4) == 128 * leb_bound(3));
            assert(leb_bound(5) == 128 * leb_bound(4));
        }
    }
    if budget == 0 || pos >= bytes.len() {
        return None;
    }
    let b = bytes[pos];
    if b < 128 {
        Some((b as u64, pos + 1))
    } else {
        match leb_read(bytes, pos + 1, budget - 1) {
            Some((v, p)) => {
                proof {
                    lemma_leb_at_bounds(bytes@, pos + 1 as int, (budget - 1) as nat);
                    lemma_leb_bound_mono((budget - 1) as nat, 4);
                    assert(leb_bound(4) == 0x10000000) by {
                        assert(leb_bound(0) == 1);
                        assert(leb_bound(1) == 128 * leb_bound(0));
                        assert(leb_bound(2) == 128 * leb_bound(1));
                        assert(leb_bound(3) == 128 * leb_bound(2));
                        assert(leb_bound(4) == 128 * leb_bound(3));
                    }
                }
                Some(((b - 128) as u64 + 128 * v, p))
            },
            None => None,
        }
    }
}

/// One export of a module: its name and its kind (`0` marks a function).
pub type ExportEntry = (Vec<u8>, u8);

/// The exports declared in the entries at `pos`, `count` of them, all lying
/// before `end`, together with the position after the last one.
pub open spec fn export_entries_at(bytes: Seq<u8>, pos: int, end: int, count: nat) -> Option<
    (Seq<(Seq<u8>, u8)>, int),
>
    decreases count,
{
    if count == 0 {
        Some((Seq::empty(), pos))
    } else {
        match leb_at(bytes, pos, 5) {
            None => None,
            Some(nlen) => if nlen.1 + nlen.0 + 1 > end {
                None
            } else {
                let name = bytes.subrange(nlen.1, nlen.1 + nlen.0);
                let kind = bytes[nlen.1 + nlen.0];
                match leb_at(bytes, nlen.1 + nlen.0 + 1, 5) {
                    None => None,
                    Some(idx) => if idx.1 > end {
                        None
                    } else {
                        match export_entries_at(bytes, idx.1, end, (count - 1) as nat) {
                            None => None,
                            Some(rest) => Some((seq![(name, kind)] + rest.0, rest.1)),
                        }
                    },
                }
            },
        }
    }
}

/// The exports of an export section spanning `[pos, end)`: its entry count
/// followed by exactly that many entries, filling the section exactly.
pub open spec fn export_section_at(bytes: Seq<u8>, pos: int, end: int) -> Option<
    Seq<(Seq<u8>, u8)>,
> {
    match leb_at(bytes, pos, 5) {
        None => None,
        Some(count) => if count.1 > end {
            None
        } else {
            match export_entries_at(bytes, count.1, end, count.0) {
                None => None,
                Some(entries) => if entries.1 == end {
                    Some(entries.0)
                } else {
                    None
                },
            }
        },
    }
}

/// The exports of the sections from `pos` to the end of the module: each
/// section is an ID byte, a LEB128 size, and exactly that many payload
/// bytes; the exports are those of every export section (ID 7).
pub open spec fn exports_from(bytes: Seq<u8>, pos: int) -> Option<Seq<(Seq<u8>, u8)>>
    decreases bytes.len() - pos,
    via exports_from_decreases
{
    if pos < 0 || pos > bytes.len() {
        None
    } else if pos == bytes.len() {
        Some(Seq::empty())
    } else {
        let id = bytes[pos];
        match leb_at(bytes, pos + 1, 5) {
            None => None,
            Some(size) => if size.1 + size.0 > bytes.len() {
                None
            } else {
                let rest = exports_from(bytes, size.1 + size.0 as int);
                if id == 7 {
                    match (export_section_at(bytes, size.1, size.1 + size.0 as int), rest) {
                        (Some(here), Some(later)) => Some(here + later),
                        _ => None,
                    }
                } else {
                    rest
                }
            },
        }
    }
}

#[via_fn]
proof fn exports_from_decreases(bytes: Seq<u8>, pos: int) {
    lemma_leb_at_bounds(bytes, pos + 1, 5);
}

/// The exports of a whole module: the magic bytes `\0asm`, version one, then
/// its sections.
pub open spec fn module_exports(bytes: Seq<u8>) -> Option<Seq<(Seq<u8>, u8)>> {
    if bytes.len() >= 8 && bytes[0] == 0 && bytes[1] == 0x61 && bytes[2] == 0x73 && bytes[3]
        == 0x6d && bytes[4] == 1 && bytes[5] == 0 && bytes[6] == 0 && bytes[7] == 0 {
        exports_from(bytes, 8)
    } else {
        None
    }
}

/// The view of a vector of exports.
pub open spec fn export_views(entries: Seq<ExportEntry>) -> Seq<(Seq<u8>, u8)> {
    entries.map_values(|e: ExportEntry| (e.0@, e.1))
}

/// Reads `count` export entries at `pos`, all lying before `end`.
fn read_export_entries(bytes: &Vec<u8>, pos: usize, end: usize, count: u64) -> (r: Option<
    (Vec<ExportEntry>, usize),
>)
    requires
        end <= bytes@.len(),
    ensures
        (r is Some <==> export_entries_at(bytes@, pos as int, end as int, count as nat) is Some),
        (r matches Some(out) ==> export_entries_at(bytes@, pos as int, end as int, count as nat)
            == Some((export_views(out.0@), out.1 as int))),
    decreases count,
{
    if count == 0 {
        let out: Vec<ExportEntry> = Vec::new();
        proof {
            assert(export_views(out@) =~= Seq::<(Seq<u8>, u8)>::empty());
        }
        return Some((out, pos));
    }
    match leb_read(bytes, pos, 5) {
        None => None,
        Some((nlen, p1)) => {
            if nlen > (usize::MAX as u64) {
                proof {
                    lemma_leb_at_bounds(bytes@, pos as int, 5);
                }
                return None;
            }
            let nlen_us = nlen as usize;
            if p1 > end {
                return None;
            }
            if nlen_us >= end - p1 {
                return None;
            }
            let name = vec_range(bytes, p1, p1 + nlen_us);
            let kind = bytes[p1 + nlen_us];
            match leb_read(bytes, p1 + nlen_us + 1, 5) {
                None => None,
                Some((_idx, p2)) => {
                    if p2 > end {
                        return None;
                    }
                    match read_export_entries(bytes, p2, end, count - 1) {
                        None => None,
                        Some((rest, pend)) => {
                            let mut out: Vec<ExportEntry> = Vec::new();
                            out.push((name, kind));
                            let mut rest_mut = rest;
                            out.append(&mut rest_mut);
                            proof {
                                assert(export_views(out@) =~= seq![
                                    (bytes@.subrange(p1 as int, p1 + nlen_us as int), kind),
                                ] + export_entries_taken(
                                    bytes@,
                                    p2 as int,
                                    end as int,
                                    (count - 1) as nat,
                                ));
                            }
                            Some((out, pend))
                        },
                    }
                },
            }
        },
    }
}

/// The entries themselves of a successful [`export_entries_at`] parse.
pub open spec fn export_entries_taken(bytes: Seq<u8>, pos: int, end: int, count: nat) -> Seq<
    (Seq<u8>, u8),
> {
    match export_entries_at(bytes, pos, end, count) {
        Some(entries) => entries.0,
        None => Seq::empty(),
    }
}

/// Reads the exports of the sections from `pos` to the module's end.
fn read_exports_from(bytes: &Vec<u8>, pos: usize) -> (r: Option<Vec<ExportEntry>>)
    requires
        pos <= bytes@.len(),
    ensures
        (r is Some <==> exports_from(bytes@, pos as int) is Some),
        (r matches Some(out) ==> exports_from(bytes@, pos as int) == Some(export_views(out@))),
    decreases bytes@.len() - pos,
{
    if pos == bytes.len() {
        let out: Vec<ExportEntry> = Vec::new();
        proof {
            assert(export_views(out@) =~= Seq::<(Seq<u8>, u8)>::empty());
        }
        return Some(out);
    }
    let id = bytes[pos];
    match leb_read(bytes, pos + 1, 5) {
        None => None,
        Some((size, p1)) => {
            if size > (usize::MAX as u64) {
                return None;
            }
            let size_us = size as usize;
            if size_us > bytes.len() - p1 {
                return None;
            }
            let payload_end = p1 + size_us;
            let rest = read_exports_from(bytes, payload_end);
            if id == 7 {
                let here = read_export_section(bytes, p1, payload_end);
                match (here, rest) {
                    (Some(h), Some(r)) => {
                        let mut out = h;
                        let mut r_mut = r;
                        let ghost h_view = export_views(out@);
                        let ghost r_view = export_views(r_mut@);
                        out.append(&mut r_mut);
                        proof {
                            assert(export_views(out@) =~= h_view + r_view);
                        }
                        Some(out)
                    },
                    _ => None,
                }
            } else {
                rest
            }
        },
    }
}

/// Reads the export section spanning `[pos, end)`.
fn read_export_section(bytes: &Vec<u8>, pos: usize, end: usize) -> (r: Option<Vec<ExportEntry>>)
    requires
        end <= bytes@.len(),
    ensures
        (r is Some <==> export_section_at(bytes@, pos as int, end as int) is Some),
        (r matches Some(out) ==> export_section_at(bytes@, pos as int, end as int) == Some(
            export_views(out@),
        )),
{
    match leb_read(bytes, pos, 5) {
        None => None,
        Some((count, p1)) => {
            if p1 > end {
                return None;
            }
            match read_export_entries(bytes, p1, end, count) {
                None => None,
                Some((entries, pend)) => {
                    if pend == end {
                        Some(entries)
                    } else {
                        None
                    }
                },
            }
        },
    }
}

/// Scans a whole module for its exports; `None` means the module bytes are
/// malformed.
pub fn scan_module_exports(bytes: &Vec<u8>) -> (r: Option<Vec<ExportEntry>>)
    ensures
        (r is Some <==> module_exports(bytes@) is Some),
        (r matches Some(out) ==> module_exports(bytes@) == Some(export_views(out@))),
{
    if bytes.len() < 8 {
        return None;
    }
    if bytes[0] != 0 || bytes[1] != 0x61 || bytes[2] != 0x73 || bytes[3] != 0x6d {
        return None;
    }
    if bytes[4] != 1 || bytes[5] != 0 || bytes[6] != 0 || bytes[7] != 0 {
        return None;
    }
    read_exports_from(bytes, 8)
}

/// Whether the exports hold a function (kind zero) with this name.
pub open spec fn spec_has_export(exports: Seq<(Seq<u8>, u8)>, name: Seq<u8>) -> bool {
    exists|i: int|
        0 <= i < exports.len() && (#[trigger] exports[i]).1 == 0 && exports[i].0 == name
}

/// Whether the exports hold a function with the same name as `name`.
fn has_export(exports: &Vec<ExportEntry>, name: &Vec<u8>) -> (r: bool)
    ensures
        r == spec_has_export(export_views(exports@), name@),
{
    let n = exports.len();
    let mut i: usize = 0;
    while i < n
        invariant
            n == exports@.len(),
            0 <= i <= n,
            forall|j: int|
                0 <= j < i ==> !((#[trigger] exports@[j]).1 == 0 && exports@[j].0@ == name@),
        decreases n - i,
    {
        if exports[i].1 == 0 && crate::bytes_util::bytes_eq(&exports[i].0, name) {
            proof {
                assert((export_views(exports@)[i as int]).1 == 0);
            }
            return true;
        }
        i += 1;
    }
    false
}

/// The six entry points a module exports when it takes part in channel and
/// packet lifecycles.
pub open spec fn spec_has_reactive_exports(exports: Seq<(Seq<u8>, u8)>) -> bool {
    &&& spec_has_export(exports, encode_utf8("ibc_channel_open"@))
    &&& spec_has_export(exports, encode_utf8("ibc_channel_connect"@))
    &&& spec_has_export(exports, encode_utf8("ibc_channel_close"@))
    &&& spec_has_export(exports, encode_utf8("ibc_packet_receive"@))
    &&& spec_has_export(exports, encode_utf8("ibc_packet_ack"@))
    &&& spec_has_export(exports, encode_utf8("ibc_packet_timeout"@))
}

/// Whether the module exports all six channel and packet entry points.
pub fn has_reactive_exports(exports: &Vec<ExportEntry>) -> (r: bool)
    ensures
        r == spec_has_reactive_exports(export_views(exports@)),
{
    let a = has_export(exports, &string_bytes("ibc_channel_open"));
    let b = has_export(exports, &string_bytes("ibc_channel_connect"));
    let c = has_export(exports, &string_bytes("ibc_channel_close"));
    let d = has_export(exports, &string_bytes("ibc_packet_receive"));
    let e = has_export(exports, &string_bytes("ibc_packet_ack"));
    let f = has_export(exports, &string_bytes("ibc_packet_timeout"));
    a && b && c && d && e && f
}

/// The prefix an export name carries to state a required capability.
pub open spec fn requires_prefix() -> Seq<u8> {
    encode_utf8("requires_"@)
}

/// The capabilities the exports state as required: what follows the
/// [`requires_prefix`] in each exported function name carrying it, in export
/// order.
pub open spec fn spec_required_capabilities(exports: Seq<(Seq<u8>, u8)>) -> Seq<Seq<u8>>
    decreases exports.len(),
{
    if exports.len() == 0 {
        Seq::empty()
    } else {
        let head = exports[0];
        let rest = spec_required_capabilities(exports.skip(1));
        if head.1 == 0 && head.0.len() >= requires_prefix().len() && head.0.take(
            requires_prefix().len() as int,
        ) == requires_prefix() {
            seq![head.0.skip(requires_prefix().len() as int)] + rest
        } else {
            rest
        }
    }
}

/// The view of a vector of byte strings.
pub open spec fn byte_views(v: Seq<Vec<u8>>) -> Seq<Seq<u8>> {
    v.map_values(|b: Vec<u8>| b@)
}

/// Collects the capabilities the exports state as required.
pub fn required_capabilities(exports: &Vec<ExportEntry>) -> (r: Vec<Vec<u8>>)
    ensures
        byte_views(r@) == spec_required_capabilities(export_views(exports@)),
{
    let prefix = string_bytes("requires_");
    let r = required_capabilities_from(exports, 0, &prefix);
    proof {
        assert(export_views(exports@).skip(0) =~= export_views(exports@));
    }
    r
}

fn required_capabilities_from(exports: &Vec<ExportEntry>, i: usize, prefix: &Vec<u8>) -> (r: Vec<
    Vec<u8>,
>)
    requires
        i <= exports@.len(),
        prefix@ == requires_prefix(),
    ensures
        byte_views(r@) == spec_required_capabilities(export_views(exports@).skip(i as int)),
    decreases exports@.len() - i,
{
    if i == exports.len() {
        let out: Vec<Vec<u8>> = Vec::new();
        proof {
            assert(byte_views(out@) =~= Seq::<Seq<u8>>::empty());
            assert(export_views(exports@).skip(i as int) =~= Seq::<(Seq<u8>, u8)>::empty());
        }
        return out;
    }
    let rest = required_capabilities_from(exports, i + 1, prefix);
    let ghost whole = export_views(exports@).skip(i as int);
    proof {
        assert(whole[0] == export_views(exports@)[i as int]);
        assert(whole.skip(1) =~= export_views(exports@).skip(i + 1 as int));
    }
    if exports[i].1 == 0 && crate::bytes_util::bytes_starts_with(&exports[i].0, prefix) {
        let suffix = vec_range(&exports[i].0, prefix.len(), exports[i].0.len());
        let mut out: Vec<Vec<u8>> = Vec::new();
        out.push(suffix);
        let mut rest_mut = rest;
        let ghost rest_view = byte_views(rest_mut@);
        out.append(&mut rest_mut);
        proof {
            assert(exports@[i as int].0@.skip(requires_prefix().len() as int)
                =~= exports@[i as int].0@.subrange(
                requires_prefix().len() as int,
                exports@[i as int].0@.len() as int,
            ));
            assert(byte_views(out@) =~= seq![whole[0].0.skip(requires_prefix().len() as int)]
                + rest_view);
        }
        out
    } else {
        rest
    }
}

} // verus!
