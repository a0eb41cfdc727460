//! The protobuf wire format: varints, fields, and the two's-complement
//! views of integers they carry.
use vstd::prelude::*;

verus! {

// ---------------------------------------------------------------------------
// Varints
// ---------------------------------------------------------------------------

/// Bound on the value a varint can still add once `k` of its 7-bit groups
/// have been read (a varint has at most ten groups and fits in 64 bits).
pub open spec fn varint_bound(k: nat) -> nat
    decreases 10 - k,
{
    if k >= 9 {
        2
    } else {
        128 * varint_bound(k + 1)
    }
}

/// The varint that starts at `pos`, `k` groups into it: its value and the
/// position just past it. Groups are little-endian; a tenth group may only
/// hold the top bit of a 64-bit value.
pub open spec fn varint_at(b: Seq<u8>, pos: int, k: nat) -> Option<(nat, int)>
    decreases 10 - k,
{
    if k >= 10 || pos < 0 || pos >= b.len() {
        None
    } else if b[pos] < 128 {
        if k == 9 && b[pos] >= 2 {
            None
        } else {
            Some((b[pos] as nat, pos + 1))
        }
    } else {
        match varint_at(b, pos + 1, k + 1) {
            Some((v, end)) => Some(((b[pos] - 128) as nat + 128 * v, end)),
            None => None,
        }
    }
}

/// The shortest varint encoding of a value.
pub open spec fn varint_bytes(v: nat) -> Seq<u8>
    decreases v,
{
    if v < 128 {
        seq![v as u8]
    } else {
        seq![(v % 128 + 128) as u8] + varint_bytes(v / 128)
    }
}

proof fn lemma_varint_bound_pos(k: nat)
    ensures
        varint_bound(k) >= 2,
    decreases 10 - k,
{
    if k < 9 {
        lemma_varint_bound_pos(k + 1);
    }
}

proof fn lemma_varint_bound_le(k: nat)
    requires
        k >= 1,
    ensures
        varint_bound(k) <= varint_bound(1),
    decreases k,
{
    if k > 1 {
        lemma_varint_bound_le((k - 1) as nat);
        lemma_varint_bound_pos(k);
    }
}

proof fn lemma_varint_bound_one()
    ensures
        varint_bound(1) == 0x200_0000_0000_0000,
{
    reveal_with_fuel(varint_bound, 10);
}

proof fn lemma_varint_at_facts(b: Seq<u8>, pos: int, k: nat)
    requires
        varint_at(b, pos, k) is Some,
    ensures
        ({
            let (v, end) = varint_at(b, pos, k).unwrap();
            v < varint_bound(k) && pos < end <= b.len()
        }),
    decreases 10 - k,
{
    if b[pos] >= 128 {
        lemma_varint_at_facts(b, pos + 1, k + 1);
    }
    if k < 9 {
        lemma_varint_bound_pos(k + 1);
    }
}

/// Reads the varint at `pos`, `k` groups into it.
fn read_varint_from(b: &[u8], pos: usize, k: usize) -> (r: Option<(u64, usize)>)
    requires
        k <= 10,
    ensures
        match varint_at(b@, pos as int, k as nat) {
            Some((v, end)) => r matches Some((rv, re)) && rv as nat == v && re as int == end && v
                < varint_bound(k as nat) && pos < end <= b@.len(),
            None => r is None,
        },
    decreases 10 - k,
{
    if k >= 10 || pos >= b.len() {
        return None;
    }
    let byte = b[pos];
    if byte < 128 {
        if k == 9 && byte >= 2 {
            None
        } else {
            proof {
                lemma_varint_at_facts(b@, pos as int, k as nat);
            }
            Some((byte as u64, pos + 1))
        }
    } else {
        match read_varint_from(b, pos + 1, k + 1) {
            Some((v, end)) => {
                proof {
                    lemma_varint_at_facts(b@, pos as int, k as nat);
                    lemma_varint_bound_le((k + 1) as nat);
                    lemma_varint_bound_one();
                }
                Some(((byte - 128) as u64 + 128 * v, end))
            },
            None => None,
        }
    }
}

/// Reads the varint that starts at `pos`.
pub fn read_varint(b: &[u8], pos: usize) -> (r: Option<(u64, usize)>)
    ensures
        match varint_at(b@, pos as int, 0) {
            Some((v, end)) => r matches Some((rv, re)) && rv as nat == v && re as int == end && pos
                < end <= b@.len(),
            None => r is None,
        },
{
    proof {
        lemma_varint_bound_one();
        assert(varint_bound(0) == 128 * varint_bound(1));
    }
    read_varint_from(b, pos, 0)
}

/// Appends the shortest varint encoding of `v`.
pub fn write_varint(out: &mut Vec<u8>, v: u64)
    ensures
        final(out)@ == old(out)@ + varint_bytes(v as nat),
    decreases v,
{
    if v < 128 {
        out.push(v as u8);
    } else {
        let ghost before = out@;
        out.push((v % 128 + 128) as u8);
        write_varint(out, v / 128);
        assert(out@ =~= before + varint_bytes(v as nat));
    }
}

/// Reading back the varint written for a value, wherever it stands.
pub proof fn lemma_varint_round_trip(b: Seq<u8>, pos: int, v: nat, k: nat)
    requires
        k < 10,
        v < varint_bound(k),
        0 <= pos,
        pos + varint_bytes(v).len() <= b.len(),
        b.subrange(pos, pos + varint_bytes(v).len()) == varint_bytes(v),
    ensures
        varint_at(b, pos, k) == Some((v, pos + varint_bytes(v).len())),
    decreases v,
{
    let vb = varint_bytes(v);
    lemma_varint_bound_pos(k);
    if v < 128 {
        assert(vb =~= seq![v as u8]);
        assert(b.subrange(pos, pos + 1)[0] == b[pos]);
    } else {
        let rest = varint_bytes(v / 128);
        assert(vb == seq![(v % 128 + 128) as u8] + rest);
        assert(b.subrange(pos, pos + vb.len())[0] == b[pos]);
        assert(b[pos] == (v % 128 + 128) as u8);
        assert(b.subrange(pos + 1, pos + 1 + rest.len()) =~= b.subrange(pos, pos + vb.len()).subrange(
            1,
            vb.len() as int,
        ));
        assert(b.subrange(pos + 1, pos + 1 + rest.len()) =~= rest);
        assert(k < 9);
        assert(v / 128 < varint_bound(k + 1)) by (nonlinear_arith)
            requires
                v < 128 * varint_bound(k + 1),
        ;
        lemma_varint_round_trip(b, pos + 1, v / 128, k + 1);
        assert(((b[pos] - 128) as nat) + 128 * (v / 128) == v) by (nonlinear_arith)
            requires
                b[pos] == v % 128 + 128,
        ;
    }
}

// ---------------------------------------------------------------------------
// Fields
// ---------------------------------------------------------------------------

/// The field that starts at `pos`: its number, wire type, varint value (or
/// length, for length-delimited fields), where its contents start, and where
/// it ends. Groups and unknown wire types are refused.
pub open spec fn field_at(b: Seq<u8>, pos: int) -> Option<(nat, nat, nat, int, int)> {
    match varint_at(b, pos, 0) {
        None => None,
        Some((key, p1)) => {
            let wt = key % 8;
            let num = key / 8;
            if key > 0xFFFF_FFFF || num == 0 {
                None
            } else if wt == 0 {
                match varint_at(b, p1, 0) {
                    Some((v, p2)) => Some((num, 0, v, p1, p2)),
                    None => None,
                }
            } else if wt == 1 {
                if p1 + 8 <= b.len() {
                    Some((num, 1, 0, p1, p1 + 8))
                } else {
                    None
                }
            } else if wt == 2 {
                match varint_at(b, p1, 0) {
                    Some((n, p2)) => if p2 + n <= b.len() {
                        Some((num, 2, n, p2, p2 + n))
                    } else {
                        None
                    },
                    None => None,
                }
            } else if wt == 5 {
                if p1 + 4 <= b.len() {
                    Some((num, 5, 0, p1, p1 + 4))
                } else {
                    None
                }
            } else {
                None
            }
        },
    }
}

/// Where `whole` stands in `b` at `pos`, each slice of it stands there too.
proof fn lemma_subrange_of_part(b: Seq<u8>, pos: int, whole: Seq<u8>, from: int, to: int)
    requires
        0 <= pos,
        pos + whole.len() <= b.len(),
        b.subrange(pos, pos + whole.len()) == whole,
        0 <= from <= to <= whole.len(),
    ensures
        b.subrange(pos + from, pos + to) == whole.subrange(from, to),
{
    assert(b.subrange(pos + from, pos + to) =~= b.subrange(pos, pos + whole.len()).subrange(from, to));
}

/// A length-delimited field written at `pos` reads back as itself.
pub proof fn lemma_element_field_at(b: Seq<u8>, pos: int, num: nat, data: Seq<u8>)
    requires
        1 <= num < 0x1000_0000,
        data.len() < 0x1_0000_0000_0000_0000,
        0 <= pos,
        pos + element_field(num, data).len() <= b.len(),
        b.subrange(pos, pos + element_field(num, data).len()) == element_field(num, data),
    ensures
        ({
            let end = pos + element_field(num, data).len();
            field_at(b, pos) == Some((num, 2nat, data.len(), end - data.len(), end))
                && b.subrange(end - data.len(), end) == data
        }),
{
    let key = num * 8 + 2;
    let kb = varint_bytes(key);
    let lb = varint_bytes(data.len());
    let f = element_field(num, data);
    let p1 = pos + kb.len();
    let p2 = p1 + lb.len();
    assert(f =~= kb + lb + data);
    lemma_subrange_of_part(b, pos, f, 0, kb.len() as int);
    assert(f.subrange(0, kb.len() as int) =~= kb);
    lemma_subrange_of_part(b, pos, f, kb.len() as int, (kb.len() + lb.len()) as int);
    assert(f.subrange(kb.len() as int, (kb.len() + lb.len()) as int) =~= lb);
    lemma_subrange_of_part(b, pos, f, (kb.len() + lb.len()) as int, f.len() as int);
    assert(f.subrange((kb.len() + lb.len()) as int, f.len() as int) =~= data);
    lemma_varint_bound_one();
    assert(varint_bound(0) == 128 * varint_bound(1));
    lemma_varint_round_trip(b, pos, key, 0);
    lemma_varint_round_trip(b, p1, data.len(), 0);
    assert(key % 8 == 2 && key / 8 == num) by (nonlinear_arith)
        requires
            key == num * 8 + 2,
    ;
}

/// A non-zero varint field written at `pos` reads back as itself.
pub proof fn lemma_varint_field_at(b: Seq<u8>, pos: int, num: nat, v: nat)
    requires
        1 <= num < 0x1000_0000,
        0 < v < 0x1_0000_0000_0000_0000,
        0 <= pos,
        pos + varint_field(num, v).len() <= b.len(),
        b.subrange(pos, pos + varint_field(num, v).len()) == varint_field(num, v),
    ensures
        ({
            let end = pos + varint_field(num, v).len();
            field_at(b, pos) == Some((num, 0nat, v, end - varint_bytes(v).len(), end))
        }),
{
    let key = num * 8;
    let kb = varint_bytes(key);
    let vb = varint_bytes(v);
    let f = varint_field(num, v);
    assert(f =~= kb + vb);
    lemma_subrange_of_part(b, pos, f, 0, kb.len() as int);
    assert(f.subrange(0, kb.len() as int) =~= kb);
    lemma_subrange_of_part(b, pos, f, kb.len() as int, f.len() as int);
    assert(f.subrange(kb.len() as int, f.len() as int) =~= vb);
    lemma_varint_bound_one();
    assert(varint_bound(0) == 128 * varint_bound(1));
    lemma_varint_round_trip(b, pos, key, 0);
    lemma_varint_round_trip(b, pos + kb.len(), v, 0);
    assert(key % 8 == 0 && key / 8 == num) by (nonlinear_arith)
        requires
            key == num * 8,
    ;
}

/// Reads the field that starts at `pos`.
pub(crate) fn read_field(b: &[u8], pos: usize) -> (r: Option<(u64, u64, u64, usize, usize)>)
    ensures
        match field_at(b@, pos as int) {
            Some((num, wt, v, start, end)) => r matches Some((rn, rw, rv, rs, re)) && rn as nat
                == num && rw as nat == wt && rv as nat == v && rs as int == start && re as int
                == end && pos < start <= end <= b@.len(),
            None => r is None,
        },
{
    let (key, p1) = match read_varint(b, pos) {
        Some(kv) => kv,
        None => return None,
    };
    let wt = key % 8;
    let num = key / 8;
    if key > 0xFFFF_FFFF || num == 0 {
        None
    } else if wt == 0 {
        match read_varint(b, p1) {
            Some((v, p2)) => Some((num, 0, v, p1, p2)),
            None => None,
        }
    } else if wt == 1 {
        if p1 <= b.len() && b.len() - p1 >= 8 {
            Some((num, 1, 0, p1, p1 + 8))
        } else {
            None
        }
    } else if wt == 2 {
        match read_varint(b, p1) {
            Some((n, p2)) => if n <= (b.len() - p2) as u64 {
                Some((num, 2, n, p2, p2 + n as usize))
            } else {
                None
            },
            None => None,
        }
    } else if wt == 5 {
        if p1 <= b.len() && b.len() - p1 >= 4 {
            Some((num, 5, 0, p1, p1 + 4))
        } else {
            None
        }
    } else {
        None
    }
}

/// A copy of `b[start..end]`.
pub fn copy_range(b: &[u8], start: usize, end: usize) -> (r: Vec<u8>)
    requires
        start <= end <= b@.len(),
    ensures
        r@ == b@.subrange(start as int, end as int),
{
    let mut r: Vec<u8> = Vec::new();
    let mut i: usize = start;
    while i < end
        invariant
            start <= i <= end <= b@.len(),
            r@ == b@.subrange(start as int, i as int),
        decreases end - i,
    {
        r.push(b[i]);
        i = i + 1;
        assert(r@ =~= b@.subrange(start as int, i as int));
    }
    r
}

// ---------------------------------------------------------------------------
// Integer views of varints
// ---------------------------------------------------------------------------

/// The signed 64-bit integer whose two's-complement bits are `v`.
pub open spec fn i64_of_bits(v: nat) -> i64 {
    (if v >= 0x8000_0000_0000_0000 {
        v - 0x1_0000_0000_0000_0000
    } else {
        v as int
    }) as i64
}

/// The two's-complement bits of a signed 64-bit integer.
pub open spec fn bits_of_i64(t: int) -> nat {
    (if t < 0 {
        t + 0x1_0000_0000_0000_0000
    } else {
        t
    }) as nat
}

/// The signed 32-bit integer in the low 32 bits of `v`.
pub open spec fn i32_of_bits(v: nat) -> i32 {
    let low = v % 0x1_0000_0000;
    (if low >= 0x8000_0000 {
        low - 0x1_0000_0000
    } else {
        low as int
    }) as i32
}

pub(crate) fn to_i64(v: u64) -> (r: i64)
    ensures
        r == i64_of_bits(v as nat),
{
    if v >= 0x8000_0000_0000_0000 {
        -((0xFFFF_FFFF_FFFF_FFFFu64 - v) as i64) - 1
    } else {
        v as i64
    }
}

pub(crate) fn to_i32(v: u64) -> (r: i32)
    ensures
        r == i32_of_bits(v as nat),
{
    let low = v % 0x1_0000_0000;
    if low >= 0x8000_0000 {
        -((0xFFFF_FFFFu64 - low) as i32) - 1
    } else {
        low as i32
    }
}

pub(crate) fn from_i64(t: i64) -> (r: u64)
    ensures
        r as nat == bits_of_i64(t as int),
{
    if t >= 0 {
        t as u64
    } else {
        0xFFFF_FFFF_FFFF_FFFFu64 - ((-(t + 1)) as u64)
    }
}

// ---------------------------------------------------------------------------
// Encoding
// ---------------------------------------------------------------------------

/// A length-delimited field; an empty one is left out.
pub open spec fn bytes_field(num: nat, data: Seq<u8>) -> Seq<u8> {
    if data.len() == 0 {
        seq![]
    } else {
        varint_bytes(num * 8 + 2) + varint_bytes(data.len()) + data
    }
}

/// A varint field; a zero one is left out.
pub open spec fn varint_field(num: nat, v: nat) -> Seq<u8> {
    if v == 0 {
        seq![]
    } else {
        varint_bytes(num * 8) + varint_bytes(v)
    }
}

/// One element of a repeated message field: always written, even if empty.
pub open spec fn element_field(num: nat, data: Seq<u8>) -> Seq<u8> {
    varint_bytes(num * 8 + 2) + varint_bytes(data.len()) + data
}

pub(crate) fn write_bytes_field(out: &mut Vec<u8>, num: u64, data: &[u8])
    requires
        num < 0x1000_0000,
    ensures
        final(out)@ == old(out)@ + bytes_field(num as nat, data@),
{
    if data.len() > 0 {
        write_element_field(out, num, data);
    } else {
        assert(old(out)@ + bytes_field(num as nat, data@) =~= old(out)@);
    }
}

pub(crate) fn write_element_field(out: &mut Vec<u8>, num: u64, data: &[u8])
    requires
        num < 0x1000_0000,
    ensures
        final(out)@ == old(out)@ + element_field(num as nat, data@),
        data@.len() > 0 ==> element_field(num as nat, data@) == bytes_field(num as nat, data@),
{
    let ghost before = out@;
    write_varint(out, num * 8 + 2);
    write_varint(out, data.len() as u64);
    let mut i: usize = 0;
    let ghost mid = out@;
    while i < data.len()
        invariant
            i <= data@.len(),
            out@ == mid + data@.subrange(0, i as int),
        decreases data@.len() - i,
    {
        out.push(data[i]);
        i = i + 1;
        assert(out@ =~= mid + data@.subrange(0, i as int));
    }
    assert(data@.subrange(0, data@.len() as int) =~= data@);
    assert(out@ =~= before + element_field(num as nat, data@));
}

pub(crate) fn write_varint_field(out: &mut Vec<u8>, num: u64, v: u64)
    requires
        num < 0x1000_0000,
    ensures
        final(out)@ == old(out)@ + varint_field(num as nat, v as nat),
{
    let ghost before = out@;
    if v != 0 {
        write_varint(out, num * 8);
        write_varint(out, v);
        assert(out@ =~= before + varint_field(num as nat, v as nat));
    } else {
        assert(out@ =~= before + varint_field(num as nat, v as nat));
    }
}

} // verus!
