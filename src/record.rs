use vstd::prelude::*;

use crate::wire::bits_of_i64;
use crate::wire::bytes_field;
use crate::wire::copy_range;
use crate::wire::element_field;
use crate::wire::field_at;
use crate::wire::from_i64;
use crate::wire::lemma_element_field_at;
use crate::wire::lemma_varint_field_at;
use crate::wire::read_field;
use crate::wire::to_i32;
use crate::wire::to_i64;
use crate::wire::write_bytes_field;
use crate::wire::write_element_field;
use crate::wire::write_varint_field;
use crate::wire::i32_of_bits;
use crate::wire::i64_of_bits;
use crate::wire::varint_field;

verus! {

/// Bytes that are not a well-formed message of the expected kind.
#[derive(Clone, Copy, Debug, PartialEq, Eq, Structural)]
pub struct DecodeError;

/// A metadata record as it travels and is stored: the claimed public key,
/// the payload in the exact bytes that were signed, the signature scheme's
/// tag and the signature.
///
/// Wire form: `pub_key` = 1, `serialized_payload` = 2 (bytes), `scheme` = 3
/// (int32), `signature` = 4 (bytes).
#[derive(Clone, Debug)]
pub struct MetadataRecord {
    pub pub_key: Vec<u8>,
    pub serialized_payload: Vec<u8>,
    pub scheme: i32,
    pub signature: Vec<u8>,
}

pub struct MetadataView {
    pub pub_key: Seq<u8>,
    pub serialized_payload: Seq<u8>,
    pub scheme: i32,
    pub signature: Seq<u8>,
}

impl View for MetadataRecord {
    type V = MetadataView;

    open spec fn view(&self) -> MetadataView {
        MetadataView {
            pub_key: self.pub_key@,
            serialized_payload: self.serialized_payload@,
            scheme: self.scheme,
            signature: self.signature@,
        }
    }
}

/// The signed content of a record: when it was written, how many seconds it
/// lives, and its entries, each kept as the encoded bytes of one entry
/// message (the store does not look inside them).
///
/// Wire form: `timestamp` = 1 (int64), `ttl` = 2 (int64), `entries` = 3
/// (repeated message).
#[derive(Clone, Debug)]
pub struct Payload {
    pub timestamp: i64,
    pub ttl: i64,
    pub entries: Vec<Vec<u8>>,
}

pub struct PayloadView {
    pub timestamp: i64,
    pub ttl: i64,
    pub entries: Seq<Seq<u8>>,
}

impl View for Payload {
    type V = PayloadView;

    open spec fn view(&self) -> PayloadView {
        PayloadView {
            timestamp: self.timestamp,
            ttl: self.ttl,
            entries: self.entries@.map_values(|e: Vec<u8>| e@),
        }
    }
}

pub open spec fn empty_metadata() -> MetadataView {
    MetadataView { pub_key: seq![], serialized_payload: seq![], scheme: 0, signature: seq![] }
}

pub open spec fn empty_payload() -> PayloadView {
    PayloadView { timestamp: 0, ttl: 0, entries: seq![] }
}

/// Folds the fields from `pos` on into `acc`: a known field with the wrong
/// wire type is refused, a later field overrides an earlier one, unknown
/// fields are skipped.
pub open spec fn metadata_fields(b: Seq<u8>, pos: int, acc: MetadataView) -> Option<MetadataView>
    decreases b.len() - pos,
{
    if pos >= b.len() {
        Some(acc)
    } else {
        match field_at(b, pos) {
            None => None,
            Some((num, wt, v, start, end)) => {
                if end <= pos || end > b.len() {
                    None
                } else {
                    let data = b.subrange(start, end);
                    let next = if num == 1 {
                        if wt == 2 {
                            Some(MetadataView { pub_key: data, ..acc })
                        } else {
                            None
                        }
                    } else if num == 2 {
                        if wt == 2 {
                            Some(MetadataView { serialized_payload: data, ..acc })
                        } else {
                            None
                        }
                    } else if num == 3 {
                        if wt == 0 {
                            Some(MetadataView { scheme: i32_of_bits(v), ..acc })
                        } else {
                            None
                        }
                    } else if num == 4 {
                        if wt == 2 {
                            Some(MetadataView { signature: data, ..acc })
                        } else {
                            None
                        }
                    } else {
                        Some(acc)
                    };
                    match next {
                        Some(a) => metadata_fields(b, end, a),
                        None => None,
                    }
                }
            },
        }
    }
}

/// The record that bytes encode, if they are well formed.
pub open spec fn decode_metadata_spec(b: Seq<u8>) -> Option<MetadataView> {
    metadata_fields(b, 0, empty_metadata())
}

/// Folds the fields of a payload from `pos` on into `acc`.
pub open spec fn payload_fields(b: Seq<u8>, pos: int, acc: PayloadView) -> Option<PayloadView>
    decreases b.len() - pos,
{
    if pos >= b.len() {
        Some(acc)
    } else {
        match field_at(b, pos) {
            None => None,
            Some((num, wt, v, start, end)) => {
                if end <= pos || end > b.len() {
                    None
                } else {
                    let next = if num == 1 {
                        if wt == 0 {
                            Some(PayloadView { timestamp: i64_of_bits(v), ..acc })
                        } else {
                            None
                        }
                    } else if num == 2 {
                        if wt == 0 {
                            Some(PayloadView { ttl: i64_of_bits(v), ..acc })
                        } else {
                            None
                        }
                    } else if num == 3 {
                        if wt == 2 {
                            Some(PayloadView { entries: acc.entries.push(b.subrange(start, end)), ..acc })
                        } else {
                            None
                        }
                    } else {
                        Some(acc)
                    };
                    match next {
                        Some(a) => payload_fields(b, end, a),
                        None => None,
                    }
                }
            },
        }
    }
}

/// The payload that bytes encode, if they are well formed.
pub open spec fn decode_payload_spec(b: Seq<u8>) -> Option<PayloadView> {
    payload_fields(b, 0, empty_payload())
}

/// The canonical encoding of a record: fields in order, default values left out.
pub open spec fn encode_metadata_spec(m: MetadataView) -> Seq<u8> {
    bytes_field(1, m.pub_key) + bytes_field(2, m.serialized_payload) + varint_field(
        3,
        bits_of_i64(m.scheme as int),
    ) + bytes_field(4, m.signature)
}

/// The encoding of a sequence of entries as repeated field 3.
pub open spec fn entries_bytes(es: Seq<Seq<u8>>) -> Seq<u8>
    decreases es.len(),
{
    if es.len() == 0 {
        seq![]
    } else {
        entries_bytes(es.drop_last()) + element_field(3, es.last())
    }
}

/// The canonical encoding of a payload.
pub open spec fn encode_payload_spec(p: PayloadView) -> Seq<u8> {
    varint_field(1, bits_of_i64(p.timestamp as int)) + varint_field(2, bits_of_i64(p.ttl as int))
        + entries_bytes(p.entries)
}

proof fn lemma_scheme_bits(scheme: i32)
    ensures
        i32_of_bits(bits_of_i64(scheme as int)) == scheme,
        bits_of_i64(scheme as int) < 0x1_0000_0000_0000_0000,
        bits_of_i64(scheme as int) == 0 <==> scheme == 0,
{
    if scheme < 0 {
        let bits = scheme + 0x1_0000_0000_0000_0000;
        assert(bits % 0x1_0000_0000 == scheme + 0x1_0000_0000);
    }
}

/// One step of decoding an encoded record: the field `f` at `pos` moves the
/// fold from `acc` to `next`.
proof fn lemma_metadata_step(b: Seq<u8>, pos: int, f: Seq<u8>, acc: MetadataView, next: MetadataView)
    requires
        0 <= pos,
        pos + f.len() <= b.len(),
        b.subrange(pos, pos + f.len()) == f,
        f.len() > 0,
        ({
            let e = pos + f.len();
            ||| exists|num: nat, data: Seq<u8>|
                1 <= num <= 4 && num != 3 && data.len() < 0x1_0000_0000_0000_0000 && f
                    == bytes_field(num, data) && next == (if num == 1 {
                    MetadataView { pub_key: data, ..acc }
                } else if num == 2 {
                    MetadataView { serialized_payload: data, ..acc }
                } else {
                    MetadataView { signature: data, ..acc }
                })
            ||| exists|v: nat|
                0 < v < 0x1_0000_0000_0000_0000 && f == varint_field(3, v) && next == MetadataView {
                    scheme: i32_of_bits(v),
                    ..acc
                }
        }),
    ensures
        metadata_fields(b, pos, acc) == metadata_fields(b, pos + f.len(), next),
{
    if exists|num: nat, data: Seq<u8>|
        1 <= num <= 4 && num != 3 && data.len() < 0x1_0000_0000_0000_0000 && f == bytes_field(
            num,
            data,
        ) && next == (if num == 1 {
            MetadataView { pub_key: data, ..acc }
        } else if num == 2 {
            MetadataView { serialized_payload: data, ..acc }
        } else {
            MetadataView { signature: data, ..acc }
        }) {
        let (num, data) = choose|num: nat, data: Seq<u8>|
            1 <= num <= 4 && num != 3 && data.len() < 0x1_0000_0000_0000_0000 && f == bytes_field(
                num,
                data,
            ) && next == (if num == 1 {
                MetadataView { pub_key: data, ..acc }
            } else if num == 2 {
                MetadataView { serialized_payload: data, ..acc }
            } else {
                MetadataView { signature: data, ..acc }
            });
        assert(data.len() > 0);
        assert(element_field(num, data) == f);
        lemma_element_field_at(b, pos, num, data);
    } else {
        let v = choose|v: nat|
            0 < v < 0x1_0000_0000_0000_0000 && f == varint_field(3, v) && next == MetadataView {
                scheme: i32_of_bits(v),
                ..acc
            };
        lemma_varint_field_at(b, pos, 3, v);
    }
}

/// Decoding the canonical encoding of a record gives the record back.
pub proof fn lemma_metadata_round_trip(m: MetadataView)
    requires
        m.pub_key.len() <= u64::MAX,
        m.serialized_payload.len() <= u64::MAX,
        m.signature.len() <= u64::MAX,
    ensures
        decode_metadata_spec(encode_metadata_spec(m)) == Some(m),
{
    let f1 = bytes_field(1, m.pub_key);
    let f2 = bytes_field(2, m.serialized_payload);
    let f3 = varint_field(3, bits_of_i64(m.scheme as int));
    let f4 = bytes_field(4, m.signature);
    let b = encode_metadata_spec(m);
    assert(b =~= f1 + f2 + f3 + f4);
    let p1 = f1.len() as int;
    let p2 = p1 + f2.len();
    let p3 = p2 + f3.len();
    let p4 = p3 + f4.len();
    assert(b.subrange(0, p1) =~= f1);
    assert(b.subrange(p1, p2) =~= f2);
    assert(b.subrange(p2, p3) =~= f3);
    assert(b.subrange(p3, p4) =~= f4);
    lemma_scheme_bits(m.scheme);
    let a0 = empty_metadata();
    let a1 = MetadataView { pub_key: m.pub_key, ..a0 };
    let a2 = MetadataView { serialized_payload: m.serialized_payload, ..a1 };
    let a3 = MetadataView { scheme: m.scheme, ..a2 };
    let a4 = MetadataView { signature: m.signature, ..a3 };
    assert(a4 == m);
    assert(metadata_fields(b, p4, a4) == Some(a4));
    if f4.len() > 0 {
        lemma_metadata_step(b, p3, f4, a3, a4);
    } else {
        assert(m.signature =~= seq![]);
        assert(a3 == a4);
    }
    if f3.len() > 0 {
        lemma_metadata_step(b, p2, f3, a2, a3);
    } else {
        assert(a2 == a3);
    }
    if f2.len() > 0 {
        lemma_metadata_step(b, p1, f2, a1, a2);
    } else {
        assert(m.serialized_payload =~= seq![]);
        assert(a1 == a2);
    }
    if f1.len() > 0 {
        lemma_metadata_step(b, 0, f1, a0, a1);
    } else {
        assert(m.pub_key =~= seq![]);
        assert(a0 == a1);
    }
}

proof fn lemma_entries_front(es: Seq<Seq<u8>>)
    requires
        es.len() > 0,
    ensures
        entries_bytes(es) == element_field(3, es[0]) + entries_bytes(es.skip(1)),
    decreases es.len(),
{
    if es.len() == 1 {
        assert(es.skip(1) =~= seq![]);
        assert(es.drop_last() =~= seq![]);
        assert(entries_bytes(es) =~= element_field(3, es[0]) + entries_bytes(es.skip(1)));
    } else {
        lemma_entries_front(es.drop_last());
        assert(es.drop_last().skip(1) =~= es.skip(1).drop_last());
        assert(es.skip(1).last() == es.last());
        assert(es.drop_last()[0] == es[0]);
        assert(entries_bytes(es) =~= element_field(3, es[0]) + entries_bytes(es.skip(1)));
    }
}

/// Entries written from `pos` to the end are read back, in order.
proof fn lemma_entries_fold(b: Seq<u8>, pos: int, es: Seq<Seq<u8>>, acc: PayloadView)
    requires
        0 <= pos <= b.len(),
        b.subrange(pos, b.len() as int) == entries_bytes(es),
        forall|i: int| 0 <= i < es.len() ==> (#[trigger] es[i]).len() < 0x1_0000_0000_0000_0000,
    ensures
        payload_fields(b, pos, acc) == Some(PayloadView { entries: acc.entries + es, ..acc }),
    decreases es.len(),
{
    if es.len() == 0 {
        assert(acc.entries + es =~= acc.entries);
        assert(b.subrange(pos, b.len() as int).len() == 0);
    } else {
        lemma_entries_front(es);
        let f = element_field(3, es[0]);
        let rest = entries_bytes(es.skip(1));
        assert(b.subrange(pos, b.len() as int).len() == f.len() + rest.len());
        assert(b.subrange(pos, pos + f.len()) =~= b.subrange(pos, b.len() as int).subrange(
            0,
            f.len() as int,
        ));
        assert(b.subrange(pos, pos + f.len()) =~= f);
        lemma_element_field_at(b, pos, 3, es[0]);
        let next = PayloadView { entries: acc.entries.push(es[0]), ..acc };
        assert(payload_fields(b, pos, acc) == payload_fields(b, pos + f.len(), next));
        assert(b.subrange(pos + f.len(), b.len() as int) =~= b.subrange(pos, b.len() as int).subrange(
            f.len() as int,
            (b.len() - pos) as int,
        ));
        assert(b.subrange(pos + f.len(), b.len() as int) =~= rest);
        assert forall|i: int| 0 <= i < es.skip(1).len() implies (#[trigger] es.skip(1)[i]).len()
            < 0x1_0000_0000_0000_0000 by {
            assert(es.skip(1)[i] == es[i + 1]);
        }
        lemma_entries_fold(b, pos + f.len(), es.skip(1), next);
        assert(next.entries + es.skip(1) =~= acc.entries + es);
    }
}

/// Decoding the canonical encoding of a payload gives the payload back.
pub proof fn lemma_payload_round_trip(p: PayloadView)
    requires
        forall|i: int| 0 <= i < p.entries.len() ==> (#[trigger] p.entries[i]).len() <= u64::MAX,
    ensures
        decode_payload_spec(encode_payload_spec(p)) == Some(p),
{
    let t = bits_of_i64(p.timestamp as int);
    let l = bits_of_i64(p.ttl as int);
    let f1 = varint_field(1, t);
    let f2 = varint_field(2, l);
    let e = entries_bytes(p.entries);
    let b = encode_payload_spec(p);
    assert(b =~= f1 + f2 + e);
    let p1 = f1.len() as int;
    let p2 = p1 + f2.len();
    assert(b.subrange(0, p1) =~= f1);
    assert(b.subrange(p1, p2) =~= f2);
    assert(b.subrange(p2, b.len() as int) =~= e);
    let a0 = empty_payload();
    let a1 = PayloadView { timestamp: p.timestamp, ..a0 };
    let a2 = PayloadView { ttl: p.ttl, ..a1 };
    lemma_entries_fold(b, p2, p.entries, a2);
    assert(a2.entries + p.entries =~= p.entries);
    if l > 0 {
        lemma_varint_field_at(b, p1, 2, l);
        assert(payload_fields(b, p1, a1) == payload_fields(b, p2, a2));
    } else {
        assert(a1 == a2);
    }
    if t > 0 {
        lemma_varint_field_at(b, 0, 1, t);
        assert(payload_fields(b, 0, a0) == payload_fields(b, p1, a1));
    } else {
        assert(a0 == a1);
    }
}

impl MetadataRecord {
    /// Decodes a record; fails exactly when the bytes are not a well-formed
    /// record.
    pub fn decode(b: &[u8]) -> (r: Result<MetadataRecord, DecodeError>)
        ensures
            match decode_metadata_spec(b@) {
                Some(m) => r matches Ok(rec) && rec@ == m,
                None => r is Err,
            },
    {
        let mut acc = MetadataRecord {
            pub_key: Vec::new(),
            serialized_payload: Vec::new(),
            scheme: 0,
            signature: Vec::new(),
        };
        let mut pos: usize = 0;
        assert(acc@ == empty_metadata());
        while pos < b.len()
            invariant
                pos <= b@.len(),
                metadata_fields(b@, pos as int, acc@) == decode_metadata_spec(b@),
            decreases b@.len() - pos,
        {
            let (num, wt, v, start, end) = match read_field(b, pos) {
                Some(f) => f,
                None => return Err(DecodeError),
            };
            if num == 1 {
                if wt != 2 {
                    return Err(DecodeError);
                }
                acc.pub_key = copy_range(b, start, end);
            } else if num == 2 {
                if wt != 2 {
                    return Err(DecodeError);
                }
                acc.serialized_payload = copy_range(b, start, end);
            } else if num == 3 {
                if wt != 0 {
                    return Err(DecodeError);
                }
                acc.scheme = to_i32(v);
            } else if num == 4 {
                if wt != 2 {
                    return Err(DecodeError);
                }
                acc.signature = copy_range(b, start, end);
            }
            pos = end;
        }
        Ok(acc)
    }

    /// The canonical encoding of the record; it decodes back to the record.
    pub fn encode(&self) -> (r: Vec<u8>)
        ensures
            r@ == encode_metadata_spec(self@),
            decode_metadata_spec(r@) == Some(self@),
    {
        let n1 = self.pub_key.len();
        let n2 = self.serialized_payload.len();
        let n3 = self.signature.len();
        proof {
            assert(n1 as int == self@.pub_key.len() && n2 as int == self@.serialized_payload.len()
                && n3 as int == self@.signature.len());
            lemma_metadata_round_trip(self@);
        }
        let mut out: Vec<u8> = Vec::new();
        write_bytes_field(&mut out, 1, self.pub_key.as_slice());
        write_bytes_field(&mut out, 2, self.serialized_payload.as_slice());
        write_varint_field(&mut out, 3, from_i64(self.scheme as i64));
        write_bytes_field(&mut out, 4, self.signature.as_slice());
        assert(out@ =~= encode_metadata_spec(self@));
        out
    }
}

impl Payload {
    /// Decodes a payload; fails exactly when the bytes are not a well-formed
    /// payload.
    pub fn decode(b: &[u8]) -> (r: Result<Payload, DecodeError>)
        ensures
            match decode_payload_spec(b@) {
                Some(p) => r matches Ok(pl) && pl@ == p,
                None => r is Err,
            },
    {
        let mut acc = Payload { timestamp: 0, ttl: 0, entries: Vec::new() };
        let mut pos: usize = 0;
        assert(acc@.entries =~= seq![]);
        while pos < b.len()
            invariant
                pos <= b@.len(),
                payload_fields(b@, pos as int, acc@) == decode_payload_spec(b@),
            decreases b@.len() - pos,
        {
            let (num, wt, v, start, end) = match read_field(b, pos) {
                Some(f) => f,
                None => return Err(DecodeError),
            };
            if num == 1 {
                if wt != 0 {
                    return Err(DecodeError);
                }
                acc.timestamp = to_i64(v);
            } else if num == 2 {
                if wt != 0 {
                    return Err(DecodeError);
                }
                acc.ttl = to_i64(v);
            } else if num == 3 {
                if wt != 2 {
                    return Err(DecodeError);
                }
                let ghost before = acc@.entries;
                let e = copy_range(b, start, end);
                acc.entries.push(e);
                assert(acc@.entries =~= before.push(b@.subrange(start as int, end as int)));
            }
            pos = end;
        }
        Ok(acc)
    }

    /// The canonical encoding of the payload: the bytes a writer signs. It
    /// decodes back to the payload.
    pub fn encode(&self) -> (r: Vec<u8>)
        ensures
            r@ == encode_payload_spec(self@),
            decode_payload_spec(r@) == Some(self@),
    {
        let mut out: Vec<u8> = Vec::new();
        write_varint_field(&mut out, 1, from_i64(self.timestamp));
        write_varint_field(&mut out, 2, from_i64(self.ttl));
        let ghost head = out@;
        let mut i: usize = 0;
        while i < self.entries.len()
            invariant
                i <= self.entries@.len(),
                out@ == head + entries_bytes(self@.entries.subrange(0, i as int)),
                forall|j: int| 0 <= j < i ==> (#[trigger] self@.entries[j]).len() <= u64::MAX,
            decreases self.entries@.len() - i,
        {
            let n = self.entries[i].len();
            assert(self@.entries[i as int].len() == n);
            write_element_field(&mut out, 3, self.entries[i].as_slice());
            proof {
                let es = self@.entries.subrange(0, i + 1);
                assert(es.drop_last() =~= self@.entries.subrange(0, i as int));
                assert(es.last() == self.entries[i as int]@);
            }
            i = i + 1;
            assert(out@ =~= head + entries_bytes(self@.entries.subrange(0, i as int)));
        }
        assert(self@.entries.subrange(0, i as int) =~= self@.entries);
        assert(out@ =~= encode_payload_spec(self@));
        proof {
            lemma_payload_round_trip(self@);
        }
        out
    }
}

} // verus!
