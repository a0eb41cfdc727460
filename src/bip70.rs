use vstd::prelude::*;
use vstd::string::StringSliceAdditionalSpecFns;
use vstd::utf8::encode_utf8;

use crate::bitcoin::Output;
use crate::record::DecodeError;
use crate::wire::copy_range;
use crate::wire::element_field;
use crate::wire::field_at;
use crate::wire::read_field;
use crate::wire::varint_bytes;
use crate::wire::write_element_field;
use crate::wire::write_varint;

verus! {

/// What a payment request asks for (BIP70 `PaymentDetails`): `network` = 1,
/// `outputs` = 2, `time` = 3, `expires` = 4, `memo` = 5, `payment_url` = 6,
/// `merchant_data` = 7.
#[derive(Clone, Debug)]
pub struct PaymentDetails {
    pub network: Option<String>,
    pub outputs: Vec<Output>,
    pub time: u64,
    pub expires: Option<u64>,
    pub memo: Option<String>,
    pub payment_url: Option<String>,
    pub merchant_data: Option<Vec<u8>>,
}

/// A payment request (BIP70 `PaymentRequest`): `payment_details_version` =
/// 1, `pki_type` = 2, `pki_data` = 3, `serialized_payment_details` = 4,
/// `signature` = 5.
#[derive(Clone, Debug)]
pub struct PaymentRequest {
    pub payment_details_version: Option<u64>,
    pub pki_type: Option<String>,
    pub pki_data: Option<Vec<u8>>,
    pub serialized_payment_details: Vec<u8>,
    pub signature: Option<Vec<u8>>,
}

/// What the server reads of a payment (BIP70 `Payment`): its merchant data
/// (field 1) and its transactions (field 2). Fields 3 (`refund_to`) and 4
/// (`memo`) are length-delimited and left unread.
#[derive(Clone, Debug)]
pub struct Payment {
    pub merchant_data: Option<Vec<u8>>,
    pub transactions: Vec<Vec<u8>>,
}

/// An optional varint field: written whenever present, even if zero.
pub open spec fn opt_varint_field(num: nat, v: Option<u64>) -> Seq<u8> {
    match v {
        Some(x) => varint_bytes(num * 8) + varint_bytes(x as nat),
        None => seq![],
    }
}

/// An optional length-delimited field: written whenever present, even if empty.
pub open spec fn opt_bytes_field(num: nat, v: Option<Seq<u8>>) -> Seq<u8> {
    match v {
        Some(d) => element_field(num, d),
        None => seq![],
    }
}

pub open spec fn opt_text(o: Option<String>) -> Option<Seq<u8>> {
    match o {
        Some(s) => Some(encode_utf8(s@)),
        None => None,
    }
}

pub open spec fn opt_data(o: Option<Vec<u8>>) -> Option<Seq<u8>> {
    match o {
        Some(v) => Some(v@),
        None => None,
    }
}

/// The encoding of an output: `amount` = 1, `script` = 2.
pub open spec fn output_bytes(o: Output) -> Seq<u8> {
    opt_varint_field(1, o.amount) + element_field(2, o.script@)
}

/// The encoding of a sequence of outputs as repeated field `num`.
pub open spec fn outputs_bytes(num: nat, os: Seq<Output>) -> Seq<u8>
    decreases os.len(),
{
    if os.len() == 0 {
        seq![]
    } else {
        outputs_bytes(num, os.drop_last()) + element_field(num, output_bytes(os.last()))
    }
}

pub open spec fn payment_details_bytes(d: PaymentDetails) -> Seq<u8> {
    opt_bytes_field(1, opt_text(d.network)) + outputs_bytes(2, d.outputs@) + varint_bytes(24)
        + varint_bytes(d.time as nat) + opt_varint_field(4, d.expires) + opt_bytes_field(
        5,
        opt_text(d.memo),
    ) + opt_bytes_field(6, opt_text(d.payment_url)) + opt_bytes_field(7, opt_data(d.merchant_data))
}

pub open spec fn payment_request_bytes(r: PaymentRequest) -> Seq<u8> {
    opt_varint_field(1, r.payment_details_version) + opt_bytes_field(2, opt_text(r.pki_type))
        + opt_bytes_field(3, opt_data(r.pki_data)) + element_field(4, r.serialized_payment_details@)
        + opt_bytes_field(5, opt_data(r.signature))
}

/// The encoding of a payment acknowledgement: the payment as it was
/// received (field 1) and a memo (field 2).
pub open spec fn payment_ack_bytes(payment: Seq<u8>, memo: Option<Seq<u8>>) -> Seq<u8> {
    element_field(1, payment) + opt_bytes_field(2, memo)
}

fn write_opt_varint_field(out: &mut Vec<u8>, num: u64, v: Option<u64>)
    requires
        num < 0x1000_0000,
    ensures
        final(out)@ == old(out)@ + opt_varint_field(num as nat, v),
{
    let ghost before = out@;
    match v {
        Some(x) => {
            write_varint(out, num * 8);
            write_varint(out, x);
        },
        None => {},
    }
    assert(out@ =~= before + opt_varint_field(num as nat, v));
}

fn write_opt_bytes_field(out: &mut Vec<u8>, num: u64, v: Option<&[u8]>)
    requires
        num < 0x1000_0000,
    ensures
        final(out)@ == old(out)@ + opt_bytes_field(
            num as nat,
            match v {
                Some(d) => Some(d@),
                None => None,
            },
        ),
{
    match v {
        Some(d) => write_element_field(out, num, d),
        None => {
            assert(out@ =~= old(out)@ + seq![]);
        },
    }
}

fn text_bytes(o: &Option<String>) -> (r: Option<&[u8]>)
    ensures
        match r {
            Some(d) => Some(d@),
            None => None::<Seq<u8>>,
        } == opt_text(*o),
{
    match o {
        Some(s) => Some(s.as_str().as_bytes()),
        None => None,
    }
}

fn data_bytes(o: &Option<Vec<u8>>) -> (r: Option<&[u8]>)
    ensures
        match r {
            Some(d) => Some(d@),
            None => None::<Seq<u8>>,
        } == opt_data(*o),
{
    match o {
        Some(v) => Some(v.as_slice()),
        None => None,
    }
}

impl Output {
    /// The encoding of the output.
    pub fn encode(&self) -> (r: Vec<u8>)
        ensures
            r@ == output_bytes(*self),
    {
        let mut out: Vec<u8> = Vec::new();
        write_opt_varint_field(&mut out, 1, self.amount);
        write_element_field(&mut out, 2, self.script.as_slice());
        assert(out@ =~= output_bytes(*self));
        out
    }
}

impl PaymentDetails {
    /// The encoding of the payment details.
    pub fn encode(&self) -> (r: Vec<u8>)
        ensures
            r@ == payment_details_bytes(*self),
    {
        let mut out: Vec<u8> = Vec::new();
        write_opt_bytes_field(&mut out, 1, text_bytes(&self.network));
        let ghost head = out@;
        let mut i: usize = 0;
        while i < self.outputs.len()
            invariant
                i <= self.outputs@.len(),
                out@ == head + outputs_bytes(2, self.outputs@.subrange(0, i as int)),
            decreases self.outputs@.len() - i,
        {
            let enc = self.outputs[i].encode();
            write_element_field(&mut out, 2, enc.as_slice());
            proof {
                let os = self.outputs@.subrange(0, i + 1);
                assert(os.drop_last() =~= self.outputs@.subrange(0, i as int));
                assert(os.last() == self.outputs@[i as int]);
            }
            i = i + 1;
            assert(out@ =~= head + outputs_bytes(2, self.outputs@.subrange(0, i as int)));
        }
        assert(self.outputs@.subrange(0, i as int) =~= self.outputs@);
        write_varint(&mut out, 24);
        write_varint(&mut out, self.time);
        write_opt_varint_field(&mut out, 4, self.expires);
        write_opt_bytes_field(&mut out, 5, text_bytes(&self.memo));
        write_opt_bytes_field(&mut out, 6, text_bytes(&self.payment_url));
        write_opt_bytes_field(&mut out, 7, data_bytes(&self.merchant_data));
        assert(out@ =~= payment_details_bytes(*self));
        out
    }
}

impl PaymentRequest {
    /// The encoding of the payment request.
    pub fn encode(&self) -> (r: Vec<u8>)
        ensures
            r@ == payment_request_bytes(*self),
    {
        let mut out: Vec<u8> = Vec::new();
        write_opt_varint_field(&mut out, 1, self.payment_details_version);
        write_opt_bytes_field(&mut out, 2, text_bytes(&self.pki_type));
        write_opt_bytes_field(&mut out, 3, data_bytes(&self.pki_data));
        write_element_field(&mut out, 4, self.serialized_payment_details.as_slice());
        write_opt_bytes_field(&mut out, 5, data_bytes(&self.signature));
        assert(out@ =~= payment_request_bytes(*self));
        out
    }
}

/// The encoding of a payment acknowledgement for a payment received as
/// `payment`.
pub fn encode_payment_ack(payment: &[u8], memo: &Option<String>) -> (r: Vec<u8>)
    ensures
        r@ == payment_ack_bytes(payment@, opt_text(*memo)),
{
    let mut out: Vec<u8> = Vec::new();
    write_element_field(&mut out, 1, payment);
    write_opt_bytes_field(&mut out, 2, text_bytes(memo));
    assert(out@ =~= payment_ack_bytes(payment@, opt_text(*memo)));
    out
}

pub struct PaymentView {
    pub merchant_data: Option<Seq<u8>>,
    pub transactions: Seq<Seq<u8>>,
}

impl View for Payment {
    type V = PaymentView;

    open spec fn view(&self) -> PaymentView {
        PaymentView {
            merchant_data: opt_data(self.merchant_data),
            transactions: self.transactions@.map_values(|t: Vec<u8>| t@),
        }
    }
}

/// Folds the fields of a payment from `pos` on: field 1 sets the merchant
/// data, field 2 adds a transaction, fields 3 and 4 must be
/// length-delimited, others are skipped.
pub open spec fn payment_fields(b: Seq<u8>, pos: int, acc: PaymentView) -> Option<PaymentView>
    decreases b.len() - pos,
{
    if pos >= b.len() {
        Some(acc)
    } else {
        match field_at(b, pos) {
            None => None,
            Some((num, wt, v, start, end)) => {
                if end <= pos || end > b.len() {
                    None
                } else if 1 <= num <= 4 && wt != 2 {
                    None
                } else {
                    let data = b.subrange(start, end);
                    let next = if num == 1 {
                        PaymentView { merchant_data: Some(data), ..acc }
                    } else if num == 2 {
                        PaymentView { transactions: acc.transactions.push(data), ..acc }
                    } else {
                        acc
                    };
                    payment_fields(b, end, next)
                }
            },
        }
    }
}

pub open spec fn decode_payment_spec(b: Seq<u8>) -> Option<PaymentView> {
    payment_fields(b, 0, PaymentView { merchant_data: None, transactions: seq![] })
}

impl Payment {
    /// Decodes a payment; fails exactly when the bytes are not one.
    pub fn decode(b: &[u8]) -> (r: Result<Payment, DecodeError>)
        ensures
            match decode_payment_spec(b@) {
                Some(p) => r matches Ok(pm) && pm@ == p,
                None => r is Err,
            },
    {
        let mut acc = Payment { merchant_data: None, transactions: Vec::new() };
        let mut pos: usize = 0;
        assert(acc@.transactions =~= seq![]);
        while pos < b.len()
            invariant
                pos <= b@.len(),
                payment_fields(b@, pos as int, acc@) == decode_payment_spec(b@),
            decreases b@.len() - pos,
        {
            let (num, wt, _v, start, end) = match read_field(b, pos) {
                Some(f) => f,
                None => return Err(DecodeError),
            };
            if 1 <= num && num <= 4 && wt != 2 {
                return Err(DecodeError);
            }
            if num == 1 {
                acc.merchant_data = Some(copy_range(b, start, end));
            } else if num == 2 {
                let ghost before = acc@.transactions;
                let t = copy_range(b, start, end);
                acc.transactions.push(t);
                assert(acc@.transactions =~= before.push(b@.subrange(start as int, end as int)));
            }
            pos = end;
        }
        Ok(acc)
    }
}

} // verus!
