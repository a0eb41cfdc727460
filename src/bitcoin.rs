use vstd::prelude::*;
use vstd::string::StringSliceAdditionalSpecFns;
use vstd::utf8::decode_utf8;
use vstd::utf8::valid_utf8;

use crate::address::Address;
use crate::address::AddressScheme;
use crate::authentication::bytes_eq;
use crate::wire::copy_range;

verus! {

/// The price of a write, in satoshis.
pub const PRICE: u64 = 5;

/// The marker that opens a keyserver announcement: the bytes of "keyserver".
pub open spec fn keyserver_prefix() -> Seq<u8> {
    seq![107u8, 101, 121, 115, 101, 114, 118, 101, 114]
}

/// Relies on `std::str::from_utf8`: it accepts exactly the valid UTF-8 byte
/// strings, and the text is the characters they encode.
#[verifier::external_body]
pub(crate) fn utf8_text(b: &[u8]) -> (r: Option<String>)
    ensures
        r is Some <==> valid_utf8(b@),
        r matches Some(s) ==> s@ == decode_utf8(b@),
{
    match std::str::from_utf8(b) {
        Ok(s) => Some(s.to_owned()),
        Err(_) => None,
    }
}

/// The (peer URL, address) that an OP_RETURN script announces:
/// `OP_RETURN || len || "keyserver" || 20-byte key hash || peer URL`, the URL
/// in UTF-8 and other than our own.
pub open spec fn op_return_spec(script: Seq<u8>, own_url: Seq<u8>) -> Option<(Seq<char>, Seq<u8>)> {
    if script.len() <= 31 {
        None
    } else if script[0] != 106 {
        None
    } else if script[1] as int != script.len() - 2 {
        None
    } else if script.subrange(2, 11) != keyserver_prefix() {
        None
    } else if !valid_utf8(script.skip(31)) {
        None
    } else if script.skip(31) == own_url {
        None
    } else {
        Some((decode_utf8(script.skip(31)), script.subrange(11, 31)))
    }
}

fn has_keyserver_prefix(script: &[u8]) -> (r: bool)
    requires
        script@.len() >= 11,
    ensures
        r == (script@.subrange(2, 11) == keyserver_prefix()),
{
    let r = script[2] == 107 && script[3] == 101 && script[4] == 121 && script[5] == 115
        && script[6] == 101 && script[7] == 114 && script[8] == 118 && script[9] == 101
        && script[10] == 114;
    if r {
        assert(script@.subrange(2, 11) =~= keyserver_prefix());
    } else {
        assert(script@.subrange(2, 11) != keyserver_prefix()) by {
            if script@.subrange(2, 11) == keyserver_prefix() {
                assert(script@.subrange(2, 11)[0] == script@[2]);
                assert(script@.subrange(2, 11)[1] == script@[3]);
                assert(script@.subrange(2, 11)[2] == script@[4]);
                assert(script@.subrange(2, 11)[3] == script@[5]);
                assert(script@.subrange(2, 11)[4] == script@[6]);
                assert(script@.subrange(2, 11)[5] == script@[7]);
                assert(script@.subrange(2, 11)[6] == script@[8]);
                assert(script@.subrange(2, 11)[7] == script@[9]);
                assert(script@.subrange(2, 11)[8] == script@[10]);
            }
        }
    }
    r
}

/// Reads a keyserver announcement out of an output script; `own_url` is
/// this server's own URL, whose announcements are ignored.
pub fn extract_op_return(script: &[u8], own_url: &str) -> (r: Option<(String, Address)>)
    ensures
        match op_return_spec(script@, own_url.spec_bytes()) {
            Some((url, addr)) => r matches Some((u, a)) && u@ == url && a@ == addr && a.scheme
                == AddressScheme::Base58,
            None => r is None,
        },
{
    if script.len() <= 2 + 9 + 20 {
        return None;
    }
    if script[0] != 106 {
        return None;
    }
    if script[1] as usize != script.len() - 2 {
        return None;
    }
    if !has_keyserver_prefix(script) {
        return None;
    }
    let raw_host = copy_range(script, 31, script.len());
    assert(raw_host@ =~= script@.skip(31));
    let url = match utf8_text(raw_host.as_slice()) {
        Some(u) => u,
        None => return None,
    };
    if bytes_eq(raw_host.as_slice(), own_url.as_bytes()) {
        return None;
    }
    let body = copy_range(script, 11, 31);
    Some((url, Address::new(body, AddressScheme::Base58)))
}

/// The 20-byte key hash that a pay-to-public-key-hash script pays to:
/// `OP_DUP OP_HASH160 20 <hash> OP_EQUALVERIFY OP_CHECKSIG`.
pub open spec fn pubkey_hash_spec(script: Seq<u8>) -> Option<Seq<u8>> {
    if script.len() == 25 && script[0] == 118 && script[1] == 169 && script[2] == 20 && script[23]
        == 136 && script[24] == 172 {
        Some(script.subrange(3, 23))
    } else {
        None
    }
}

/// Reads the key hash out of a pay-to-public-key-hash script.
pub fn extract_pubkey_hash(raw_script: &[u8]) -> (r: Option<Vec<u8>>)
    ensures
        match pubkey_hash_spec(raw_script@) {
            Some(h) => r matches Some(v) && v@ == h,
            None => r is None,
        },
{
    if raw_script.len() != 25 {
        return None;
    }
    if raw_script[0] != 118 || raw_script[1] != 169 || raw_script[2] != 20 {
        return None;
    }
    if raw_script[23] != 136 || raw_script[24] != 172 {
        return None;
    }
    Some(copy_range(raw_script, 3, 23))
}

/// An output of a payment request: an amount in satoshis and a script.
#[derive(Clone, Debug)]
pub struct Output {
    pub amount: Option<u64>,
    pub script: Vec<u8>,
}

/// The pay-to-public-key-hash script for a key hash.
pub open spec fn p2pkh_script(pk_hash: Seq<u8>) -> Seq<u8> {
    seq![118u8, 169, 20] + pk_hash + seq![136u8, 172]
}

/// The announcement script for a write of `put_pk_hash`'s record, served at
/// `base_url`.
pub open spec fn op_return_script(base_url: Seq<u8>, put_pk_hash: Seq<u8>) -> Seq<u8> {
    seq![106u8, (29 + base_url.len()) as u8] + keyserver_prefix() + put_pk_hash + base_url
}

fn append_bytes(out: &mut Vec<u8>, data: &[u8])
    ensures
        final(out)@ == old(out)@ + data@,
{
    let ghost before = out@;
    let mut i: usize = 0;
    while i < data.len()
        invariant
            i <= data@.len(),
            out@ == before + data@.subrange(0, i as int),
        decreases data@.len() - i,
    {
        out.push(data[i]);
        i = i + 1;
        assert(out@ =~= before + data@.subrange(0, i as int));
    }
    assert(data@.subrange(0, i as int) =~= data@);
}

/// The outputs a write must pay: `PRICE` to `pk_hash`, and a zero-value
/// announcement of the write of `put_pk_hash`'s record at `base_url`.
pub fn generate_outputs(pk_hash: Vec<u8>, base_url: &str, put_pk_hash: Vec<u8>) -> (r: Vec<Output>)
    requires
        base_url.spec_bytes().len() + 29 <= 255,
    ensures
        r@.len() == 2,
        r@[0].amount == Some(PRICE),
        r@[0].script@ == p2pkh_script(pk_hash@),
        r@[1].amount == Some(0u64),
        r@[1].script@ == op_return_script(base_url.spec_bytes(), put_pk_hash@),
{
    let mut p2pkh: Vec<u8> = Vec::new();
    p2pkh.push(118);
    p2pkh.push(169);
    p2pkh.push(20);
    append_bytes(&mut p2pkh, pk_hash.as_slice());
    p2pkh.push(136);
    p2pkh.push(172);
    assert(p2pkh@ =~= p2pkh_script(pk_hash@));
    let raw_base_url = base_url.as_bytes();
    let mut op_return: Vec<u8> = Vec::new();
    op_return.push(106);
    op_return.push(9 + 20 + raw_base_url.len() as u8);
    op_return.push(107);
    op_return.push(101);
    op_return.push(121);
    op_return.push(115);
    op_return.push(101);
    op_return.push(114);
    op_return.push(118);
    op_return.push(101);
    op_return.push(114);
    append_bytes(&mut op_return, put_pk_hash.as_slice());
    append_bytes(&mut op_return, raw_base_url);
    assert(op_return@ =~= op_return_script(base_url.spec_bytes(), put_pk_hash@));
    let mut outputs: Vec<Output> = Vec::new();
    outputs.push(Output { amount: Some(PRICE), script: p2pkh });
    outputs.push(Output { amount: Some(0), script: op_return });
    outputs
}

/// An announcement that `generate_outputs` writes for a 20-byte key hash
/// reads back, by `extract_op_return`, as that hash and the URL's text
/// (unless the URL is empty or our own), and its payment output reads back,
/// by `extract_pubkey_hash`, as the payee's hash.
pub proof fn lemma_outputs_round_trip(
    pk_hash: Seq<u8>,
    base_url: Seq<char>,
    put_pk_hash: Seq<u8>,
    own_url: Seq<u8>,
)
    requires
        pk_hash.len() == 20,
        put_pk_hash.len() == 20,
        vstd::utf8::encode_utf8(base_url).len() + 29 <= 255,
        vstd::utf8::encode_utf8(base_url).len() > 0,
        vstd::utf8::encode_utf8(base_url) != own_url,
    ensures
        pubkey_hash_spec(p2pkh_script(pk_hash)) == Some(pk_hash),
        op_return_spec(op_return_script(vstd::utf8::encode_utf8(base_url), put_pk_hash), own_url)
            == Some((base_url, put_pk_hash)),
{
    let url = vstd::utf8::encode_utf8(base_url);
    let s = op_return_script(url, put_pk_hash);
    assert(p2pkh_script(pk_hash).subrange(3, 23) =~= pk_hash);
    assert(s.subrange(2, 11) =~= keyserver_prefix());
    assert(s.subrange(11, 31) =~= put_pk_hash);
    assert(s.skip(31) =~= url);
    vstd::utf8::encode_utf8_valid_utf8(base_url);
    vstd::utf8::encode_utf8_decode_utf8(base_url);
}

/// A transaction output: its value in satoshis and its locking script.
#[derive(Clone, Debug)]
pub struct TxOut {
    pub value: u64,
    pub script_pubkey: Vec<u8>,
}

/// The key hashes the server has handed out for payments and still awaits
/// a payment to.
pub struct WalletState {
    addrs: Vec<Vec<u8>>,
}

/// The byte strings a sequence of vectors holds.
pub open spec fn views(s: Seq<Vec<u8>>) -> Seq<Seq<u8>> {
    s.map_values(|v: Vec<u8>| v@)
}

/// Whether an output pays the price to one of the awaited key hashes.
pub open spec fn pays(out: TxOut, awaited: Set<Seq<u8>>) -> bool {
    out.value == PRICE && match pubkey_hash_spec(out.script_pubkey@) {
        Some(h) => awaited.contains(h),
        None => false,
    }
}

/// The key hash an output pays to (meaningful where `pays` holds).
pub open spec fn paid_hash(out: TxOut) -> Seq<u8> {
    pubkey_hash_spec(out.script_pubkey@).unwrap()
}

impl WalletState {
    pub closed spec fn held(&self) -> Seq<Seq<u8>> {
        views(self.addrs@)
    }

    /// The awaited key hashes.
    pub closed spec fn view(&self) -> Set<Seq<u8>> {
        self.held().to_set()
    }

    /// No key hash is awaited.
    pub fn new() -> (r: WalletState)
        ensures
            r.view() == Set::<Seq<u8>>::empty(),
    {
        let r = WalletState { addrs: Vec::new() };
        assert(r.view() =~= Set::<Seq<u8>>::empty());
        r
    }

    /// Whether a key hash is awaited.
    pub fn contains(&self, addr: &[u8]) -> (r: bool)
        ensures
            r == self.view().contains(addr@),
    {
        let mut i: usize = 0;
        while i < self.addrs.len()
            invariant
                i <= self.addrs@.len(),
                forall|j: int| 0 <= j < i ==> self.addrs@[j]@ != addr@,
            decreases self.addrs@.len() - i,
        {
            if bytes_eq(self.addrs[i].as_slice(), addr) {
                assert(self.held()[i as int] == addr@);
                return true;
            }
            i = i + 1;
        }
        assert(!self.held().contains(addr@)) by {
            if self.held().contains(addr@) {
                let j = choose|j: int| 0 <= j < self.held().len() && self.held()[j] == addr@;
                assert(self.addrs@[j]@ == addr@);
            }
        }
        false
    }

    /// Starts awaiting a key hash.
    pub fn add(&mut self, addr: Vec<u8>)
        ensures
            final(self).view() == old(self).view().insert(addr@),
    {
        if !self.contains(addr.as_slice()) {
            let ghost before = self.held();
            self.addrs.push(addr);
            assert(self.held() =~= before.push(addr@));
            assert forall|x: Seq<u8>|
                self.held().contains(x) <==> (before.contains(x) || x == addr@) by {
                if self.held().contains(x) {
                    let j = choose|j: int| 0 <= j < self.held().len() && #[trigger] self.held()[j] == x;
                    if j < before.len() {
                        assert(before[j] == x);
                    }
                }
                if before.contains(x) {
                    let j = choose|j: int| 0 <= j < before.len() && #[trigger] before[j] == x;
                    assert(self.held()[j] == x);
                }
                if x == addr@ {
                    assert(self.held()[before.len() as int] == x);
                }
            }
        }
        assert(self.view() =~= old(self).view().insert(addr@));
    }

    /// Stops awaiting a key hash.
    pub fn remove(&mut self, addr: Vec<u8>)
        ensures
            final(self).view() == old(self).view().remove(addr@),
    {
        let mut kept: Vec<Vec<u8>> = Vec::new();
        let mut i: usize = 0;
        let ghost old_held = self.held();
        while i < self.addrs.len()
            invariant
                i <= self.addrs@.len(),
                old_held == self.held(),
                old_held.len() == self.addrs@.len(),
                forall|x: Seq<u8>|
                    views(kept@).contains(x) <==> (x != addr@
                        && old_held.subrange(0, i as int).contains(x)),
            decreases self.addrs@.len() - i,
        {
            let ghost kept_before = views(kept@);
            let ghost pre = old_held.subrange(0, i as int);
            let ghost cur = old_held[i as int];
            assert(forall|x: Seq<u8>|
                kept_before.contains(x) <==> (x != addr@ && pre.contains(x)));
            let keep = !bytes_eq(self.addrs[i].as_slice(), addr.as_slice());
            if keep {
                kept.push(self.addrs[i].clone());
                assert(views(kept@) =~= kept_before.push(cur));
            } else {
                assert(views(kept@) =~= kept_before);
            }
            assert(old_held.subrange(0, i + 1) =~= pre.push(cur));
            i = i + 1;
            proof {
                let post = pre.push(cur);
                let kv = views(kept@);
                assert forall|x: Seq<u8>| kv.contains(x) <==> (x != addr@ && post.contains(x)) by {
                    if kv.contains(x) {
                        let j = choose|j: int| 0 <= j < kv.len() && #[trigger] kv[j] == x;
                        if j < kept_before.len() {
                            assert(kept_before[j] == x);
                            assert(kept_before.contains(x));
                            let k = choose|k: int| 0 <= k < pre.len() && #[trigger] pre[k] == x;
                            assert(post[k] == x);
                        } else {
                            assert(keep);
                            assert(x == cur);
                            assert(post[pre.len() as int] == x);
                        }
                    }
                    if x != addr@ && post.contains(x) {
                        let j = choose|j: int| 0 <= j < post.len() && #[trigger] post[j] == x;
                        if j < pre.len() {
                            assert(pre[j] == x);
                            assert(pre.contains(x));
                            assert(kept_before.contains(x));
                            let k = choose|k: int|
                                0 <= k < kept_before.len() && #[trigger] kept_before[k] == x;
                            assert(kv[k] == x);
                        } else {
                            assert(x == cur);
                            assert(keep);
                            assert(kv[kept_before.len() as int] == x);
                        }
                    }
                }
            }
        }
        assert(old_held.subrange(0, i as int) =~= old_held);
        self.addrs = kept;
        assert(self.view() =~= old(self).view().remove(addr@));
    }

    /// Takes a payment: when the output pays the price to an awaited key
    /// hash, that hash stops being awaited and the answer is `true`;
    /// otherwise nothing changes.
    pub fn check_p2pkh(&mut self, output: &TxOut) -> (r: bool)
        ensures
            r == pays(*output, old(self).view()),
            r ==> final(self).view() == old(self).view().remove(paid_hash(*output)),
            !r ==> final(self).view() == old(self).view(),
    {
        if output.value != PRICE {
            return false;
        }
        match extract_pubkey_hash(output.script_pubkey.as_slice()) {
            Some(pubkey_hash) => {
                if self.contains(pubkey_hash.as_slice()) {
                    self.remove(pubkey_hash);
                    true
                } else {
                    false
                }
            },
            None => false,
        }
    }

    /// Takes the first output that pays the price to an awaited key hash;
    /// `false`, with nothing changed, when none does.
    pub fn check_outputs(&mut self, outputs: &Vec<TxOut>) -> (r: bool)
        ensures
            r == exists|i: int| 0 <= i < outputs@.len() && pays(#[trigger] outputs@[i], old(self).view()),
            r ==> exists|i: int|
                0 <= i < outputs@.len() && pays(#[trigger] outputs@[i], old(self).view()) && (forall|j: int|
                    0 <= j < i ==> !pays(#[trigger] outputs@[j], old(self).view())) && final(self).view()
                    == old(self).view().remove(paid_hash(outputs@[i])),
            !r ==> final(self).view() == old(self).view(),
    {
        let mut i: usize = 0;
        while i < outputs.len()
            invariant
                i <= outputs@.len(),
                self.view() == old(self).view(),
                forall|j: int| 0 <= j < i ==> !pays(#[trigger] outputs@[j], old(self).view()),
            decreases outputs@.len() - i,
        {
            if self.check_p2pkh(&outputs[i]) {
                return true;
            }
            i = i + 1;
        }
        false
    }
}

} // verus!
