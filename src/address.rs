use vstd::prelude::*;
use vstd::string::StringSliceAdditionalSpecFns;
use vstd::utf8::encode_utf8;

use crate::crypto::CryptoError;
use crate::hashes::sha256d;
use crate::hashes::sha256d_of;
use crate::network::Network;
use crate::wire::copy_range;

verus! {

/// The Base58 text of a byte string.
pub uninterp spec fn base58_of(data: Seq<u8>) -> Seq<char>;

/// Relies on rust-base58's `ToBase58` for byte slices: the text depends on
/// the bytes alone.
/// Its characters are all of the Base58 alphabet, so none is ':'.
#[verifier::external_body]
fn to_base58(data: &[u8]) -> (r: String)
    ensures
        r@ == base58_of(data@),
        !r@.contains(':'),
{
    rust_base58::ToBase58::to_base58(data)
}

/// Relies on rust-base58's `FromBase58` for `str`, which inverts `to_base58`:
/// each leading '1' gives a zero byte and the rest is read as a big-endian
/// number, so a string over the alphabet decodes to the one byte string whose
/// text it is, and any other string is refused.
#[verifier::external_body]
fn from_base58(s: &str) -> (r: Option<Vec<u8>>)
    ensures
        r matches Some(v) ==> base58_of(v@) == s@,
        r is None ==> forall|b: Seq<u8>| base58_of(b) != s@,
        r matches Some(v) ==> forall|b: Seq<u8>| #[trigger] base58_of(b) == s@ ==> v@ == b,
{
    rust_base58::FromBase58::from_base58(s).ok()
}

/// The first four bytes of a digest, the checksum of a legacy address.
pub open spec fn checksum4(h: Seq<u8>) -> Seq<u8> {
    seq![h[0], h[1], h[2], h[3]]
}

/// The bytes behind a legacy address: version byte, raw address, checksum.
pub open spec fn legacy_body(raw: Seq<u8>, network: Network) -> Seq<u8> {
    let body = seq![network.spec_version_byte()] + raw;
    body + checksum4(sha256d_of(body))
}

/// The raw address in the bytes behind a legacy address text, if the
/// checksum holds, the version byte is the network's and it is 20 bytes long.
pub open spec fn legacy_payload(v: Seq<u8>, network: Network) -> Option<Seq<u8>> {
    if v.len() < 6 {
        None
    } else {
        let v0 = v.take(v.len() - 4);
        if v.skip(v.len() - 4) != checksum4(sha256d_of(v0)) {
            None
        } else if v0[0] != network.spec_version_byte() {
            None
        } else if v0.len() != 21 {
            None
        } else {
            Some(v0.skip(1))
        }
    }
}

/// The text of a legacy address.
pub open spec fn legacy_text(raw: Seq<u8>, network: Network) -> Seq<char> {
    base58_of(legacy_body(raw, network))
}

/// Decoding the bytes behind a legacy address gives back the raw address
/// they were made from.
pub proof fn lemma_legacy_round_trip(raw: Seq<u8>, network: Network)
    requires
        raw.len() == 20,
    ensures
        legacy_payload(legacy_body(raw, network), network) == Some(raw),
{
    let body = seq![network.spec_version_byte()] + raw;
    let v = legacy_body(raw, network);
    assert(v.take(v.len() - 4) =~= body);
    assert(v.skip(v.len() - 4) =~= checksum4(sha256d_of(body)));
    assert(body.skip(1) =~= raw);
}

/// The CashAddr text of a public-key-hash address on a network.
pub uninterp spec fn cashaddr_of(raw: Seq<u8>, network: Network) -> Seq<char>;

/// What CashAddr decoding reads from a text: the hash, whether it is a
/// public-key hash (rather than a script hash), and the network.
pub uninterp spec fn cashaddr_read(s: Seq<char>) -> Option<(Seq<u8>, bool, Network)>;

/// The hash lengths CashAddr has a size code for.
pub open spec fn cashaddr_size(n: nat) -> bool {
    n == 20 || n == 24 || n == 28 || n == 32 || n == 40 || n == 48 || n == 56 || n == 64
}

/// Every ':' byte is followed by at least ten more bytes.
pub open spec fn colon_safe(b: Seq<u8>) -> bool {
    forall|i: int| 0 <= i < b.len() && b[i] == 58 ==> b.len() - i - 1 >= 10
}

/// Relies on bitcoincash-addr's `CashAddrCodec::encode` with
/// `HashType::Key`: it fails only on hash lengths without a size code, and
/// its text is the network's prefix, one ':' and at least 42 characters of
/// the (ASCII) CashAddr charset.
#[verifier::external_body]
fn cashaddr_encode(raw: &[u8], network: Network) -> (r: Option<String>)
    ensures
        r is Some <==> cashaddr_size(raw@.len()),
        r matches Some(s) ==> s@ == cashaddr_of(raw@, network) && colon_safe(encode_utf8(s@)),
{
    let net = match network {
        Network::Mainnet => bitcoincash_addr::Network::Main,
        Network::Testnet => bitcoincash_addr::Network::Test,
        Network::Regnet => bitcoincash_addr::Network::Regtest,
    };
    let key = bitcoincash_addr::HashType::Key;
    <bitcoincash_addr::CashAddrCodec as bitcoincash_addr::AddressCodec>::encode(raw, key, net).ok()
}

/// Relies on bitcoincash-addr's `CashAddrCodec::decode`: it reads back what
/// `encode` wrote, refuses a text without ':', and otherwise depends on the
/// text alone. It can panic when fewer than ten characters follow the ':',
/// which `requires` leaves out.
#[verifier::external_body]
fn cashaddr_decode(s: &str) -> (r: Option<(Vec<u8>, bool, Network)>)
    requires
        colon_safe(s.spec_bytes()),
    ensures
        r is None <==> cashaddr_read(s@) is None,
        r matches Some((b, k, n)) ==> cashaddr_read(s@) == Some((b@, k, n)),
        !s@.contains(':') ==> r is None,
        r is None ==> forall|raw: Seq<u8>, net: Network|
            #[trigger] cashaddr_of(raw, net) == s@ ==> !cashaddr_size(raw.len()),
        r matches Some((b, k, n)) ==> forall|raw: Seq<u8>, net: Network|
            #[trigger] cashaddr_of(raw, net) == s@ && cashaddr_size(raw.len()) ==> b@ == raw && k
                && n == net,
{
    match <bitcoincash_addr::CashAddrCodec as bitcoincash_addr::AddressCodec>::decode(s) {
        Ok(a) => {
            let net = match a.network {
                bitcoincash_addr::Network::Main => Network::Mainnet,
                bitcoincash_addr::Network::Test => Network::Testnet,
                bitcoincash_addr::Network::Regtest => Network::Regnet,
            };
            let key = matches!(a.hash_type, bitcoincash_addr::HashType::Key);
            Some((a.body, key, net))
        },
        Err(_) => None,
    }
}

/// Whether every ':' byte is followed by at least ten more bytes.
fn check_colon_safe(b: &[u8]) -> (r: bool)
    ensures
        r == colon_safe(b@),
{
    let mut i: usize = 0;
    while i < b.len()
        invariant
            i <= b@.len(),
            forall|j: int| 0 <= j < i && b@[j] == 58 ==> b@.len() - j - 1 >= 10,
        decreases b@.len() - i,
    {
        if b[i] == 58 && b.len() - i - 1 < 10 {
            return false;
        }
        i = i + 1;
    }
    true
}

/// The public-key hash a CashAddr text gives on a network, if decoding may
/// be tried on it and reads a key hash of that network.
pub open spec fn cashaddr_accepts(s: Seq<char>, network: Network) -> Option<Seq<u8>> {
    if colon_safe(encode_utf8(s)) {
        match cashaddr_read(s) {
            Some((b, k, n)) => if k && n == network {
                Some(b)
            } else {
                None
            },
            None => None,
        }
    } else {
        None
    }
}

/// What legacy decoding of a text yields: for the bytes behind it, the
/// address `legacy_payload` finds or `Decoding`; `Decoding` when the text is
/// not Base58.
pub open spec fn legacy_outcome(s: Seq<char>, network: Network, r: Result<Address, CryptoError>) -> bool {
    &&& forall|v: Seq<u8>|
        #![trigger base58_of(v)]
        base58_of(v) == s ==> match legacy_payload(v, network) {
            Some(p) => r matches Ok(a) && a@ == p && a.scheme == AddressScheme::Base58,
            None => r == Err::<Address, CryptoError>(CryptoError::Decoding),
        }
    &&& (forall|v: Seq<u8>| base58_of(v) != s) ==> r == Err::<Address, CryptoError>(
        CryptoError::Decoding,
    )
}

/// How an address is written as text.
#[derive(Clone, Copy, Debug, PartialEq, Eq, Structural)]
pub enum AddressScheme {
    Base58,
    CashAddr,
}

/// An address: the 20-byte hash of a public key, and how it is written.
#[derive(Clone, Debug)]
pub struct Address {
    pub scheme: AddressScheme,
    pub payload: Vec<u8>,
}

impl View for Address {
    type V = Seq<u8>;

    open spec fn view(&self) -> Seq<u8> {
        self.payload@
    }
}

/// The legacy (Base58Check) address codec.
pub struct Base58Codec;

impl Base58Codec {
    /// Writes a raw address as legacy text for a network.
    pub fn encode(raw: &[u8], network: &Network) -> (r: Result<String, CryptoError>)
        ensures
            r matches Ok(s) && s@ == legacy_text(raw@, *network) && !s@.contains(':'),
    {
        let mut body: Vec<u8> = Vec::new();
        body.push(network.version_byte());
        let mut i: usize = 0;
        while i < raw.len()
            invariant
                i <= raw@.len(),
                body@ == seq![network.spec_version_byte()] + raw@.subrange(0, i as int),
            decreases raw@.len() - i,
        {
            body.push(raw[i]);
            i = i + 1;
            assert(body@ =~= seq![network.spec_version_byte()] + raw@.subrange(0, i as int));
        }
        assert(raw@.subrange(0, i as int) =~= raw@);
        let ghost head = body@;
        let checksum = sha256d(body.as_slice());
        body.push(checksum[0]);
        body.push(checksum[1]);
        body.push(checksum[2]);
        body.push(checksum[3]);
        assert(body@ =~= legacy_body(raw@, *network));
        Ok(to_base58(body.as_slice()))
    }

    /// Reads the bytes behind a legacy address text: fails with `Decoding`
    /// exactly when `legacy_payload` has no address for them.
    pub fn decode_body(v: &[u8], network: &Network) -> (r: Result<Address, CryptoError>)
        ensures
            match legacy_payload(v@, *network) {
                Some(p) => r matches Ok(a) && a@ == p && a.scheme == AddressScheme::Base58,
                None => r == Err::<Address, CryptoError>(CryptoError::Decoding),
            },
    {
        if v.len() < 6 {
            return Err(CryptoError::Decoding);
        }
        let n = v.len() - 4;
        let v0 = copy_range(v, 0, n);
        let cs = sha256d(v0.as_slice());
        if v[n] != cs[0] || v[n + 1] != cs[1] || v[n + 2] != cs[2] || v[n + 3] != cs[3] {
            assert(v@.skip(n as int) != checksum4(sha256d_of(v0@))) by {
                if v@.skip(n as int) == checksum4(sha256d_of(v0@)) {
                    assert(v@.skip(n as int)[0] == v@[n as int]);
                    assert(v@.skip(n as int)[1] == v@[n + 1]);
                    assert(v@.skip(n as int)[2] == v@[n + 2]);
                    assert(v@.skip(n as int)[3] == v@[n + 3]);
                }
            }
            return Err(CryptoError::Decoding);
        }
        assert(v@.skip(n as int) =~= checksum4(sha256d_of(v0@)));
        assert(v0@ == v@.take(n as int));
        if v0[0] != network.version_byte() {
            return Err(CryptoError::Decoding);
        }
        if v0.len() != 21 {
            return Err(CryptoError::Decoding);
        }
        let payload = copy_range(v0.as_slice(), 1, 21);
        assert(payload@ =~= v0@.skip(1));
        Ok(Address { scheme: AddressScheme::Base58, payload })
    }

    /// Reads a legacy address text for a network: the raw address behind it
    /// when the text is Base58 and `legacy_payload` finds one, `Decoding`
    /// otherwise. The text that `encode` writes for a 20-byte raw address
    /// reads back as that address.
    pub fn decode(s: &str, network: &Network) -> (r: Result<Address, CryptoError>)
        ensures
            legacy_outcome(s@, *network, r),
            forall|raw: Seq<u8>|
                #![trigger legacy_body(raw, *network)]
                raw.len() == 20 && s@ == legacy_text(raw, *network) ==> (r matches Ok(a) && a@
                    == raw),
    {
        match from_base58(s) {
            Some(v) => {
                let r = Self::decode_body(v.as_slice(), network);
                proof {
                    assert forall|raw: Seq<u8>|
                        #![trigger legacy_body(raw, *network)]
                        raw.len() == 20 && s@ == legacy_text(raw, *network) implies (r matches Ok(
                            a,
                        ) && a@ == raw) by {
                        lemma_legacy_round_trip(raw, *network);
                        assert(base58_of(legacy_body(raw, *network)) == s@);
                    }
                }
                r
            },
            None => Err(CryptoError::Decoding),
        }
    }
}

impl Address {
    pub fn new(payload: Vec<u8>, scheme: AddressScheme) -> (r: Address)
        ensures
            r@ == payload@,
            r.scheme == scheme,
    {
        Address { payload, scheme }
    }

    pub fn into_payload(self) -> (r: Vec<u8>)
        ensures
            r@ == self@,
    {
        self.payload
    }

    /// The raw address bytes.
    pub fn as_bytes(&self) -> (r: &[u8])
        ensures
            r@ == self@,
    {
        self.payload.as_slice()
    }

    /// Writes the address as text for a network, in its own scheme. Legacy
    /// text always succeeds; CashAddr fails with `Encoding` exactly on hash
    /// lengths it has no size code for.
    pub fn encode(&self, network: &Network) -> (r: Result<String, CryptoError>)
        ensures
            self.scheme == AddressScheme::Base58 ==> (r matches Ok(s) && s@ == legacy_text(
                self@,
                *network,
            ) && !s@.contains(':')),
            self.scheme == AddressScheme::CashAddr ==> (r is Ok <==> cashaddr_size(self@.len())),
            self.scheme == AddressScheme::CashAddr ==> (r matches Ok(s) ==> s@ == cashaddr_of(
                self@,
                *network,
            ) && colon_safe(encode_utf8(s@))),
            r matches Err(e) ==> e == CryptoError::Encoding,
    {
        match self.scheme {
            AddressScheme::Base58 => Base58Codec::encode(self.payload.as_slice(), network),
            AddressScheme::CashAddr => match cashaddr_encode(self.payload.as_slice(), *network) {
                Some(s) => Ok(s),
                None => Err(CryptoError::Encoding),
            },
        }
    }

    /// Reads an address text for a network: a CashAddr text of a key hash on
    /// that network if it is one, else a legacy text. A text that `encode`
    /// wrote for a 20-byte hash, in either scheme, reads back as that hash.
    pub fn decode(input: &str, network: &Network) -> (r: Result<Address, CryptoError>)
        ensures
            match cashaddr_accepts(input@, *network) {
                Some(b) => r matches Ok(a) && a@ == b && a.scheme == AddressScheme::CashAddr,
                None => legacy_outcome(input@, *network, r),
            },
            forall|raw: Seq<u8>|
                #![trigger legacy_body(raw, *network)]
                raw.len() == 20 && input@ == legacy_text(raw, *network) && !input@.contains(':')
                    ==> (r matches Ok(a) && a@ == raw),
            forall|raw: Seq<u8>|
                #![trigger cashaddr_of(raw, *network)]
                raw.len() == 20 && input@ == cashaddr_of(raw, *network) && colon_safe(
                    encode_utf8(input@),
                ) ==> (r matches Ok(a) && a@ == raw),
    {
        if check_colon_safe(input.as_bytes()) {
            if let Some((body, key, net)) = cashaddr_decode(input) {
                if key && net == *network {
                    return Ok(Address { scheme: AddressScheme::CashAddr, payload: body });
                }
            }
        }
        Base58Codec::decode(input, network)
    }
}

} // verus!
