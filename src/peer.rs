use vstd::prelude::*;

use crate::address::cashaddr_of;
use crate::address::cashaddr_size;
use crate::address::legacy_text;
use crate::address::Address;
use crate::address::AddressScheme;
use crate::crypto::CryptoError;
use crate::db::authorize_put;
use crate::db::put_decision_spec;
use crate::db::Lookup;
use crate::db::PutError;
use crate::network::Network;

verus! {

/// Seconds to wait after a record is announced before fetching it, so that
/// it has reached the announcing peer's store.
pub const VALID_DURATION: u64 = 30;

/// Why fetching from a peer failed.
#[derive(Clone, Copy, Debug, PartialEq, Eq, Structural)]
pub enum PeerError {
    /// The peer's address and the key do not make a URL.
    UrlError,
    /// The request failed or the response could not be read.
    ResponseError,
    /// The response was not a record.
    Decode,
}

/// Why one announced (peer, address) pair was dropped.
#[derive(Clone, Copy, Debug, PartialEq, Eq, Structural)]
pub enum PeerDrop {
    /// The address could not be written as text.
    Encode(CryptoError),
    /// The peer could not be reached or answered badly.
    Fetch(PeerError),
    /// The fetched record was refused, as a local write would have been.
    Rejected(PutError),
}

/// Where a peer serves the record of an address: `{peer}/keys/{address}`.
pub fn metadata_url(peer_url: &str, address_text: &str) -> (r: String)
    ensures
        r@ == peer_url@ + "/keys/"@ + address_text@,
{
    let mut url = String::from_str(peer_url);
    url.append("/keys/");
    url.append(address_text);
    url
}

/// The first step for an announced pair: the URL to fetch, after waiting
/// `VALID_DURATION` seconds. Fails only when the address has no text in
/// its scheme.
pub fn fetch_request(peer_url: &str, target: &Address, network: &Network) -> (r: Result<
    String,
    PeerDrop,
>)
    ensures
        target.scheme == AddressScheme::Base58 ==> (r matches Ok(url) && url@ == peer_url@
            + "/keys/"@ + legacy_text(target@, *network)),
        target.scheme == AddressScheme::CashAddr ==> (r is Ok <==> cashaddr_size(target@.len())),
        target.scheme == AddressScheme::CashAddr ==> (r matches Ok(url) ==> url@ == peer_url@
            + "/keys/"@ + cashaddr_of(target@, *network)),
        r matches Err(e) ==> e == PeerDrop::Encode(CryptoError::Encoding),
{
    match target.encode(network) {
        Ok(text) => Ok(metadata_url(peer_url, text.as_str())),
        Err(e) => Err(PeerDrop::Encode(e)),
    }
}

/// The last step for an announced pair, once the peer has answered and the
/// local store has been read at `now`: `Ok` when the fetched bytes are to be
/// stored under the address as they are; otherwise why the pair is dropped.
/// The peer is trusted for nothing: its record is decoded, authenticated
/// and checked for freshness exactly as a local write is, so a record older
/// than the local one never replaces it.
pub fn reconcile(target: &Address, fetched: &Result<Vec<u8>, PeerError>, current: &Lookup, now: i64) -> (r: Result<
    (),
    PeerDrop,
>)
    ensures
        match fetched {
            Err(e) => r == Err::<(), PeerDrop>(PeerDrop::Fetch(*e)),
            Ok(body) => match put_decision_spec(target@, body@, current@, now as int) {
                Ok(_) => r is Ok,
                Err(e) => r == Err::<(), PeerDrop>(PeerDrop::Rejected(e)),
            },
        },
{
    match fetched {
        Err(e) => Err(PeerDrop::Fetch(*e)),
        Ok(body) => match authorize_put(target, body.as_slice(), current, now) {
            Ok(()) => Ok(()),
            Err(e) => Err(PeerDrop::Rejected(e)),
        },
    }
}

} // verus!
