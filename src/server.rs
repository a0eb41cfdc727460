use vstd::prelude::*;
use vstd::string::StringSliceAdditionalSpecFns;
use vstd::utf8::decode_utf8;
use vstd::utf8::valid_utf8;

use crate::bitcoin::utf8_text;
use crate::network::Network;
use crate::wire::copy_range;

verus! {

/// The request methods the server tells apart.
#[derive(Clone, Copy, Debug, PartialEq, Eq, Structural)]
pub enum Method {
    Get,
    Put,
    Other,
}

/// Where a request goes.
#[derive(Clone, Debug)]
pub enum Route {
    /// The root page.
    Root,
    /// Fetch the record of the address written as this text.
    Get(String),
    /// Store a record for the address written as this text.
    Put(String),
    NotFound,
}

pub enum RouteView {
    Root,
    Get(Seq<char>),
    Put(Seq<char>),
    NotFound,
}

impl View for Route {
    type V = RouteView;

    open spec fn view(&self) -> RouteView {
        match self {
            Route::Root => RouteView::Root,
            Route::Get(k) => RouteView::Get(k@),
            Route::Put(k) => RouteView::Put(k@),
            Route::NotFound => RouteView::NotFound,
        }
    }
}

/// Where the segment that starts at `pos` ends: at the next '/', or at the end.
pub open spec fn seg_end(b: Seq<u8>, pos: int) -> int
    decreases b.len() - pos,
{
    if pos >= b.len() {
        b.len() as int
    } else if b[pos] == 47 {
        pos
    } else {
        seg_end(b, pos + 1)
    }
}

/// The '/'-separated segments from `pos` on; a '/' at the very end opens no
/// segment.
pub open spec fn segments_from(b: Seq<u8>, pos: int) -> Seq<Seq<u8>>
    decreases b.len() - pos,
{
    if pos < 0 || pos >= b.len() {
        seq![]
    } else {
        let e = seg_end(b, pos);
        if e >= b.len() || e < pos {
            seq![b.subrange(pos, b.len() as int)]
        } else {
            seq![b.subrange(pos, e)] + segments_from(b, e + 1)
        }
    }
}

/// The bytes of "keys".
pub open spec fn keys_segment() -> Seq<u8> {
    seq![107u8, 101, 121, 115]
}

/// The route of a request: the root for "/" (or ""), a key for
/// `/keys/{key}` under GET or PUT, nothing else.
pub open spec fn route_spec(path: Seq<u8>, method: Method) -> RouteView {
    let s = segments_from(path, 0);
    if s.len() == 0 {
        RouteView::NotFound
    } else if s.len() == 1 {
        if s[0].len() == 0 {
            RouteView::Root
        } else {
            RouteView::NotFound
        }
    } else if s[1] != keys_segment() || s.len() != 3 || !valid_utf8(s[2]) {
        RouteView::NotFound
    } else {
        match method {
            Method::Get => RouteView::Get(decode_utf8(s[2])),
            Method::Put => RouteView::Put(decode_utf8(s[2])),
            Method::Other => RouteView::NotFound,
        }
    }
}

fn segment_end(b: &[u8], pos: usize) -> (r: usize)
    requires
        pos <= b@.len(),
    ensures
        r as int == seg_end(b@, pos as int),
        pos <= r <= b@.len(),
{
    let mut i: usize = pos;
    while i < b.len() && b[i] != 47
        invariant
            pos <= i <= b@.len(),
            seg_end(b@, pos as int) == seg_end(b@, i as int),
        decreases b@.len() - i,
    {
        i = i + 1;
    }
    i
}

/// Routes a request by its path and method.
pub fn route(path: &str, method: Method) -> (r: Route)
    ensures
        r@ == route_spec(path.spec_bytes(), method),
{
    let b = path.as_bytes();
    let n = b.len();
    if n == 0 {
        return Route::NotFound;
    }
    let e0 = segment_end(b, 0);
    let ghost s = segments_from(b@, 0);
    if e0 >= n || e0 + 1 >= n {
        proof {
            if e0 < n {
                assert(segments_from(b@, e0 + 1) =~= seq![]);
            }
            assert(s.len() == 1);
            assert(s[0] =~= b@.subrange(0, e0 as int));
        }
        return if e0 == 0 {
            Route::Root
        } else {
            Route::NotFound
        };
    }
    let p1 = e0 + 1;
    let e1 = segment_end(b, p1);
    let ghost s1 = segments_from(b@, p1 as int);
    assert(s =~= seq![b@.subrange(0, e0 as int)] + s1);
    assert(s1[0] =~= b@.subrange(p1 as int, e1 as int));
    let is_keys = e1 - p1 == 4 && b[p1] == 107 && b[p1 + 1] == 101 && b[p1 + 2] == 121 && b[p1
        + 3] == 115;
    if !is_keys {
        assert(s[1] != keys_segment()) by {
            if s[1] == keys_segment() {
                assert(s1[0].len() == 4);
                assert(s1[0][0] == b@[p1 as int]);
                assert(s1[0][1] == b@[p1 + 1]);
                assert(s1[0][2] == b@[p1 + 2]);
                assert(s1[0][3] == b@[p1 + 3]);
            }
        }
        return Route::NotFound;
    }
    assert(s[1] =~= keys_segment());
    if e1 >= n || e1 + 1 >= n {
        proof {
            if e1 < n {
                assert(segments_from(b@, e1 + 1) =~= seq![]);
            }
            assert(s.len() == 2);
        }
        return Route::NotFound;
    }
    let p2 = e1 + 1;
    let e2 = segment_end(b, p2);
    let ghost s2 = segments_from(b@, p2 as int);
    assert(s1 =~= seq![b@.subrange(p1 as int, e1 as int)] + s2);
    if e2 < n && e2 + 1 < n {
        proof {
            assert(segments_from(b@, e2 + 1).len() >= 1);
            assert(s.len() >= 4);
        }
        return Route::NotFound;
    }
    proof {
        if e2 < n {
            assert(segments_from(b@, e2 + 1) =~= seq![]);
        }
        assert(s2 =~= seq![b@.subrange(p2 as int, e2 as int)]);
        assert(s.len() == 3);
    }
    let key_bytes = copy_range(b, p2, e2);
    let key = match utf8_text(key_bytes.as_slice()) {
        Some(k) => k,
        None => return Route::NotFound,
    };
    match method {
        Method::Get => Route::Get(key),
        Method::Put => Route::Put(key),
        Method::Other => Route::NotFound,
    }
}

/// The text served at the root.
pub fn keys_index() -> (r: String)
    ensures
        r@ == "You have found a keytp server."@,
{
    String::from_str("You have found a keytp server.")
}

/// The server: the service that answers reads, and the one that answers
/// writes.
pub struct Keyserver<G, P> {
    pub getter: G,
    pub putter: P,
}

impl<G, P> Keyserver<G, P> {
    pub fn new(getter: G, putter: P) -> (r: Self)
        ensures
            r.getter == getter,
            r.putter == putter,
    {
        Keyserver { getter, putter }
    }
}

/// Makes a `Keyserver` for each connection out of shared services.
pub struct MakeKeyserver<G, P> {
    pub getter: G,
    pub putter: P,
}

impl<G, P> MakeKeyserver<G, P> {
    pub fn new(getter: G, putter: P) -> (r: Self)
        ensures
            r.getter == getter,
            r.putter == putter,
    {
        MakeKeyserver { getter, putter }
    }
}

/// The configuration a server starts with.
#[derive(Clone, Debug)]
pub struct Settings {
    pub bind: String,
    pub zmq_addr: String,
    pub secret: String,
    pub db_path: String,
    pub payment_server_url: String,
    pub network: Network,
}

} // verus!
