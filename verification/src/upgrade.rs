//! The WebSocket upgrade: decides, from the request's headers and query,
//! whether to switch protocols, and computes the `Sec-WebSocket-Accept` key.

use vstd::prelude::*;

verus! {

/// The digest that `sha1` computes for the given bytes: a pure function of
/// its input, named rather than spelled out.
pub uninterp spec fn sha1_of(data: Seq<u8>) -> Seq<u8>;

/// The standard base64 encoding (with padding) of the given bytes: a pure
/// function of its input, named rather than spelled out.
pub uninterp spec fn base64_of(data: Seq<u8>) -> Seq<char>;

/// Relies on sha1's streaming `Digest` interface: feeding `key` then `guid`
/// digests their concatenation, and SHA-1 digests are 20 bytes.
#[verifier::external_body]
fn sha1_concat(key: &Vec<u8>, guid: &Vec<u8>) -> (r: Vec<u8>)
    ensures
        r@ == sha1_of(key@ + guid@),
        r@.len() == 20,
{
    let mut hasher = <sha1::Sha1 as sha1::Digest>::new();
    sha1::Digest::update(&mut hasher, key.as_slice());
    sha1::Digest::update(&mut hasher, guid.as_slice());
    sha1::Digest::finalize(hasher).to_vec()
}

/// Relies on base64::encode: the standard alphabet, padded.
#[verifier::external_body]
fn base64_encode(data: &Vec<u8>) -> (r: String)
    ensures
        r@ == base64_of(data@),
{
    base64::encode(data.as_slice())
}

/// The protocol GUID appended to the client's key before hashing.
pub open spec fn guid_chars() -> Seq<char> {
    "258EAFA5-E914-47DA-95CA-C5AB0DC85B11"@
}

/// The accept key owed for a client key: the base64 of the SHA-1 of the key
/// followed by the protocol GUID's UTF-8 bytes.
pub open spec fn accept_key_of(key: Seq<u8>) -> Seq<char> {
    base64_of(sha1_of(key + vstd::utf8::encode_utf8(guid_chars())))
}

fn guid_bytes() -> (r: Vec<u8>)
    ensures
        r@ == vstd::utf8::encode_utf8(guid_chars()),
{
    let g: &str = "258EAFA5-E914-47DA-95CA-C5AB0DC85B11";
    let b = g.as_bytes();
    vstd::slice::slice_to_vec(b)
}

/// Computes the `Sec-WebSocket-Accept` value for a client's
/// `Sec-WebSocket-Key` bytes.
pub fn compute_accept_key(key: &Vec<u8>) -> (r: String)
    ensures
        r@ == accept_key_of(key@),
{
    let mut data: Vec<u8> = Vec::new();
    data.extend_from_slice(key.as_slice());
    let guid = guid_bytes();
    proof {
        assert(data@ =~= key@);
    }
    let digest = sha1_concat(&data, &guid);
    base64_encode(&digest)
}

/// The response owed to an upgrade request.
pub enum UpgradeDecision {
    /// A header was missing or wrong: respond 400, upgrade nothing.
    BadRequest,
    /// Respond 101 with this accept key; the client asked for zlib-stream
    /// compression iff `use_zlib`.
    Switching { accept_key: String, use_zlib: bool },
}

pub enum UpgradeDecisionModel {
    BadRequest,
    Switching { accept_key: Seq<char>, use_zlib: bool },
}

impl View for UpgradeDecision {
    type V = UpgradeDecisionModel;

    open spec fn view(&self) -> UpgradeDecisionModel {
        match self {
            UpgradeDecision::BadRequest => UpgradeDecisionModel::BadRequest,
            UpgradeDecision::Switching { accept_key, use_zlib } => UpgradeDecisionModel::Switching {
                accept_key: accept_key@,
                use_zlib: *use_zlib,
            },
        }
    }
}

/// The position of the first `&` at or after `i`, or the end of the query.
pub open spec fn amp_end(q: Seq<char>, i: int) -> int
    decreases q.len() - i,
{
    if i < 0 || i >= q.len() {
        i
    } else if q[i] == '&' {
        i
    } else {
        amp_end(q, i + 1)
    }
}

proof fn lemma_amp_end(q: Seq<char>, i: int)
    requires
        0 <= i,
    ensures
        i <= amp_end(q, i),
        i <= q.len() ==> amp_end(q, i) <= q.len(),
    decreases q.len() - i,
{
    if 0 <= i < q.len() && q[i] != '&' {
        lemma_amp_end(q, i + 1);
    }
}

/// Whether one of the `&`-separated parts of the query from position `i` on
/// is exactly `param`.
pub open spec fn has_param_from(q: Seq<char>, i: int, param: Seq<char>) -> bool
    decreases q.len() - i,
    via has_param_from_decreases
{
    if i < 0 || i > q.len() {
        false
    } else {
        let j = amp_end(q, i);
        if q.subrange(i, j) == param {
            true
        } else if j >= q.len() {
            false
        } else {
            has_param_from(q, j + 1, param)
        }
    }
}

#[via_fn]
proof fn has_param_from_decreases(q: Seq<char>, i: int, param: Seq<char>) {
    if 0 <= i <= q.len() {
        lemma_amp_end(q, i);
    }
}

/// Whether the query, split at `&`, has a part equal to `param`.
pub open spec fn has_param(q: Seq<char>, param: Seq<char>) -> bool {
    has_param_from(q, 0, param)
}

fn amp_scan(q: &str, i: usize) -> (r: usize)
    requires
        i <= q@.len(),
    ensures
        r == amp_end(q@, i as int),
        i <= r <= q@.len(),
    decreases q@.len() - i,
{
    if i >= q.unicode_len() {
        i
    } else if q.get_char(i) == '&' {
        i
    } else {
        amp_scan(q, i + 1)
    }
}

fn has_param_x(q: &str, i: usize, param: &str) -> (r: bool)
    requires
        i <= q@.len(),
    ensures
        r == has_param_from(q@, i as int, param@),
    decreases q@.len() - i,
{
    let j = amp_scan(q, i);
    if crate::dispatch::span_eq(q, i, j, param) {
        true
    } else if j >= q.unicode_len() {
        false
    } else {
        has_param_x(q, j + 1, param)
    }
}

/// The view of an optional header or query string.
pub open spec fn opt_chars(o: Option<&str>) -> Option<Seq<char>> {
    match o {
        Some(s) => Some(s@),
        None => None,
    }
}

pub open spec fn opt_bytes(o: Option<Vec<u8>>) -> Option<Seq<u8>> {
    match o {
        Some(b) => Some(b@),
        None => None,
    }
}

/// What the handshake decides: 400 exactly when the `Upgrade` header or the
/// `Sec-WebSocket-Key` header is missing, or `Upgrade` is not `websocket`;
/// otherwise 101 with the owed accept key, compressing iff the
/// `compress=zlib-stream` parameter is present on the connect URL — that is,
/// iff the query, split at `&`, has a part equal to it.
pub open spec fn spec_upgrade(
    upgrade: Option<Seq<char>>,
    key: Option<Seq<u8>>,
    query: Option<Seq<char>>,
) -> UpgradeDecisionModel {
    match (upgrade, key) {
        (Some(u), Some(k)) => {
            if u != "websocket"@ {
                UpgradeDecisionModel::BadRequest
            } else {
                UpgradeDecisionModel::Switching {
                    accept_key: accept_key_of(k),
                    use_zlib: match query {
                        Some(q) => has_param(q, "compress=zlib-stream"@),
                        None => false,
                    },
                }
            }
        },
        _ => UpgradeDecisionModel::BadRequest,
    }
}

/// Decides one upgrade request from its `Upgrade` header, its
/// `Sec-WebSocket-Key` header bytes, and its URI query string.
pub fn server_upgrade(
    upgrade: Option<&str>,
    key: Option<Vec<u8>>,
    query: Option<&str>,
) -> (r: UpgradeDecision)
    ensures
        r@ == spec_upgrade(opt_chars(upgrade), opt_bytes(key), opt_chars(query)),
{
    let u = match upgrade {
        None => {
            return UpgradeDecision::BadRequest;
        },
        Some(u) => u,
    };
    let k = match key {
        None => {
            return UpgradeDecision::BadRequest;
        },
        Some(k) => k,
    };
    if !(u.to_owned() == String::from_str("websocket")) {
        return UpgradeDecision::BadRequest;
    }
    let use_zlib = match query {
        Some(q) => has_param_x(q, 0, "compress=zlib-stream"),
        None => false,
    };
    let accept_key = compute_accept_key(&k);
    UpgradeDecision::Switching { accept_key, use_zlib }
}

} // verus!
