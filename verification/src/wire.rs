//! MessagePack framing of [`Protocol`] frames.
//!
//! On the wire a frame is a name tag (`namedBinary`, `json`, `ping` or
//! `pong`) and a payload: raw UTF-8 bytes for `json`, and a MessagePack
//! map for the other tags.  Binary fields use the `bin 8/16/32` formats
//! with a minimal-width header; timestamps ride as `uint 64`.  The decoder
//! accepts any `bin` width but is otherwise canonical.  The synthetic
//! `Ready` frame has no wire form and is refused by the encoder.
//!
//! The four-frame socket envelope is `[route prefix, empty delimiter,
//! name, payload]`; both peers are router-style sockets, so the server
//! side uses the fixed well-known identity `0x24 0x24 0x24 0x24`.

use vstd::prelude::*;
use vstd::utf8::{valid_utf8, decode_utf8, encode_utf8, encode_utf8_valid_utf8,
    encode_utf8_decode_utf8};

use crate::NetError;
use crate::NetResult;
use crate::protocol::{JsonString, NamedBinaryData, NamedBinaryModel, PingData, PongData,
    Protocol, ProtocolModel};

verus! {

broadcast use vstd::seq::group_seq_axioms;

// ---------------------------------------------------------------------
// Byte-level building blocks
// ---------------------------------------------------------------------

/// The eight bytes of `v` in big-endian order.
pub open spec fn u64_be(v: u64) -> Seq<u8> {
    seq![
        (v >> 56) as u8,
        (v >> 48) as u8,
        (v >> 40) as u8,
        (v >> 32) as u8,
        (v >> 24) as u8,
        (v >> 16) as u8,
        (v >> 8) as u8,
        v as u8,
    ]
}

/// The value read back from eight big-endian bytes.
pub open spec fn be_u64(b: Seq<u8>) -> u64
    recommends
        b.len() == 8,
{
    (((b[0] as u64) << 56) | ((b[1] as u64) << 48) | ((b[2] as u64) << 40)
        | ((b[3] as u64) << 32) | ((b[4] as u64) << 24) | ((b[5] as u64) << 16)
        | ((b[6] as u64) << 8) | (b[7] as u64)) as u64
}

pub proof fn lemma_u64_be_round_trip(v: u64)
    ensures
        be_u64(u64_be(v)) == v,
{
    let b0 = (v >> 56) as u8;
    let b1 = (v >> 48) as u8;
    let b2 = (v >> 40) as u8;
    let b3 = (v >> 32) as u8;
    let b4 = (v >> 24) as u8;
    let b5 = (v >> 16) as u8;
    let b6 = (v >> 8) as u8;
    let b7 = v as u8;
    assert((((b0 as u64) << 56) | ((b1 as u64) << 48) | ((b2 as u64) << 40)
        | ((b3 as u64) << 32) | ((b4 as u64) << 24) | ((b5 as u64) << 16)
        | ((b6 as u64) << 8) | (b7 as u64)) == v) by (bit_vector)
        requires
            b0 == (v >> 56) as u8,
            b1 == (v >> 48) as u8,
            b2 == (v >> 40) as u8,
            b3 == (v >> 32) as u8,
            b4 == (v >> 24) as u8,
            b5 == (v >> 16) as u8,
            b6 == (v >> 8) as u8,
            b7 == v as u8,
    ;
}

/// Append the big-endian bytes of `v` to `out`.
fn push_u64_be(out: &mut Vec<u8>, v: u64)
    ensures
        final(out)@ == old(out)@ + u64_be(v),
{
    out.push(#[verifier::truncate] ((v >> 56) as u8));
    out.push(#[verifier::truncate] ((v >> 48) as u8));
    out.push(#[verifier::truncate] ((v >> 40) as u8));
    out.push(#[verifier::truncate] ((v >> 32) as u8));
    out.push(#[verifier::truncate] ((v >> 24) as u8));
    out.push(#[verifier::truncate] ((v >> 16) as u8));
    out.push(#[verifier::truncate] ((v >> 8) as u8));
    out.push(#[verifier::truncate] (v as u8));
    assert(final(out)@ =~= old(out)@ + u64_be(v));
}

/// Read eight big-endian bytes starting at `i`.
fn read_u64_be(d: &Vec<u8>, i: usize) -> (r: u64)
    requires
        i + 8 <= d.len(),
    ensures
        r == be_u64(d@.subrange(i as int, i as int + 8)),
{
    let r: u64 = ((d[i] as u64) << 56) | ((d[i + 1] as u64) << 48) | ((d[i + 2] as u64) << 40)
        | ((d[i + 3] as u64) << 32) | ((d[i + 4] as u64) << 24) | ((d[i + 5] as u64) << 16)
        | ((d[i + 6] as u64) << 8) | (d[i + 7] as u64);
    proof {
        let s = d@.subrange(i as int, i as int + 8);
        assert(s[0] == d@[i as int]);
        assert(s[1] == d@[i as int + 1]);
        assert(s[2] == d@[i as int + 2]);
        assert(s[3] == d@[i as int + 3]);
        assert(s[4] == d@[i as int + 4]);
        assert(s[5] == d@[i as int + 5]);
        assert(s[6] == d@[i as int + 6]);
        assert(s[7] == d@[i as int + 7]);
    }
    r
}

/// Copy `d[from..to]` into a fresh vector.
fn copy_range(d: &Vec<u8>, from: usize, to: usize) -> (r: Vec<u8>)
    requires
        from <= to <= d@.len(),
    ensures
        r@ == d@.subrange(from as int, to as int),
{
    let mut r: Vec<u8> = Vec::new();
    let mut i: usize = from;
    while i < to
        invariant
            from <= i <= to <= d@.len(),
            r@ == d@.subrange(from as int, i as int),
        decreases to - i,
    {
        r.push(d[i]);
        i = i + 1;
        assert(r@ =~= d@.subrange(from as int, i as int));
    }
    r
}

/// True when the two byte vectors hold the same bytes.
fn bytes_eq(a: &Vec<u8>, b: &Vec<u8>) -> (r: bool)
    ensures
        r == (a@ == b@),
{
    if a.len() != b.len() {
        proof {
            assert(a@ != b@);
        }
        return false;
    }
    let n: usize = a.len();
    let mut i: usize = 0;
    while i < n
        invariant
            i <= n,
            n == a@.len() == b@.len(),
            forall|k: int| 0 <= k < i ==> a@[k] == b@[k],
        decreases n - i,
    {
        if a[i] != b[i] {
            return false;
        }
        i = i + 1;
    }
    proof {
        assert(a@ =~= b@);
    }
    true
}

// ---------------------------------------------------------------------
// MessagePack shapes used by the protocol
// ---------------------------------------------------------------------

/// MessagePack `fixstr` key `"name"`.
pub open spec fn key_name() -> Seq<u8> {
    seq![0xa4u8, 0x6e, 0x61, 0x6d, 0x65]
}

/// MessagePack `fixstr` key `"data"`.
pub open spec fn key_data() -> Seq<u8> {
    seq![0xa4u8, 0x64, 0x61, 0x74, 0x61]
}

/// MessagePack `fixstr` key `"sent"`.
pub open spec fn key_sent() -> Seq<u8> {
    seq![0xa4u8, 0x73, 0x65, 0x6e, 0x74]
}

/// MessagePack `fixstr` key `"orig"`.
pub open spec fn key_orig() -> Seq<u8> {
    seq![0xa4u8, 0x6f, 0x72, 0x69, 0x67]
}

/// MessagePack `fixstr` key `"recv"`.
pub open spec fn key_recv() -> Seq<u8> {
    seq![0xa4u8, 0x72, 0x65, 0x63, 0x76]
}

/// The minimal-width MessagePack `bin` header for a payload of `n` bytes.
pub open spec fn bin_header(n: nat) -> Seq<u8>
    recommends
        n < 0x1_0000_0000,
{
    if n < 0x100 {
        seq![0xc4u8, n as u8]
    } else if n < 0x10000 {
        seq![0xc5u8, (n / 0x100) as u8, (n % 0x100) as u8]
    } else {
        seq![
            0xc6u8,
            (n / 0x100 / 0x100 / 0x100) as u8,
            ((n / 0x100 / 0x100) % 0x100) as u8,
            ((n / 0x100) % 0x100) as u8,
            (n % 0x100) as u8,
        ]
    }
}

/// A MessagePack `bin` item: minimal header, then the raw bytes.
pub open spec fn enc_bin(b: Seq<u8>) -> Seq<u8>
    recommends
        b.len() < 0x1_0000_0000,
{
    bin_header(b.len()) + b
}

/// A MessagePack `uint 64` item.
pub open spec fn enc_u64(v: u64) -> Seq<u8> {
    seq![0xcfu8] + u64_be(v)
}

/// The MessagePack map `{"name": <name>, "data": <data>}`.
pub open spec fn enc_named_binary(m: NamedBinaryModel) -> Seq<u8> {
    seq![0x82u8] + key_name() + enc_bin(m.name) + key_data() + enc_bin(m.data)
}

/// The MessagePack map `{"sent": <sent>}`.
pub open spec fn enc_ping(sent: u64) -> Seq<u8> {
    seq![0x81u8] + key_sent() + enc_u64(sent)
}

/// The MessagePack map `{"orig": <orig>, "recv": <recv>}`.
pub open spec fn enc_pong(orig: u64, recv: u64) -> Seq<u8> {
    seq![0x82u8] + key_orig() + enc_u64(orig) + key_recv() + enc_u64(recv)
}

/// Parse one MessagePack `bin` item at offset `i`; any of the three
/// header widths is accepted.  Yields the payload and the next offset.
pub open spec fn parse_bin(d: Seq<u8>, i: int) -> Option<(Seq<u8>, int)>
    recommends
        0 <= i,
{
    if i < d.len() && d[i] == 0xc4 {
        if i + 2 <= d.len() {
            let n = d[i + 1] as int;
            if i + 2 + n <= d.len() {
                Some((d.subrange(i + 2, i + 2 + n), i + 2 + n))
            } else {
                None
            }
        } else {
            None
        }
    } else if i < d.len() && d[i] == 0xc5 {
        if i + 3 <= d.len() {
            let n = (d[i + 1] as int) * 0x100 + (d[i + 2] as int);
            if i + 3 + n <= d.len() {
                Some((d.subrange(i + 3, i + 3 + n), i + 3 + n))
            } else {
                None
            }
        } else {
            None
        }
    } else if i < d.len() && d[i] == 0xc6 {
        if i + 5 <= d.len() {
            let n = (((d[i + 1] as int) * 0x100 + (d[i + 2] as int)) * 0x100 + (d[i + 3] as int))
                * 0x100 + (d[i + 4] as int);
            if i + 5 + n <= d.len() {
                Some((d.subrange(i + 5, i + 5 + n), i + 5 + n))
            } else {
                None
            }
        } else {
            None
        }
    } else {
        None
    }
}

/// Parse one MessagePack `uint 64` item at offset `i`.
pub open spec fn parse_u64(d: Seq<u8>, i: int) -> Option<(u64, int)>
    recommends
        0 <= i,
{
    if i + 9 <= d.len() && d[i] == 0xcf {
        Some((be_u64(d.subrange(i + 1, i + 9)), i + 9))
    } else {
        None
    }
}

/// Decode the payload of a `namedBinary` frame.
pub open spec fn dec_named_binary(d: Seq<u8>) -> Option<NamedBinaryModel> {
    if d.len() >= 6 && d[0] == 0x82 && d.subrange(1, 6) == key_name() {
        match parse_bin(d, 6) {
            Some((name, j)) => {
                if j + 5 <= d.len() && d.subrange(j, j + 5) == key_data() {
                    match parse_bin(d, j + 5) {
                        Some((data, k)) => {
                            if k == d.len() {
                                Some(NamedBinaryModel { name: name, data: data })
                            } else {
                                None
                            }
                        },
                        None => None,
                    }
                } else {
                    None
                }
            },
            None => None,
        }
    } else {
        None
    }
}

/// Decode the payload of a `ping` frame.
pub open spec fn dec_ping(d: Seq<u8>) -> Option<u64> {
    if d.len() >= 6 && d[0] == 0x81 && d.subrange(1, 6) == key_sent() {
        match parse_u64(d, 6) {
            Some((v, j)) => if j == d.len() { Some(v) } else { None },
            None => None,
        }
    } else {
        None
    }
}

/// Round trip of the `bin` item codec: parsing an encoded item embedded
/// at offset `i` of a larger buffer yields the payload back.
pub proof fn lemma_parse_bin_at(d: Seq<u8>, i: int, b: Seq<u8>)
    requires
        0 <= i,
        b.len() < 0x1_0000_0000,
        i + enc_bin(b).len() <= d.len(),
        d.subrange(i, i + enc_bin(b).len()) == enc_bin(b),
    ensures
        parse_bin(d, i) == Some((b, i + enc_bin(b).len())),
{
    let n = b.len() as int;
    let e = enc_bin(b);
    let h = bin_header(b.len());
    let hl = h.len() as int;
    let sub = d.subrange(i, i + e.len());
    assert(e.len() == hl + n);
    assert forall|k: int| 0 <= k < e.len() implies d[i + k] == e[k] by {
        assert(sub[k] == d[i + k]);
    }
    assert forall|k: int| 0 <= k < hl implies d[i + k] == h[k] by {
        assert(d[i + k] == e[k]);
        assert(e[k] == h[k]);
    }
    assert forall|k: int| 0 <= k < n implies d.subrange(i + hl, i + hl + n)[k] == b[k] by {
        assert(d.subrange(i + hl, i + hl + n)[k] == d[i + (hl + k)]);
        assert(d[i + (hl + k)] == e[hl + k]);
        assert(e[hl + k] == b[k]);
    }
    assert(d.subrange(i + hl, i + hl + n) =~= b);
    if n < 0x100 {
        assert(d[i + 0] == h[0]);
        assert(d[i + 1] == h[1]);
        assert(d[i] == 0xc4);
        assert(d[i + 1] == n as u8);
        assert((n as u8) as int == n);
        assert(d.subrange(i + 2, i + 2 + n) == b);
    } else if n < 0x10000 {
        assert(d[i + 0] == h[0]);
        assert(d[i + 1] == h[1]);
        assert(d[i + 2] == h[2]);
        assert(d[i] == 0xc5);
        assert(d[i + 1] == (n / 0x100) as u8);
        assert(d[i + 2] == (n % 0x100) as u8);
        assert(n / 0x100 < 0x100);
        vstd::arithmetic::div_mod::lemma_fundamental_div_mod(n, 0x100);
        assert((d[i + 1] as int) * 0x100 + (d[i + 2] as int) == n);
        assert(d.subrange(i + 3, i + 3 + n) == b);
    } else {
        assert(d[i + 0] == h[0]);
        assert(d[i + 1] == h[1]);
        assert(d[i + 2] == h[2]);
        assert(d[i + 3] == h[3]);
        assert(d[i + 4] == h[4]);
        assert(d[i] == 0xc6);
        let q1 = n / 0x100;
        let q2 = q1 / 0x100;
        let q3 = q2 / 0x100;
        assert(q3 < 0x100) by {
            vstd::arithmetic::div_mod::lemma_div_denominator(n, 0x100, 0x100);
            vstd::arithmetic::div_mod::lemma_div_denominator(n, 0x10000, 0x100);
            assert(q3 == n / 0x1000000);
            vstd::arithmetic::div_mod::lemma_div_is_ordered(n, 0xFFFF_FFFF, 0x1000000);
        }
        vstd::arithmetic::div_mod::lemma_fundamental_div_mod(n, 0x100);
        vstd::arithmetic::div_mod::lemma_fundamental_div_mod(q1, 0x100);
        vstd::arithmetic::div_mod::lemma_fundamental_div_mod(q2, 0x100);
        assert(d[i + 1] == q3 as u8);
        assert(d[i + 2] == (q2 % 0x100) as u8);
        assert(d[i + 3] == (q1 % 0x100) as u8);
        assert(d[i + 4] == (n % 0x100) as u8);
        assert((((d[i + 1] as int) * 0x100 + (d[i + 2] as int)) * 0x100 + (d[i + 3] as int))
            * 0x100 + (d[i + 4] as int) == n) by {
            assert(q2 == 0x100 * q3 + q2 % 0x100);
            assert(q1 == 0x100 * q2 + q1 % 0x100);
            assert(n == 0x100 * q1 + n % 0x100);
            assert((q3 * 0x100 + q2 % 0x100) == q2) by (nonlinear_arith)
                requires q2 == 0x100 * q3 + q2 % 0x100;
            assert(((q3 * 0x100 + q2 % 0x100) * 0x100 + q1 % 0x100) == q1) by (nonlinear_arith)
                requires q2 == 0x100 * q3 + q2 % 0x100, q1 == 0x100 * q2 + q1 % 0x100;
            assert((((q3 * 0x100 + q2 % 0x100) * 0x100 + q1 % 0x100) * 0x100 + n % 0x100) == n)
                by (nonlinear_arith)
                requires
                    q2 == 0x100 * q3 + q2 % 0x100,
                    q1 == 0x100 * q2 + q1 % 0x100,
                    n == 0x100 * q1 + n % 0x100;
        }
        assert(d.subrange(i + 5, i + 5 + n) =~= b);
    }
}

/// Round trip of the `uint 64` item codec at offset `i`.
pub proof fn lemma_parse_u64_at(d: Seq<u8>, i: int, v: u64)
    requires
        0 <= i,
        i + 9 <= d.len(),
        d.subrange(i, i + 9) == enc_u64(v),
    ensures
        parse_u64(d, i) == Some((v, i + 9)),
{
    let e = enc_u64(v);
    let sub = d.subrange(i, i + 9);
    assert forall|k: int| 0 <= k < 9 implies d[i + k] == e[k] by {
        assert(sub[k] == d[i + k]);
    }
    assert(d[i + 0] == e[0]);
    assert(d[i] == 0xcf);
    assert forall|k: int| 0 <= k < 8 implies d.subrange(i + 1, i + 9)[k] == u64_be(v)[k] by {
        assert(d.subrange(i + 1, i + 9)[k] == d[i + (1 + k)]);
        assert(d[i + (1 + k)] == e[1 + k]);
        assert(e[1 + k] == u64_be(v)[k]);
    }
    assert(d.subrange(i + 1, i + 9) =~= u64_be(v));
    lemma_u64_be_round_trip(v);
}

/// Decode the payload of a `pong` frame.
pub open spec fn dec_pong(d: Seq<u8>) -> Option<(u64, u64)> {
    if d.len() >= 6 && d[0] == 0x82 && d.subrange(1, 6) == key_orig() {
        match parse_u64(d, 6) {
            Some((orig, j)) => {
                if j + 5 <= d.len() && d.subrange(j, j + 5) == key_recv() {
                    match parse_u64(d, j + 5) {
                        Some((recv, k)) => if k == d.len() { Some((orig, recv)) } else { None },
                        None => None,
                    }
                } else {
                    None
                }
            },
            None => None,
        }
    } else {
        None
    }
}

// ---------------------------------------------------------------------
// Frame name tags and the protocol-level codec
// ---------------------------------------------------------------------

/// The ASCII bytes of the name tag `"namedBinary"`.
pub open spec fn tag_named_binary() -> Seq<u8> {
    seq![0x6eu8, 0x61, 0x6d, 0x65, 0x64, 0x42, 0x69, 0x6e, 0x61, 0x72, 0x79]
}

/// The ASCII bytes of the name tag `"json"`.
pub open spec fn tag_json() -> Seq<u8> {
    seq![0x6au8, 0x73, 0x6f, 0x6e]
}

/// The ASCII bytes of the name tag `"ping"`.
pub open spec fn tag_ping() -> Seq<u8> {
    seq![0x70u8, 0x69, 0x6e, 0x67]
}

/// The ASCII bytes of the name tag `"pong"`.
pub open spec fn tag_pong() -> Seq<u8> {
    seq![0x70u8, 0x6f, 0x6e, 0x67]
}

/// Whether a frame has a wire form: `Ready` never has one, and binary
/// fields must fit the 32-bit `bin` length headers.
pub open spec fn wire_encodable(m: ProtocolModel) -> bool {
    match m {
        ProtocolModel::NamedBinary(nb) =>
            nb.name.len() < 0x1_0000_0000 && nb.data.len() < 0x1_0000_0000,
        ProtocolModel::Json(_) => true,
        ProtocolModel::Ping(_) => true,
        ProtocolModel::Pong(_, _) => true,
        ProtocolModel::Ready => false,
    }
}

/// The name tag under which a frame travels.
pub open spec fn wire_name(m: ProtocolModel) -> Seq<u8>
    recommends
        !(m is Ready),
{
    match m {
        ProtocolModel::NamedBinary(_) => tag_named_binary(),
        ProtocolModel::Json(_) => tag_json(),
        ProtocolModel::Ping(_) => tag_ping(),
        ProtocolModel::Pong(_, _) => tag_pong(),
        ProtocolModel::Ready => Seq::empty(),
    }
}

/// The payload bytes of a frame: raw UTF-8 for `json`, MessagePack maps
/// for the other tags.
pub open spec fn wire_payload(m: ProtocolModel) -> Seq<u8>
    recommends
        wire_encodable(m),
{
    match m {
        ProtocolModel::NamedBinary(nb) => enc_named_binary(nb),
        ProtocolModel::Json(s) => encode_utf8(s),
        ProtocolModel::Ping(sent) => enc_ping(sent),
        ProtocolModel::Pong(orig, recv) => enc_pong(orig, recv),
        ProtocolModel::Ready => Seq::empty(),
    }
}

/// Decode a frame from its name tag and payload bytes.  An unknown tag
/// or a malformed payload yields `None`.
pub open spec fn wire_decode(name: Seq<u8>, data: Seq<u8>) -> Option<ProtocolModel> {
    if name == tag_named_binary() {
        match dec_named_binary(data) {
            Some(nb) => Some(ProtocolModel::NamedBinary(nb)),
            None => None,
        }
    } else if name == tag_json() {
        if valid_utf8(data) {
            Some(ProtocolModel::Json(decode_utf8(data)))
        } else {
            None
        }
    } else if name == tag_ping() {
        match dec_ping(data) {
            Some(sent) => Some(ProtocolModel::Ping(sent)),
            None => None,
        }
    } else if name == tag_pong() {
        match dec_pong(data) {
            Some((orig, recv)) => Some(ProtocolModel::Pong(orig, recv)),
            None => None,
        }
    } else {
        None
    }
}

/// The four name tags are pairwise distinct.
proof fn lemma_tags_distinct()
    ensures
        tag_named_binary() != tag_json(),
        tag_named_binary() != tag_ping(),
        tag_named_binary() != tag_pong(),
        tag_json() != tag_ping(),
        tag_json() != tag_pong(),
        tag_ping() != tag_pong(),
{
    assert(tag_named_binary().len() == 11);
    assert(tag_json().len() == 4);
    assert(tag_ping().len() == 4);
    assert(tag_pong().len() == 4);
    assert(tag_json()[0] == 0x6a && tag_ping()[0] == 0x70 && tag_pong()[0] == 0x70);
    assert(tag_ping()[1] == 0x69 && tag_pong()[1] == 0x6f);
}

/// Round trip of the ping payload codec.
proof fn lemma_ping_round_trip(sent: u64)
    ensures
        dec_ping(enc_ping(sent)) == Some(sent),
{
    let d = enc_ping(sent);
    assert(d.len() == 15);
    assert(d[0] == 0x81);
    assert(d.subrange(1, 6) =~= key_sent());
    assert(d.subrange(6, 15) =~= enc_u64(sent));
    lemma_parse_u64_at(d, 6, sent);
}

/// Round trip of the pong payload codec.
proof fn lemma_pong_round_trip(orig: u64, recv: u64)
    ensures
        dec_pong(enc_pong(orig, recv)) == Some((orig, recv)),
{
    let d = enc_pong(orig, recv);
    assert(d.len() == 29);
    assert(d[0] == 0x82);
    assert(d.subrange(1, 6) =~= key_orig());
    assert(d.subrange(6, 15) =~= enc_u64(orig));
    lemma_parse_u64_at(d, 6, orig);
    assert(d.subrange(15, 20) =~= key_recv());
    assert(d.subrange(20, 29) =~= enc_u64(recv));
    lemma_parse_u64_at(d, 20, recv);
}

/// Round trip of the named-binary payload codec.
proof fn lemma_named_binary_round_trip(nb: NamedBinaryModel)
    requires
        nb.name.len() < 0x1_0000_0000,
        nb.data.len() < 0x1_0000_0000,
    ensures
        dec_named_binary(enc_named_binary(nb)) == Some(nb),
{
    let d = enc_named_binary(nb);
    let en = enc_bin(nb.name);
    let ed = enc_bin(nb.data);
    let j = 6 + en.len() as int;
    assert(d.len() == 1 + 5 + en.len() + 5 + ed.len());
    assert(d[0] == 0x82);
    assert(d.subrange(1, 6) =~= key_name());
    assert(d.subrange(6, 6 + en.len() as int) =~= en);
    lemma_parse_bin_at(d, 6, nb.name);
    assert(parse_bin(d, 6) == Some((nb.name, j)));
    assert(d.subrange(j, j + 5) =~= key_data());
    assert(d.subrange(j + 5, j + 5 + ed.len() as int) =~= ed);
    lemma_parse_bin_at(d, j + 5, nb.data);
    assert(parse_bin(d, j + 5) == Some((nb.data, j + 5 + ed.len() as int)));
    assert(j + 5 + ed.len() as int == d.len());
}

/// The protocol round trip: every frame that has a wire form decodes
/// from its own encoding back to itself.
pub proof fn lemma_wire_round_trip(m: ProtocolModel)
    requires
        wire_encodable(m),
    ensures
        wire_decode(wire_name(m), wire_payload(m)) == Some(m),
{
    lemma_tags_distinct();
    match m {
        ProtocolModel::NamedBinary(nb) => {
            lemma_named_binary_round_trip(nb);
        },
        ProtocolModel::Json(s) => {
            encode_utf8_valid_utf8(s);
            encode_utf8_decode_utf8(s);
        },
        ProtocolModel::Ping(sent) => {
            lemma_ping_round_trip(sent);
        },
        ProtocolModel::Pong(orig, recv) => {
            lemma_pong_round_trip(orig, recv);
        },
        ProtocolModel::Ready => {},
    }
}

// ---------------------------------------------------------------------
// Executable encoders
// ---------------------------------------------------------------------

/// Append all bytes of `b` to `out`.
fn push_bytes(out: &mut Vec<u8>, b: &Vec<u8>)
    ensures
        final(out)@ == old(out)@ + b@,
{
    let n: usize = b.len();
    let mut i: usize = 0;
    while i < n
        invariant
            i <= n,
            n == b@.len(),
            out@ == old(out)@ + b@.subrange(0, i as int),
        decreases n - i,
    {
        out.push(b[i]);
        i = i + 1;
        assert(out@ =~= old(out)@ + b@.subrange(0, i as int));
    }
    assert(out@ =~= old(out)@ + b@);
}

/// Append a MessagePack `bin` item (minimal header, then the bytes).
fn push_bin(out: &mut Vec<u8>, b: &Vec<u8>)
    requires
        b@.len() < 0x1_0000_0000,
    ensures
        final(out)@ == old(out)@ + enc_bin(b@),
{
    let n: usize = b.len();
    if n < 0x100 {
        out.push(0xc4);
        out.push(#[verifier::truncate] (n as u8));
    } else if n < 0x10000 {
        out.push(0xc5);
        out.push(#[verifier::truncate] ((n / 0x100) as u8));
        out.push(#[verifier::truncate] ((n % 0x100) as u8));
    } else {
        out.push(0xc6);
        out.push(#[verifier::truncate] ((n / 0x100 / 0x100 / 0x100) as u8));
        out.push(#[verifier::truncate] ((n / 0x100 / 0x100 % 0x100) as u8));
        out.push(#[verifier::truncate] ((n / 0x100 % 0x100) as u8));
        out.push(#[verifier::truncate] ((n % 0x100) as u8));
    }
    push_bytes(out, b);
    assert(final(out)@ =~= old(out)@ + enc_bin(b@));
}

/// Append the five bytes of a `fixstr` four-letter key.
fn push_key(out: &mut Vec<u8>, c0: u8, c1: u8, c2: u8, c3: u8)
    ensures
        final(out)@ == old(out)@ + seq![0xa4u8, c0, c1, c2, c3],
{
    out.push(0xa4);
    out.push(c0);
    out.push(c1);
    out.push(c2);
    out.push(c3);
    assert(final(out)@ =~= old(out)@ + seq![0xa4u8, c0, c1, c2, c3]);
}

/// Encode the payload of a `namedBinary` frame.
fn encode_named_binary(nb: &NamedBinaryData) -> (r: Vec<u8>)
    requires
        nb.name@.len() < 0x1_0000_0000,
        nb.data@.len() < 0x1_0000_0000,
    ensures
        r@ == enc_named_binary(nb@),
{
    let mut out: Vec<u8> = Vec::new();
    out.push(0x82);
    push_key(&mut out, 0x6e, 0x61, 0x6d, 0x65);
    push_bin(&mut out, &nb.name);
    push_key(&mut out, 0x64, 0x61, 0x74, 0x61);
    push_bin(&mut out, &nb.data);
    proof {
        assert(seq![0x82u8] + key_name() =~= Seq::<u8>::empty().push(0x82u8) + key_name());
        assert(out@ =~= enc_named_binary(nb@));
    }
    out
}

/// Encode the payload of a `ping` frame.
fn encode_ping(sent: u64) -> (r: Vec<u8>)
    ensures
        r@ == enc_ping(sent),
{
    let mut out: Vec<u8> = Vec::new();
    out.push(0x81);
    push_key(&mut out, 0x73, 0x65, 0x6e, 0x74);
    out.push(0xcf);
    push_u64_be(&mut out, sent);
    proof {
        assert(out@ =~= enc_ping(sent));
    }
    out
}

/// Encode the payload of a `pong` frame.
fn encode_pong(orig: u64, recv: u64) -> (r: Vec<u8>)
    ensures
        r@ == enc_pong(orig, recv),
{
    let mut out: Vec<u8> = Vec::new();
    out.push(0x82);
    push_key(&mut out, 0x6f, 0x72, 0x69, 0x67);
    out.push(0xcf);
    push_u64_be(&mut out, orig);
    push_key(&mut out, 0x72, 0x65, 0x63, 0x76);
    out.push(0xcf);
    push_u64_be(&mut out, recv);
    proof {
        assert(out@ =~= enc_pong(orig, recv));
    }
    out
}

/// The name-tag bytes for a frame; the frame must have a wire form.
fn tag_vec(p: &Protocol) -> (r: Vec<u8>)
    requires
        !(p@ is Ready),
    ensures
        r@ == wire_name(p@),
{
    let mut out: Vec<u8> = Vec::new();
    match p {
        Protocol::NamedBinary(_) => {
            // "namedBinary"
            out.push(0x6e);
            out.push(0x61);
            out.push(0x6d);
            out.push(0x65);
            out.push(0x64);
            out.push(0x42);
            out.push(0x69);
            out.push(0x6e);
            out.push(0x61);
            out.push(0x72);
            out.push(0x79);
            assert(out@ =~= tag_named_binary());
        },
        Protocol::Json(_) => {
            // "json"
            out.push(0x6a);
            out.push(0x73);
            out.push(0x6f);
            out.push(0x6e);
            assert(out@ =~= tag_json());
        },
        Protocol::Ping(_) => {
            // "ping"
            out.push(0x70);
            out.push(0x69);
            out.push(0x6e);
            out.push(0x67);
            assert(out@ =~= tag_ping());
        },
        Protocol::Pong(_) => {
            // "pong"
            out.push(0x70);
            out.push(0x6f);
            out.push(0x6e);
            out.push(0x67);
            assert(out@ =~= tag_pong());
        },
        Protocol::Ready => {},
    }
    out
}

/// Encode a frame into its name tag and payload bytes.
pub fn encode_protocol(p: &Protocol) -> (r: NamedBinaryData)
    requires
        wire_encodable(p@),
    ensures
        r@.name == wire_name(p@),
        r@.data == wire_payload(p@),
{
    let name = tag_vec(p);
    let data: Vec<u8> = match p {
        Protocol::NamedBinary(nb) => encode_named_binary(nb),
        Protocol::Json(j) => vstd::slice::slice_to_vec(j.0.as_str().as_bytes()),
        Protocol::Ping(pd) => encode_ping(pd.sent),
        Protocol::Pong(pd) => encode_pong(pd.orig, pd.recv),
        Protocol::Ready => vstd::pervasive::unreached(),
    };
    NamedBinaryData { name, data }
}

// ---------------------------------------------------------------------
// Executable decoders
// ---------------------------------------------------------------------

/// Relies on `String::from_utf8`: it succeeds exactly on valid UTF-8
/// input and returns the string whose UTF-8 encoding is the input bytes.
#[verifier::external_body]
fn string_from_utf8(b: Vec<u8>) -> (r: Option<String>)
    ensures
        r is Some <==> valid_utf8(b@),
        r matches Some(s) ==> encode_utf8(s@) == b@,
{
    match String::from_utf8(b) {
        Ok(s) => Some(s),
        Err(_) => None,
    }
}

/// Parse one MessagePack `bin` item at offset `i`.
fn parse_bin_exec(d: &Vec<u8>, i: usize) -> (r: Option<(Vec<u8>, usize)>)
    requires
        i <= d.len(),
    ensures
        match r {
            Some(p) => {
                &&& parse_bin(d@, i as int) == Some((p.0@, p.1 as int))
                &&& i <= p.1 <= d.len()
            },
            None => parse_bin(d@, i as int) is None,
        },
{
    let rem: usize = d.len() - i;
    if rem == 0 {
        return None;
    }
    let h = d[i];
    if h == 0xc4 {
        if rem < 2 {
            return None;
        }
        let n = d[i + 1] as usize;
        if n > rem - 2 {
            return None;
        }
        let b = copy_range(d, i + 2, i + 2 + n);
        Some((b, i + 2 + n))
    } else if h == 0xc5 {
        if rem < 3 {
            return None;
        }
        let n = (d[i + 1] as usize) * 0x100 + (d[i + 2] as usize);
        if n > rem - 3 {
            return None;
        }
        let b = copy_range(d, i + 3, i + 3 + n);
        Some((b, i + 3 + n))
    } else if h == 0xc6 {
        if rem < 5 {
            return None;
        }
        let n64 = (((d[i + 1] as u64) * 0x100 + (d[i + 2] as u64)) * 0x100 + (d[i + 3] as u64))
            * 0x100 + (d[i + 4] as u64);
        if n64 > (rem - 5) as u64 {
            return None;
        }
        let n = n64 as usize;
        let b = copy_range(d, i + 5, i + 5 + n);
        Some((b, i + 5 + n))
    } else {
        None
    }
}

/// Decode the payload of a `namedBinary` frame.
fn decode_named_binary(d: &Vec<u8>) -> (r: Option<NamedBinaryData>)
    ensures
        match r {
            Some(nb) => dec_named_binary(d@) == Some(nb@),
            None => dec_named_binary(d@) is None,
        },
{
    if d.len() < 6 {
        return None;
    }
    if !(d[0] == 0x82 && d[1] == 0xa4 && d[2] == 0x6e && d[3] == 0x61 && d[4] == 0x6d
        && d[5] == 0x65) {
        proof {
            if d@.subrange(1, 6) == key_name() {
                assert(d@[1] == d@.subrange(1, 6)[0]);
                assert(d@[2] == d@.subrange(1, 6)[1]);
                assert(d@[3] == d@.subrange(1, 6)[2]);
                assert(d@[4] == d@.subrange(1, 6)[3]);
                assert(d@[5] == d@.subrange(1, 6)[4]);
            }
        }
        return None;
    }
    proof {
        assert(d@.subrange(1, 6) =~= key_name());
    }
    let first = parse_bin_exec(d, 6);
    match first {
        None => None,
        Some((name, j)) => {
            if d.len() - j < 5 {
                return None;
            }
            if !(d[j] == 0xa4 && d[j + 1] == 0x64 && d[j + 2] == 0x61 && d[j + 3] == 0x74
                && d[j + 4] == 0x61) {
                proof {
                    if d@.subrange(j as int, j as int + 5) == key_data() {
                        assert(d@[j as int] == d@.subrange(j as int, j as int + 5)[0]);
                        assert(d@[j as int + 1] == d@.subrange(j as int, j as int + 5)[1]);
                        assert(d@[j as int + 2] == d@.subrange(j as int, j as int + 5)[2]);
                        assert(d@[j as int + 3] == d@.subrange(j as int, j as int + 5)[3]);
                        assert(d@[j as int + 4] == d@.subrange(j as int, j as int + 5)[4]);
                    }
                }
                return None;
            }
            proof {
                assert(d@.subrange(j as int, j as int + 5) =~= key_data());
            }
            let second = parse_bin_exec(d, j + 5);
            match second {
                None => None,
                Some((data, k)) => {
                    if k != d.len() {
                        return None;
                    }
                    Some(NamedBinaryData { name, data })
                },
            }
        },
    }
}

/// Decode the payload of a `ping` frame.
fn decode_ping(d: &Vec<u8>) -> (r: Option<PingData>)
    ensures
        match r {
            Some(p) => dec_ping(d@) == Some(p.sent),
            None => dec_ping(d@) is None,
        },
{
    if d.len() != 15 {
        proof {
            if d@.len() >= 6 && d@[0] == 0x81 && d@.subrange(1, 6) == key_sent() {
                assert(parse_u64(d@, 6) matches Some(p) ==> p.1 == 15);
            }
        }
        return None;
    }
    if !(d[0] == 0x81 && d[1] == 0xa4 && d[2] == 0x73 && d[3] == 0x65 && d[4] == 0x6e
        && d[5] == 0x74 && d[6] == 0xcf) {
        proof {
            if d@.subrange(1, 6) == key_sent() {
                assert(d@[1] == d@.subrange(1, 6)[0]);
                assert(d@[2] == d@.subrange(1, 6)[1]);
                assert(d@[3] == d@.subrange(1, 6)[2]);
                assert(d@[4] == d@.subrange(1, 6)[3]);
                assert(d@[5] == d@.subrange(1, 6)[4]);
            }
        }
        return None;
    }
    proof {
        assert(d@.subrange(1, 6) =~= key_sent());
    }
    let sent = read_u64_be(d, 7);
    Some(PingData { sent })
}

/// Decode the payload of a `pong` frame.
fn decode_pong(d: &Vec<u8>) -> (r: Option<PongData>)
    ensures
        match r {
            Some(p) => dec_pong(d@) == Some((p.orig, p.recv)),
            None => dec_pong(d@) is None,
        },
{
    if d.len() != 29 {
        proof {
            if d@.len() >= 6 && d@[0] == 0x82 && d@.subrange(1, 6) == key_orig() {
                match parse_u64(d@, 6) {
                    Some(p) => {
                        assert(p.1 == 15);
                        if d@.len() >= 20 && d@.subrange(15, 20) == key_recv() {
                            assert(parse_u64(d@, 20) matches Some(q) ==> q.1 == 29);
                        }
                    },
                    None => {},
                }
            }
        }
        return None;
    }
    if !(d[0] == 0x82 && d[1] == 0xa4 && d[2] == 0x6f && d[3] == 0x72 && d[4] == 0x69
        && d[5] == 0x67 && d[6] == 0xcf) {
        proof {
            if d@.subrange(1, 6) == key_orig() {
                assert(d@[1] == d@.subrange(1, 6)[0]);
                assert(d@[2] == d@.subrange(1, 6)[1]);
                assert(d@[3] == d@.subrange(1, 6)[2]);
                assert(d@[4] == d@.subrange(1, 6)[3]);
                assert(d@[5] == d@.subrange(1, 6)[4]);
            }
        }
        return None;
    }
    if !(d[15] == 0xa4 && d[16] == 0x72 && d[17] == 0x65 && d[18] == 0x63 && d[19] == 0x76
        && d[20] == 0xcf) {
        proof {
            assert(d@.subrange(1, 6) =~= key_orig());
            if d@.subrange(15, 20) == key_recv() {
                assert(d@[15] == d@.subrange(15, 20)[0]);
                assert(d@[16] == d@.subrange(15, 20)[1]);
                assert(d@[17] == d@.subrange(15, 20)[2]);
                assert(d@[18] == d@.subrange(15, 20)[3]);
                assert(d@[19] == d@.subrange(15, 20)[4]);
            }
        }
        return None;
    }
    proof {
        assert(d@.subrange(1, 6) =~= key_orig());
        assert(d@.subrange(15, 20) =~= key_recv());
    }
    let orig = read_u64_be(d, 7);
    let recv = read_u64_be(d, 21);
    Some(PongData { orig, recv })
}

/// True when `name` holds exactly the four given bytes.
fn name_is4(name: &Vec<u8>, c0: u8, c1: u8, c2: u8, c3: u8) -> (r: bool)
    ensures
        r == (name@ == seq![c0, c1, c2, c3]),
{
    if name.len() == 4 && name[0] == c0 && name[1] == c1 && name[2] == c2 && name[3] == c3 {
        proof {
            assert(name@ =~= seq![c0, c1, c2, c3]);
        }
        true
    } else {
        false
    }
}

/// True when `name` holds the ASCII bytes of `"namedBinary"`.
fn name_is_named_binary(name: &Vec<u8>) -> (r: bool)
    ensures
        r == (name@ == tag_named_binary()),
{
    if name.len() == 11 && name[0] == 0x6e && name[1] == 0x61 && name[2] == 0x6d
        && name[3] == 0x65 && name[4] == 0x64 && name[5] == 0x42 && name[6] == 0x69
        && name[7] == 0x6e && name[8] == 0x61 && name[9] == 0x72 && name[10] == 0x79 {
        proof {
            assert(name@ =~= tag_named_binary());
        }
        true
    } else {
        false
    }
}

/// Decode a frame from its name tag and payload bytes.
pub fn decode_protocol(name: &Vec<u8>, data: &Vec<u8>) -> (r: NetResult<Protocol>)
    ensures
        match r {
            Ok(p) => wire_decode(name@, data@) == Some(p@),
            Err(e) => wire_decode(name@, data@) is None && e is DecodeError,
        },
{
    if name_is_named_binary(name) {
        match decode_named_binary(data) {
            Some(nb) => Ok(Protocol::NamedBinary(nb)),
            None => Err(NetError::DecodeError("malformed namedBinary payload".to_owned())),
        }
    } else if name_is4(name, 0x6a, 0x73, 0x6f, 0x6e) {
        let bytes = copy_range(data, 0, data.len());
        assert(bytes@ == data@);
        match string_from_utf8(bytes) {
            Some(s) => {
                proof {
                    encode_utf8_decode_utf8(s@);
                }
                Ok(Protocol::Json(JsonString(s)))
            },
            None => Err(NetError::DecodeError("json payload is not valid utf-8".to_owned())),
        }
    } else if name_is4(name, 0x70, 0x69, 0x6e, 0x67) {
        match decode_ping(data) {
            Some(p) => Ok(Protocol::Ping(p)),
            None => Err(NetError::DecodeError("malformed ping payload".to_owned())),
        }
    } else if name_is4(name, 0x70, 0x6f, 0x6e, 0x67) {
        match decode_pong(data) {
            Some(p) => Ok(Protocol::Pong(p)),
            None => Err(NetError::DecodeError("malformed pong payload".to_owned())),
        }
    } else {
        Err(NetError::DecodeError("bad Protocol type".to_owned()))
    }
}

// ---------------------------------------------------------------------
// The four-frame socket envelope
// ---------------------------------------------------------------------

/// The fixed well-known server identity: four `0x24` bytes.
pub open spec fn route_prefix() -> Seq<u8> {
    seq![0x24u8, 0x24, 0x24, 0x24]
}

/// The byte sequences held by a vector of byte vectors.
pub open spec fn frames_view(v: Seq<Vec<u8>>) -> Seq<Seq<u8>> {
    Seq::new(v.len(), |i: int| v[i]@)
}

/// The four-frame envelope of a frame: route prefix, empty delimiter,
/// name tag, payload.
pub open spec fn envelope_frames(m: ProtocolModel) -> Seq<Seq<u8>>
    recommends
        wire_encodable(m),
{
    seq![route_prefix(), Seq::<u8>::empty(), wire_name(m), wire_payload(m)]
}

/// Decode a multipart message: exactly four frames, then the name tag
/// and payload decide the frame.
pub open spec fn envelope_decode(frames: Seq<Seq<u8>>) -> Option<ProtocolModel> {
    if frames.len() == 4 {
        wire_decode(frames[2], frames[3])
    } else {
        None
    }
}

/// The protocol round trip over the full envelope: every frame with a
/// wire form decodes from its own four-frame envelope back to itself.
pub proof fn lemma_envelope_round_trip(m: ProtocolModel)
    requires
        wire_encodable(m),
    ensures
        envelope_decode(envelope_frames(m)) == Some(m),
{
    lemma_wire_round_trip(m);
}

/// Build the four-frame envelope carrying `p`.
pub fn build_envelope(p: &Protocol) -> (r: Vec<Vec<u8>>)
    requires
        wire_encodable(p@),
    ensures
        frames_view(r@) == envelope_frames(p@),
{
    let nb = encode_protocol(p);
    let mut route: Vec<u8> = Vec::new();
    route.push(0x24);
    route.push(0x24);
    route.push(0x24);
    route.push(0x24);
    let empty: Vec<u8> = Vec::new();
    let mut r: Vec<Vec<u8>> = Vec::new();
    r.push(route);
    r.push(empty);
    r.push(nb.name);
    r.push(nb.data);
    proof {
        assert(frames_view(r@)[0] =~= route_prefix());
        assert(frames_view(r@)[1] =~= Seq::<u8>::empty());
        assert(frames_view(r@) =~= envelope_frames(p@));
    }
    r
}

/// Decode a multipart message into a frame; any frame count other than
/// four is rejected.
pub fn decode_envelope(msg: &Vec<Vec<u8>>) -> (r: NetResult<Protocol>)
    ensures
        match r {
            Ok(p) => envelope_decode(frames_view(msg@)) == Some(p@),
            Err(e) => envelope_decode(frames_view(msg@)) is None && e is DecodeError,
        },
{
    if msg.len() != 4 {
        return Err(NetError::DecodeError("bad msg len".to_owned()));
    }
    decode_protocol(&msg[2], &msg[3])
}

} // verus!
