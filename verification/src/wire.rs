//! Binary wire encoding of a [`Message`]: a little-endian, tag-then-body
//! scheme. The payload starts with the variant index as `u32` little-endian;
//! each string field is its UTF-8 bytes prefixed by a `u64` little-endian
//! byte count, and each byte-vector field is likewise length-prefixed.

use vstd::prelude::*;
use vstd::assert_seqs_equal;
use vstd::bytes::{
    lemma_auto_spec_u32_to_from_le_bytes, lemma_auto_spec_u64_to_from_le_bytes,
    spec_u32_from_le_bytes, spec_u32_to_le_bytes, spec_u64_from_le_bytes, spec_u64_to_le_bytes,
    u32_from_le_bytes, u32_to_le_bytes, u64_from_le_bytes, u64_to_le_bytes,
};
use vstd::slice::{slice_subrange, slice_to_vec};
use vstd::utf8::{
    decode_utf8, decode_utf8_encode_utf8, encode_utf8, encode_utf8_decode_utf8,
    encode_utf8_valid_utf8, valid_utf8,
};

use crate::message::{Message, MsgView};

verus! {

/// The wire discriminator of each variant: its declaration position.
pub open spec fn spec_tag(m: MsgView) -> u32 {
    match m {
        MsgView::Text(_) => 0,
        MsgView::File(_, _) => 1,
        MsgView::Image(_) => 2,
        MsgView::Login(_, _) => 3,
        MsgView::Signup(_, _) => 4,
        MsgView::Passwd(_) => 5,
        MsgView::Quit => 6,
    }
}

/// A length-prefixed byte field: `u64` little-endian count, then the bytes.
pub open spec fn enc_chunk(b: Seq<u8>) -> Seq<u8> {
    spec_u64_to_le_bytes(b.len() as u64) + b
}

/// A length-prefixed string field: the count is of the UTF-8 bytes.
pub open spec fn enc_str(s: Seq<char>) -> Seq<u8> {
    enc_chunk(encode_utf8(s))
}

/// The exact bytes of one encoded message.
pub open spec fn spec_encode(m: MsgView) -> Seq<u8> {
    spec_u32_to_le_bytes(spec_tag(m)) + match m {
        MsgView::Text(t) => enc_str(t),
        MsgView::File(n, b) => enc_str(n) + enc_chunk(b),
        MsgView::Image(b) => enc_chunk(b),
        MsgView::Login(u, p) => enc_str(u) + enc_str(p),
        MsgView::Signup(u, p) => enc_str(u) + enc_str(p),
        MsgView::Passwd(p) => enc_str(p),
        MsgView::Quit => Seq::empty(),
    }
}

/// Every field's length prefix must fit in a `u64`; values held in actual
/// `Vec`s and `String`s always satisfy this.
pub open spec fn encodable(m: MsgView) -> bool {
    match m {
        MsgView::Text(t) => encode_utf8(t).len() <= u64::MAX,
        MsgView::File(n, b) => encode_utf8(n).len() <= u64::MAX && b.len() <= u64::MAX,
        MsgView::Image(b) => b.len() <= u64::MAX,
        MsgView::Login(u, p) => encode_utf8(u).len() <= u64::MAX && encode_utf8(p).len()
            <= u64::MAX,
        MsgView::Signup(u, p) => encode_utf8(u).len() <= u64::MAX && encode_utf8(p).len()
            <= u64::MAX,
        MsgView::Passwd(p) => encode_utf8(p).len() <= u64::MAX,
        MsgView::Quit => true,
    }
}

/// Read a `u32` little-endian off the front of `b`.
pub open spec fn take_u32(b: Seq<u8>) -> Option<(u32, Seq<u8>)> {
    if b.len() >= 4 {
        Some((spec_u32_from_le_bytes(b.take(4)), b.skip(4)))
    } else {
        None
    }
}

/// Read one length-prefixed byte field off the front of `b`.
pub open spec fn take_chunk(b: Seq<u8>) -> Option<(Seq<u8>, Seq<u8>)> {
    if b.len() >= 8 {
        let n = spec_u64_from_le_bytes(b.take(8)) as int;
        if b.len() - 8 >= n {
            Some((b.subrange(8, 8 + n), b.skip(8 + n)))
        } else {
            None
        }
    } else {
        None
    }
}

/// Read one length-prefixed string field off the front of `b`; the bytes
/// must be valid UTF-8.
pub open spec fn take_str(b: Seq<u8>) -> Option<(Seq<char>, Seq<u8>)> {
    match take_chunk(b) {
        Some((c, rest)) => if valid_utf8(c) {
            Some((decode_utf8(c), rest))
        } else {
            None
        },
        None => None,
    }
}

/// The exact decoding of a payload: `Some` on precisely the byte sequences
/// that are the complete encoding of one message, with nothing trailing.
pub open spec fn spec_decode(b: Seq<u8>) -> Option<MsgView> {
    match take_u32(b) {
        None => None,
        Some((tag, r0)) => if tag == 0 {
            match take_str(r0) {
                Some((t, r1)) => if r1.len() == 0 {
                    Some(MsgView::Text(t))
                } else {
                    None
                },
                None => None,
            }
        } else if tag == 1 {
            match take_str(r0) {
                Some((n, r1)) => match take_chunk(r1) {
                    Some((d, r2)) => if r2.len() == 0 {
                        Some(MsgView::File(n, d))
                    } else {
                        None
                    },
                    None => None,
                },
                None => None,
            }
        } else if tag == 2 {
            match take_chunk(r0) {
                Some((d, r1)) => if r1.len() == 0 {
                    Some(MsgView::Image(d))
                } else {
                    None
                },
                None => None,
            }
        } else if tag == 3 {
            match take_str(r0) {
                Some((u, r1)) => match take_str(r1) {
                    Some((p, r2)) => if r2.len() == 0 {
                        Some(MsgView::Login(u, p))
                    } else {
                        None
                    },
                    None => None,
                },
                None => None,
            }
        } else if tag == 4 {
            match take_str(r0) {
                Some((u, r1)) => match take_str(r1) {
                    Some((p, r2)) => if r2.len() == 0 {
                        Some(MsgView::Signup(u, p))
                    } else {
                        None
                    },
                    None => None,
                },
                None => None,
            }
        } else if tag == 5 {
            match take_str(r0) {
                Some((p, r1)) => if r1.len() == 0 {
                    Some(MsgView::Passwd(p))
                } else {
                    None
                },
                None => None,
            }
        } else if tag == 6 {
            if r0.len() == 0 {
                Some(MsgView::Quit)
            } else {
                None
            }
        } else {
            None
        },
    }
}

proof fn lemma_take_chunk_of_enc(b: Seq<u8>, rest: Seq<u8>)
    requires
        b.len() <= u64::MAX,
    ensures
        take_chunk(enc_chunk(b) + rest) == Some((b, rest)),
{
    lemma_auto_spec_u64_to_from_le_bytes();
    let whole = enc_chunk(b) + rest;
    assert_seqs_equal!(whole.take(8) == spec_u64_to_le_bytes(b.len() as u64));
    assert(spec_u64_from_le_bytes(whole.take(8)) == b.len() as u64);
    assert_seqs_equal!(whole.subrange(8, 8 + b.len() as int) == b);
    assert_seqs_equal!(whole.skip(8 + b.len() as int) == rest);
}

proof fn lemma_take_str_of_enc(s: Seq<char>, rest: Seq<u8>)
    requires
        encode_utf8(s).len() <= u64::MAX,
    ensures
        take_str(enc_str(s) + rest) == Some((s, rest)),
{
    lemma_take_chunk_of_enc(encode_utf8(s), rest);
    encode_utf8_valid_utf8(s);
    encode_utf8_decode_utf8(s);
}

/// Decoding inverts encoding: every message value comes back from its own
/// bytes, for all variants and all field contents including empty ones.
pub proof fn lemma_codec_round_trip(m: MsgView)
    requires
        encodable(m),
    ensures
        spec_decode(spec_encode(m)) == Some(m),
{
    lemma_auto_spec_u32_to_from_le_bytes();
    let whole = spec_encode(m);
    let body = whole.skip(4);
    assert_seqs_equal!(whole.take(4) == spec_u32_to_le_bytes(spec_tag(m)));
    assert(take_u32(whole) == Some((spec_tag(m), body)));
    match m {
        MsgView::Text(t) => {
            assert_seqs_equal!(body == enc_str(t) + Seq::<u8>::empty());
            lemma_take_str_of_enc(t, Seq::empty());
        },
        MsgView::File(n, b) => {
            assert_seqs_equal!(body == enc_str(n) + (enc_chunk(b) + Seq::<u8>::empty()));
            lemma_take_str_of_enc(n, enc_chunk(b) + Seq::empty());
            lemma_take_chunk_of_enc(b, Seq::empty());
        },
        MsgView::Image(b) => {
            assert_seqs_equal!(body == enc_chunk(b) + Seq::<u8>::empty());
            lemma_take_chunk_of_enc(b, Seq::empty());
        },
        MsgView::Login(u, p) => {
            assert_seqs_equal!(body == enc_str(u) + (enc_str(p) + Seq::<u8>::empty()));
            lemma_take_str_of_enc(u, enc_str(p) + Seq::empty());
            lemma_take_str_of_enc(p, Seq::empty());
        },
        MsgView::Signup(u, p) => {
            assert_seqs_equal!(body == enc_str(u) + (enc_str(p) + Seq::<u8>::empty()));
            lemma_take_str_of_enc(u, enc_str(p) + Seq::empty());
            lemma_take_str_of_enc(p, Seq::empty());
        },
        MsgView::Passwd(p) => {
            assert_seqs_equal!(body == enc_str(p) + Seq::<u8>::empty());
            lemma_take_str_of_enc(p, Seq::empty());
        },
        MsgView::Quit => {
            assert(body.len() == 0);
        },
    }
}

// --- executable encoding ---

fn push_u32(out: &mut Vec<u8>, x: u32)
    ensures
        final(out)@ == old(out)@ + spec_u32_to_le_bytes(x),
{
    let mut b = u32_to_le_bytes(x);
    out.append(&mut b);
}

fn push_chunk(out: &mut Vec<u8>, data: &[u8])
    ensures
        final(out)@ == old(out)@ + enc_chunk(data@),
{
    proof {
        lemma_auto_spec_u64_to_from_le_bytes();
    }
    let n: u64 = data.len() as u64;
    let mut b = u64_to_le_bytes(n);
    out.append(&mut b);
    out.extend_from_slice(data);
}

fn push_str(out: &mut Vec<u8>, s: &str)
    ensures
        final(out)@ == old(out)@ + enc_str(s@),
{
    let bv = s.as_bytes_vec();
    push_chunk(out, bv.as_slice());
}

/// Serialize one message into its exact wire bytes.
pub fn encode_message(m: &Message) -> (r: Vec<u8>)
    ensures
        r@ == spec_encode(m@),
{
    let mut out: Vec<u8> = Vec::new();
    match m {
        Message::Text(t) => {
            push_u32(&mut out, 0);
            push_str(&mut out, t.as_str());
        },
        Message::File(n, b) => {
            push_u32(&mut out, 1);
            push_str(&mut out, n.as_str());
            push_chunk(&mut out, b.as_slice());
        },
        Message::Image(b) => {
            push_u32(&mut out, 2);
            push_chunk(&mut out, b.as_slice());
        },
        Message::Login(u, p) => {
            push_u32(&mut out, 3);
            push_str(&mut out, u.as_str());
            push_str(&mut out, p.as_str());
        },
        Message::Signup(u, p) => {
            push_u32(&mut out, 4);
            push_str(&mut out, u.as_str());
            push_str(&mut out, p.as_str());
        },
        Message::Passwd(p) => {
            push_u32(&mut out, 5);
            push_str(&mut out, p.as_str());
        },
        Message::Quit => {
            push_u32(&mut out, 6);
        },
    }
    proof {
        assert_seqs_equal!(out@ == spec_encode(m@));
    }
    out
}

// --- executable decoding ---

/// Relies on `String::from_utf8`: it succeeds exactly on valid UTF-8 input,
/// and the returned string holds those very bytes.
#[verifier::external_body]
fn string_from_utf8(v: Vec<u8>) -> (r: Option<String>)
    ensures
        r is Some <==> valid_utf8(v@),
        r matches Some(s) ==> encode_utf8(s@) == v@,
{
    String::from_utf8(v).ok()
}

pub(crate) fn read_u32(bytes: &[u8], pos: usize) -> (r: Option<(u32, usize)>)
    requires
        pos <= bytes@.len(),
    ensures
        r matches Some((x, p2)) ==> p2 == pos + 4 && p2 <= bytes@.len() && take_u32(
            bytes@.skip(pos as int),
        ) == Some((x, bytes@.skip(p2 as int))),
        r is None ==> take_u32(bytes@.skip(pos as int)) is None,
{
    if bytes.len() - pos >= 4 {
        let s = slice_subrange(bytes, pos, pos + 4);
        let x = u32_from_le_bytes(s);
        proof {
            assert_seqs_equal!(bytes@.skip(pos as int).take(4) == bytes@.subrange(pos as int, pos as int + 4));
            assert_seqs_equal!(bytes@.skip(pos as int).skip(4) == bytes@.skip(pos as int + 4));
        }
        Some((x, pos + 4))
    } else {
        None
    }
}

fn read_chunk(bytes: &[u8], pos: usize) -> (r: Option<(Vec<u8>, usize)>)
    requires
        pos <= bytes@.len(),
    ensures
        r matches Some((v, p2)) ==> pos <= p2 <= bytes@.len() && take_chunk(
            bytes@.skip(pos as int),
        ) == Some((v@, bytes@.skip(p2 as int))),
        r is None ==> take_chunk(bytes@.skip(pos as int)) is None,
{
    proof {
        lemma_auto_spec_u64_to_from_le_bytes();
    }
    if bytes.len() - pos >= 8 {
        let s = slice_subrange(bytes, pos, pos + 8);
        let n64 = u64_from_le_bytes(s);
        proof {
            assert_seqs_equal!(bytes@.skip(pos as int).take(8) == bytes@.subrange(pos as int, pos as int + 8));
        }
        let rem: usize = bytes.len() - (pos + 8);
        if n64 <= rem as u64 {
            let n: usize = n64 as usize;
            let v = slice_to_vec(slice_subrange(bytes, pos + 8, pos + 8 + n));
            proof {
                assert_seqs_equal!(bytes@.skip(pos as int).subrange(8, 8 + n as int)
                    == bytes@.subrange(pos as int + 8, pos as int + 8 + n as int));
                assert_seqs_equal!(bytes@.skip(pos as int).skip(8 + n as int)
                    == bytes@.skip(pos as int + 8 + n as int));
            }
            Some((v, pos + 8 + n))
        } else {
            None
        }
    } else {
        None
    }
}

fn read_string(bytes: &[u8], pos: usize) -> (r: Option<(String, usize)>)
    requires
        pos <= bytes@.len(),
    ensures
        r matches Some((s, p2)) ==> pos <= p2 <= bytes@.len() && take_str(bytes@.skip(pos as int))
            == Some((s@, bytes@.skip(p2 as int))),
        r is None ==> take_str(bytes@.skip(pos as int)) is None,
{
    match read_chunk(bytes, pos) {
        None => None,
        Some((v, p2)) => {
            let ghost vb = v@;
            match string_from_utf8(v) {
                None => None,
                Some(s) => {
                    proof {
                        encode_utf8_decode_utf8(s@);
                    }
                    Some((s, p2))
                },
            }
        },
    }
}

/// Parse one complete payload; succeeds exactly when the bytes are the
/// encoding of one message with nothing trailing.
pub fn decode_message(bytes: &[u8]) -> (r: Option<Message>)
    ensures
        r matches Some(m) ==> spec_decode(bytes@) == Some(m@),
        r is None ==> spec_decode(bytes@) is None,
{
    proof {
        assert_seqs_equal!(bytes@.skip(0) == bytes@);
    }
    let n = bytes.len();
    match read_u32(bytes, 0) {
        None => None,
        Some((tag, p0)) => {
            if tag == 0 {
                match read_string(bytes, p0) {
                    Some((t, p1)) if p1 == n => Some(Message::Text(t)),
                    _ => None,
                }
            } else if tag == 1 {
                match read_string(bytes, p0) {
                    Some((name, p1)) => match read_chunk(bytes, p1) {
                        Some((d, p2)) if p2 == n => Some(Message::File(name, d)),
                        _ => None,
                    },
                    None => None,
                }
            } else if tag == 2 {
                match read_chunk(bytes, p0) {
                    Some((d, p1)) if p1 == n => Some(Message::Image(d)),
                    _ => None,
                }
            } else if tag == 3 {
                match read_string(bytes, p0) {
                    Some((u, p1)) => match read_string(bytes, p1) {
                        Some((p, p2)) if p2 == n => Some(Message::Login(u, p)),
                        _ => None,
                    },
                    None => None,
                }
            } else if tag == 4 {
                match read_string(bytes, p0) {
                    Some((u, p1)) => match read_string(bytes, p1) {
                        Some((p, p2)) if p2 == n => Some(Message::Signup(u, p)),
                        _ => None,
                    },
                    None => None,
                }
            } else if tag == 5 {
                match read_string(bytes, p0) {
                    Some((p, p1)) if p1 == n => Some(Message::Passwd(p)),
                    _ => None,
                }
            } else if tag == 6 {
                if p0 == n {
                    Some(Message::Quit)
                } else {
                    None
                }
            } else {
                None
            }
        },
    }
}

} // verus!
