//! The byte layout of account data: little-endian integers, length-prefixed
//! UTF-8 strings, raw 32-byte identifiers, tagged options and booleans.
//! Each field has a byte encoding and a reader that takes one field off the
//! front of a byte sequence; the reader undoes the encoding exactly.
use vstd::prelude::*;
use vstd::bytes::{
    spec_u128_from_le_bytes, spec_u128_to_le_bytes, spec_u32_from_le_bytes,
    spec_u32_to_le_bytes, lemma_auto_spec_u128_to_from_le_bytes,
    lemma_auto_spec_u32_to_from_le_bytes,
};
use vstd::utf8::{
    decode_utf8, encode_utf8, valid_utf8, encode_utf8_valid_utf8, encode_utf8_decode_utf8,
    decode_utf8_encode_utf8,
};

use vstd::slice::{slice_subrange, slice_to_vec};

use crate::account::AccountId;

verus! {

/// The bytes of `b` from position `pos` on.
pub open spec fn rest(b: Seq<u8>, pos: int) -> Seq<u8> {
    b.subrange(pos, b.len() as int)
}

/// Little-endian bytes of a `u128`.
pub open spec fn u128_bytes(x: u128) -> Seq<u8> {
    spec_u128_to_le_bytes(x)
}

/// Little-endian bytes of a `u32`.
pub open spec fn u32_bytes(x: u32) -> Seq<u8> {
    spec_u32_to_le_bytes(x)
}

/// Whether the UTF-8 form of `s` is short enough for a `u32` length prefix.
pub open spec fn string_fits(s: Seq<char>) -> bool {
    encode_utf8(s).len() <= u32::MAX
}

/// A string: the length of its UTF-8 form as a `u32`, then that UTF-8 form.
pub open spec fn string_bytes(s: Seq<char>) -> Seq<u8> {
    u32_bytes(encode_utf8(s).len() as u32) + encode_utf8(s)
}

/// An identifier: its 32 raw bytes.
pub open spec fn id_bytes(a: AccountId) -> Seq<u8> {
    a.value@
}

/// An optional identifier: a zero byte for none, a one byte and the
/// identifier for some.
pub open spec fn opt_id_bytes(o: Option<AccountId>) -> Seq<u8> {
    match o {
        Some(a) => seq![1u8] + id_bytes(a),
        None => seq![0u8],
    }
}

/// A boolean: one byte, one for true and zero for false.
pub open spec fn bool_bytes(b: bool) -> Seq<u8> {
    seq![if b { 1u8 } else { 0u8 }]
}

/// Takes one byte off the front.
pub open spec fn take_u8(b: Seq<u8>) -> Option<(u8, Seq<u8>)> {
    if b.len() >= 1 {
        Some((b[0], rest(b, 1)))
    } else {
        None
    }
}

/// Takes a little-endian `u32` off the front.
pub open spec fn take_u32(b: Seq<u8>) -> Option<(u32, Seq<u8>)> {
    if b.len() >= 4 {
        Some((spec_u32_from_le_bytes(b.subrange(0, 4)), rest(b, 4)))
    } else {
        None
    }
}

/// Takes a little-endian `u128` off the front.
pub open spec fn take_u128(b: Seq<u8>) -> Option<(u128, Seq<u8>)> {
    if b.len() >= 16 {
        Some((spec_u128_from_le_bytes(b.subrange(0, 16)), rest(b, 16)))
    } else {
        None
    }
}

/// Takes a length-prefixed UTF-8 string off the front; fails where the
/// length runs past the end or the bytes are not well-formed UTF-8.
pub open spec fn take_string(b: Seq<u8>) -> Option<(Seq<char>, Seq<u8>)> {
    match take_u32(b) {
        None => None,
        Some((n, r)) => if n <= r.len() && valid_utf8(r.subrange(0, n as int)) {
            Some((decode_utf8(r.subrange(0, n as int)), rest(r, n as int)))
        } else {
            None
        },
    }
}

/// Whether some identifier consists of the bytes `s`.
pub open spec fn is_id_bytes(s: Seq<u8>) -> bool {
    exists|a: AccountId| a.value@ == s
}

/// Takes a 32-byte identifier off the front.
pub open spec fn take_id(b: Seq<u8>) -> Option<(AccountId, Seq<u8>)> {
    if b.len() >= 32 && is_id_bytes(b.subrange(0, 32)) {
        Some((choose|a: AccountId| a.value@ == b.subrange(0, 32), rest(b, 32)))
    } else {
        None
    }
}

/// Takes an optional identifier off the front; any tag but zero or one fails.
pub open spec fn take_opt_id(b: Seq<u8>) -> Option<(Option<AccountId>, Seq<u8>)> {
    match take_u8(b) {
        Some((t, r)) => if t == 0 {
            Some((None, r))
        } else if t == 1 {
            match take_id(r) {
                Some((a, r2)) => Some((Some(a), r2)),
                None => None,
            }
        } else {
            None
        },
        None => None,
    }
}

/// Takes a boolean off the front; any byte but zero or one fails.
pub open spec fn take_bool(b: Seq<u8>) -> Option<(bool, Seq<u8>)> {
    match take_u8(b) {
        Some((t, r)) => if t == 0 {
            Some((false, r))
        } else if t == 1 {
            Some((true, r))
        } else {
            None
        },
        None => None,
    }
}

/// Reading a byte back gives it and the remainder.
pub proof fn lemma_take_u8_front(t: u8, r: Seq<u8>)
    ensures
        take_u8(seq![t] + r) == Some((t, r)),
{
    lemma_rest_of_concat(seq![t], r);
}

/// Whatever `take_u8` reads is the byte it returns followed by the remainder.
pub proof fn lemma_take_u8_canonical(b: Seq<u8>)
    ensures
        take_u8(b) matches Some((t, r)) ==> b == seq![t] + r,
{
    if b.len() >= 1 {
        assert(b =~= seq![b[0]] + rest(b, 1));
    }
}

proof fn lemma_rest_of_concat(a: Seq<u8>, r: Seq<u8>)
    ensures
        (a + r).subrange(0, a.len() as int) == a,
        rest(a + r, a.len() as int) == r,
{
    assert((a + r).subrange(0, a.len() as int) =~= a);
    assert(rest(a + r, a.len() as int) =~= r);
}

proof fn lemma_split_at(b: Seq<u8>, n: int)
    requires
        0 <= n <= b.len(),
    ensures
        b == b.subrange(0, n) + rest(b, n),
{
    assert(b =~= b.subrange(0, n) + rest(b, n));
}

/// Reading a `u128` back from its bytes gives the value and the remainder.
pub proof fn lemma_take_u128_inverse(x: u128, r: Seq<u8>)
    ensures
        take_u128(u128_bytes(x) + r) == Some((x, r)),
{
    lemma_auto_spec_u128_to_from_le_bytes();
    lemma_rest_of_concat(u128_bytes(x), r);
}

/// Whatever `take_u128` reads is the encoding of the value it returns.
pub proof fn lemma_take_u128_canonical(b: Seq<u8>)
    ensures
        take_u128(b) matches Some((x, r)) ==> b == u128_bytes(x) + r,
{
    if b.len() >= 16 {
        lemma_auto_spec_u128_to_from_le_bytes();
        lemma_split_at(b, 16);
    }
}

/// Reading a `u32` back from its bytes gives the value and the remainder.
pub proof fn lemma_take_u32_inverse(x: u32, r: Seq<u8>)
    ensures
        take_u32(u32_bytes(x) + r) == Some((x, r)),
{
    lemma_auto_spec_u32_to_from_le_bytes();
    lemma_rest_of_concat(u32_bytes(x), r);
}

/// Whatever `take_u32` reads is the encoding of the value it returns.
pub proof fn lemma_take_u32_canonical(b: Seq<u8>)
    ensures
        take_u32(b) matches Some((x, r)) ==> b == u32_bytes(x) + r,
{
    if b.len() >= 4 {
        lemma_auto_spec_u32_to_from_le_bytes();
        lemma_split_at(b, 4);
    }
}

/// Reading a string back from its bytes gives the string and the remainder.
pub proof fn lemma_take_string_inverse(s: Seq<char>, r: Seq<u8>)
    requires
        string_fits(s),
    ensures
        take_string(string_bytes(s) + r) == Some((s, r)),
{
    let u = encode_utf8(s);
    let n = u.len() as u32;
    assert(string_bytes(s) + r =~= u32_bytes(n) + (u + r));
    lemma_take_u32_inverse(n, u + r);
    lemma_rest_of_concat(u, r);
    encode_utf8_valid_utf8(s);
    encode_utf8_decode_utf8(s);
}

/// Whatever `take_string` reads is the encoding of the string it returns.
pub proof fn lemma_take_string_canonical(b: Seq<u8>)
    ensures
        take_string(b) matches Some((s, r)) ==> string_fits(s) && b == string_bytes(s) + r,
{
    lemma_take_u32_canonical(b);
    if let Some((n, r)) = take_u32(b) {
        if n <= r.len() && valid_utf8(r.subrange(0, n as int)) {
            let body = r.subrange(0, n as int);
            let s = decode_utf8(body);
            decode_utf8_encode_utf8(body);
            assert(encode_utf8(s) == body);
            lemma_split_at(r, n as int);
            assert(b =~= string_bytes(s) + rest(r, n as int));
        }
    }
}

proof fn lemma_id_from_bytes(a: AccountId, c: AccountId)
    requires
        a.value@ == c.value@,
    ensures
        a == c,
{
    broadcast use vstd::array::group_array_axioms;

    assert(a.value@[0] == c.value@[0]);
    assert(a.value =~= c.value);
}

/// An identifier is stored as its 32 raw bytes, in their order.
pub proof fn lemma_id_bytes_in_order(a: AccountId)
    ensures
        id_bytes(a).len() == 32,
        forall|i: int| 0 <= i < 32 ==> #[trigger] id_bytes(a)[i] == a.value[i],
        id_bytes(a) == a.value@,
{
}

/// Reading an identifier back from its bytes gives it and the remainder.
pub proof fn lemma_take_id_inverse(a: AccountId, r: Seq<u8>)
    ensures
        take_id(id_bytes(a) + r) == Some((a, r)),
{
    lemma_rest_of_concat(id_bytes(a), r);
    let b = id_bytes(a) + r;
    assert(is_id_bytes(b.subrange(0, 32)));
    let c = choose|c: AccountId| c.value@ == b.subrange(0, 32);
    lemma_id_from_bytes(a, c);
}

/// Whatever `take_id` reads is the encoding of the identifier it returns.
pub proof fn lemma_take_id_canonical(b: Seq<u8>)
    ensures
        take_id(b) matches Some((a, r)) ==> b == id_bytes(a) + r,
{
    if b.len() >= 32 && is_id_bytes(b.subrange(0, 32)) {
        lemma_split_at(b, 32);
    }
}

/// Reading an optional identifier back from its bytes gives it and the
/// remainder.
pub proof fn lemma_take_opt_id_inverse(o: Option<AccountId>, r: Seq<u8>)
    ensures
        take_opt_id(opt_id_bytes(o) + r) == Some((o, r)),
{
    match o {
        None => {
            lemma_rest_of_concat(seq![0u8], r);
        },
        Some(a) => {
            assert(opt_id_bytes(o) + r =~= seq![1u8] + (id_bytes(a) + r));
            lemma_rest_of_concat(seq![1u8], id_bytes(a) + r);
            lemma_take_id_inverse(a, r);
        },
    }
}

/// Whatever `take_opt_id` reads is the encoding of what it returns.
pub proof fn lemma_take_opt_id_canonical(b: Seq<u8>)
    ensures
        take_opt_id(b) matches Some((o, r)) ==> b == opt_id_bytes(o) + r,
{
    if b.len() >= 1 {
        lemma_split_at(b, 1);
        assert(b.subrange(0, 1) =~= seq![b[0]]);
        lemma_take_id_canonical(rest(b, 1));
        if let Some((o, r)) = take_opt_id(b) {
            if b[0] == 1 {
                let (a, r2) = take_id(rest(b, 1)).unwrap();
                assert(b =~= opt_id_bytes(o) + r);
            } else {
                assert(b =~= opt_id_bytes(o) + r);
            }
        }
    }
}

/// Reading a boolean back from its byte gives it and the remainder.
pub proof fn lemma_take_bool_inverse(v: bool, r: Seq<u8>)
    ensures
        take_bool(bool_bytes(v) + r) == Some((v, r)),
{
    lemma_rest_of_concat(bool_bytes(v), r);
}

/// Whatever `take_bool` reads is the encoding of the boolean it returns.
pub proof fn lemma_take_bool_canonical(b: Seq<u8>)
    ensures
        take_bool(b) matches Some((v, r)) ==> b == bool_bytes(v) + r,
{
    if b.len() >= 1 {
        lemma_split_at(b, 1);
        assert(b.subrange(0, 1) =~= seq![b[0]]);
    }
}

/// `String::from_utf8`: the call succeeds exactly when the bytes are
/// well-formed UTF-8, and the string it returns consists of those bytes.
#[verifier::external_body]
fn string_from_utf8(bytes: Vec<u8>) -> (res: Option<String>)
    ensures
        res is Some <==> valid_utf8(bytes@),
        res matches Some(s) ==> encode_utf8(s@) == bytes@,
{
    String::from_utf8(bytes).ok()
}

/// Reads one byte at `pos`.
pub fn read_u8(bytes: &[u8], pos: usize) -> (res: Option<(u8, usize)>)
    requires
        pos <= bytes@.len(),
    ensures
        match res {
            Some((v, next)) => next <= bytes@.len() && take_u8(rest(bytes@, pos as int)) == Some(
                (v, rest(bytes@, next as int)),
            ),
            None => take_u8(rest(bytes@, pos as int)) is None,
        },
{
    if pos < bytes.len() {
        proof {
            assert(rest(rest(bytes@, pos as int), 1) =~= rest(bytes@, pos + 1));
        }
        Some((bytes[pos], pos + 1))
    } else {
        None
    }
}

/// Reads a little-endian `u32` at `pos`.
pub fn read_u32(bytes: &[u8], pos: usize) -> (res: Option<(u32, usize)>)
    requires
        pos <= bytes@.len(),
    ensures
        match res {
            Some((v, next)) => next <= bytes@.len() && take_u32(rest(bytes@, pos as int)) == Some(
                (v, rest(bytes@, next as int)),
            ),
            None => take_u32(rest(bytes@, pos as int)) is None,
        },
{
    if bytes.len() - pos >= 4 {
        let s = slice_subrange(bytes, pos, pos + 4);
        let v = vstd::bytes::u32_from_le_bytes(s);
        proof {
            assert(s@ =~= rest(bytes@, pos as int).subrange(0, 4));
            assert(rest(rest(bytes@, pos as int), 4) =~= rest(bytes@, pos + 4));
        }
        Some((v, pos + 4))
    } else {
        None
    }
}

/// Reads a little-endian `u128` at `pos`.
pub fn read_u128(bytes: &[u8], pos: usize) -> (res: Option<(u128, usize)>)
    requires
        pos <= bytes@.len(),
    ensures
        match res {
            Some((v, next)) => next <= bytes@.len() && take_u128(rest(bytes@, pos as int))
                == Some((v, rest(bytes@, next as int))),
            None => take_u128(rest(bytes@, pos as int)) is None,
        },
{
    if bytes.len() - pos >= 16 {
        let s = slice_subrange(bytes, pos, pos + 16);
        let v = vstd::bytes::u128_from_le_bytes(s);
        proof {
            assert(s@ =~= rest(bytes@, pos as int).subrange(0, 16));
            assert(rest(rest(bytes@, pos as int), 16) =~= rest(bytes@, pos + 16));
        }
        Some((v, pos + 16))
    } else {
        None
    }
}

/// Reads a length-prefixed UTF-8 string at `pos`.
pub fn read_string(bytes: &[u8], pos: usize) -> (res: Option<(String, usize)>)
    requires
        pos <= bytes@.len(),
    ensures
        match res {
            Some((v, next)) => next <= bytes@.len() && take_string(rest(bytes@, pos as int))
                == Some((v@, rest(bytes@, next as int))),
            None => take_string(rest(bytes@, pos as int)) is None,
        },
{
    match read_u32(bytes, pos) {
        None => None,
        Some((n, p)) => {
            let n = n as usize;
            if n <= bytes.len() - p {
                let body = slice_subrange(bytes, p, p + n);
                let ghost r = rest(bytes@, pos as int);
                let ghost r2 = rest(bytes@, p as int);
                proof {
                    assert(r2.subrange(0, n as int) =~= body@);
                    assert(rest(r2, n as int) =~= rest(bytes@, p + n));
                }
                let v = slice_to_vec(body);
                match string_from_utf8(v) {
                    Some(s) => {
                        proof {
                            encode_utf8_decode_utf8(s@);
                        }
                        Some((s, p + n))
                    },
                    None => None,
                }
            } else {
                None
            }
        },
    }
}

/// Reads a 32-byte identifier at `pos`.
pub fn read_id(bytes: &[u8], pos: usize) -> (res: Option<(AccountId, usize)>)
    requires
        pos <= bytes@.len(),
    ensures
        match res {
            Some((v, next)) => next <= bytes@.len() && take_id(rest(bytes@, pos as int)) == Some(
                (v, rest(bytes@, next as int)),
            ),
            None => take_id(rest(bytes@, pos as int)) is None,
        },
        res matches Some((v, next)) ==> next == pos + 32 && v.value@ == bytes@.subrange(
            pos as int,
            pos + 32,
        ),
        res is None <==> bytes@.len() < pos + 32,
{
    let len = bytes.len();
    if len - pos >= 32 {
        let mut a = [0u8; 32];
        let mut i: usize = 0;
        while i < 32
            invariant
                0 <= i <= 32,
                len == bytes@.len(),
                pos + 32 <= len,
                forall|j: int| 0 <= j < i ==> a@[j] == bytes@[pos + j],
            decreases 32 - i,
        {
            a[i] = bytes[pos + i];
            i = i + 1;
        }
        let id = AccountId { value: a };
        proof {
            let r = rest(bytes@, pos as int);
            assert(a@ =~= r.subrange(0, 32));
            assert(id.value@ == r.subrange(0, 32));
            assert(is_id_bytes(r.subrange(0, 32)));
            let c = choose|c: AccountId| c.value@ == r.subrange(0, 32);
            lemma_id_from_bytes(id, c);
            assert(rest(r, 32) =~= rest(bytes@, pos + 32));
        }
        Some((id, pos + 32))
    } else {
        None
    }
}

/// Reads an optional identifier at `pos`.
pub fn read_opt_id(bytes: &[u8], pos: usize) -> (res: Option<(Option<AccountId>, usize)>)
    requires
        pos <= bytes@.len(),
    ensures
        match res {
            Some((v, next)) => next <= bytes@.len() && take_opt_id(rest(bytes@, pos as int))
                == Some((v, rest(bytes@, next as int))),
            None => take_opt_id(rest(bytes@, pos as int)) is None,
        },
{
    match read_u8(bytes, pos) {
        None => None,
        Some((t, p)) => {
            if t == 0 {
                Some((None, p))
            } else if t == 1 {
                match read_id(bytes, p) {
                    Some((a, p2)) => Some((Some(a), p2)),
                    None => None,
                }
            } else {
                None
            }
        },
    }
}

/// Reads a boolean at `pos`.
pub fn read_bool(bytes: &[u8], pos: usize) -> (res: Option<(bool, usize)>)
    requires
        pos <= bytes@.len(),
    ensures
        match res {
            Some((v, next)) => next <= bytes@.len() && take_bool(rest(bytes@, pos as int))
                == Some((v, rest(bytes@, next as int))),
            None => take_bool(rest(bytes@, pos as int)) is None,
        },
{
    match read_u8(bytes, pos) {
        None => None,
        Some((t, p)) => {
            if t == 0 {
                Some((false, p))
            } else if t == 1 {
                Some((true, p))
            } else {
                None
            }
        },
    }
}

/// Appends the bytes of a `u32`.
pub fn write_u32(out: &mut Vec<u8>, x: u32)
    ensures
        final(out)@ == old(out)@ + u32_bytes(x),
{
    let mut b = vstd::bytes::u32_to_le_bytes(x);
    out.append(&mut b);
}

/// Appends the bytes of a `u128`.
pub fn write_u128(out: &mut Vec<u8>, x: u128)
    ensures
        final(out)@ == old(out)@ + u128_bytes(x),
{
    let mut b = vstd::bytes::u128_to_le_bytes(x);
    out.append(&mut b);
}

/// Appends a length-prefixed string.
pub fn write_string(out: &mut Vec<u8>, s: &String)
    requires
        string_fits(s@),
    ensures
        final(out)@ == old(out)@ + string_bytes(s@),
{
    let b = s.as_str().as_bytes();
    write_u32(out, b.len() as u32);
    let mut v = slice_to_vec(b);
    out.append(&mut v);
    proof {
        assert(final(out)@ =~= old(out)@ + string_bytes(s@));
    }
}

/// Appends an identifier.
pub fn write_id(out: &mut Vec<u8>, a: &AccountId)
    ensures
        final(out)@ == old(out)@ + id_bytes(*a),
        final(out)@ == old(out)@ + a.value@,
        final(out)@.len() == old(out)@.len() + 32,
        forall|i: int| 0 <= i < 32 ==> #[trigger] final(out)@[old(out)@.len() + i] == a.value[i],
{
    let mut v = slice_to_vec(a.value.as_slice());
    out.append(&mut v);
}

/// Appends an optional identifier.
pub fn write_opt_id(out: &mut Vec<u8>, o: &Option<AccountId>)
    ensures
        final(out)@ == old(out)@ + opt_id_bytes(*o),
{
    match o {
        None => {
            out.push(0u8);
            proof {
                assert(final(out)@ =~= old(out)@ + opt_id_bytes(*o));
            }
        },
        Some(a) => {
            out.push(1u8);
            write_id(out, a);
            proof {
                assert(final(out)@ =~= old(out)@ + opt_id_bytes(*o));
            }
        },
    }
}

/// Appends a boolean.
pub fn write_bool(out: &mut Vec<u8>, v: bool)
    ensures
        final(out)@ == old(out)@ + bool_bytes(v),
{
    if v {
        out.push(1u8);
    } else {
        out.push(0u8);
    }
    proof {
        assert(final(out)@ =~= old(out)@ + bool_bytes(v));
    }
}

} // verus!
