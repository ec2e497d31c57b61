//! Reading and writing the fields of stored data.
//!
//! A field is written by borsh: integers as little-endian bytes, a `bool` as
//! one byte, a byte array as it stands, a text as its UTF-8 bytes behind their
//! number, an optional key behind a byte that says whether there is one. The
//! layouts of the stored structures are put together from these in the modules
//! that define them.

use crate::constants::Pubkey;
use crate::error::ProgramError;
use borsh::{BorshDeserialize, BorshSerialize};
use vstd::prelude::*;
use vstd::utf8::{encode_utf8, encode_utf8_decode_utf8, encode_utf8_valid_utf8, valid_utf8};

verus! {

/// The error of a borsh call, `std::io::Error`.
#[verifier::external_type_specification]
#[verifier::external_body]
pub struct ExBorshError(borsh::io::Error);

// ---------------------------------------------------------------------------
// Little-endian numbers
// ---------------------------------------------------------------------------

/// The lowest `n` bytes of `v`, least significant first.
pub open spec fn le_bytes(v: nat, n: nat) -> Seq<u8>
    decreases n,
{
    if n == 0 {
        Seq::empty()
    } else {
        seq![(v % 256) as u8] + le_bytes(v / 256, (n - 1) as nat)
    }
}

/// How many numbers `n` bytes can tell apart.
pub open spec fn le_limit(n: nat) -> nat
    decreases n,
{
    if n == 0 {
        1
    } else {
        256 * le_limit((n - 1) as nat)
    }
}

/// The number whose little-endian bytes are `s`.
pub open spec fn le_value(s: Seq<u8>) -> nat
    decreases s.len(),
{
    if s.len() == 0 {
        0
    } else {
        s[0] as nat + 256 * le_value(s.drop_first())
    }
}

pub proof fn lemma_le_len(v: nat, n: nat)
    ensures
        le_bytes(v, n).len() == n,
    decreases n,
{
    if n > 0 {
        lemma_le_len(v / 256, (n - 1) as nat);
    }
}

/// Numbers that fit in `n` bytes are told apart by them.
pub proof fn lemma_le_injective(a: nat, b: nat, n: nat)
    requires
        a < le_limit(n),
        b < le_limit(n),
        le_bytes(a, n) == le_bytes(b, n),
    ensures
        a == b,
    decreases n,
{
    if n > 0 {
        let m = (n - 1) as nat;
        lemma_le_len(a / 256, m);
        lemma_le_len(b / 256, m);
        lemma_split(seq![(a % 256) as u8], le_bytes(a / 256, m), seq![(b % 256) as u8], le_bytes(b / 256, m));
        assert(seq![(a % 256) as u8][0] == seq![(b % 256) as u8][0]);
        assert(a / 256 < le_limit(m) && b / 256 < le_limit(m));
        lemma_le_injective(a / 256, b / 256, m);
    }
}

/// Reading the little-endian bytes of a number gives the number back.
pub proof fn law_le_value(v: nat, n: nat)
    requires
        v < le_limit(n),
    ensures
        le_value(le_bytes(v, n)) == v,
    decreases n,
{
    if n > 0 {
        let m = (n - 1) as nat;
        assert(v / 256 < le_limit(m));
        law_le_value(v / 256, m);
        assert(le_bytes(v, n).drop_first() =~= le_bytes(v / 256, m));
    }
}

/// Two sequences that agree and whose fronts are equally long agree in both parts.
pub proof fn lemma_split(a: Seq<u8>, x: Seq<u8>, b: Seq<u8>, y: Seq<u8>)
    requires
        a.len() == b.len(),
        a + x == b + y,
    ensures
        a == b,
        x == y,
{
    let l = a + x;
    let r = b + y;
    assert(l.len() == r.len());
    assert(a =~= l.subrange(0, a.len() as int));
    assert(b =~= r.subrange(0, b.len() as int));
    assert(x =~= l.subrange(a.len() as int, l.len() as int));
    assert(y =~= r.subrange(b.len() as int, r.len() as int));
}

pub proof fn lemma_le_limits()
    ensures
        le_limit(2) == 0x1_0000,
        le_limit(4) == 0x1_0000_0000,
        le_limit(8) == 0x1_0000_0000_0000_0000,
{
    reveal_with_fuel(le_limit, 9);
}

/// The field in front is the same and so is what follows it.
pub proof fn lemma_split_u16(a: u16, x: Seq<u8>, b: u16, y: Seq<u8>)
    requires
        le_bytes(a as nat, 2) + x == le_bytes(b as nat, 2) + y,
    ensures
        a == b,
        x == y,
{
    lemma_le_len(a as nat, 2);
    lemma_le_len(b as nat, 2);
    lemma_split(le_bytes(a as nat, 2), x, le_bytes(b as nat, 2), y);
    lemma_le_limits();
    lemma_le_injective(a as nat, b as nat, 2);
}

/// The field in front is the same and so is what follows it.
pub proof fn lemma_split_u32(a: u32, x: Seq<u8>, b: u32, y: Seq<u8>)
    requires
        le_bytes(a as nat, 4) + x == le_bytes(b as nat, 4) + y,
    ensures
        a == b,
        x == y,
{
    lemma_le_len(a as nat, 4);
    lemma_le_len(b as nat, 4);
    lemma_split(le_bytes(a as nat, 4), x, le_bytes(b as nat, 4), y);
    lemma_le_limits();
    lemma_le_injective(a as nat, b as nat, 4);
}

/// The field in front is the same and so is what follows it.
pub proof fn lemma_split_u64(a: u64, x: Seq<u8>, b: u64, y: Seq<u8>)
    requires
        le_bytes(a as nat, 8) + x == le_bytes(b as nat, 8) + y,
    ensures
        a == b,
        x == y,
{
    lemma_le_len(a as nat, 8);
    lemma_le_len(b as nat, 8);
    lemma_split(le_bytes(a as nat, 8), x, le_bytes(b as nat, 8), y);
    lemma_le_limits();
    lemma_le_injective(a as nat, b as nat, 8);
}

/// The field in front is the same and so is what follows it.
pub proof fn lemma_split_array<const N: usize>(a: [u8; N], x: Seq<u8>, b: [u8; N], y: Seq<u8>)
    requires
        a@ + x == b@ + y,
    ensures
        a == b,
        x == y,
{
    lemma_split(a@, x, b@, y);
    assert forall|i: int| 0 <= i < N implies a[i] == b[i] by {
        assert(a@[i] == b@[i]);
    }
    assert(a =~= b);
}

/// The byte of a flag.
pub open spec fn flag_byte(b: bool) -> u8 {
    if b {
        1
    } else {
        0
    }
}

/// The number that stands for `v` in eight bytes: two's complement.
pub open spec fn i64_bits(v: i64) -> nat {
    if v >= 0 {
        v as nat
    } else {
        (v + 0x1_0000_0000_0000_0000) as nat
    }
}

/// The field in front is the same and so is what follows it.
pub proof fn lemma_split_i64(a: i64, x: Seq<u8>, b: i64, y: Seq<u8>)
    requires
        le_bytes(i64_bits(a), 8) + x == le_bytes(i64_bits(b), 8) + y,
    ensures
        a == b,
        x == y,
{
    lemma_le_len(i64_bits(a), 8);
    lemma_le_len(i64_bits(b), 8);
    lemma_split(le_bytes(i64_bits(a), 8), x, le_bytes(i64_bits(b), 8), y);
    lemma_le_limits();
    lemma_le_injective(i64_bits(a), i64_bits(b), 8);
}

/// Whether the UTF-8 bytes of `text` can be counted in four bytes.
pub open spec fn text_fits(text: Seq<char>) -> bool {
    encode_utf8(text).len() <= u32::MAX
}

/// The stored form of a text: the number of its UTF-8 bytes, and they.
pub open spec fn text_bytes(text: Seq<char>) -> Seq<u8> {
    le_bytes(encode_utf8(text).len(), 4) + encode_utf8(text)
}

/// The field in front is the same and so is what follows it.
pub proof fn lemma_split_text(a: Seq<char>, x: Seq<u8>, b: Seq<char>, y: Seq<u8>)
    requires
        text_fits(a),
        text_fits(b),
        text_bytes(a) + x == text_bytes(b) + y,
    ensures
        a == b,
        x == y,
{
    let (s, t) = (encode_utf8(a), encode_utf8(b));
    assert(text_bytes(a) + x =~= le_bytes(s.len(), 4) + (s + x));
    assert(text_bytes(b) + y =~= le_bytes(t.len(), 4) + (t + y));
    lemma_split_u32(s.len() as u32, s + x, t.len() as u32, t + y);
    lemma_split(s, x, t, y);
    encode_utf8_decode_utf8(a);
    encode_utf8_decode_utf8(b);
}

/// The stored form of a key that may be missing: 0, or 1 and the key.
pub open spec fn option_key_bytes(key: Option<Pubkey>) -> Seq<u8> {
    match key {
        None => seq![0u8],
        Some(k) => seq![1u8] + k@,
    }
}

/// The field in front is the same and so is what follows it.
pub proof fn lemma_split_option_key(a: Option<Pubkey>, x: Seq<u8>, b: Option<Pubkey>, y: Seq<u8>)
    requires
        option_key_bytes(a) + x == option_key_bytes(b) + y,
    ensures
        a == b,
        x == y,
{
    assert((option_key_bytes(a) + x)[0] == flag_byte(a is Some));
    assert((option_key_bytes(b) + y)[0] == flag_byte(b is Some));
    lemma_split(option_key_bytes(a), x, option_key_bytes(b), y);
    if let (Some(k), Some(l)) = (a, b) {
        lemma_split(seq![1u8], k@, seq![1u8], l@);
        lemma_split_array(k, x, l, y);
    }
}

// ---------------------------------------------------------------------------
// Calls into borsh
// ---------------------------------------------------------------------------

/// `u8::deserialize` of borsh. It takes one byte off the front and fails only
/// on an empty buffer.
#[verifier::external_body]
fn borsh_take_u8<'a>(buf: &'a [u8]) -> (r: Result<(u8, &'a [u8]), borsh::io::Error>)
    ensures
        match r {
            Ok((v, rest)) => buf@ == seq![v] + rest@,
            Err(_) => buf@.len() == 0,
        },
{
    let mut rest = buf;
    let v = u8::deserialize(&mut rest)?;
    Ok((v, rest))
}

/// `bool::deserialize` of borsh. It takes one byte off the front, which is 0 or
/// 1, and fails on an empty buffer and on any other byte.
#[verifier::external_body]
fn borsh_take_bool<'a>(buf: &'a [u8]) -> (r: Result<(bool, &'a [u8]), borsh::io::Error>)
    ensures
        match r {
            Ok((v, rest)) => buf@ == seq![flag_byte(v)] + rest@,
            Err(_) => buf@.len() == 0 || buf@[0] > 1,
        },
{
    let mut rest = buf;
    let v = bool::deserialize(&mut rest)?;
    Ok((v, rest))
}

/// `u16::deserialize` of borsh. It takes two bytes off the front, least
/// significant first, and fails only if there are fewer.
#[verifier::external_body]
fn borsh_take_u16<'a>(buf: &'a [u8]) -> (r: Result<(u16, &'a [u8]), borsh::io::Error>)
    ensures
        match r {
            Ok((v, rest)) => buf@ == le_bytes(v as nat, 2) + rest@,
            Err(_) => buf@.len() < 2,
        },
{
    let mut rest = buf;
    let v = u16::deserialize(&mut rest)?;
    Ok((v, rest))
}

/// `u32::deserialize` of borsh. It takes four bytes off the front, least
/// significant first, and fails only if there are fewer.
#[verifier::external_body]
fn borsh_take_u32<'a>(buf: &'a [u8]) -> (r: Result<(u32, &'a [u8]), borsh::io::Error>)
    ensures
        match r {
            Ok((v, rest)) => buf@ == le_bytes(v as nat, 4) + rest@,
            Err(_) => buf@.len() < 4,
        },
{
    let mut rest = buf;
    let v = u32::deserialize(&mut rest)?;
    Ok((v, rest))
}

/// `u64::deserialize` of borsh. It takes eight bytes off the front, least
/// significant first, and fails only if there are fewer.
#[verifier::external_body]
fn borsh_take_u64<'a>(buf: &'a [u8]) -> (r: Result<(u64, &'a [u8]), borsh::io::Error>)
    ensures
        match r {
            Ok((v, rest)) => buf@ == le_bytes(v as nat, 8) + rest@,
            Err(_) => buf@.len() < 8,
        },
{
    let mut rest = buf;
    let v = u64::deserialize(&mut rest)?;
    Ok((v, rest))
}

/// `<[u8; N]>::deserialize` of borsh. It takes `N` bytes off the front as they
/// stand and fails only if there are fewer.
#[verifier::external_body]
fn borsh_take_array<'a, const N: usize>(buf: &'a [u8]) -> (r: Result<([u8; N], &'a [u8]), borsh::io::Error>)
    ensures
        match r {
            Ok((v, rest)) => buf@ == v@ + rest@,
            Err(_) => buf@.len() < N,
        },
{
    let mut rest = buf;
    let v = <[u8; N]>::deserialize(&mut rest)?;
    Ok((v, rest))
}

/// `i64::deserialize` of borsh. It takes eight bytes off the front, in two's
/// complement and least significant first, and fails only if there are fewer.
#[verifier::external_body]
fn borsh_take_i64<'a>(buf: &'a [u8]) -> (r: Result<(i64, &'a [u8]), borsh::io::Error>)
    ensures
        match r {
            Ok((v, rest)) => buf@ == le_bytes(i64_bits(v), 8) + rest@,
            Err(_) => buf@.len() < 8,
        },
{
    let mut rest = buf;
    let v = i64::deserialize(&mut rest)?;
    Ok((v, rest))
}

/// `String::deserialize` of borsh. It takes a number of four bytes and as many
/// bytes as it says off the front. It fails only if there are fewer, or if they
/// are no UTF-8.
#[verifier::external_body]
fn borsh_take_string<'a>(buf: &'a [u8]) -> (r: Result<(String, &'a [u8]), borsh::io::Error>)
    ensures
        match r {
            Ok((v, rest)) => text_fits(v@) && buf@ == text_bytes(v@) + rest@,
            Err(_) => {
                let n = le_value(buf@.take(4));
                buf@.len() < 4 || buf@.len() < 4 + n || !valid_utf8(buf@.subrange(4, 4 + n as int))
            },
        },
{
    let mut rest = buf;
    let v = String::deserialize(&mut rest)?;
    Ok((v, rest))
}

/// `Option::<[u8; 32]>::deserialize` of borsh. It takes one byte off the front:
/// after 0 there is no key, after 1 it takes the 32 bytes of the key. It fails
/// only on an empty buffer, on any other byte, and if the key is cut short.
#[verifier::external_body]
fn borsh_take_option_key<'a>(buf: &'a [u8]) -> (r: Result<(Option<Pubkey>, &'a [u8]), borsh::io::Error>)
    ensures
        match r {
            Ok((v, rest)) => buf@ == option_key_bytes(v) + rest@,
            Err(_) => buf@.len() == 0 || buf@[0] > 1 || (buf@[0] == 1 && buf@.len() < 33),
        },
{
    let mut rest = buf;
    let v = Option::<Pubkey>::deserialize(&mut rest)?;
    Ok((v, rest))
}

/// `u8::serialize` of borsh into a `Vec`, which cannot fail: it appends the byte.
#[verifier::external_body]
fn borsh_put_u8(out: &mut Vec<u8>, v: u8) -> (r: Result<(), borsh::io::Error>)
    ensures
        r is Ok,
        final(out)@ == old(out)@ + seq![v],
{
    v.serialize(out)
}

/// `bool::serialize` of borsh into a `Vec`, which cannot fail: it appends 0 or 1.
#[verifier::external_body]
fn borsh_put_bool(out: &mut Vec<u8>, v: bool) -> (r: Result<(), borsh::io::Error>)
    ensures
        r is Ok,
        final(out)@ == old(out)@ + seq![flag_byte(v)],
{
    v.serialize(out)
}

/// `u16::serialize` of borsh into a `Vec`, which cannot fail: it appends two
/// bytes, least significant first.
#[verifier::external_body]
fn borsh_put_u16(out: &mut Vec<u8>, v: u16) -> (r: Result<(), borsh::io::Error>)
    ensures
        r is Ok,
        final(out)@ == old(out)@ + le_bytes(v as nat, 2),
{
    v.serialize(out)
}

/// `u32::serialize` of borsh into a `Vec`, which cannot fail: it appends four
/// bytes, least significant first.
#[verifier::external_body]
fn borsh_put_u32(out: &mut Vec<u8>, v: u32) -> (r: Result<(), borsh::io::Error>)
    ensures
        r is Ok,
        final(out)@ == old(out)@ + le_bytes(v as nat, 4),
{
    v.serialize(out)
}

/// `u64::serialize` of borsh into a `Vec`, which cannot fail: it appends eight
/// bytes, least significant first.
#[verifier::external_body]
fn borsh_put_u64(out: &mut Vec<u8>, v: u64) -> (r: Result<(), borsh::io::Error>)
    ensures
        r is Ok,
        final(out)@ == old(out)@ + le_bytes(v as nat, 8),
{
    v.serialize(out)
}

/// `<[u8; N]>::serialize` of borsh into a `Vec`, which cannot fail: it appends
/// the bytes as they stand.
#[verifier::external_body]
fn borsh_put_array<const N: usize>(out: &mut Vec<u8>, v: &[u8; N]) -> (r: Result<(), borsh::io::Error>)
    ensures
        r is Ok,
        final(out)@ == old(out)@ + v@,
{
    v.serialize(out)
}

/// `i64::serialize` of borsh into a `Vec`, which cannot fail: it appends eight
/// bytes, in two's complement and least significant first.
#[verifier::external_body]
fn borsh_put_i64(out: &mut Vec<u8>, v: i64) -> (r: Result<(), borsh::io::Error>)
    ensures
        r is Ok,
        final(out)@ == old(out)@ + le_bytes(i64_bits(v), 8),
{
    v.serialize(out)
}

/// `String::serialize` of borsh into a `Vec`. It appends the number of UTF-8 bytes
/// in four bytes, and the bytes. It fails only if their number needs more than
/// four bytes, and then appends nothing.
#[verifier::external_body]
fn borsh_put_string(out: &mut Vec<u8>, v: &String) -> (r: Result<(), borsh::io::Error>)
    ensures
        r is Ok <==> text_fits(v@),
        r is Ok ==> final(out)@ == old(out)@ + text_bytes(v@),
        r is Err ==> final(out)@ == old(out)@,
{
    v.serialize(out)
}

/// `Option::<[u8; 32]>::serialize` of borsh into a `Vec`, which cannot fail: it
/// appends 0, or 1 and the bytes of the key.
#[verifier::external_body]
fn borsh_put_option_key(out: &mut Vec<u8>, v: &Option<Pubkey>) -> (r: Result<(), borsh::io::Error>)
    ensures
        r is Ok,
        final(out)@ == old(out)@ + option_key_bytes(*v),
{
    v.serialize(out)
}

// ---------------------------------------------------------------------------
// Fields
// ---------------------------------------------------------------------------

/// Reads a byte off the front of `buf`.
pub fn read_u8<'a>(buf: &'a [u8]) -> (r: Result<(u8, &'a [u8]), ProgramError>)
    ensures
        match r {
            Ok((v, rest)) => buf@ == seq![v] + rest@,
            Err(e) => e == ProgramError::BorshIoError && buf@.len() == 0,
        },
{
    match borsh_take_u8(buf) {
        Ok(x) => Ok(x),
        Err(_) => Err(ProgramError::BorshIoError),
    }
}

/// Reads a flag off the front of `buf`.
pub fn read_bool<'a>(buf: &'a [u8]) -> (r: Result<(bool, &'a [u8]), ProgramError>)
    ensures
        match r {
            Ok((v, rest)) => buf@ == seq![flag_byte(v)] + rest@,
            Err(e) => e == ProgramError::BorshIoError && (buf@.len() == 0 || buf@[0] > 1),
        },
{
    match borsh_take_bool(buf) {
        Ok(x) => Ok(x),
        Err(_) => Err(ProgramError::BorshIoError),
    }
}

/// Reads a number of two bytes off the front of `buf`.
pub fn read_u16<'a>(buf: &'a [u8]) -> (r: Result<(u16, &'a [u8]), ProgramError>)
    ensures
        match r {
            Ok((v, rest)) => buf@ == le_bytes(v as nat, 2) + rest@,
            Err(e) => e == ProgramError::BorshIoError && buf@.len() < 2,
        },
{
    match borsh_take_u16(buf) {
        Ok(x) => Ok(x),
        Err(_) => Err(ProgramError::BorshIoError),
    }
}

/// Reads a number of four bytes off the front of `buf`.
pub fn read_u32<'a>(buf: &'a [u8]) -> (r: Result<(u32, &'a [u8]), ProgramError>)
    ensures
        match r {
            Ok((v, rest)) => buf@ == le_bytes(v as nat, 4) + rest@,
            Err(e) => e == ProgramError::BorshIoError && buf@.len() < 4,
        },
{
    match borsh_take_u32(buf) {
        Ok(x) => Ok(x),
        Err(_) => Err(ProgramError::BorshIoError),
    }
}

/// Reads a number of eight bytes off the front of `buf`.
pub fn read_u64<'a>(buf: &'a [u8]) -> (r: Result<(u64, &'a [u8]), ProgramError>)
    ensures
        match r {
            Ok((v, rest)) => buf@ == le_bytes(v as nat, 8) + rest@,
            Err(e) => e == ProgramError::BorshIoError && buf@.len() < 8,
        },
{
    match borsh_take_u64(buf) {
        Ok(x) => Ok(x),
        Err(_) => Err(ProgramError::BorshIoError),
    }
}

/// Reads `N` bytes off the front of `buf`.
pub fn read_array<'a, const N: usize>(buf: &'a [u8]) -> (r: Result<([u8; N], &'a [u8]), ProgramError>)
    ensures
        match r {
            Ok((v, rest)) => buf@ == v@ + rest@,
            Err(e) => e == ProgramError::BorshIoError && buf@.len() < N,
        },
{
    match borsh_take_array::<N>(buf) {
        Ok(x) => Ok(x),
        Err(_) => Err(ProgramError::BorshIoError),
    }
}

/// Reads a signed number of eight bytes off the front of `buf`.
pub fn read_i64<'a>(buf: &'a [u8]) -> (r: Result<(i64, &'a [u8]), ProgramError>)
    ensures
        match r {
            Ok((v, rest)) => buf@ == le_bytes(i64_bits(v), 8) + rest@,
            Err(e) => e == ProgramError::BorshIoError && buf@.len() < 8,
        },
{
    match borsh_take_i64(buf) {
        Ok(x) => Ok(x),
        Err(_) => Err(ProgramError::BorshIoError),
    }
}

/// Reads a text off the front of `buf`.
pub fn read_text<'a>(buf: &'a [u8]) -> (r: Result<(String, &'a [u8]), ProgramError>)
    ensures
        match r {
            Ok((v, rest)) => text_fits(v@) && buf@ == text_bytes(v@) + rest@,
            Err(e) => e == ProgramError::BorshIoError && forall|text: Seq<char>, tail: Seq<u8>|
                text_fits(text) ==> buf@ != #[trigger] (text_bytes(text) + tail),
        },
{
    match borsh_take_string(buf) {
        Ok(x) => Ok(x),
        Err(_) => {
            proof {
                assert forall|text: Seq<char>, tail: Seq<u8>| text_fits(text) implies buf@ != #[trigger] (
                text_bytes(text) + tail) by {
                    let s = encode_utf8(text);
                    lemma_le_len(s.len(), 4);
                    lemma_le_limits();
                    law_le_value(s.len(), 4);
                    encode_utf8_valid_utf8(text);
                    let whole = text_bytes(text) + tail;
                    assert(whole.take(4) =~= le_bytes(s.len(), 4));
                    assert(whole.subrange(4, 4 + s.len() as int) =~= s);
                }
            }
            Err(ProgramError::BorshIoError)
        },
    }
}

/// Reads a key that may be missing off the front of `buf`.
pub fn read_option_key<'a>(buf: &'a [u8]) -> (r: Result<(Option<Pubkey>, &'a [u8]), ProgramError>)
    ensures
        match r {
            Ok((v, rest)) => buf@ == option_key_bytes(v) + rest@,
            Err(e) => e == ProgramError::BorshIoError && forall|key: Option<Pubkey>, tail: Seq<u8>|
                buf@ != #[trigger] (option_key_bytes(key) + tail),
        },
{
    match borsh_take_option_key(buf) {
        Ok(x) => Ok(x),
        Err(_) => Err(ProgramError::BorshIoError),
    }
}

/// Appends a byte to `out`.
pub fn write_u8(out: &mut Vec<u8>, v: u8)
    ensures
        final(out)@ == old(out)@ + seq![v],
{
    let _ = borsh_put_u8(out, v);
}

/// Appends a flag to `out`.
pub fn write_bool(out: &mut Vec<u8>, v: bool)
    ensures
        final(out)@ == old(out)@ + seq![flag_byte(v)],
{
    let _ = borsh_put_bool(out, v);
}

/// Appends a number of two bytes to `out`.
pub fn write_u16(out: &mut Vec<u8>, v: u16)
    ensures
        final(out)@ == old(out)@ + le_bytes(v as nat, 2),
{
    let _ = borsh_put_u16(out, v);
}

/// Appends a number of four bytes to `out`.
pub fn write_u32(out: &mut Vec<u8>, v: u32)
    ensures
        final(out)@ == old(out)@ + le_bytes(v as nat, 4),
{
    let _ = borsh_put_u32(out, v);
}

/// Appends a number of eight bytes to `out`.
pub fn write_u64(out: &mut Vec<u8>, v: u64)
    ensures
        final(out)@ == old(out)@ + le_bytes(v as nat, 8),
{
    let _ = borsh_put_u64(out, v);
}

/// Appends the bytes of `v` to `out`.
pub fn write_array<const N: usize>(out: &mut Vec<u8>, v: &[u8; N])
    ensures
        final(out)@ == old(out)@ + v@,
{
    let _ = borsh_put_array(out, v);
}

/// Appends a signed number of eight bytes to `out`.
pub fn write_i64(out: &mut Vec<u8>, v: i64)
    ensures
        final(out)@ == old(out)@ + le_bytes(i64_bits(v), 8),
{
    let _ = borsh_put_i64(out, v);
}

/// Appends a text to `out`, unless its length does not fit.
pub fn write_text(out: &mut Vec<u8>, v: &String) -> (r: Result<(), ProgramError>)
    ensures
        match r {
            Ok(()) => text_fits(v@) && final(out)@ == old(out)@ + text_bytes(v@),
            Err(e) => e == ProgramError::BorshIoError && !text_fits(v@) && final(out)@ == old(out)@,
        },
{
    match borsh_put_string(out, v) {
        Ok(()) => Ok(()),
        Err(_) => Err(ProgramError::BorshIoError),
    }
}

/// Appends a key that may be missing to `out`.
pub fn write_option_key(out: &mut Vec<u8>, v: &Option<Pubkey>)
    ensures
        final(out)@ == old(out)@ + option_key_bytes(*v),
{
    let _ = borsh_put_option_key(out, v);
}

/// The little-endian bytes of `v`.
pub fn u64_to_le(v: u64) -> (r: Vec<u8>)
    ensures
        r@ == le_bytes(v as nat, 8),
{
    let mut out: Vec<u8> = Vec::new();
    let mut left: u64 = v;
    let mut i: usize = 0;
    while i < 8
        invariant
            i <= 8,
            out@ + le_bytes(left as nat, (8 - i) as nat) == le_bytes(v as nat, 8),
        decreases 8 - i,
    {
        let ghost before = out@;
        let ghost m = (8 - i - 1) as nat;
        out.push((left % 256) as u8);
        proof {
            assert(le_bytes(left as nat, (8 - i) as nat) == seq![(left % 256) as u8] + le_bytes(
                (left / 256) as nat,
                m,
            ));
            assert(out@ + le_bytes((left / 256) as nat, m) =~= before + le_bytes(left as nat, (8 - i) as nat));
        }
        left = left / 256;
        i += 1;
    }
    assert(out@ =~= out@ + le_bytes(left as nat, 0));
    out
}

pub proof fn lemma_le_value_bound(s: Seq<u8>)
    ensures
        le_value(s) < le_limit(s.len()),
    decreases s.len(),
{
    if s.len() > 0 {
        lemma_le_value_bound(s.drop_first());
    }
}

/// The number whose little-endian bytes stand in `data` from `at` on.
pub fn u64_from_le(data: &[u8], at: usize) -> (r: u64)
    requires
        at + 8 <= data@.len(),
    ensures
        r as nat == le_value(data@.subrange(at as int, at + 8)),
{
    let len: usize = data.len();
    let mut acc: u64 = 0;
    let mut k: usize = 8;
    assert(data@.subrange(at + 8, at + 8) =~= Seq::<u8>::empty());
    while k > 0
        invariant
            k <= 8,
            at + 8 <= len,
            len == data@.len(),
            acc as nat == le_value(data@.subrange(at + k, at + 8)),
        decreases k,
    {
        let ghost s = data@.subrange(at + k - 1, at + 8);
        proof {
            assert(s.drop_first() =~= data@.subrange(at + k, at + 8));
            lemma_le_value_bound(s);
            reveal_with_fuel(le_limit, 9);
            assert(le_limit(s.len()) <= le_limit(8));
        }
        acc = acc * 256 + data[at + k - 1] as u64;
        k -= 1;
    }
    acc
}

} // verus!
