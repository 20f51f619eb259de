//! The wire encoding: one deterministic binary format for every payload.
//!
//! A record is the concatenation of its values in declaration order, with no
//! tags: encoder and decoder share the schema of each record. Integers and
//! lengths are variable-length, texts are their length and their UTF-8 bytes,
//! an optional text is a flag byte and the text, and an amount is the
//! little-endian bit pattern of its float. This is the layout of `bincode`'s
//! standard configuration, which writes the variable-length parts.
use vstd::prelude::*;
use vstd::utf8::encode_utf8;
use crate::value::{Kind, Scalar, Value, scalar_kind, scalars};

verus! {

/// `x`, least significant byte first, in `n` bytes.
pub open spec fn le_bytes(x: nat, n: nat) -> Seq<u8>
    decreases n,
{
    if n == 0 {
        Seq::empty()
    } else {
        seq![(x % 256) as u8] + le_bytes(x / 256, (n - 1) as nat)
    }
}

/// The variable-length form of an unsigned integer below 2^64.
pub open spec fn varint(x: nat) -> Seq<u8> {
    if x <= 250 {
        seq![x as u8]
    } else if x <= 0xffff {
        seq![251u8] + le_bytes(x, 2)
    } else if x <= 0xffff_ffff {
        seq![252u8] + le_bytes(x, 4)
    } else {
        seq![253u8] + le_bytes(x, 8)
    }
}

/// Signed integers interleaved onto the naturals: 0, -1, 1, -2, ...
pub open spec fn zigzag(x: i32) -> nat {
    if x < 0 {
        (-2 * x - 1) as nat
    } else {
        (2 * x) as nat
    }
}

/// A text: the length of its UTF-8 form, then that form.
pub open spec fn text_bytes(s: Seq<char>) -> Seq<u8> {
    varint(encode_utf8(s).len()) + encode_utf8(s)
}

/// The encoding of one value.
pub open spec fn value_bytes(v: Scalar) -> Seq<u8> {
    match v {
        Scalar::Int(x) => varint(zigzag(x)),
        Scalar::Count(x) => varint(x as nat),
        Scalar::Byte(x) => seq![x],
        Scalar::Tiny(x) => seq![x as u8],
        Scalar::Flag(b) => seq![if b { 1u8 } else { 0u8 }],
        Scalar::Text(s) => text_bytes(s),
        Scalar::MaybeText(None) => seq![0u8],
        Scalar::MaybeText(Some(s)) => seq![1u8] + text_bytes(s),
        Scalar::Real(x) => le_bytes(x as nat, 8),
        Scalar::Single(x) => le_bytes(x as nat, 4),
        Scalar::Size(x) => varint(x as nat),
    }
}

/// The encoding of values, one after the other.
pub open spec fn values_bytes(vs: Seq<Scalar>) -> Seq<u8>
    decreases vs.len(),
{
    if vs.len() == 0 {
        Seq::empty()
    } else {
        values_bytes(vs.drop_last()) + value_bytes(vs.last())
    }
}

/// Records one after the other, each as its values.
pub open spec fn records_bytes(rs: Seq<Seq<Scalar>>) -> Seq<u8>
    decreases rs.len(),
{
    if rs.len() == 0 {
        Seq::empty()
    } else {
        records_bytes(rs.drop_last()) + values_bytes(rs.last())
    }
}

/// A list of records: its length, then the records.
pub open spec fn list_bytes(rs: Seq<Seq<Scalar>>) -> Seq<u8> {
    varint(rs.len()) + records_bytes(rs)
}

/// The kinds of values, in order.
pub open spec fn kinds_of(vs: Seq<Scalar>) -> Seq<Kind> {
    vs.map_values(|v: Scalar| scalar_kind(v))
}

/// Relies on `bincode::encode_to_vec` with `config::standard()`: a `u64` is
/// written in its variable-length form. Writing into a `Vec` cannot fail, so
/// the error arm is never taken.
#[verifier::external_body]
fn bincode_u64(x: u64) -> (r: Vec<u8>)
    ensures
        r@ == varint(x as nat),
{
    bincode::encode_to_vec(x, bincode::config::standard()).unwrap_or_default()
}

/// Relies on `bincode::encode_to_vec` with `config::standard()`: an `i32` is
/// zigzagged, then written in its variable-length form. Writing into a `Vec`
/// cannot fail, so the error arm is never taken.
#[verifier::external_body]
fn bincode_i32(x: i32) -> (r: Vec<u8>)
    ensures
        r@ == varint(zigzag(x)),
{
    bincode::encode_to_vec(x, bincode::config::standard()).unwrap_or_default()
}

/// Relies on `bincode::encode_to_vec` with `config::standard()`: a `str` is
/// written as the variable-length count of its bytes, then its UTF-8 bytes.
/// Writing into a `Vec` cannot fail, so the error arm is never taken.
#[verifier::external_body]
fn bincode_str(s: &str) -> (r: Vec<u8>)
    ensures
        r@ == text_bytes(s@),
{
    bincode::encode_to_vec(s, bincode::config::standard()).unwrap_or_default()
}

/// Relies on `bincode::decode_from_slice::<u64>` with `config::standard()`:
/// input that starts with the variable-length form of `x` decodes to `x`,
/// and the count of bytes read is the length of that form.
#[verifier::external_body]
fn bincode_read_u64(bytes: &Vec<u8>, at: usize) -> (r: Option<(u64, usize)>)
    requires
        at <= bytes@.len(),
    ensures
        forall|x: u64, rest: Seq<u8>|
            bytes@.skip(at as int) == #[trigger] (varint(x as nat) + rest) ==> r == Some((x, varint(x as nat).len() as usize)),
{
    bincode::decode_from_slice::<u64, _>(&bytes[at..], bincode::config::standard()).ok()
}

/// Relies on `bincode::decode_from_slice::<i32>` with `config::standard()`:
/// input that starts with the zigzagged variable-length form of `x` decodes
/// to `x`, and the count of bytes read is the length of that form.
#[verifier::external_body]
fn bincode_read_i32(bytes: &Vec<u8>, at: usize) -> (r: Option<(i32, usize)>)
    requires
        at <= bytes@.len(),
    ensures
        forall|x: i32, rest: Seq<u8>|
            bytes@.skip(at as int) == #[trigger] (varint(zigzag(x)) + rest) ==> r == Some((x, varint(zigzag(x)).len() as usize)),
{
    bincode::decode_from_slice::<i32, _>(&bytes[at..], bincode::config::standard()).ok()
}

/// Relies on `bincode::decode_from_slice::<String>` with
/// `config::standard()`: input that starts with the encoding of a text
/// decodes to that text, and the count of bytes read is the encoding's length.
/// The decoder allocates the declared length before reading, so the input
/// must declare no more bytes than follow the length.
#[verifier::external_body]
fn bincode_read_string(bytes: &Vec<u8>, at: usize) -> (r: Option<(String, usize)>)
    requires
        at <= bytes@.len(),
        exists|n: u64, rest: Seq<u8>| bytes@.skip(at as int) == varint(n as nat) + rest && n <= rest.len(),
    ensures
        forall|s: Seq<char>, rest: Seq<u8>|
            bytes@.skip(at as int) == #[trigger] (text_bytes(s) + rest) ==> r is Some && (r->0).0@ == s
                && (r->0).1 == text_bytes(s).len(),
{
    bincode::decode_from_slice::<String, _>(&bytes[at..], bincode::config::standard()).ok()
}

/// 256 to the power `n`.
pub open spec fn pow256(n: nat) -> nat
    decreases n,
{
    if n == 0 {
        1
    } else {
        256 * pow256((n - 1) as nat)
    }
}

proof fn lemma_le_len(x: nat, n: nat)
    ensures
        le_bytes(x, n).len() == n,
    decreases n,
{
    if n > 0 {
        lemma_le_len(x / 256, (n - 1) as nat);
    }
}

proof fn lemma_le_injective(x: nat, y: nat, n: nat)
    requires
        x < pow256(n),
        y < pow256(n),
        le_bytes(x, n) == le_bytes(y, n),
    ensures
        x == y,
    decreases n,
{
    if n > 0 {
        let p = pow256((n - 1) as nat);
        assert(le_bytes(x, n) == seq![(x % 256) as u8] + le_bytes(x / 256, (n - 1) as nat));
        assert(le_bytes(y, n) == seq![(y % 256) as u8] + le_bytes(y / 256, (n - 1) as nat));
        assert((seq![(x % 256) as u8] + le_bytes(x / 256, (n - 1) as nat))[0] == (x % 256) as u8);
        assert((seq![(y % 256) as u8] + le_bytes(y / 256, (n - 1) as nat))[0] == (y % 256) as u8);
        assert((x % 256) as u8 == (y % 256) as u8);
        assert(x % 256 == y % 256);
        assert(le_bytes(x / 256, (n - 1) as nat) =~= le_bytes(x, n).drop_first());
        assert(le_bytes(y / 256, (n - 1) as nat) =~= le_bytes(y, n).drop_first());
        assert(x / 256 < p) by (nonlinear_arith)
            requires x < 256 * p;
        assert(y / 256 < p) by (nonlinear_arith)
            requires y < 256 * p;
        lemma_le_injective(x / 256, y / 256, (n - 1) as nat);
        assert(x == 256 * (x / 256) + x % 256) by (nonlinear_arith);
        assert(y == 256 * (y / 256) + y % 256) by (nonlinear_arith);
    }
}

proof fn lemma_pow256_bounds()
    ensures
        pow256(4) == 0x1_0000_0000,
        pow256(8) == 0x1_0000_0000_0000_0000,
{
    reveal_with_fuel(pow256, 9);
}

/// Appends the `n` low bytes of `x`, least significant first.
fn push_le(out: &mut Vec<u8>, x: u64, n: u8)
    ensures
        final(out)@ == old(out)@ + le_bytes(x as nat, n as nat),
    decreases n,
{
    let ghost start = out@;
    if n > 0 {
        out.push((x % 256) as u8);
        push_le(out, x / 256, n - 1);
        proof {
            assert(out@ =~= start + le_bytes(x as nat, n as nat));
        }
    } else {
        proof {
            assert(out@ =~= start + le_bytes(x as nat, n as nat));
        }
    }
}

/// The number whose `n` low bytes, least significant first, stand at `at`.
fn read_le(bytes: &Vec<u8>, at: usize, n: usize) -> (r: u64)
    requires
        n <= 8,
        at + n <= bytes@.len(),
    ensures
        (r as nat) < pow256(n as nat),
        le_bytes(r as nat, n as nat) == bytes@.subrange(at as int, at + n),
    decreases n,
{
    if n == 0 {
        proof {
            assert(bytes@.subrange(at as int, at as int) =~= Seq::<u8>::empty());
        }
        0
    } else {
        let _len = bytes.len();
        let hi = read_le(bytes, at + 1, n - 1);
        let lo = bytes[at];
        proof {
            lemma_pow256_bounds();
            assert(pow256((n - 1) as nat) <= 0x100_0000_0000_0000) by {
                reveal_with_fuel(pow256, 8);
            }
            assert(256 * (hi as nat) + (lo as nat) < 256 * pow256((n - 1) as nat)) by (nonlinear_arith)
                requires (hi as nat) < pow256((n - 1) as nat), (lo as nat) < 256;
        }
        let r: u64 = (lo as u64) + 256 * hi;
        proof {
            let rn = r as nat;
            assert(rn % 256 == lo as nat && rn / 256 == hi as nat) by (nonlinear_arith)
                requires rn == 256 * (hi as nat) + (lo as nat), (lo as nat) < 256;
            assert(le_bytes(rn, n as nat) =~= seq![lo] + le_bytes(hi as nat, (n - 1) as nat));
            assert(bytes@.subrange(at as int, at + n) =~= seq![lo] + bytes@.subrange(at + 1, at + n));
        }
        r
    }
}

/// Reads a fixed-width little-endian number of `n` bytes at `at`.
fn read_fixed(bytes: &Vec<u8>, at: usize, n: usize) -> (r: Option<(u64, usize)>)
    requires
        n == 4 || n == 8,
        at <= bytes@.len(),
    ensures
        forall|x: nat, rest: Seq<u8>|
            x < pow256(n as nat) && bytes@.skip(at as int) == #[trigger] (le_bytes(x, n as nat) + rest)
                ==> r == Some((x as u64, (at + n) as usize)),
        r matches Some((_, end)) ==> at <= end <= bytes@.len(),
{
    if n > bytes.len() - at {
        proof {
            assert forall|x: nat, rest: Seq<u8>|
                x < pow256(n as nat) && bytes@.skip(at as int) == #[trigger] (le_bytes(x, n as nat) + rest) implies false by {
                lemma_le_len(x, n as nat);
                assert(bytes@.skip(at as int).len() == bytes@.len() - at);
                assert((le_bytes(x, n as nat) + rest).len() >= n);
            }
        }
        return None;
    }
    let v = read_le(bytes, at, n);
    proof {
        assert forall|x: nat, rest: Seq<u8>|
            x < pow256(n as nat) && bytes@.skip(at as int) == #[trigger] (le_bytes(x, n as nat) + rest) implies v as nat == x by {
            lemma_le_len(x, n as nat);
            assert(bytes@.subrange(at as int, at + n) =~= (le_bytes(x, n as nat) + rest).subrange(0, n as int));
            assert((le_bytes(x, n as nat) + rest).subrange(0, n as int) =~= le_bytes(x, n as nat));
            lemma_le_injective(v as nat, x, n as nat);
        }
    }
    Some((v, at + n))
}

/// Appends the encoding of `v` to `out`.
pub fn encode_value(v: &Value, out: &mut Vec<u8>)
    ensures
        final(out)@ == old(out)@ + value_bytes(v@),
{
    let ghost start = out@;
    match v {
        Value::Int(x) => {
            let mut b = bincode_i32(*x);
            out.append(&mut b);
        },
        Value::Count(x) => {
            let mut b = bincode_u64(*x as u64);
            out.append(&mut b);
        },
        Value::Size(x) => {
            let mut b = bincode_u64(*x);
            out.append(&mut b);
        },
        Value::Byte(x) => out.push(*x),
        Value::Tiny(x) => out.push(*x as u8),
        Value::Flag(b) => out.push(if *b { 1u8 } else { 0u8 }),
        Value::Text(s) => {
            let mut b = bincode_str(s.as_str());
            out.append(&mut b);
        },
        Value::MaybeText(None) => out.push(0u8),
        Value::MaybeText(Some(s)) => {
            out.push(1u8);
            let mut b = bincode_str(s.as_str());
            out.append(&mut b);
            proof {
                assert(out@ =~= start + value_bytes(v@));
            }
        },
        Value::Real(x) => push_le(out, *x, 8),
        Value::Single(x) => push_le(out, *x as u64, 4),
    }
}

proof fn lemma_values_bytes_append(a: Seq<Scalar>, b: Seq<Scalar>)
    ensures
        values_bytes(a + b) == values_bytes(a) + values_bytes(b),
    decreases b.len(),
{
    if b.len() == 0 {
        assert(a + b =~= a);
        assert(values_bytes(b) =~= Seq::<u8>::empty());
        assert(values_bytes(a) + values_bytes(b) =~= values_bytes(a));
    } else {
        lemma_values_bytes_append(a, b.drop_last());
        assert((a + b).drop_last() =~= a + b.drop_last());
        assert((a + b).last() == b.last());
        assert(values_bytes(a + b) =~= values_bytes(a) + values_bytes(b));
    }
}

/// The encoding of `vs`, one value after the other.
pub fn encode_values(vs: &Vec<Value>) -> (r: Vec<u8>)
    ensures
        r@ == values_bytes(scalars(vs@)),
{
    let mut out: Vec<u8> = Vec::new();
    let mut i: usize = 0;
    while i < vs.len()
        invariant
            i <= vs@.len(),
            out@ == values_bytes(scalars(vs@.take(i as int))),
        decreases vs@.len() - i,
    {
        encode_value(&vs[i], &mut out);
        proof {
            let t = scalars(vs@.take(i as int + 1));
            assert(t.drop_last() =~= scalars(vs@.take(i as int)));
            assert(t.last() == vs@[i as int]@);
        }
        i = i + 1;
    }
    proof {
        assert(vs@.take(vs@.len() as int) =~= vs@);
    }
    out
}

/// Whether the bytes of `bytes` from `at` start with `prefix`.
fn starts_with(bytes: &Vec<u8>, at: usize, prefix: &Vec<u8>) -> (r: bool)
    requires
        at <= bytes@.len(),
    ensures
        r == (prefix@.len() <= bytes@.len() - at && bytes@.subrange(at as int, at + prefix@.len()) == prefix@),
{
    if prefix.len() > bytes.len() - at {
        return false;
    }
    let _len = bytes.len();
    let mut i: usize = 0;
    while i < prefix.len()
        invariant
            i <= prefix@.len(),
            bytes@.len() <= usize::MAX,
            at + prefix@.len() <= bytes@.len(),
            forall|j: int| 0 <= j < i ==> bytes@[at + j] == prefix@[j],
        decreases prefix@.len() - i,
    {
        if bytes[at + i] != prefix[i] {
            proof {
                assert(bytes@.subrange(at as int, at + prefix@.len())[i as int] != prefix@[i as int]);
            }
            return false;
        }
        i = i + 1;
    }
    proof {
        assert(bytes@.subrange(at as int, at + prefix@.len()) =~= prefix@);
    }
    true
}

/// Reads a text at `at`. The declared length is read first, and the text is
/// decoded only when that length is in its canonical form and the input
/// holds that many bytes after it.
fn read_text(bytes: &Vec<u8>, at: usize) -> (r: Option<(String, usize)>)
    requires
        at <= bytes@.len(),
    ensures
        forall|s: Seq<char>, rest: Seq<u8>|
            bytes@.skip(at as int) == #[trigger] (text_bytes(s) + rest) ==> r is Some && (r->0).0@ == s
                && (r->0).1 == at + text_bytes(s).len(),
        r matches Some((_, end)) ==> at <= end <= bytes@.len(),
{
    let _len = bytes.len();
    proof {
        assert forall|s: Seq<char>, rest: Seq<u8>| bytes@.skip(at as int) == #[trigger] (text_bytes(s) + rest) implies
            bytes@.skip(at as int) == varint(((encode_utf8(s).len()) as u64) as nat) + (encode_utf8(s) + rest) by {
            assert(text_bytes(s) + rest =~= varint(encode_utf8(s).len()) + (encode_utf8(s) + rest));
            assert(bytes@.skip(at as int).len() == bytes@.len() - at);
            assert(encode_utf8(s).len() <= bytes@.len());
        }
    }
    let (n, _) = match bincode_read_u64(bytes, at) {
        Some(x) => x,
        None => {
            proof {
                assert forall|s: Seq<char>, rest: Seq<u8>|
                    bytes@.skip(at as int) == #[trigger] (text_bytes(s) + rest) implies false by {
                    assert(bytes@.skip(at as int) == varint((encode_utf8(s).len() as u64) as nat) + (encode_utf8(s) + rest));
                }
            }
            return None;
        },
    };
    let prefix = bincode_u64(n);
    if !starts_with(bytes, at, &prefix) || n > (bytes.len() - at - prefix.len()) as u64 {
        proof {
            assert forall|s: Seq<char>, rest: Seq<u8>|
                bytes@.skip(at as int) == #[trigger] (text_bytes(s) + rest) implies false by {
                let m = encode_utf8(s).len();
                assert(bytes@.skip(at as int) == varint((m as u64) as nat) + (encode_utf8(s) + rest));
                assert(n as nat == m);
                assert(bytes@.subrange(at as int, at + prefix@.len()) =~= (varint(m) + (encode_utf8(s) + rest)).subrange(0, prefix@.len() as int));
                assert((varint(m) + (encode_utf8(s) + rest)).subrange(0, prefix@.len() as int) =~= varint(m));
                assert(bytes@.skip(at as int).len() == bytes@.len() - at);
            }
        }
        return None;
    }
    proof {
        let tail = bytes@.skip(at + prefix@.len());
        assert(bytes@.skip(at as int) =~= varint(n as nat) + tail);
    }
    match bincode_read_string(bytes, at) {
        Some((t, k)) => {
            if k > bytes.len() - at {
                proof {
                    assert forall|s: Seq<char>, rest: Seq<u8>|
                        bytes@.skip(at as int) == #[trigger] (text_bytes(s) + rest) implies false by {
                        assert(bytes@.skip(at as int).len() == bytes@.len() - at);
                    }
                }
                None
            } else {
                Some((t, at + k))
            }
        },
        None => None,
    }
}

proof fn lemma_value_fits(bytes: Seq<u8>, at: int, k: Kind)
    ensures
        forall|v: Scalar, rest: Seq<u8>|
            scalar_kind(v) == k && bytes.skip(at) == #[trigger] (value_bytes(v) + rest) ==>
                bytes.skip(at).len() >= value_bytes(v).len() && value_bytes(v).len() > 0,
{
    lemma_pow256_bounds();
    assert forall|v: Scalar, rest: Seq<u8>|
        scalar_kind(v) == k && bytes.skip(at) == #[trigger] (value_bytes(v) + rest) implies
            bytes.skip(at).len() >= value_bytes(v).len() && value_bytes(v).len() > 0 by {
        match v {
            Scalar::Real(x) => lemma_le_len(x as nat, 8),
            Scalar::Single(x) => lemma_le_len(x as nat, 4),
            Scalar::Int(x) => lemma_varint_nonempty(zigzag(x)),
            Scalar::Count(x) => lemma_varint_nonempty(x as nat),
            Scalar::Size(x) => lemma_varint_nonempty(x as nat),
            Scalar::Text(s) => lemma_varint_nonempty(encode_utf8(s).len()),
            _ => {},
        }
    }
}

fn decode_int(bytes: &Vec<u8>, at: usize) -> (r: Option<(Value, usize)>)
    requires
        at <= bytes@.len(),
    ensures
        forall|v: Scalar, rest: Seq<u8>|
            scalar_kind(v) == Kind::Int && bytes@.skip(at as int) == #[trigger] (value_bytes(v) + rest) ==> r is Some
                && (r->0).0@ == v && (r->0).1 == at + value_bytes(v).len(),
        r matches Some((_, end)) ==> at <= end <= bytes@.len(),
{
    let _len = bytes.len();
    proof {
        lemma_value_fits(bytes@, at as int, Kind::Int);
        lemma_pow256_bounds();
    }
    proof {
        assert forall|v: Scalar, rest: Seq<u8>|
            scalar_kind(v) == Kind::Int && bytes@.skip(at as int) == #[trigger] (value_bytes(v) + rest) implies
                bytes@.skip(at as int) == varint(zigzag(v->Int_0)) + rest by {}
    }
    match bincode_read_i32(bytes, at) {
        Some((x, n)) => if n <= bytes.len() - at {
            Some((Value::Int(x), at + n))
        } else {
            None
        },
        None => None,
    }
}

fn decode_count(bytes: &Vec<u8>, at: usize) -> (r: Option<(Value, usize)>)
    requires
        at <= bytes@.len(),
    ensures
        forall|v: Scalar, rest: Seq<u8>|
            scalar_kind(v) == Kind::Count && bytes@.skip(at as int) == #[trigger] (value_bytes(v) + rest) ==> r is Some
                && (r->0).0@ == v && (r->0).1 == at + value_bytes(v).len(),
        r matches Some((_, end)) ==> at <= end <= bytes@.len(),
{
    let _len = bytes.len();
    proof {
        lemma_value_fits(bytes@, at as int, Kind::Count);
        lemma_pow256_bounds();
    }
    proof {
        assert forall|v: Scalar, rest: Seq<u8>|
            scalar_kind(v) == Kind::Count && bytes@.skip(at as int) == #[trigger] (value_bytes(v) + rest) implies
                bytes@.skip(at as int) == varint(((v->Count_0) as u64) as nat) + rest by {}
    }
    match bincode_read_u64(bytes, at) {
        Some((x, n)) => if n <= bytes.len() - at && x <= 0xffff_ffff {
            Some((Value::Count(x as u32), at + n))
        } else {
            None
        },
        None => None,
    }
}

fn decode_size(bytes: &Vec<u8>, at: usize) -> (r: Option<(Value, usize)>)
    requires
        at <= bytes@.len(),
    ensures
        forall|v: Scalar, rest: Seq<u8>|
            scalar_kind(v) == Kind::Size && bytes@.skip(at as int) == #[trigger] (value_bytes(v) + rest) ==> r is Some
                && (r->0).0@ == v && (r->0).1 == at + value_bytes(v).len(),
        r matches Some((_, end)) ==> at <= end <= bytes@.len(),
{
    let _len = bytes.len();
    proof {
        lemma_value_fits(bytes@, at as int, Kind::Size);
        lemma_pow256_bounds();
    }
    proof {
        assert forall|v: Scalar, rest: Seq<u8>|
            scalar_kind(v) == Kind::Size && bytes@.skip(at as int) == #[trigger] (value_bytes(v) + rest) implies
                bytes@.skip(at as int) == varint((v->Size_0) as nat) + rest by {}
    }
    match bincode_read_u64(bytes, at) {
        Some((x, n)) => if n <= bytes.len() - at {
            Some((Value::Size(x), at + n))
        } else {
            None
        },
        None => None,
    }
}

fn decode_byte(bytes: &Vec<u8>, at: usize) -> (r: Option<(Value, usize)>)
    requires
        at <= bytes@.len(),
    ensures
        forall|v: Scalar, rest: Seq<u8>|
            scalar_kind(v) == Kind::Byte && bytes@.skip(at as int) == #[trigger] (value_bytes(v) + rest) ==> r is Some
                && (r->0).0@ == v && (r->0).1 == at + value_bytes(v).len(),
        r matches Some((_, end)) ==> at <= end <= bytes@.len(),
{
    let _len = bytes.len();
    proof {
        lemma_value_fits(bytes@, at as int, Kind::Byte);
        lemma_pow256_bounds();
    }
    if at < bytes.len() {
    proof {
        assert forall|v: Scalar, rest: Seq<u8>|
            scalar_kind(v) == Kind::Byte && bytes@.skip(at as int) == #[trigger] (value_bytes(v) + rest) implies
                v == Scalar::Byte(bytes@[at as int]) by {
                assert(bytes@[at as int] == bytes@.skip(at as int)[0]);
            }
    }
        Some((Value::Byte(bytes[at]), at + 1))
    } else {
        None
    }
}

fn decode_tiny(bytes: &Vec<u8>, at: usize) -> (r: Option<(Value, usize)>)
    requires
        at <= bytes@.len(),
    ensures
        forall|v: Scalar, rest: Seq<u8>|
            scalar_kind(v) == Kind::Tiny && bytes@.skip(at as int) == #[trigger] (value_bytes(v) + rest) ==> r is Some
                && (r->0).0@ == v && (r->0).1 == at + value_bytes(v).len(),
        r matches Some((_, end)) ==> at <= end <= bytes@.len(),
{
    let _len = bytes.len();
    proof {
        lemma_value_fits(bytes@, at as int, Kind::Tiny);
        lemma_pow256_bounds();
    }
    if at < bytes.len() {
    proof {
        assert forall|v: Scalar, rest: Seq<u8>|
            scalar_kind(v) == Kind::Tiny && bytes@.skip(at as int) == #[trigger] (value_bytes(v) + rest) implies
                v == Scalar::Tiny(bytes@[at as int] as i8) by {
                if let Scalar::Tiny(x) = v {
                    assert(bytes@[at as int] == bytes@.skip(at as int)[0]);
                    assert(bytes@[at as int] == x as u8);
                    assert((x as u8) as i8 == x) by (bit_vector);
                }
            }
    }
        Some((Value::Tiny(bytes[at] as i8), at + 1))
    } else {
        None
    }
}

fn decode_flag(bytes: &Vec<u8>, at: usize) -> (r: Option<(Value, usize)>)
    requires
        at <= bytes@.len(),
    ensures
        forall|v: Scalar, rest: Seq<u8>|
            scalar_kind(v) == Kind::Flag && bytes@.skip(at as int) == #[trigger] (value_bytes(v) + rest) ==> r is Some
                && (r->0).0@ == v && (r->0).1 == at + value_bytes(v).len(),
        r matches Some((_, end)) ==> at <= end <= bytes@.len(),
{
    let _len = bytes.len();
    proof {
        lemma_value_fits(bytes@, at as int, Kind::Flag);
        lemma_pow256_bounds();
    }
    if at < bytes.len() && bytes[at] <= 1 {
    proof {
        assert forall|v: Scalar, rest: Seq<u8>|
            scalar_kind(v) == Kind::Flag && bytes@.skip(at as int) == #[trigger] (value_bytes(v) + rest) implies
                v == Scalar::Flag(bytes@[at as int] == 1) by {
                assert(bytes@[at as int] == bytes@.skip(at as int)[0]);
            }
    }
        Some((Value::Flag(bytes[at] == 1), at + 1))
    } else {
    proof {
        assert forall|v: Scalar, rest: Seq<u8>|
            scalar_kind(v) == Kind::Flag && bytes@.skip(at as int) == #[trigger] (value_bytes(v) + rest) implies
                false by {
                assert(bytes@[at as int] == bytes@.skip(at as int)[0]);
            }
    }
        None
    }
}

fn decode_text(bytes: &Vec<u8>, at: usize) -> (r: Option<(Value, usize)>)
    requires
        at <= bytes@.len(),
    ensures
        forall|v: Scalar, rest: Seq<u8>|
            scalar_kind(v) == Kind::Text && bytes@.skip(at as int) == #[trigger] (value_bytes(v) + rest) ==> r is Some
                && (r->0).0@ == v && (r->0).1 == at + value_bytes(v).len(),
        r matches Some((_, end)) ==> at <= end <= bytes@.len(),
{
    let _len = bytes.len();
    proof {
        lemma_value_fits(bytes@, at as int, Kind::Text);
        lemma_pow256_bounds();
    }
    proof {
        assert forall|v: Scalar, rest: Seq<u8>|
            scalar_kind(v) == Kind::Text && bytes@.skip(at as int) == #[trigger] (value_bytes(v) + rest) implies
                bytes@.skip(at as int) == text_bytes(v->Text_0) + rest by {}
    }
    match read_text(bytes, at) {
        Some((t, end)) => Some((Value::Text(t), end)),
        None => None,
    }
}

fn decode_maybe_text(bytes: &Vec<u8>, at: usize) -> (r: Option<(Value, usize)>)
    requires
        at <= bytes@.len(),
    ensures
        forall|v: Scalar, rest: Seq<u8>|
            scalar_kind(v) == Kind::MaybeText && bytes@.skip(at as int) == #[trigger] (value_bytes(v) + rest) ==> r is Some
                && (r->0).0@ == v && (r->0).1 == at + value_bytes(v).len(),
        r matches Some((_, end)) ==> at <= end <= bytes@.len(),
{
    let _len = bytes.len();
    proof {
        lemma_value_fits(bytes@, at as int, Kind::MaybeText);
        lemma_pow256_bounds();
    }
    if at >= bytes.len() {
        return None;
    }
    let tag = bytes[at];
    proof {
        assert forall|v: Scalar, rest: Seq<u8>|
            scalar_kind(v) == Kind::MaybeText && bytes@.skip(at as int) == #[trigger] (value_bytes(v) + rest) implies
                (v is MaybeText && (v->MaybeText_0 is None <==> tag == 0) && (v->MaybeText_0 is Some <==> tag == 1)) by {
                assert(tag == bytes@.skip(at as int)[0]);
            }
    }
    if tag == 0 {
        Some((Value::MaybeText(None), at + 1))
    } else if tag == 1 {
    proof {
        assert forall|v: Scalar, rest: Seq<u8>|
            scalar_kind(v) == Kind::MaybeText && bytes@.skip(at as int) == #[trigger] (value_bytes(v) + rest) implies
                bytes@.skip(at + 1) == text_bytes(v->MaybeText_0->0) + rest by {
                assert(bytes@.skip(at + 1) =~= bytes@.skip(at as int).drop_first());
                assert((value_bytes(v) + rest).drop_first() =~= text_bytes(v->MaybeText_0->0) + rest);
            }
    }
        match read_text(bytes, at + 1) {
            Some((t, end)) => Some((Value::MaybeText(Some(t)), end)),
            None => None,
        }
    } else {
        None
    }
}

fn decode_real(bytes: &Vec<u8>, at: usize) -> (r: Option<(Value, usize)>)
    requires
        at <= bytes@.len(),
    ensures
        forall|v: Scalar, rest: Seq<u8>|
            scalar_kind(v) == Kind::Real && bytes@.skip(at as int) == #[trigger] (value_bytes(v) + rest) ==> r is Some
                && (r->0).0@ == v && (r->0).1 == at + value_bytes(v).len(),
        r matches Some((_, end)) ==> at <= end <= bytes@.len(),
{
    let _len = bytes.len();
    proof {
        lemma_value_fits(bytes@, at as int, Kind::Real);
        lemma_pow256_bounds();
    }
    proof {
        assert forall|v: Scalar, rest: Seq<u8>|
            scalar_kind(v) == Kind::Real && bytes@.skip(at as int) == #[trigger] (value_bytes(v) + rest) implies
                bytes@.skip(at as int) == le_bytes((v->Real_0) as nat, 8usize as nat) + rest
                    && ((v->Real_0) as nat) < pow256(8usize as nat)
                    && value_bytes(v).len() == 8 by {
                lemma_le_len((v->Real_0) as nat, 8);
            }
    }
    match read_fixed(bytes, at, 8) {
        Some((x, end)) => Some((Value::Real(x), end)),
        None => None,
    }
}

fn decode_single(bytes: &Vec<u8>, at: usize) -> (r: Option<(Value, usize)>)
    requires
        at <= bytes@.len(),
    ensures
        forall|v: Scalar, rest: Seq<u8>|
            scalar_kind(v) == Kind::Single && bytes@.skip(at as int) == #[trigger] (value_bytes(v) + rest) ==> r is Some
                && (r->0).0@ == v && (r->0).1 == at + value_bytes(v).len(),
        r matches Some((_, end)) ==> at <= end <= bytes@.len(),
{
    let _len = bytes.len();
    proof {
        lemma_value_fits(bytes@, at as int, Kind::Single);
        lemma_pow256_bounds();
    }
    proof {
        assert forall|v: Scalar, rest: Seq<u8>|
            scalar_kind(v) == Kind::Single && bytes@.skip(at as int) == #[trigger] (value_bytes(v) + rest) implies
                bytes@.skip(at as int) == le_bytes((v->Single_0) as nat, 4usize as nat) + rest
                    && ((v->Single_0) as nat) < pow256(4usize as nat)
                    && value_bytes(v).len() == 4 by {
                lemma_le_len((v->Single_0) as nat, 4);
            }
    }
    match read_fixed(bytes, at, 4) {
        Some((x, end)) => if x <= 0xffff_ffff {
            Some((Value::Single(x as u32), end))
        } else {
            None
        },
        None => None,
    }
}

/// Reads a value of kind `k` at `at`, and the position after it.
pub fn decode_value(bytes: &Vec<u8>, at: usize, k: Kind) -> (r: Option<(Value, usize)>)
    requires
        at <= bytes@.len(),
    ensures
        forall|v: Scalar, rest: Seq<u8>|
            scalar_kind(v) == k && bytes@.skip(at as int) == #[trigger] (value_bytes(v) + rest) ==> r is Some
                && (r->0).0@ == v && (r->0).1 == at + value_bytes(v).len(),
        r matches Some((_, end)) ==> at <= end <= bytes@.len(),
{
    match k {
        Kind::Int => decode_int(bytes, at),
        Kind::Count => decode_count(bytes, at),
        Kind::Size => decode_size(bytes, at),
        Kind::Byte => decode_byte(bytes, at),
        Kind::Tiny => decode_tiny(bytes, at),
        Kind::Flag => decode_flag(bytes, at),
        Kind::Text => decode_text(bytes, at),
        Kind::MaybeText => decode_maybe_text(bytes, at),
        Kind::Real => decode_real(bytes, at),
        Kind::Single => decode_single(bytes, at),
    }
}

/// Reads values of the kinds `kinds`, in order, from `at`: the values that
/// were encoded there, and the position after them.
pub fn decode_values(bytes: &Vec<u8>, at: usize, kinds: &Vec<Kind>) -> (r: Option<(Vec<Value>, usize)>)
    requires
        at <= bytes@.len(),
    ensures
        forall|vs: Seq<Scalar>, rest: Seq<u8>|
            kinds_of(vs) == kinds@ && bytes@.skip(at as int) == #[trigger] (values_bytes(vs) + rest) ==> r is Some
                && scalars((r->0).0@) == vs && (r->0).1 == at + values_bytes(vs).len(),
        r matches Some((_, end)) ==> at <= end <= bytes@.len(),
{
    let mut out: Vec<Value> = Vec::new();
    let mut pos: usize = at;
    let mut i: usize = 0;
    while i < kinds.len()
        invariant
            i <= kinds@.len(),
            at <= pos <= bytes@.len(),
            out@.len() == i,
            forall|vs: Seq<Scalar>, rest: Seq<u8>|
                kinds_of(vs) == kinds@ && bytes@.skip(at as int) == #[trigger] (values_bytes(vs) + rest) ==>
                    scalars(out@) == vs.take(i as int) && pos == at + values_bytes(vs.take(i as int)).len(),
        decreases kinds@.len() - i,
    {
        let step = decode_value(bytes, pos, kinds[i]);
        proof {
            assert forall|vs: Seq<Scalar>, rest: Seq<u8>|
                kinds_of(vs) == kinds@ && bytes@.skip(at as int) == #[trigger] (values_bytes(vs) + rest) implies
                    scalar_kind(vs[i as int]) == kinds@[i as int]
                    && bytes@.skip(pos as int) == value_bytes(vs[i as int]) + (values_bytes(vs.skip(i + 1)) + rest) by {
                let head = vs.take(i as int);
                let tail = vs.skip(i + 1);
                assert(vs.len() == kinds@.len());
                assert(vs =~= head + (seq![vs[i as int]] + tail));
                lemma_values_bytes_append(head, seq![vs[i as int]] + tail);
                lemma_values_bytes_append(seq![vs[i as int]], tail);
                assert(values_bytes(seq![vs[i as int]]) =~= value_bytes(vs[i as int])) by {
                    assert(seq![vs[i as int]].drop_last() =~= Seq::<Scalar>::empty());
                    assert(values_bytes(Seq::<Scalar>::empty()) =~= Seq::<u8>::empty());
                    assert(values_bytes(seq![vs[i as int]]) == values_bytes(seq![vs[i as int]].drop_last()) + value_bytes(vs[i as int]));
                }
                let whole = values_bytes(head) + (value_bytes(vs[i as int]) + (values_bytes(tail) + rest));
                assert(values_bytes(vs) + rest =~= whole);
                assert(bytes@.skip(pos as int) =~= bytes@.skip(at as int).skip(pos - at));
                assert(whole.skip(values_bytes(head).len() as int) =~= value_bytes(vs[i as int]) + (values_bytes(tail) + rest));
            }
        }
        match step {
            Some((v, next)) => {
                out.push(v);
                proof {
                    assert forall|vs: Seq<Scalar>, rest: Seq<u8>|
                        kinds_of(vs) == kinds@ && bytes@.skip(at as int) == #[trigger] (values_bytes(vs) + rest) implies
                            scalars(out@) == vs.take(i + 1) && next == at + values_bytes(vs.take(i + 1)).len() by {
                        assert(bytes@.skip(pos as int) == value_bytes(vs[i as int]) + (values_bytes(vs.skip(i + 1)) + rest));
                        assert(vs.take(i + 1) =~= vs.take(i as int).push(vs[i as int]));
                        assert(vs.take(i + 1).drop_last() =~= vs.take(i as int));
                        assert(scalars(out@) =~= vs.take(i + 1));
                    }
                }
                pos = next;
            },
            None => {
                proof {
                    assert forall|vs: Seq<Scalar>, rest: Seq<u8>|
                        kinds_of(vs) == kinds@ && bytes@.skip(at as int) == #[trigger] (values_bytes(vs) + rest) implies false by {
                        assert(bytes@.skip(pos as int) == value_bytes(vs[i as int]) + (values_bytes(vs.skip(i + 1)) + rest));
                    }
                }
                return None;
            },
        }
        i = i + 1;
    }
    proof {
        assert forall|vs: Seq<Scalar>, rest: Seq<u8>|
            kinds_of(vs) == kinds@ && bytes@.skip(at as int) == #[trigger] (values_bytes(vs) + rest) implies
                vs.take(kinds@.len() as int) == vs by {
            assert(vs.len() == kinds@.len());
            assert(vs.take(kinds@.len() as int) =~= vs);
        }
    }
    Some((out, pos))
}

proof fn lemma_records_bytes_append(a: Seq<Seq<Scalar>>, b: Seq<Seq<Scalar>>)
    ensures
        records_bytes(a + b) == records_bytes(a) + records_bytes(b),
    decreases b.len(),
{
    if b.len() == 0 {
        assert(a + b =~= a);
        assert(records_bytes(b) =~= Seq::<u8>::empty());
        assert(records_bytes(a) + records_bytes(b) =~= records_bytes(a));
    } else {
        lemma_records_bytes_append(a, b.drop_last());
        assert((a + b).drop_last() =~= a + b.drop_last());
        assert((a + b).last() == b.last());
        assert(records_bytes(a + b) =~= records_bytes(a) + records_bytes(b));
    }
}

proof fn lemma_value_nonempty(v: Scalar)
    ensures
        value_bytes(v).len() > 0,
{
    match v {
        Scalar::Real(x) => lemma_le_len(x as nat, 8),
        Scalar::Single(x) => lemma_le_len(x as nat, 4),
        _ => {},
    }
}

proof fn lemma_values_len(vs: Seq<Scalar>)
    ensures
        values_bytes(vs).len() >= vs.len(),
    decreases vs.len(),
{
    if vs.len() > 0 {
        lemma_values_len(vs.drop_last());
        lemma_value_nonempty(vs.last());
    }
}

/// Records of at least one value each take at least one byte each.
proof fn lemma_records_len(rs: Seq<Seq<Scalar>>, kinds: Seq<Kind>)
    requires
        kinds.len() > 0,
        all_of_kinds(rs, kinds),
    ensures
        records_bytes(rs).len() >= rs.len(),
    decreases rs.len(),
{
    if rs.len() > 0 {
        assert(all_of_kinds(rs.drop_last(), kinds)) by {
            assert forall|i: int| 0 <= i < rs.drop_last().len() implies kinds_of(#[trigger] rs.drop_last()[i]) == kinds by {
                assert(rs.drop_last()[i] == rs[i]);
            }
        }
        lemma_records_len(rs.drop_last(), kinds);
        assert(kinds_of(rs.last()) == kinds);
        assert(rs.last().len() == kinds.len());
        lemma_values_len(rs.last());
    }
}

/// Every record of `rs` has the kinds `kinds`.
pub open spec fn all_of_kinds(rs: Seq<Seq<Scalar>>, kinds: Seq<Kind>) -> bool {
    forall|i: int| 0 <= i < rs.len() ==> kinds_of(#[trigger] rs[i]) == kinds
}

/// Reads a list of records of the kinds `kinds` at `at`: the records that
/// were encoded there, as their values, and the position after them.
pub fn decode_records_at(bytes: &Vec<u8>, at: usize, kinds: &Vec<Kind>) -> (r: Option<(Vec<Vec<Value>>, usize)>)
    requires
        kinds@.len() > 0,
        at <= bytes@.len(),
    ensures
        forall|rs: Seq<Seq<Scalar>>, rest: Seq<u8>|
            all_of_kinds(rs, kinds@) && bytes@.skip(at as int) == #[trigger] (list_bytes(rs) + rest) ==> r is Some
                && (r->0).0@.len() == rs.len()
                && (r->0).1 == at + list_bytes(rs).len()
                && forall|i: int| 0 <= i < rs.len() ==> scalars((#[trigger] (r->0).0@[i])@) == rs[i],
        r matches Some((_, end)) ==> at <= end <= bytes@.len(),
{
    let _len = bytes.len();
    proof {
        assert forall|rs: Seq<Seq<Scalar>>, rest: Seq<u8>|
            all_of_kinds(rs, kinds@) && bytes@.skip(at as int) == #[trigger] (list_bytes(rs) + rest) implies
                rs.len() <= bytes@.len()
                && bytes@.skip(at as int) == value_bytes(Scalar::Size(rs.len() as u64)) + (records_bytes(rs) + rest) by {
            lemma_records_len(rs, kinds@);
            assert(bytes@.skip(at as int).len() == bytes@.len() - at);
            assert(rs.len() <= bytes@.len());
            assert(list_bytes(rs) + rest =~= value_bytes(Scalar::Size(rs.len() as u64)) + (records_bytes(rs) + rest));
        }
    }
    let (count, start) = match decode_value(bytes, at, Kind::Size) {
        Some((Value::Size(n), end)) => (n, end),
        _ => {
            proof {
                assert forall|rs: Seq<Seq<Scalar>>, rest: Seq<u8>|
                    all_of_kinds(rs, kinds@) && bytes@.skip(at as int) == #[trigger] (list_bytes(rs) + rest) implies false by {
                    assert(bytes@.skip(at as int) == value_bytes(Scalar::Size(rs.len() as u64)) + (records_bytes(rs) + rest));
                }
            }
            return None;
        },
    };
    proof {
        assert forall|rs: Seq<Seq<Scalar>>, rest: Seq<u8>|
            all_of_kinds(rs, kinds@) && bytes@.skip(at as int) == #[trigger] (list_bytes(rs) + rest) implies
                count == rs.len() && start == at + varint(rs.len()).len() by {
            assert(bytes@.skip(at as int) == value_bytes(Scalar::Size(rs.len() as u64)) + (records_bytes(rs) + rest));
        }
    }
    let mut out: Vec<Vec<Value>> = Vec::new();
    let mut pos: usize = start;
    let mut i: u64 = 0;
    while i < count
        invariant
            at <= start <= pos <= bytes@.len(),
            i <= count,
            out@.len() == i,
            forall|rs: Seq<Seq<Scalar>>, rest: Seq<u8>|
                all_of_kinds(rs, kinds@) && bytes@.skip(at as int) == #[trigger] (list_bytes(rs) + rest) ==> {
                    &&& count == rs.len()
                    &&& pos == at + varint(rs.len()).len() + records_bytes(rs.take(i as int)).len()
                    &&& forall|j: int| 0 <= j < i ==> scalars((#[trigger] out@[j])@) == rs[j]
                },
        decreases count - i,
    {
        proof {
            assert forall|rs: Seq<Seq<Scalar>>, rest: Seq<u8>|
                all_of_kinds(rs, kinds@) && bytes@.skip(at as int) == #[trigger] (list_bytes(rs) + rest) implies
                    kinds_of(rs[i as int]) == kinds@
                    && bytes@.skip(pos as int) == values_bytes(rs[i as int]) + (records_bytes(rs.skip(i + 1)) + rest) by {
                let head = rs.take(i as int);
                let tail = rs.skip(i + 1);
                assert(rs =~= head + (seq![rs[i as int]] + tail));
                lemma_records_bytes_append(head, seq![rs[i as int]] + tail);
                lemma_records_bytes_append(seq![rs[i as int]], tail);
                assert(records_bytes(seq![rs[i as int]]) =~= values_bytes(rs[i as int])) by {
                    assert(seq![rs[i as int]].drop_last() =~= Seq::<Seq<Scalar>>::empty());
                    assert(records_bytes(Seq::<Seq<Scalar>>::empty()) =~= Seq::<u8>::empty());
                    assert(records_bytes(seq![rs[i as int]]) == records_bytes(seq![rs[i as int]].drop_last())
                        + values_bytes(rs[i as int]));
                }
                let whole = varint(rs.len()) + (records_bytes(head) + (values_bytes(rs[i as int]) + (records_bytes(tail) + rest)));
                assert(list_bytes(rs) + rest =~= whole);
                assert(bytes@.skip(pos as int) =~= bytes@.skip(at as int).skip(pos - at));
                assert(whole.skip(pos - at) =~= values_bytes(rs[i as int]) + (records_bytes(tail) + rest));
            }
        }
        match decode_values(bytes, pos, kinds) {
            Some((vs, next)) => {
                let ghost before = out@;
                out.push(vs);
                proof {
                    assert forall|rs: Seq<Seq<Scalar>>, rest: Seq<u8>|
                        all_of_kinds(rs, kinds@) && bytes@.skip(at as int) == #[trigger] (list_bytes(rs) + rest) implies
                            next == at + varint(rs.len()).len() + records_bytes(rs.take(i + 1)).len()
                            && forall|j: int| 0 <= j < i + 1 ==> scalars((#[trigger] out@[j])@) == rs[j] by {
                        let tail = records_bytes(rs.skip(i + 1)) + rest;
                        assert(bytes@.skip(pos as int) == values_bytes(rs[i as int]) + tail);
                        assert(rs.take(i + 1).drop_last() =~= rs.take(i as int));
                        assert(rs.take(i + 1).last() == rs[i as int]);
                        assert forall|j: int| 0 <= j < i + 1 implies scalars((#[trigger] out@[j])@) == rs[j] by {
                            if j < i {
                                assert(out@[j] == before[j]);
                            }
                        }
                    }
                }
                pos = next;
            },
            None => {
                proof {
                    assert forall|rs: Seq<Seq<Scalar>>, rest: Seq<u8>|
                        all_of_kinds(rs, kinds@) && bytes@.skip(at as int) == #[trigger] (list_bytes(rs) + rest) implies false by {
                        assert(bytes@.skip(pos as int) == values_bytes(rs[i as int]) + (records_bytes(rs.skip(i + 1)) + rest));
                    }
                }
                return None;
            },
        }
        i = i + 1;
    }
    proof {
        assert forall|rs: Seq<Seq<Scalar>>, rest: Seq<u8>|
            all_of_kinds(rs, kinds@) && bytes@.skip(at as int) == #[trigger] (list_bytes(rs) + rest) implies
                pos == at + list_bytes(rs).len() by {
            assert(rs.take(rs.len() as int) =~= rs);
        }
    }
    Some((out, pos))
}

/// Reads a list of records of the kinds `kinds` that fills `bytes` exactly:
/// the records that were encoded there, as their values.
pub fn decode_records(bytes: &Vec<u8>, kinds: &Vec<Kind>) -> (r: Option<Vec<Vec<Value>>>)
    requires
        kinds@.len() > 0,
    ensures
        forall|rs: Seq<Seq<Scalar>>|
            all_of_kinds(rs, kinds@) && bytes@ == #[trigger] list_bytes(rs) ==> r is Some
                && (r->0)@.len() == rs.len()
                && forall|i: int| 0 <= i < rs.len() ==> scalars((#[trigger] (r->0)@[i])@) == rs[i],
{
    proof {
        assert forall|rs: Seq<Seq<Scalar>>| all_of_kinds(rs, kinds@) && bytes@ == #[trigger] list_bytes(rs) implies
            bytes@.skip(0) == list_bytes(rs) + Seq::<u8>::empty() by {
            assert(bytes@.skip(0) =~= list_bytes(rs) + Seq::<u8>::empty());
        }
    }
    match decode_records_at(bytes, 0, kinds) {
        Some((out, end)) => {
            if end != bytes.len() {
                return None;
            }
            Some(out)
        },
        None => None,
    }
}

proof fn lemma_varint_nonempty(x: nat)
    ensures
        varint(x).len() > 0,
{
}

} // verus!
