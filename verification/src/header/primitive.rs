//! HPACK primitive codecs: the N-bit-prefix variable-length integer and the
//! length-prefixed string literal.
//!
//! An HPACK integer is represented in two parts: a prefix that fills the
//! current octet and an optional list of continuation octets used when the
//! value does not fit within the prefix. If the value is strictly less than
//! `2^N - 1` it is encoded within the N-bit prefix; otherwise the prefix is
//! all ones and the remainder follows in base-128 octets, least significant
//! first, each with the high bit set except the last.

use vstd::arithmetic::power::pow;
use vstd::arithmetic::power2::pow2;
use vstd::prelude::*;

use crate::buffer;
use crate::error::Http2Error;
use crate::header::huffman;
use crate::header::huffman::HuffDec;

verus! {

/// Outcome of decoding a primitive from the front of a byte sequence:
/// either a value together with the number of octets it occupied, or the
/// error the decoder reports.
pub enum IntDec {
    Val(nat, int),
    Fail(Http2Error),
}

/// Largest value that fits in an `n`-bit prefix: `2^n - 1`.
pub open spec fn prefix_max(n: int) -> int {
    pow2(n as nat) - 1
}

/// Continuation octets of a value too large for its prefix: base 128,
/// least significant group first, high bit set on every octet but the last.
pub open spec fn int_cont_encoding(v: nat) -> Seq<u8>
    decreases v,
{
    if v < 128 {
        seq![v as u8]
    } else {
        seq![(128 + v % 128) as u8] + int_cont_encoding(v / 128)
    }
}

/// The octets of an HPACK integer `v` under an `n`-bit prefix, with the
/// prefix's unused high bits zero.
pub open spec fn int_encoding(v: nat, n: int) -> Seq<u8> {
    if v < prefix_max(n) {
        seq![v as u8]
    } else {
        seq![prefix_max(n) as u8] + int_cont_encoding((v - prefix_max(n)) as nat)
    }
}

/// Decoding of continuation octets, entered with `acc` already holding the
/// prefix maximum and `k` continuation octets consumed so far. The
/// accumulator is rejected as soon as it would exceed `u128::MAX`, before
/// the terminating octet is sought, exactly as the decoder runs.
pub open spec fn int_cont_decoding(bytes: Seq<u8>, acc: nat, k: nat) -> IntDec
    decreases bytes.len(),
{
    if bytes.len() == 0 {
        IntDec::Fail(Http2Error::Truncated)
    } else {
        let group = (bytes[0] % 128) as nat;
        let nacc = (acc + group * pow(128, k)) as nat;
        if nacc > u128::MAX as nat {
            IntDec::Fail(Http2Error::HpackError)
        } else if bytes[0] < 128 {
            IntDec::Val(nacc, 1)
        } else {
            match int_cont_decoding(bytes.skip(1), nacc, k + 1) {
                IntDec::Val(v, u) => IntDec::Val(v, u + 1),
                IntDec::Fail(e) => IntDec::Fail(e),
            }
        }
    }
}

/// Decoding of an HPACK integer under an `n`-bit prefix from the front of
/// `bytes`: the low `n` bits of the first octet, then continuation octets
/// if the prefix was saturated.
pub open spec fn int_decoding(n: int, bytes: Seq<u8>) -> IntDec {
    if bytes.len() == 0 {
        IntDec::Fail(Http2Error::Truncated)
    } else {
        let masked = (bytes[0] as int) % (prefix_max(n) + 1);
        if masked < prefix_max(n) {
            IntDec::Val(masked as nat, 1)
        } else {
            match int_cont_decoding(bytes.skip(1), prefix_max(n) as nat, 0) {
                IntDec::Val(v, u) => IntDec::Val(v, u + 1),
                IntDec::Fail(e) => IntDec::Fail(e),
            }
        }
    }
}

/// HPACK integer primitive. Integers represent name indexes, header field
/// indexes and string lengths; the value is held in 128 bits so that any
/// representation a peer may legally send is decodable.
#[derive(Clone, Copy, Debug, PartialEq, Eq, Structural)]
pub struct HpackInteger {
    pub value: u128,
}

impl View for HpackInteger {
    type V = nat;

    open spec fn view(&self) -> nat {
        self.value as nat
    }
}

/// `2^n - 1` as an octet, for prefix sizes 1 through 8.
fn prefix_max_exec(n: u8) -> (r: u8)
    requires
        1 <= n <= 8,
    ensures
        r as int == prefix_max(n as int),
{
    proof {
        vstd::arithmetic::power2::lemma2_to64();
    }
    match n {
        1 => 1,
        2 => 3,
        3 => 7,
        4 => 15,
        5 => 31,
        6 => 63,
        7 => 127,
        _ => 255,
    }
}

impl From<u128> for HpackInteger {
    fn from(value: u128) -> (r: Self) {
        HpackInteger { value }
    }
}

impl vstd::std_specs::convert::FromSpecImpl<u128> for HpackInteger {
    open spec fn obeys_from_spec() -> bool {
        true
    }

    open spec fn from_spec(value: u128) -> Self {
        HpackInteger { value }
    }
}

impl HpackInteger {
    /// Create an HPACK integer holding `value`.
    pub fn new(value: u128) -> (r: Self)
        ensures
            r@ == value as nat,
    {
        HpackInteger { value }
    }

    /// The value of the HPACK integer.
    pub fn value(&self) -> (r: u128)
        ensures
            r as nat == self@,
    {
        self.value
    }

    /// Encode the integer under an `n`-bit prefix; the unused high bits of
    /// the first octet are left zero for the caller's discriminator.
    pub fn encode(&self, n: u8) -> (r: Result<Vec<u8>, Http2Error>)
        ensures
            match r {
                Ok(v) => 1 <= n <= 8 && v@ == int_encoding(self@, n as int),
                Err(e) => !(1 <= n <= 8) && e == Http2Error::HpackError,
            },
    {
        if n > 8 || n == 0 {
            return Err(Http2Error::HpackError);
        }
        let m: u8 = prefix_max_exec(n);
        let mut result: Vec<u8> = Vec::new();
        if self.value < m as u128 {
            result.push(self.value as u8);
            assert(result@ =~= int_encoding(self@, n as int));
            return Ok(result);
        }
        result.push(m);
        let ghost v0: nat = (self@ - prefix_max(n as int)) as nat;
        let mut v: u128 = self.value - m as u128;
        while v >= 128
            invariant
                result@.len() >= 1,
                result@[0] == m,
                int_cont_encoding(v0) =~= result@.skip(1) + int_cont_encoding(v as nat),
            decreases v,
        {
            let octet: u8 = (v % 128 + 128) as u8;
            proof {
                assert(int_cont_encoding(v as nat) =~= seq![octet] + int_cont_encoding(
                    (v as nat) / 128,
                ));
                assert((v as nat) / 128 == (v / 128) as nat);
            }
            result.push(octet);
            v = v / 128;
        }
        result.push(v as u8);
        proof {
            assert(int_cont_encoding(v as nat) =~= seq![v as u8]);
            assert(result@ =~= seq![m] + result@.skip(1).take(result@.len() - 2) + seq![v as u8]);
            assert(result@ =~= seq![m] + int_cont_encoding(v0));
            assert(result@ =~= int_encoding(self@, n as int));
        }
        Ok(result)
    }

    /// Decode an HPACK integer under an `n`-bit prefix from the front of
    /// `bytes`, removing exactly the octets read on success and leaving the
    /// buffer untouched on failure.
    pub fn decode(n: u8, bytes: &mut Vec<u8>) -> (r: Result<HpackInteger, Http2Error>)
        ensures
            1 <= n <= 8 ==> match int_decoding(n as int, old(bytes)@) {
                IntDec::Val(v, u) => r matches Ok(i) && i@ == v && final(bytes)@ == old(
                    bytes,
                )@.skip(u),
                IntDec::Fail(e) => r matches Err(e2) && e2 == e && final(bytes)@ == old(bytes)@,
            },
            !(1 <= n <= 8) ==> (r matches Err(e) && e == Http2Error::HpackError && final(bytes)@
                == old(bytes)@),
    {
        if n > 8 || n == 0 {
            return Err(Http2Error::HpackError);
        }
        if bytes.len() == 0 {
            return Err(Http2Error::Truncated);
        }
        let m: u8 = prefix_max_exec(n);
        proof {
            vstd::arithmetic::power2::lemma2_to64();
            assert(pow2(n as nat) <= 256);
        }
        let masked: u8 = (bytes[0] as u16 % (m as u16 + 1)) as u8;
        if masked < m {
            buffer::consume(bytes, 1);
            return Ok(HpackInteger { value: masked as u128 });
        }
        let ghost s: Seq<u8> = bytes@;
        let mut i: usize = 1;
        let mut acc: u128 = m as u128;
        let mut factor: u128 = 1;
        let mut factor_ok: bool = true;
        proof {
            vstd::arithmetic::power::lemma_pow0(128);
        }
        loop
            invariant
                1 <= n <= 8,
                s == old(bytes)@,
                bytes@ == s,
                1 <= i <= s.len(),
                int_decoding(n as int, s) == (
                match int_cont_decoding(s.skip(1), prefix_max(n as int) as nat, 0) {
                    IntDec::Val(v, u) => IntDec::Val(v, u + 1),
                    IntDec::Fail(e) => IntDec::Fail(e),
                }),
                factor >= 1,
                factor_ok ==> factor as nat == pow(128, (i - 1) as nat),
                !factor_ok ==> pow(128, (i - 1) as nat) > u128::MAX as nat,
                int_cont_decoding(s.skip(1), prefix_max(n as int) as nat, 0) == (
                match int_cont_decoding(s.skip(i as int), acc as nat, (i - 1) as nat) {
                    IntDec::Val(v, u) => IntDec::Val(v, u + (i - 1)),
                    IntDec::Fail(e) => IntDec::Fail(e),
                }),
            decreases s.len() - i,
        {
            if i >= bytes.len() {
                proof {
                    assert(s.skip(i as int).len() == 0);
                    assert(int_cont_decoding(s.skip(i as int), acc as nat, (i - 1) as nat)
                        == IntDec::Fail(Http2Error::Truncated));
                }
                return Err(Http2Error::Truncated);
            }
            let b: u8 = bytes[i];
            let t: u8 = b % 128;
            let ghost k: nat = (i - 1) as nat;
            let ghost old_acc: u128 = acc;
            let ghost nacc: nat = (acc as nat + (t as nat) * pow(128, k)) as nat;
            proof {
                assert(s.skip(i as int)[0] == s[i as int]);
                assert(s.skip(i as int).skip(1) =~= s.skip(i as int + 1));
                vstd::arithmetic::mul::lemma_mul_basics(pow(128, k));
                assert((0 as nat) * pow(128, k) == 0) by (nonlinear_arith);
            }
            if t > 0 {
                if !factor_ok {
                    proof {
                        vstd::arithmetic::power::lemma_pow_positive(128, k);
                        assert(nacc >= (t as nat) * pow(128, k)) by (nonlinear_arith)
                            requires
                                t >= 1,
                                pow(128, k) > 0,
                                nacc == acc as nat + (t as nat) * pow(128, k),
                        ;
                        assert(nacc > u128::MAX as nat) by (nonlinear_arith)
                            requires
                                t >= 1,
                                pow(128, k) > u128::MAX as nat,
                                nacc >= (t as nat) * pow(128, k),
                        ;
                    }
                    proof {
                        assert(int_cont_decoding(s.skip(i as int), acc as nat, k)
                            == IntDec::Fail(Http2Error::HpackError));
                    }
                    return Err(Http2Error::HpackError);
                }
                if t as u128 > u128::MAX / factor {
                    proof {
                        vstd::arithmetic::div_mod::lemma_fundamental_div_mod(
                            u128::MAX as int,
                            factor as int,
                        );
                        assert((t as nat) * (factor as nat) > u128::MAX as nat)
                            by (nonlinear_arith)
                            requires
                                factor as int > 0,
                                t as int > u128::MAX as int / factor as int,
                                u128::MAX as int == factor as int * (u128::MAX as int
                                    / factor as int) + u128::MAX as int % factor as int,
                                (u128::MAX as int % factor as int) < factor as int,
                        ;
                        assert(int_cont_decoding(s.skip(i as int), acc as nat, k)
                            == IntDec::Fail(Http2Error::HpackError));
                    }
                    return Err(Http2Error::HpackError);
                }
                proof {
                    vstd::arithmetic::div_mod::lemma_fundamental_div_mod(
                        u128::MAX as int,
                        factor as int,
                    );
                    assert((t as nat) * (factor as nat) <= u128::MAX as nat) by (nonlinear_arith)
                        requires
                            factor as int > 0,
                            t as int <= u128::MAX as int / factor as int,
                            u128::MAX as int == factor as int * (u128::MAX as int
                                / factor as int) + u128::MAX as int % factor as int,
                            (u128::MAX as int % factor as int) >= 0,
                    ;
                }
                let term: u128 = t as u128 * factor;
                if acc > u128::MAX - term {
                    proof {
                        assert(nacc > u128::MAX as nat);
                        assert(int_cont_decoding(s.skip(i as int), acc as nat, k)
                            == IntDec::Fail(Http2Error::HpackError));
                    }
                    return Err(Http2Error::HpackError);
                }
                acc = acc + term;
                proof {
                    assert(acc as nat == nacc);
                }
            }
            proof {
                assert(acc as nat == nacc);
                assert(nacc <= u128::MAX as nat);
            }
            i = i + 1;
            if b < 128 {
                proof {
                    assert(int_cont_decoding(s.skip(i - 1), old_acc as nat, k)
                        == IntDec::Val(nacc, 1));
                    assert(int_cont_decoding(s.skip(1), prefix_max(n as int) as nat, 0)
                        == IntDec::Val(nacc, i - 1));
                    assert(int_decoding(n as int, s) == IntDec::Val(nacc, i as int));
                }
                buffer::consume(bytes, i);
                return Ok(HpackInteger { value: acc });
            }
            proof {
                assert(int_cont_decoding(s.skip(i - 1), old_acc as nat, (i - 2) as nat) == (
                match int_cont_decoding(s.skip(i as int), nacc, (i - 1) as nat) {
                    IntDec::Val(v, u) => IntDec::Val(v, u + 1),
                    IntDec::Fail(e) => IntDec::Fail(e),
                }));
            }
            if factor_ok {
                proof {
                    vstd::arithmetic::power::lemma_pow1(128);
                    vstd::arithmetic::power::lemma_pow_adds(128, (i - 2) as nat, 1);
                    vstd::arithmetic::div_mod::lemma_fundamental_div_mod(u128::MAX as int, 128);
                }
                if factor <= u128::MAX / 128 {
                    proof {
                        assert((factor as nat) * 128 <= u128::MAX as nat) by (nonlinear_arith)
                            requires
                                factor as int <= u128::MAX as int / 128,
                                u128::MAX as int == 128 * (u128::MAX as int / 128) + u128::MAX
                                    as int % 128,
                                u128::MAX as int % 128 >= 0,
                        ;
                    }
                    factor = factor * 128;
                } else {
                    proof {
                        assert((factor as nat) * 128 > u128::MAX as nat) by (nonlinear_arith)
                            requires
                                factor as int > u128::MAX as int / 128,
                                u128::MAX as int == 128 * (u128::MAX as int / 128) + u128::MAX
                                    as int % 128,
                                u128::MAX as int % 128 < 128,
                        ;
                    }
                    factor_ok = false;
                }
            } else {
                proof {
                    vstd::arithmetic::power::lemma_pow1(128);
                    vstd::arithmetic::power::lemma_pow_adds(128, (i - 2) as nat, 1);
                    assert(pow(128, (i - 1) as nat) > u128::MAX as nat) by (nonlinear_arith)
                        requires
                            pow(128, (i - 2) as nat) > u128::MAX as nat,
                            pow(128, (i - 1) as nat) == pow(128, (i - 2) as nat) * 128,
                    ;
                }
            }
        }
    }
}

/// Decoding the continuation octets of `w`, with the accumulator already at
/// `acc` and `k` groups consumed, yields the full value and consumes exactly
/// the continuation octets, whatever follows them.
pub proof fn lemma_int_cont_round_trip(w: nat, rest: Seq<u8>, acc: nat, k: nat)
    requires
        acc + w * pow(128, k) <= u128::MAX,
    ensures
        int_cont_decoding(int_cont_encoding(w) + rest, acc, k) == IntDec::Val(
            (acc + w * pow(128, k)) as nat,
            int_cont_encoding(w).len() as int,
        ),
    decreases w,
{
    let bytes = int_cont_encoding(w) + rest;
    vstd::arithmetic::power::lemma_pow_positive(128, k);
    if w < 128 {
        assert(bytes[0] == w as u8);
        assert((bytes[0] % 128) as nat == w);
    } else {
        let b0: u8 = (128 + w % 128) as u8;
        assert(bytes[0] == b0);
        assert((b0 % 128) as nat == w % 128);
        let group: nat = w % 128;
        let nacc: nat = (acc + group * pow(128, k)) as nat;
        vstd::arithmetic::div_mod::lemma_fundamental_div_mod(w as int, 128);
        vstd::arithmetic::power::lemma_pow1(128);
        vstd::arithmetic::power::lemma_pow_adds(128, k, 1);
        assert(pow(128, (k + 1) as nat) == pow(128, k) * 128);
        assert(nacc + (w / 128) * pow(128, (k + 1) as nat) == acc + w * pow(128, k))
            by (nonlinear_arith)
            requires
                w as int == 128 * (w as int / 128) + (w as int % 128),
                group == w % 128,
                nacc == acc + group * pow(128, k),
                pow(128, (k + 1) as nat) == pow(128, k) * 128,
                pow(128, k) > 0,
        ;
        assert((w / 128) * pow(128, (k + 1) as nat) <= w * pow(128, k)) by (nonlinear_arith)
            requires
                nacc + (w / 128) * pow(128, (k + 1) as nat) == acc + w * pow(128, k),
                nacc >= acc,
        ;
        lemma_int_cont_round_trip(w / 128, rest, nacc, k + 1);
        assert(bytes.skip(1) =~= int_cont_encoding(w / 128) + rest);
        assert(int_cont_decoding(bytes, acc, k) == IntDec::Val(
            (acc + w * pow(128, k)) as nat,
            int_cont_encoding(w / 128).len() as int + 1,
        ));
        assert(int_cont_encoding(w).len() == int_cont_encoding(w / 128).len() + 1);
    }
}

/// Integer round-trip law: for every value `v` and every prefix size
/// `1 <= n <= 8`, decoding the encoding of `v` returns `v` and consumes
/// exactly the encoding, leaving whatever octets follow it.
pub proof fn lemma_integer_round_trip(v: nat, n: int, rest: Seq<u8>)
    requires
        1 <= n <= 8,
        v <= u128::MAX,
    ensures
        int_decoding(n, int_encoding(v, n) + rest) == IntDec::Val(
            v,
            int_encoding(v, n).len() as int,
        ),
        (int_encoding(v, n) + rest).skip(int_encoding(v, n).len() as int) == rest,
{
    assert((int_encoding(v, n) + rest).skip(int_encoding(v, n).len() as int) =~= rest);
    vstd::arithmetic::power2::lemma2_to64();
    let pm = prefix_max(n);
    assert(1 <= pm <= 255);
    let bytes = int_encoding(v, n) + rest;
    if v < pm {
        assert(bytes[0] == v as u8);
        vstd::arithmetic::div_mod::lemma_small_mod(v, (pm + 1) as nat);
        assert((bytes[0] as int) % (pm + 1) == v);
    } else {
        assert(bytes[0] == pm as u8);
        vstd::arithmetic::div_mod::lemma_small_mod(pm as nat, (pm + 1) as nat);
        assert((bytes[0] as int) % (pm + 1) == pm);
        vstd::arithmetic::power::lemma_pow0(128);
        assert(pm as nat + ((v - pm) as nat) * pow(128, 0) == v);
        lemma_int_cont_round_trip((v - pm) as nat, rest, pm as nat, 0);
        assert(bytes.skip(1) =~= int_cont_encoding((v - pm) as nat) + rest);
        assert(int_encoding(v, n).len() == int_cont_encoding((v - pm) as nat).len() + 1);
    }
}

/// Integer boundary law: under an `n`-bit prefix, `2^n - 1` is the first
/// value that needs a continuation octet, its saturated prefix followed by
/// at least one more octet, while `2^n - 2` is exactly the one octet
/// holding the value with the high bits clear.
pub proof fn lemma_integer_boundary(n: int)
    requires
        1 <= n <= 8,
    ensures
        int_encoding(prefix_max(n) as nat, n).len() >= 2,
        int_encoding(prefix_max(n) as nat, n)[0] == prefix_max(n),
        int_encoding((prefix_max(n) - 1) as nat, n) == seq![(prefix_max(n) - 1) as u8],
{
    vstd::arithmetic::power2::lemma2_to64();
    let pm = prefix_max(n);
    assert(1 <= pm <= 255);
    assert(int_encoding(pm as nat, n) == seq![pm as u8] + int_cont_encoding(0));
    assert(int_cont_encoding(0).len() == 1);
    assert(int_encoding((pm - 1) as nat, n) =~= seq![(pm - 1) as u8]);
}



proof fn lemma_int_cont_decoding_used(bytes: Seq<u8>, acc: nat, k: nat)
    ensures
        match int_cont_decoding(bytes, acc, k) {
            IntDec::Val(v, u) => 1 <= u <= bytes.len(),
            IntDec::Fail(e) => true,
        },
    decreases bytes.len(),
{
    if bytes.len() > 0 {
        let group = (bytes[0] % 128) as nat;
        let nacc = (acc + group * pow(128, k)) as nat;
        lemma_int_cont_decoding_used(bytes.skip(1), nacc, k + 1);
    }
}

/// A decoded integer occupies between one octet and the whole buffer.
pub proof fn lemma_int_decoding_used(n: int, bytes: Seq<u8>)
    ensures
        match int_decoding(n, bytes) {
            IntDec::Val(v, u) => 1 <= u <= bytes.len(),
            IntDec::Fail(e) => true,
        },
{
    if bytes.len() > 0 {
        lemma_int_cont_decoding_used(bytes.skip(1), prefix_max(n) as nat, 0);
    }
}

/// The first octet of an integer encoding carries at most the prefix
/// maximum, leaving the high bits for the caller's discriminator.
pub proof fn lemma_int_encoding_first(v: nat, n: int)
    requires
        1 <= n <= 8,
    ensures
        int_encoding(v, n).len() >= 1,
        int_encoding(v, n)[0] as int <= prefix_max(n),
{
    vstd::arithmetic::power2::lemma2_to64();
}

/// Decoding is insensitive to the discriminator bit above a 7-bit prefix:
/// an encoding whose first octet carries the high bit set still decodes to
/// the same value.
pub proof fn lemma_integer_round_trip_high_bit(v: nat, rest: Seq<u8>)
    requires
        v <= u128::MAX,
    ensures
        int_decoding(
            7,
            seq![(int_encoding(v, 7)[0] + 128) as u8] + int_encoding(v, 7).skip(1) + rest,
        ) == IntDec::Val(v, int_encoding(v, 7).len() as int),
{
    vstd::arithmetic::power2::lemma2_to64();
    lemma_int_encoding_first(v, 7);
    let enc = int_encoding(v, 7);
    let fb: u8 = (enc[0] + 128) as u8;
    let bytes = seq![fb] + enc.skip(1) + rest;
    assert(bytes[0] == fb);
    assert((fb as int) % 128 == enc[0] as int);
    if v < 127 {
        assert(enc[0] == v as u8);
        assert(int_decoding(7, bytes) == IntDec::Val(v, 1));
    } else {
        assert(enc[0] == 127);
        vstd::arithmetic::power::lemma_pow0(128);
        assert(127 as nat + ((v - 127) as nat) * pow(128, 0) == v);
        lemma_int_cont_round_trip((v - 127) as nat, rest, 127, 0);
        assert(bytes.skip(1) =~= int_cont_encoding((v - 127) as nat) + rest);
        assert(enc.len() == int_cont_encoding((v - 127) as nat).len() + 1);
    }
}

/// Outcome of decoding an HPACK string from the front of a byte sequence.
pub enum StrDec {
    Val(Seq<u8>, int),
    Fail(Http2Error),
}

/// The octets of an HPACK string literal: one octet whose high bit says
/// whether the data is Huffman-coded and whose low seven bits begin the
/// length, then that many octets of data.
pub open spec fn str_encoding(s: Seq<u8>, h: bool) -> Seq<u8> {
    let payload = if h {
        huffman::huff_encoding(s)
    } else {
        s
    };
    let lenenc = int_encoding(payload.len(), 7);
    seq![
        if h {
            (lenenc[0] + 128) as u8
        } else {
            lenenc[0]
        },
    ] + lenenc.skip(1) + payload
}

/// Decoding of an HPACK string literal from the front of `bytes`.
pub open spec fn str_decoding(bytes: Seq<u8>) -> StrDec {
    if bytes.len() == 0 {
        StrDec::Fail(Http2Error::Truncated)
    } else {
        let h = bytes[0] >= 128;
        match int_decoding(7, bytes) {
            IntDec::Fail(e) => StrDec::Fail(e),
            IntDec::Val(l, u) => if bytes.len() < u + l {
                StrDec::Fail(Http2Error::Truncated)
            } else {
                let data = bytes.subrange(u, u + l);
                if h {
                    match huffman::huff_decoding(huffman::bytes_bits(data)) {
                        HuffDec::Decoded(d) => StrDec::Val(d, u + l),
                        HuffDec::Failed => StrDec::Fail(Http2Error::HuffmanDecodingError),
                    }
                } else {
                    StrDec::Val(data, u + l)
                }
            },
        }
    }
}

/// Where a failed string decode leaves the buffer: untouched until the
/// length prefix has been read, past the prefix when the data octets run
/// short, and past prefix and data when only the Huffman coding is bad.
pub open spec fn str_fail_leftover(bytes: Seq<u8>) -> Seq<u8> {
    if bytes.len() == 0 {
        bytes
    } else {
        match int_decoding(7, bytes) {
            IntDec::Fail(e) => bytes,
            IntDec::Val(l, u) => if bytes.len() < u + l {
                bytes.skip(u)
            } else {
                bytes.skip(u + l)
            },
        }
    }
}

/// HPACK string primitive: an octet string sent either raw or under the
/// canonical Huffman code, behind a length prefix.
#[derive(Debug)]
pub struct HpackString {
    pub octets: Vec<u8>,
}

impl View for HpackString {
    type V = Seq<u8>;

    open spec fn view(&self) -> Seq<u8> {
        self.octets@
    }
}

impl Clone for HpackString {
    fn clone(&self) -> (r: Self)
        ensures
            r@ == self@,
    {
        let r = HpackString { octets: self.octets.clone() };
        proof {
            assert(r.octets@ =~= self.octets@);
        }
        r
    }
}

impl HpackString {
    /// Create an HPACK string holding `octets`.
    pub fn new(octets: Vec<u8>) -> (r: Self)
        ensures
            r@ == octets@,
    {
        HpackString { octets }
    }

    /// The octets of the string.
    pub fn as_bytes(&self) -> (r: &Vec<u8>)
        ensures
            r@ == self@,
    {
        &self.octets
    }

    /// Encode the string, Huffman-coding the data when `huffman_encode` is
    /// set; the length prefix then counts the coded octets.
    pub fn encode(&self, huffman_encode: bool) -> (r: Result<Vec<u8>, Http2Error>)
        ensures
            r matches Ok(v) && v@ == str_encoding(self@, huffman_encode),
    {
        let payload: Vec<u8> = if huffman_encode {
            huffman::encode(&self.octets)
        } else {
            self.octets.clone()
        };
        proof {
            if !huffman_encode {
                assert(payload@ =~= self@);
            }
        }
        let length = HpackInteger::new(payload.len() as u128);
        let lenenc = match length.encode(7) {
            Ok(v) => v,
            Err(_) => {
                proof {
                    assert(false);
                }
                Vec::new()
            },
        };
        proof {
            lemma_int_encoding_first(payload@.len(), 7);
            vstd::arithmetic::power2::lemma2_to64();
        }
        let mut result: Vec<u8> = Vec::new();
        let fb: u8 = if huffman_encode {
            lenenc[0] + 128
        } else {
            lenenc[0]
        };
        result.push(fb);
        let mut i: usize = 1;
        while i < lenenc.len()
            invariant
                1 <= i <= lenenc@.len(),
                result@ =~= seq![fb] + lenenc@.subrange(1, i as int),
            decreases lenenc@.len() - i,
        {
            let b = lenenc[i];
            result.push(b);
            proof {
                assert(result@ =~= seq![fb] + lenenc@.subrange(1, i as int + 1));
            }
            i = i + 1;
        }
        proof {
            assert(lenenc@.subrange(1, lenenc@.len() as int) =~= lenenc@.skip(1));
        }
        let mut j: usize = 0;
        let ghost head = result@;
        while j < payload.len()
            invariant
                j <= payload@.len(),
                result@ =~= head + payload@.take(j as int),
            decreases payload@.len() - j,
        {
            let b = payload[j];
            result.push(b);
            proof {
                assert(result@ =~= head + payload@.take(j as int + 1));
            }
            j = j + 1;
        }
        proof {
            assert(payload@.take(payload@.len() as int) =~= payload@);
            assert(head =~= seq![fb] + lenenc@.skip(1));
            assert(result@ =~= str_encoding(self@, huffman_encode));
        }
        Ok(result)
    }

    /// Decode an HPACK string from the front of `bytes`, removing exactly
    /// the octets read on success and leaving the buffer where the failure
    /// was found otherwise.
    pub fn decode(bytes: &mut Vec<u8>) -> (r: Result<HpackString, Http2Error>)
        ensures
            match str_decoding(old(bytes)@) {
                StrDec::Val(v, u) => r matches Ok(hs) && hs@ == v && final(bytes)@ == old(
                    bytes,
                )@.skip(u),
                StrDec::Fail(e) => r matches Err(e2) && e2 == e && final(bytes)@
                    == str_fail_leftover(old(bytes)@),
            },
    {
        if bytes.len() == 0 {
            return Err(Http2Error::Truncated);
        }
        let h: bool = bytes[0] >= 128;
        let ghost orig = bytes@;
        let length = match HpackInteger::decode(7, bytes) {
            Ok(l) => l,
            Err(e) => {
                return Err(e);
            },
        };
        let ghost u: int = (match int_decoding(7, orig) {
            IntDec::Val(v, u) => u,
            IntDec::Fail(e) => 0,
        });
        proof {
            lemma_int_decoding_used(7, orig);
        }
        let l128: u128 = length.value();
        if l128 > bytes.len() as u128 {
            return Err(Http2Error::Truncated);
        }
        let l: usize = l128 as usize;
        let mut data: Vec<u8> = Vec::new();
        let mut i: usize = 0;
        while i < l
            invariant
                i <= l <= bytes@.len(),
                bytes@ == orig.skip(u),
                0 <= u,
                data@ =~= bytes@.take(i as int),
            decreases l - i,
        {
            let b = bytes[i];
            data.push(b);
            proof {
                assert(data@ =~= bytes@.take(i as int + 1));
            }
            i = i + 1;
        }
        proof {
            assert(data@ =~= orig.subrange(u, u + l as int));
        }
        buffer::consume(bytes, l);
        proof {
            assert(bytes@ =~= orig.skip(u + l as int));
        }
        if h {
            match huffman::decode(&data) {
                Ok(decoded) => Ok(HpackString { octets: decoded }),
                Err(e) => Err(e),
            }
        } else {
            Ok(HpackString { octets: data })
        }
    }
}

/// String round-trip law, raw form: decoding the encoding of any octet
/// string with the Huffman flag clear returns that octet string and
/// consumes exactly the encoding, whatever follows it.
pub proof fn lemma_string_round_trip_raw(s: Seq<u8>, rest: Seq<u8>)
    requires
        s.len() <= u128::MAX,
    ensures
        str_decoding(str_encoding(s, false) + rest) == StrDec::Val(
            s,
            str_encoding(s, false).len() as int,
        ),
        (str_encoding(s, false) + rest).skip(str_encoding(s, false).len() as int) == rest,
{
    assert((str_encoding(s, false) + rest).skip(str_encoding(s, false).len() as int) =~= rest);
    vstd::arithmetic::power2::lemma2_to64();
    let enc = str_encoding(s, false);
    let lenenc = int_encoding(s.len(), 7);
    lemma_int_encoding_first(s.len(), 7);
    assert(enc =~= lenenc + s);
    assert(enc + rest =~= lenenc + (s + rest));
    lemma_integer_round_trip(s.len(), 7, s + rest);
    let bytes = enc + rest;
    assert(int_decoding(7, bytes) == IntDec::Val(s.len(), lenenc.len() as int));
    assert(bytes[0] == lenenc[0]);
    assert(bytes[0] < 128);
    assert(bytes.subrange(lenenc.len() as int, lenenc.len() as int + s.len() as int) =~= s);
}

/// String round-trip law, Huffman form: decoding the encoding of any octet
/// string with the Huffman flag set returns that octet string and consumes
/// exactly the encoding, whatever follows it.
pub proof fn lemma_string_round_trip_huffman(s: Seq<u8>, rest: Seq<u8>)
    requires
        huffman::huff_encoding(s).len() <= u128::MAX,
    ensures
        str_decoding(str_encoding(s, true) + rest) == StrDec::Val(
            s,
            str_encoding(s, true).len() as int,
        ),
        (str_encoding(s, true) + rest).skip(str_encoding(s, true).len() as int) == rest,
{
    assert((str_encoding(s, true) + rest).skip(str_encoding(s, true).len() as int) =~= rest);
    vstd::arithmetic::power2::lemma2_to64();
    let payload = huffman::huff_encoding(s);
    let enc = str_encoding(s, true);
    let lenenc = int_encoding(payload.len(), 7);
    lemma_int_encoding_first(payload.len(), 7);
    let fb: u8 = (lenenc[0] + 128) as u8;
    assert(enc =~= seq![fb] + lenenc.skip(1) + payload);
    let bytes = enc + rest;
    assert(bytes =~= seq![fb] + lenenc.skip(1) + (payload + rest));
    lemma_integer_round_trip_high_bit(payload.len(), payload + rest);
    assert(int_decoding(7, bytes) == IntDec::Val(payload.len(), lenenc.len() as int));
    assert(bytes[0] == fb);
    assert(fb >= 128);
    assert(bytes.subrange(lenenc.len() as int, lenenc.len() as int + payload.len() as int) =~= payload);
    huffman::lemma_huffman_round_trip(s);
}

/// A decoded string occupies between one octet and the whole buffer.
pub proof fn lemma_str_decoding_used(bytes: Seq<u8>)
    ensures
        match str_decoding(bytes) {
            StrDec::Val(v, u) => 1 <= u <= bytes.len(),
            StrDec::Fail(e) => true,
        },
{
    lemma_int_decoding_used(7, bytes);
}

/// Decoding is insensitive to discriminator bits above the prefix: an
/// encoding whose first octet carries `c * 2^n` added on top still decodes
/// to the same value.
pub proof fn lemma_integer_round_trip_offset(v: nat, n: int, c: int, rest: Seq<u8>)
    requires
        1 <= n <= 8,
        v <= u128::MAX,
        0 <= c,
        c * (prefix_max(n) + 1) + prefix_max(n) <= 255,
    ensures
        int_decoding(
            n,
            seq![(int_encoding(v, n)[0] + c * (prefix_max(n) + 1)) as u8] + int_encoding(
                v,
                n,
            ).skip(1) + rest,
        ) == IntDec::Val(v, int_encoding(v, n).len() as int),
{
    vstd::arithmetic::power2::lemma2_to64();
    lemma_int_encoding_first(v, n);
    let pm = prefix_max(n);
    let m = pm + 1;
    let enc = int_encoding(v, n);
    let fb: u8 = (enc[0] + c * m) as u8;
    let bytes = seq![fb] + enc.skip(1) + rest;
    assert(bytes[0] == fb);
    assert(enc[0] as int + c * m <= 255);
    vstd::arithmetic::mul::lemma_mul_is_commutative(c, m);
    assert(fb as int == m * c + enc[0] as int);
    vstd::arithmetic::div_mod::lemma_mod_multiples_vanish(c, enc[0] as int, m);
    vstd::arithmetic::div_mod::lemma_small_mod(enc[0] as nat, m as nat);
    assert((fb as int) % m == enc[0] as int);
    if v < pm {
        assert(enc[0] == v as u8);
        assert(int_decoding(n, bytes) == IntDec::Val(v, 1));
    } else {
        assert(enc[0] == pm as u8);
        vstd::arithmetic::power::lemma_pow0(128);
        assert(pm as nat + ((v - pm) as nat) * pow(128, 0) == v);
        lemma_int_cont_round_trip((v - pm) as nat, rest, pm as nat, 0);
        assert(bytes.skip(1) =~= int_cont_encoding((v - pm) as nat) + rest);
        assert(enc.len() == int_cont_encoding((v - pm) as nat).len() + 1);
    }
}

} // verus!
