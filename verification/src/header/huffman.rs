//! The canonical Huffman code of HPACK: a prefix code over the 256 octet
//! values and an end-of-string symbol, each code 5 to 30 bits long, written
//! most significant bit first and padded at the end of an encoding with up
//! to seven bits of the all-ones EOS prefix.
//!
//! The code is canonical: listed in ascending order of the left-aligned
//! 30-bit interval it covers, consecutive codes tile the space exactly.
//! That tiling, checked below by computation, is what makes the code
//! prefix-free, and prefix-freeness is what the round-trip proof rests on.

use vstd::compute::RangeAll;
use vstd::prelude::*;

use crate::error::Http2Error;

verus! {

/// The EOS symbol.
pub open spec fn eos() -> int {
    256
}

/// Powers of two, written recursively so that proofs by computation can
/// evaluate them.
pub open spec fn p2(e: nat) -> nat
    decreases e,
{
    if e == 0 {
        1
    } else {
        2 * p2((e - 1) as nat)
    }
}

proof fn lemma_p2_pos(e: nat)
    ensures
        p2(e) >= 1,
    decreases e,
{
    if e > 0 {
        lemma_p2_pos((e - 1) as nat);
    }
}

proof fn lemma_p2_adds(a: nat, b: nat)
    ensures
        p2(a + b) == p2(a) * p2(b),
    decreases a,
{
    if a == 0 {
        assert(p2(0) * p2(b) == p2(b)) by (nonlinear_arith)
            requires
                p2(0) == 1,
        ;
    } else {
        lemma_p2_adds((a - 1) as nat, b);
        assert((a + b - 1) as nat == (a - 1) as nat + b);
        assert(p2(a + b) == 2 * p2((a + b - 1) as nat));
        assert(p2(a + b) == p2(a) * p2(b)) by (nonlinear_arith)
            requires
                p2(a + b) == 2 * p2((a - 1) as nat + b),
                p2((a - 1) as nat + b) == p2((a - 1) as nat) * p2(b),
                p2(a) == 2 * p2((a - 1) as nat),
        ;
    }
}

/// The code word of each symbol, indexed by symbol value.
pub open spec fn huff_codes() -> Seq<u32> {
    seq![
        0x1ff8u32, 0x7fffd8, 0xfffffe2, 0xfffffe3, 0xfffffe4, 0xfffffe5, 0xfffffe6, 0xfffffe7,
        0xfffffe8, 0xffffea, 0x3ffffffc, 0xfffffe9, 0xfffffea, 0x3ffffffd, 0xfffffeb, 0xfffffec,
        0xfffffed, 0xfffffee, 0xfffffef, 0xffffff0, 0xffffff1, 0xffffff2, 0x3ffffffe, 0xffffff3,
        0xffffff4, 0xffffff5, 0xffffff6, 0xffffff7, 0xffffff8, 0xffffff9, 0xffffffa, 0xffffffb,
        0x14, 0x3f8, 0x3f9, 0xffa, 0x1ff9, 0x15, 0xf8, 0x7fa,
        0x3fa, 0x3fb, 0xf9, 0x7fb, 0xfa, 0x16, 0x17, 0x18,
        0x0, 0x1, 0x2, 0x19, 0x1a, 0x1b, 0x1c, 0x1d,
        0x1e, 0x1f, 0x5c, 0xfb, 0x7ffc, 0x20, 0xffb, 0x3fc,
        0x1ffa, 0x21, 0x5d, 0x5e, 0x5f, 0x60, 0x61, 0x62,
        0x63, 0x64, 0x65, 0x66, 0x67, 0x68, 0x69, 0x6a,
        0x6b, 0x6c, 0x6d, 0x6e, 0x6f, 0x70, 0x71, 0x72,
        0xfc, 0x73, 0xfd, 0x1ffb, 0x7fff0, 0x1ffc, 0x3ffc, 0x22,
        0x7ffd, 0x3, 0x23, 0x4, 0x24, 0x5, 0x25, 0x26,
        0x27, 0x6, 0x74, 0x75, 0x28, 0x29, 0x2a, 0x7,
        0x2b, 0x76, 0x2c, 0x8, 0x9, 0x2d, 0x77, 0x78,
        0x79, 0x7a, 0x7b, 0x7ffe, 0x7fc, 0x3ffd, 0x1ffd, 0xffffffc,
        0xfffe6, 0x3fffd2, 0xfffe7, 0xfffe8, 0x3fffd3, 0x3fffd4, 0x3fffd5, 0x7fffd9,
        0x3fffd6, 0x7fffda, 0x7fffdb, 0x7fffdc, 0x7fffdd, 0x7fffde, 0xffffeb, 0x7fffdf,
        0xffffec, 0xffffed, 0x3fffd7, 0x7fffe0, 0xffffee, 0x7fffe1, 0x7fffe2, 0x7fffe3,
        0x7fffe4, 0x1fffdc, 0x3fffd8, 0x7fffe5, 0x3fffd9, 0x7fffe6, 0x7fffe7, 0xffffef,
        0x3fffda, 0x1fffdd, 0xfffe9, 0x3fffdb, 0x3fffdc, 0x7fffe8, 0x7fffe9, 0x1fffde,
        0x7fffea, 0x3fffdd, 0x3fffde, 0xfffff0, 0x1fffdf, 0x3fffdf, 0x7fffeb, 0x7fffec,
        0x1fffe0, 0x1fffe1, 0x3fffe0, 0x1fffe2, 0x7fffed, 0x3fffe1, 0x7fffee, 0x7fffef,
        0xfffea, 0x3fffe2, 0x3fffe3, 0x3fffe4, 0x7ffff0, 0x3fffe5, 0x3fffe6, 0x7ffff1,
        0x3ffffe0, 0x3ffffe1, 0xfffeb, 0x7fff1, 0x3fffe7, 0x7ffff2, 0x3fffe8, 0x1ffffec,
        0x3ffffe2, 0x3ffffe3, 0x3ffffe4, 0x7ffffde, 0x7ffffdf, 0x3ffffe5, 0xfffff1, 0x1ffffed,
        0x7fff2, 0x1fffe3, 0x3ffffe6, 0x7ffffe0, 0x7ffffe1, 0x3ffffe7, 0x7ffffe2, 0xfffff2,
        0x1fffe4, 0x1fffe5, 0x3ffffe8, 0x3ffffe9, 0xffffffd, 0x7ffffe3, 0x7ffffe4, 0x7ffffe5,
        0xfffec, 0xfffff3, 0xfffed, 0x1fffe6, 0x3fffe9, 0x1fffe7, 0x1fffe8, 0x7ffff3,
        0x3fffea, 0x3fffeb, 0x1ffffee, 0x1ffffef, 0xfffff4, 0xfffff5, 0x3ffffea, 0x7ffff4,
        0x3ffffeb, 0x7ffffe6, 0x3ffffec, 0x3ffffed, 0x7ffffe7, 0x7ffffe8, 0x7ffffe9, 0x7ffffea,
        0x7ffffeb, 0xffffffe, 0x7ffffec, 0x7ffffed, 0x7ffffee, 0x7ffffef, 0x7fffff0, 0x3ffffee,
        0x3fffffff,
    ]
}

/// The bit length of each symbol's code word, indexed by symbol value.
pub open spec fn huff_lens() -> Seq<u8> {
    seq![
        13u8, 23, 28, 28, 28, 28, 28, 28, 28, 24, 30, 28, 28, 30, 28, 28,
        28, 28, 28, 28, 28, 28, 30, 28, 28, 28, 28, 28, 28, 28, 28, 28,
        6, 10, 10, 12, 13, 6, 8, 11, 10, 10, 8, 11, 8, 6, 6, 6,
        5, 5, 5, 6, 6, 6, 6, 6, 6, 6, 7, 8, 15, 6, 12, 10,
        13, 6, 7, 7, 7, 7, 7, 7, 7, 7, 7, 7, 7, 7, 7, 7,
        7, 7, 7, 7, 7, 7, 7, 7, 8, 7, 8, 13, 19, 13, 14, 6,
        15, 5, 6, 5, 6, 5, 6, 6, 6, 5, 7, 7, 6, 6, 6, 5,
        6, 7, 6, 5, 5, 6, 7, 7, 7, 7, 7, 15, 11, 14, 13, 28,
        20, 22, 20, 20, 22, 22, 22, 23, 22, 23, 23, 23, 23, 23, 24, 23,
        24, 24, 22, 23, 24, 23, 23, 23, 23, 21, 22, 23, 22, 23, 23, 24,
        22, 21, 20, 22, 22, 23, 23, 21, 23, 22, 22, 24, 21, 22, 23, 23,
        21, 21, 22, 21, 23, 22, 23, 23, 20, 22, 22, 22, 23, 22, 22, 23,
        26, 26, 20, 19, 22, 23, 22, 25, 26, 26, 26, 27, 27, 26, 24, 25,
        19, 21, 26, 27, 27, 26, 27, 24, 21, 21, 26, 26, 28, 27, 27, 27,
        20, 24, 20, 21, 22, 21, 21, 23, 22, 22, 25, 25, 24, 24, 26, 23,
        26, 27, 26, 26, 27, 27, 27, 27, 27, 28, 27, 27, 27, 27, 27, 26,
        30,
    ]
}

/// The symbols in ascending order of their left-aligned code intervals.
pub open spec fn huff_order() -> Seq<int> {
    seq![
        48int, 49, 50, 97, 99, 101, 105, 111, 115, 116, 32, 37, 45, 46, 47, 51,
        52, 53, 54, 55, 56, 57, 61, 65, 95, 98, 100, 102, 103, 104, 108, 109,
        110, 112, 114, 117, 58, 66, 67, 68, 69, 70, 71, 72, 73, 74, 75, 76,
        77, 78, 79, 80, 81, 82, 83, 84, 85, 86, 87, 89, 106, 107, 113, 118,
        119, 120, 121, 122, 38, 42, 44, 59, 88, 90, 33, 34, 40, 41, 63, 39,
        43, 124, 35, 62, 0, 36, 64, 91, 93, 126, 94, 125, 60, 96, 123, 92,
        195, 208, 128, 130, 131, 162, 184, 194, 224, 226, 153, 161, 167, 172, 176, 177,
        179, 209, 216, 217, 227, 229, 230, 129, 132, 133, 134, 136, 146, 154, 156, 160,
        163, 164, 169, 170, 173, 178, 181, 185, 186, 187, 189, 190, 196, 198, 228, 232,
        233, 1, 135, 137, 138, 139, 140, 141, 143, 147, 149, 150, 151, 152, 155, 157,
        158, 165, 166, 168, 174, 175, 180, 182, 183, 188, 191, 197, 231, 239, 9, 142,
        144, 145, 148, 159, 171, 206, 215, 225, 236, 237, 199, 207, 234, 235, 192, 193,
        200, 201, 202, 205, 210, 213, 218, 219, 238, 240, 242, 243, 255, 203, 204, 211,
        212, 214, 221, 222, 223, 241, 244, 245, 246, 247, 248, 250, 251, 252, 253, 254,
        2, 3, 4, 5, 6, 7, 8, 11, 12, 14, 15, 16, 17, 18, 19, 20,
        21, 23, 24, 25, 26, 27, 28, 29, 30, 31, 127, 220, 249, 10, 13, 22,
        256,
    ]
}

/// The position of each symbol in `huff_order`, indexed by symbol value.
pub open spec fn huff_rank() -> Seq<int> {
    seq![
        84int, 145, 224, 225, 226, 227, 228, 229, 230, 174, 253, 231, 232, 254, 233, 234,
        235, 236, 237, 238, 239, 240, 255, 241, 242, 243, 244, 245, 246, 247, 248, 249,
        10, 74, 75, 82, 85, 11, 68, 79, 76, 77, 69, 80, 70, 12, 13, 14,
        0, 1, 2, 15, 16, 17, 18, 19, 20, 21, 36, 71, 92, 22, 83, 78,
        86, 23, 37, 38, 39, 40, 41, 42, 43, 44, 45, 46, 47, 48, 49, 50,
        51, 52, 53, 54, 55, 56, 57, 58, 72, 59, 73, 87, 95, 88, 90, 24,
        93, 3, 25, 4, 26, 5, 27, 28, 29, 6, 60, 61, 30, 31, 32, 7,
        33, 62, 34, 8, 9, 35, 63, 64, 65, 66, 67, 94, 81, 91, 89, 250,
        98, 119, 99, 100, 120, 121, 122, 146, 123, 147, 148, 149, 150, 151, 175, 152,
        176, 177, 124, 153, 178, 154, 155, 156, 157, 106, 125, 158, 126, 159, 160, 179,
        127, 107, 101, 128, 129, 161, 162, 108, 163, 130, 131, 180, 109, 132, 164, 165,
        110, 111, 133, 112, 166, 134, 167, 168, 102, 135, 136, 137, 169, 138, 139, 170,
        190, 191, 103, 96, 140, 171, 141, 186, 192, 193, 194, 205, 206, 195, 181, 187,
        97, 113, 196, 207, 208, 197, 209, 182, 114, 115, 198, 199, 251, 210, 211, 212,
        104, 183, 105, 116, 142, 117, 118, 172, 143, 144, 188, 189, 184, 185, 200, 173,
        201, 213, 202, 203, 214, 215, 216, 217, 218, 252, 219, 220, 221, 222, 223, 204,
        256,
    ]
}

/// The code word of symbol `s`.
pub open spec fn code_of(s: int) -> nat {
    huff_codes()[s] as nat
}

/// The code length of symbol `s`.
pub open spec fn len_of(s: int) -> nat {
    huff_lens()[s] as nat
}

/// The left-aligned 30-bit start of the interval symbol `s` covers.
pub open spec fn aligned(s: int) -> nat {
    code_of(s) * p2((30 - len_of(s)) as nat)
}

pub open spec fn sym_ok(s: int) -> bool {
    &&& 5 <= len_of(s) <= 30
    &&& code_of(s) < p2(len_of(s))
}

pub open spec fn order_step_ok(j: int) -> bool {
    &&& 0 <= huff_order()[j] < 257
    &&& j < 256 ==> aligned(huff_order()[j]) + p2((30 - len_of(huff_order()[j])) as nat)
        == aligned(huff_order()[j + 1])
}

pub open spec fn rank_ok(s: int) -> bool {
    &&& 0 <= huff_rank()[s] < 257
    &&& huff_order()[huff_rank()[s]] == s
}

proof fn lemma_p2_values()
    ensures
        forall|e: nat| e <= 31 ==> #[trigger] p2(e) == pow2_table(e as int),
{
    reveal_with_fuel(p2, 33);
    assert forall|e: nat| e <= 31 implies #[trigger] p2(e) == pow2_table(e as int) by {
        assert(p2(0) == 0x1);
        assert(p2(1) == 0x2);
        assert(p2(2) == 0x4);
        assert(p2(3) == 0x8);
        assert(p2(4) == 0x10);
        assert(p2(5) == 0x20);
        assert(p2(6) == 0x40);
        assert(p2(7) == 0x80);
        assert(p2(8) == 0x100);
        assert(p2(9) == 0x200);
        assert(p2(10) == 0x400);
        assert(p2(11) == 0x800);
        assert(p2(12) == 0x1000);
        assert(p2(13) == 0x2000);
        assert(p2(14) == 0x4000);
        assert(p2(15) == 0x8000);
        assert(p2(16) == 0x10000);
        assert(p2(17) == 0x20000);
        assert(p2(18) == 0x40000);
        assert(p2(19) == 0x80000);
        assert(p2(20) == 0x100000);
        assert(p2(21) == 0x200000);
        assert(p2(22) == 0x400000);
        assert(p2(23) == 0x800000);
        assert(p2(24) == 0x1000000);
        assert(p2(25) == 0x2000000);
        assert(p2(26) == 0x4000000);
        assert(p2(27) == 0x8000000);
        assert(p2(28) == 0x10000000);
        assert(p2(29) == 0x20000000);
        assert(p2(30) == 0x40000000);
        assert(p2(31) == 0x80000000);
    }
}

/// Powers of two up to `2^31`, in closed form for concrete evaluation.
pub open spec fn pow2_table(e: int) -> nat {
    if e == 0 { 0x1 } else if e == 1 { 0x2 } else if e == 2 { 0x4 } else if e == 3 { 0x8 } else if e == 4 { 0x10 } else if e == 5 { 0x20 } else if e == 6 { 0x40 } else if e == 7 { 0x80 } else if e == 8 { 0x100 } else if e == 9 { 0x200 } else if e == 10 { 0x400 } else if e == 11 { 0x800 } else if e == 12 { 0x1000 } else if e == 13 { 0x2000 } else if e == 14 { 0x4000 } else if e == 15 { 0x8000 } else if e == 16 { 0x10000 } else if e == 17 { 0x20000 } else if e == 18 { 0x40000 } else if e == 19 { 0x80000 } else if e == 20 { 0x100000 } else if e == 21 { 0x200000 } else if e == 22 { 0x400000 } else if e == 23 { 0x800000 } else if e == 24 { 0x1000000 } else if e == 25 { 0x2000000 } else if e == 26 { 0x4000000 } else if e == 27 { 0x8000000 } else if e == 28 { 0x10000000 } else if e == 29 { 0x20000000 } else if e == 30 { 0x40000000 } else if e == 31 { 0x80000000 } else { 0 }
}

proof fn check_sym_0_64()
    ensures
        forall|x: int| 0 <= x < 64 ==> #[trigger] sym_ok(x),
{
    lemma_p2_values();
    assert(sym_ok(0));
    assert(sym_ok(1));
    assert(sym_ok(2));
    assert(sym_ok(3));
    assert(sym_ok(4));
    assert(sym_ok(5));
    assert(sym_ok(6));
    assert(sym_ok(7));
    assert(sym_ok(8));
    assert(sym_ok(9));
    assert(sym_ok(10));
    assert(sym_ok(11));
    assert(sym_ok(12));
    assert(sym_ok(13));
    assert(sym_ok(14));
    assert(sym_ok(15));
    assert(sym_ok(16));
    assert(sym_ok(17));
    assert(sym_ok(18));
    assert(sym_ok(19));
    assert(sym_ok(20));
    assert(sym_ok(21));
    assert(sym_ok(22));
    assert(sym_ok(23));
    assert(sym_ok(24));
    assert(sym_ok(25));
    assert(sym_ok(26));
    assert(sym_ok(27));
    assert(sym_ok(28));
    assert(sym_ok(29));
    assert(sym_ok(30));
    assert(sym_ok(31));
    assert(sym_ok(32));
    assert(sym_ok(33));
    assert(sym_ok(34));
    assert(sym_ok(35));
    assert(sym_ok(36));
    assert(sym_ok(37));
    assert(sym_ok(38));
    assert(sym_ok(39));
    assert(sym_ok(40));
    assert(sym_ok(41));
    assert(sym_ok(42));
    assert(sym_ok(43));
    assert(sym_ok(44));
    assert(sym_ok(45));
    assert(sym_ok(46));
    assert(sym_ok(47));
    assert(sym_ok(48));
    assert(sym_ok(49));
    assert(sym_ok(50));
    assert(sym_ok(51));
    assert(sym_ok(52));
    assert(sym_ok(53));
    assert(sym_ok(54));
    assert(sym_ok(55));
    assert(sym_ok(56));
    assert(sym_ok(57));
    assert(sym_ok(58));
    assert(sym_ok(59));
    assert(sym_ok(60));
    assert(sym_ok(61));
    assert(sym_ok(62));
    assert(sym_ok(63));
}

proof fn check_sym_64_128()
    ensures
        forall|x: int| 64 <= x < 128 ==> #[trigger] sym_ok(x),
{
    lemma_p2_values();
    assert(sym_ok(64));
    assert(sym_ok(65));
    assert(sym_ok(66));
    assert(sym_ok(67));
    assert(sym_ok(68));
    assert(sym_ok(69));
    assert(sym_ok(70));
    assert(sym_ok(71));
    assert(sym_ok(72));
    assert(sym_ok(73));
    assert(sym_ok(74));
    assert(sym_ok(75));
    assert(sym_ok(76));
    assert(sym_ok(77));
    assert(sym_ok(78));
    assert(sym_ok(79));
    assert(sym_ok(80));
    assert(sym_ok(81));
    assert(sym_ok(82));
    assert(sym_ok(83));
    assert(sym_ok(84));
    assert(sym_ok(85));
    assert(sym_ok(86));
    assert(sym_ok(87));
    assert(sym_ok(88));
    assert(sym_ok(89));
    assert(sym_ok(90));
    assert(sym_ok(91));
    assert(sym_ok(92));
    assert(sym_ok(93));
    assert(sym_ok(94));
    assert(sym_ok(95));
    assert(sym_ok(96));
    assert(sym_ok(97));
    assert(sym_ok(98));
    assert(sym_ok(99));
    assert(sym_ok(100));
    assert(sym_ok(101));
    assert(sym_ok(102));
    assert(sym_ok(103));
    assert(sym_ok(104));
    assert(sym_ok(105));
    assert(sym_ok(106));
    assert(sym_ok(107));
    assert(sym_ok(108));
    assert(sym_ok(109));
    assert(sym_ok(110));
    assert(sym_ok(111));
    assert(sym_ok(112));
    assert(sym_ok(113));
    assert(sym_ok(114));
    assert(sym_ok(115));
    assert(sym_ok(116));
    assert(sym_ok(117));
    assert(sym_ok(118));
    assert(sym_ok(119));
    assert(sym_ok(120));
    assert(sym_ok(121));
    assert(sym_ok(122));
    assert(sym_ok(123));
    assert(sym_ok(124));
    assert(sym_ok(125));
    assert(sym_ok(126));
    assert(sym_ok(127));
}

proof fn check_sym_128_192()
    ensures
        forall|x: int| 128 <= x < 192 ==> #[trigger] sym_ok(x),
{
    lemma_p2_values();
    assert(sym_ok(128));
    assert(sym_ok(129));
    assert(sym_ok(130));
    assert(sym_ok(131));
    assert(sym_ok(132));
    assert(sym_ok(133));
    assert(sym_ok(134));
    assert(sym_ok(135));
    assert(sym_ok(136));
    assert(sym_ok(137));
    assert(sym_ok(138));
    assert(sym_ok(139));
    assert(sym_ok(140));
    assert(sym_ok(141));
    assert(sym_ok(142));
    assert(sym_ok(143));
    assert(sym_ok(144));
    assert(sym_ok(145));
    assert(sym_ok(146));
    assert(sym_ok(147));
    assert(sym_ok(148));
    assert(sym_ok(149));
    assert(sym_ok(150));
    assert(sym_ok(151));
    assert(sym_ok(152));
    assert(sym_ok(153));
    assert(sym_ok(154));
    assert(sym_ok(155));
    assert(sym_ok(156));
    assert(sym_ok(157));
    assert(sym_ok(158));
    assert(sym_ok(159));
    assert(sym_ok(160));
    assert(sym_ok(161));
    assert(sym_ok(162));
    assert(sym_ok(163));
    assert(sym_ok(164));
    assert(sym_ok(165));
    assert(sym_ok(166));
    assert(sym_ok(167));
    assert(sym_ok(168));
    assert(sym_ok(169));
    assert(sym_ok(170));
    assert(sym_ok(171));
    assert(sym_ok(172));
    assert(sym_ok(173));
    assert(sym_ok(174));
    assert(sym_ok(175));
    assert(sym_ok(176));
    assert(sym_ok(177));
    assert(sym_ok(178));
    assert(sym_ok(179));
    assert(sym_ok(180));
    assert(sym_ok(181));
    assert(sym_ok(182));
    assert(sym_ok(183));
    assert(sym_ok(184));
    assert(sym_ok(185));
    assert(sym_ok(186));
    assert(sym_ok(187));
    assert(sym_ok(188));
    assert(sym_ok(189));
    assert(sym_ok(190));
    assert(sym_ok(191));
}

proof fn check_sym_192_256()
    ensures
        forall|x: int| 192 <= x < 256 ==> #[trigger] sym_ok(x),
{
    lemma_p2_values();
    assert(sym_ok(192));
    assert(sym_ok(193));
    assert(sym_ok(194));
    assert(sym_ok(195));
    assert(sym_ok(196));
    assert(sym_ok(197));
    assert(sym_ok(198));
    assert(sym_ok(199));
    assert(sym_ok(200));
    assert(sym_ok(201));
    assert(sym_ok(202));
    assert(sym_ok(203));
    assert(sym_ok(204));
    assert(sym_ok(205));
    assert(sym_ok(206));
    assert(sym_ok(207));
    assert(sym_ok(208));
    assert(sym_ok(209));
    assert(sym_ok(210));
    assert(sym_ok(211));
    assert(sym_ok(212));
    assert(sym_ok(213));
    assert(sym_ok(214));
    assert(sym_ok(215));
    assert(sym_ok(216));
    assert(sym_ok(217));
    assert(sym_ok(218));
    assert(sym_ok(219));
    assert(sym_ok(220));
    assert(sym_ok(221));
    assert(sym_ok(222));
    assert(sym_ok(223));
    assert(sym_ok(224));
    assert(sym_ok(225));
    assert(sym_ok(226));
    assert(sym_ok(227));
    assert(sym_ok(228));
    assert(sym_ok(229));
    assert(sym_ok(230));
    assert(sym_ok(231));
    assert(sym_ok(232));
    assert(sym_ok(233));
    assert(sym_ok(234));
    assert(sym_ok(235));
    assert(sym_ok(236));
    assert(sym_ok(237));
    assert(sym_ok(238));
    assert(sym_ok(239));
    assert(sym_ok(240));
    assert(sym_ok(241));
    assert(sym_ok(242));
    assert(sym_ok(243));
    assert(sym_ok(244));
    assert(sym_ok(245));
    assert(sym_ok(246));
    assert(sym_ok(247));
    assert(sym_ok(248));
    assert(sym_ok(249));
    assert(sym_ok(250));
    assert(sym_ok(251));
    assert(sym_ok(252));
    assert(sym_ok(253));
    assert(sym_ok(254));
    assert(sym_ok(255));
}

proof fn check_sym_256_257()
    ensures
        forall|x: int| 256 <= x < 257 ==> #[trigger] sym_ok(x),
{
    lemma_p2_values();
    assert(sym_ok(256));
}

proof fn lemma_mul_const(x: nat, y: nat, c: nat, d: nat)
    by (nonlinear_arith)
    requires
        x == c,
        y == d,
    ensures
        x * y == c * d,
{
}

proof fn check_order_0_64()
    ensures
        forall|x: int| 0 <= x < 64 ==> #[trigger] order_step_ok(x),
{
    lemma_p2_values();
    assert(huff_order()[0] == 48);
    assert(huff_lens()[48] == 5);
    assert(huff_codes()[48] == 0x0);
    assert(p2(25) == 0x2000000);
    lemma_mul_const(code_of(48), p2((30 - len_of(48)) as nat), 0x0, 0x2000000);
    assert(aligned(48) == 0x0);
    assert(huff_lens()[49] == 5);
    assert(huff_codes()[49] == 0x1);
    assert(p2(25) == 0x2000000);
    lemma_mul_const(code_of(49), p2((30 - len_of(49)) as nat), 0x1, 0x2000000);
    assert(aligned(49) == 0x2000000);
    assert(order_step_ok(0));
    assert(huff_order()[1] == 49);
    assert(huff_lens()[50] == 5);
    assert(huff_codes()[50] == 0x2);
    assert(p2(25) == 0x2000000);
    lemma_mul_const(code_of(50), p2((30 - len_of(50)) as nat), 0x2, 0x2000000);
    assert(aligned(50) == 0x4000000);
    assert(order_step_ok(1));
    assert(huff_order()[2] == 50);
    assert(huff_lens()[97] == 5);
    assert(huff_codes()[97] == 0x3);
    assert(p2(25) == 0x2000000);
    lemma_mul_const(code_of(97), p2((30 - len_of(97)) as nat), 0x3, 0x2000000);
    assert(aligned(97) == 0x6000000);
    assert(order_step_ok(2));
    assert(huff_order()[3] == 97);
    assert(huff_lens()[99] == 5);
    assert(huff_codes()[99] == 0x4);
    assert(p2(25) == 0x2000000);
    lemma_mul_const(code_of(99), p2((30 - len_of(99)) as nat), 0x4, 0x2000000);
    assert(aligned(99) == 0x8000000);
    assert(order_step_ok(3));
    assert(huff_order()[4] == 99);
    assert(huff_lens()[101] == 5);
    assert(huff_codes()[101] == 0x5);
    assert(p2(25) == 0x2000000);
    lemma_mul_const(code_of(101), p2((30 - len_of(101)) as nat), 0x5, 0x2000000);
    assert(aligned(101) == 0xa000000);
    assert(order_step_ok(4));
    assert(huff_order()[5] == 101);
    assert(huff_lens()[105] == 5);
    assert(huff_codes()[105] == 0x6);
    assert(p2(25) == 0x2000000);
    lemma_mul_const(code_of(105), p2((30 - len_of(105)) as nat), 0x6, 0x2000000);
    assert(aligned(105) == 0xc000000);
    assert(order_step_ok(5));
    assert(huff_order()[6] == 105);
    assert(huff_lens()[111] == 5);
    assert(huff_codes()[111] == 0x7);
    assert(p2(25) == 0x2000000);
    lemma_mul_const(code_of(111), p2((30 - len_of(111)) as nat), 0x7, 0x2000000);
    assert(aligned(111) == 0xe000000);
    assert(order_step_ok(6));
    assert(huff_order()[7] == 111);
    assert(huff_lens()[115] == 5);
    assert(huff_codes()[115] == 0x8);
    assert(p2(25) == 0x2000000);
    lemma_mul_const(code_of(115), p2((30 - len_of(115)) as nat), 0x8, 0x2000000);
    assert(aligned(115) == 0x10000000);
    assert(order_step_ok(7));
    assert(huff_order()[8] == 115);
    assert(huff_lens()[116] == 5);
    assert(huff_codes()[116] == 0x9);
    assert(p2(25) == 0x2000000);
    lemma_mul_const(code_of(116), p2((30 - len_of(116)) as nat), 0x9, 0x2000000);
    assert(aligned(116) == 0x12000000);
    assert(order_step_ok(8));
    assert(huff_order()[9] == 116);
    assert(huff_lens()[32] == 6);
    assert(huff_codes()[32] == 0x14);
    assert(p2(24) == 0x1000000);
    lemma_mul_const(code_of(32), p2((30 - len_of(32)) as nat), 0x14, 0x1000000);
    assert(aligned(32) == 0x14000000);
    assert(order_step_ok(9));
    assert(huff_order()[10] == 32);
    assert(huff_lens()[37] == 6);
    assert(huff_codes()[37] == 0x15);
    assert(p2(24) == 0x1000000);
    lemma_mul_const(code_of(37), p2((30 - len_of(37)) as nat), 0x15, 0x1000000);
    assert(aligned(37) == 0x15000000);
    assert(order_step_ok(10));
    assert(huff_order()[11] == 37);
    assert(huff_lens()[45] == 6);
    assert(huff_codes()[45] == 0x16);
    assert(p2(24) == 0x1000000);
    lemma_mul_const(code_of(45), p2((30 - len_of(45)) as nat), 0x16, 0x1000000);
    assert(aligned(45) == 0x16000000);
    assert(order_step_ok(11));
    assert(huff_order()[12] == 45);
    assert(huff_lens()[46] == 6);
    assert(huff_codes()[46] == 0x17);
    assert(p2(24) == 0x1000000);
    lemma_mul_const(code_of(46), p2((30 - len_of(46)) as nat), 0x17, 0x1000000);
    assert(aligned(46) == 0x17000000);
    assert(order_step_ok(12));
    assert(huff_order()[13] == 46);
    assert(huff_lens()[47] == 6);
    assert(huff_codes()[47] == 0x18);
    assert(p2(24) == 0x1000000);
    lemma_mul_const(code_of(47), p2((30 - len_of(47)) as nat), 0x18, 0x1000000);
    assert(aligned(47) == 0x18000000);
    assert(order_step_ok(13));
    assert(huff_order()[14] == 47);
    assert(huff_lens()[51] == 6);
    assert(huff_codes()[51] == 0x19);
    assert(p2(24) == 0x1000000);
    lemma_mul_const(code_of(51), p2((30 - len_of(51)) as nat), 0x19, 0x1000000);
    assert(aligned(51) == 0x19000000);
    assert(order_step_ok(14));
    assert(huff_order()[15] == 51);
    assert(huff_lens()[52] == 6);
    assert(huff_codes()[52] == 0x1a);
    assert(p2(24) == 0x1000000);
    lemma_mul_const(code_of(52), p2((30 - len_of(52)) as nat), 0x1a, 0x1000000);
    assert(aligned(52) == 0x1a000000);
    assert(order_step_ok(15));
    assert(huff_order()[16] == 52);
    assert(huff_lens()[53] == 6);
    assert(huff_codes()[53] == 0x1b);
    assert(p2(24) == 0x1000000);
    lemma_mul_const(code_of(53), p2((30 - len_of(53)) as nat), 0x1b, 0x1000000);
    assert(aligned(53) == 0x1b000000);
    assert(order_step_ok(16));
    assert(huff_order()[17] == 53);
    assert(huff_lens()[54] == 6);
    assert(huff_codes()[54] == 0x1c);
    assert(p2(24) == 0x1000000);
    lemma_mul_const(code_of(54), p2((30 - len_of(54)) as nat), 0x1c, 0x1000000);
    assert(aligned(54) == 0x1c000000);
    assert(order_step_ok(17));
    assert(huff_order()[18] == 54);
    assert(huff_lens()[55] == 6);
    assert(huff_codes()[55] == 0x1d);
    assert(p2(24) == 0x1000000);
    lemma_mul_const(code_of(55), p2((30 - len_of(55)) as nat), 0x1d, 0x1000000);
    assert(aligned(55) == 0x1d000000);
    assert(order_step_ok(18));
    assert(huff_order()[19] == 55);
    assert(huff_lens()[56] == 6);
    assert(huff_codes()[56] == 0x1e);
    assert(p2(24) == 0x1000000);
    lemma_mul_const(code_of(56), p2((30 - len_of(56)) as nat), 0x1e, 0x1000000);
    assert(aligned(56) == 0x1e000000);
    assert(order_step_ok(19));
    assert(huff_order()[20] == 56);
    assert(huff_lens()[57] == 6);
    assert(huff_codes()[57] == 0x1f);
    assert(p2(24) == 0x1000000);
    lemma_mul_const(code_of(57), p2((30 - len_of(57)) as nat), 0x1f, 0x1000000);
    assert(aligned(57) == 0x1f000000);
    assert(order_step_ok(20));
    assert(huff_order()[21] == 57);
    assert(huff_lens()[61] == 6);
    assert(huff_codes()[61] == 0x20);
    assert(p2(24) == 0x1000000);
    lemma_mul_const(code_of(61), p2((30 - len_of(61)) as nat), 0x20, 0x1000000);
    assert(aligned(61) == 0x20000000);
    assert(order_step_ok(21));
    assert(huff_order()[22] == 61);
    assert(huff_lens()[65] == 6);
    assert(huff_codes()[65] == 0x21);
    assert(p2(24) == 0x1000000);
    lemma_mul_const(code_of(65), p2((30 - len_of(65)) as nat), 0x21, 0x1000000);
    assert(aligned(65) == 0x21000000);
    assert(order_step_ok(22));
    assert(huff_order()[23] == 65);
    assert(huff_lens()[95] == 6);
    assert(huff_codes()[95] == 0x22);
    assert(p2(24) == 0x1000000);
    lemma_mul_const(code_of(95), p2((30 - len_of(95)) as nat), 0x22, 0x1000000);
    assert(aligned(95) == 0x22000000);
    assert(order_step_ok(23));
    assert(huff_order()[24] == 95);
    assert(huff_lens()[98] == 6);
    assert(huff_codes()[98] == 0x23);
    assert(p2(24) == 0x1000000);
    lemma_mul_const(code_of(98), p2((30 - len_of(98)) as nat), 0x23, 0x1000000);
    assert(aligned(98) == 0x23000000);
    assert(order_step_ok(24));
    assert(huff_order()[25] == 98);
    assert(huff_lens()[100] == 6);
    assert(huff_codes()[100] == 0x24);
    assert(p2(24) == 0x1000000);
    lemma_mul_const(code_of(100), p2((30 - len_of(100)) as nat), 0x24, 0x1000000);
    assert(aligned(100) == 0x24000000);
    assert(order_step_ok(25));
    assert(huff_order()[26] == 100);
    assert(huff_lens()[102] == 6);
    assert(huff_codes()[102] == 0x25);
    assert(p2(24) == 0x1000000);
    lemma_mul_const(code_of(102), p2((30 - len_of(102)) as nat), 0x25, 0x1000000);
    assert(aligned(102) == 0x25000000);
    assert(order_step_ok(26));
    assert(huff_order()[27] == 102);
    assert(huff_lens()[103] == 6);
    assert(huff_codes()[103] == 0x26);
    assert(p2(24) == 0x1000000);
    lemma_mul_const(code_of(103), p2((30 - len_of(103)) as nat), 0x26, 0x1000000);
    assert(aligned(103) == 0x26000000);
    assert(order_step_ok(27));
    assert(huff_order()[28] == 103);
    assert(huff_lens()[104] == 6);
    assert(huff_codes()[104] == 0x27);
    assert(p2(24) == 0x1000000);
    lemma_mul_const(code_of(104), p2((30 - len_of(104)) as nat), 0x27, 0x1000000);
    assert(aligned(104) == 0x27000000);
    assert(order_step_ok(28));
    assert(huff_order()[29] == 104);
    assert(huff_lens()[108] == 6);
    assert(huff_codes()[108] == 0x28);
    assert(p2(24) == 0x1000000);
    lemma_mul_const(code_of(108), p2((30 - len_of(108)) as nat), 0x28, 0x1000000);
    assert(aligned(108) == 0x28000000);
    assert(order_step_ok(29));
    assert(huff_order()[30] == 108);
    assert(huff_lens()[109] == 6);
    assert(huff_codes()[109] == 0x29);
    assert(p2(24) == 0x1000000);
    lemma_mul_const(code_of(109), p2((30 - len_of(109)) as nat), 0x29, 0x1000000);
    assert(aligned(109) == 0x29000000);
    assert(order_step_ok(30));
    assert(huff_order()[31] == 109);
    assert(huff_lens()[110] == 6);
    assert(huff_codes()[110] == 0x2a);
    assert(p2(24) == 0x1000000);
    lemma_mul_const(code_of(110), p2((30 - len_of(110)) as nat), 0x2a, 0x1000000);
    assert(aligned(110) == 0x2a000000);
    assert(order_step_ok(31));
    assert(huff_order()[32] == 110);
    assert(huff_lens()[112] == 6);
    assert(huff_codes()[112] == 0x2b);
    assert(p2(24) == 0x1000000);
    lemma_mul_const(code_of(112), p2((30 - len_of(112)) as nat), 0x2b, 0x1000000);
    assert(aligned(112) == 0x2b000000);
    assert(order_step_ok(32));
    assert(huff_order()[33] == 112);
    assert(huff_lens()[114] == 6);
    assert(huff_codes()[114] == 0x2c);
    assert(p2(24) == 0x1000000);
    lemma_mul_const(code_of(114), p2((30 - len_of(114)) as nat), 0x2c, 0x1000000);
    assert(aligned(114) == 0x2c000000);
    assert(order_step_ok(33));
    assert(huff_order()[34] == 114);
    assert(huff_lens()[117] == 6);
    assert(huff_codes()[117] == 0x2d);
    assert(p2(24) == 0x1000000);
    lemma_mul_const(code_of(117), p2((30 - len_of(117)) as nat), 0x2d, 0x1000000);
    assert(aligned(117) == 0x2d000000);
    assert(order_step_ok(34));
    assert(huff_order()[35] == 117);
    assert(huff_lens()[58] == 7);
    assert(huff_codes()[58] == 0x5c);
    assert(p2(23) == 0x800000);
    lemma_mul_const(code_of(58), p2((30 - len_of(58)) as nat), 0x5c, 0x800000);
    assert(aligned(58) == 0x2e000000);
    assert(order_step_ok(35));
    assert(huff_order()[36] == 58);
    assert(huff_lens()[66] == 7);
    assert(huff_codes()[66] == 0x5d);
    assert(p2(23) == 0x800000);
    lemma_mul_const(code_of(66), p2((30 - len_of(66)) as nat), 0x5d, 0x800000);
    assert(aligned(66) == 0x2e800000);
    assert(order_step_ok(36));
    assert(huff_order()[37] == 66);
    assert(huff_lens()[67] == 7);
    assert(huff_codes()[67] == 0x5e);
    assert(p2(23) == 0x800000);
    lemma_mul_const(code_of(67), p2((30 - len_of(67)) as nat), 0x5e, 0x800000);
    assert(aligned(67) == 0x2f000000);
    assert(order_step_ok(37));
    assert(huff_order()[38] == 67);
    assert(huff_lens()[68] == 7);
    assert(huff_codes()[68] == 0x5f);
    assert(p2(23) == 0x800000);
    lemma_mul_const(code_of(68), p2((30 - len_of(68)) as nat), 0x5f, 0x800000);
    assert(aligned(68) == 0x2f800000);
    assert(order_step_ok(38));
    assert(huff_order()[39] == 68);
    assert(huff_lens()[69] == 7);
    assert(huff_codes()[69] == 0x60);
    assert(p2(23) == 0x800000);
    lemma_mul_const(code_of(69), p2((30 - len_of(69)) as nat), 0x60, 0x800000);
    assert(aligned(69) == 0x30000000);
    assert(order_step_ok(39));
    assert(huff_order()[40] == 69);
    assert(huff_lens()[70] == 7);
    assert(huff_codes()[70] == 0x61);
    assert(p2(23) == 0x800000);
    lemma_mul_const(code_of(70), p2((30 - len_of(70)) as nat), 0x61, 0x800000);
    assert(aligned(70) == 0x30800000);
    assert(order_step_ok(40));
    assert(huff_order()[41] == 70);
    assert(huff_lens()[71] == 7);
    assert(huff_codes()[71] == 0x62);
    assert(p2(23) == 0x800000);
    lemma_mul_const(code_of(71), p2((30 - len_of(71)) as nat), 0x62, 0x800000);
    assert(aligned(71) == 0x31000000);
    assert(order_step_ok(41));
    assert(huff_order()[42] == 71);
    assert(huff_lens()[72] == 7);
    assert(huff_codes()[72] == 0x63);
    assert(p2(23) == 0x800000);
    lemma_mul_const(code_of(72), p2((30 - len_of(72)) as nat), 0x63, 0x800000);
    assert(aligned(72) == 0x31800000);
    assert(order_step_ok(42));
    assert(huff_order()[43] == 72);
    assert(huff_lens()[73] == 7);
    assert(huff_codes()[73] == 0x64);
    assert(p2(23) == 0x800000);
    lemma_mul_const(code_of(73), p2((30 - len_of(73)) as nat), 0x64, 0x800000);
    assert(aligned(73) == 0x32000000);
    assert(order_step_ok(43));
    assert(huff_order()[44] == 73);
    assert(huff_lens()[74] == 7);
    assert(huff_codes()[74] == 0x65);
    assert(p2(23) == 0x800000);
    lemma_mul_const(code_of(74), p2((30 - len_of(74)) as nat), 0x65, 0x800000);
    assert(aligned(74) == 0x32800000);
    assert(order_step_ok(44));
    assert(huff_order()[45] == 74);
    assert(huff_lens()[75] == 7);
    assert(huff_codes()[75] == 0x66);
    assert(p2(23) == 0x800000);
    lemma_mul_const(code_of(75), p2((30 - len_of(75)) as nat), 0x66, 0x800000);
    assert(aligned(75) == 0x33000000);
    assert(order_step_ok(45));
    assert(huff_order()[46] == 75);
    assert(huff_lens()[76] == 7);
    assert(huff_codes()[76] == 0x67);
    assert(p2(23) == 0x800000);
    lemma_mul_const(code_of(76), p2((30 - len_of(76)) as nat), 0x67, 0x800000);
    assert(aligned(76) == 0x33800000);
    assert(order_step_ok(46));
    assert(huff_order()[47] == 76);
    assert(huff_lens()[77] == 7);
    assert(huff_codes()[77] == 0x68);
    assert(p2(23) == 0x800000);
    lemma_mul_const(code_of(77), p2((30 - len_of(77)) as nat), 0x68, 0x800000);
    assert(aligned(77) == 0x34000000);
    assert(order_step_ok(47));
    assert(huff_order()[48] == 77);
    assert(huff_lens()[78] == 7);
    assert(huff_codes()[78] == 0x69);
    assert(p2(23) == 0x800000);
    lemma_mul_const(code_of(78), p2((30 - len_of(78)) as nat), 0x69, 0x800000);
    assert(aligned(78) == 0x34800000);
    assert(order_step_ok(48));
    assert(huff_order()[49] == 78);
    assert(huff_lens()[79] == 7);
    assert(huff_codes()[79] == 0x6a);
    assert(p2(23) == 0x800000);
    lemma_mul_const(code_of(79), p2((30 - len_of(79)) as nat), 0x6a, 0x800000);
    assert(aligned(79) == 0x35000000);
    assert(order_step_ok(49));
    assert(huff_order()[50] == 79);
    assert(huff_lens()[80] == 7);
    assert(huff_codes()[80] == 0x6b);
    assert(p2(23) == 0x800000);
    lemma_mul_const(code_of(80), p2((30 - len_of(80)) as nat), 0x6b, 0x800000);
    assert(aligned(80) == 0x35800000);
    assert(order_step_ok(50));
    assert(huff_order()[51] == 80);
    assert(huff_lens()[81] == 7);
    assert(huff_codes()[81] == 0x6c);
    assert(p2(23) == 0x800000);
    lemma_mul_const(code_of(81), p2((30 - len_of(81)) as nat), 0x6c, 0x800000);
    assert(aligned(81) == 0x36000000);
    assert(order_step_ok(51));
    assert(huff_order()[52] == 81);
    assert(huff_lens()[82] == 7);
    assert(huff_codes()[82] == 0x6d);
    assert(p2(23) == 0x800000);
    lemma_mul_const(code_of(82), p2((30 - len_of(82)) as nat), 0x6d, 0x800000);
    assert(aligned(82) == 0x36800000);
    assert(order_step_ok(52));
    assert(huff_order()[53] == 82);
    assert(huff_lens()[83] == 7);
    assert(huff_codes()[83] == 0x6e);
    assert(p2(23) == 0x800000);
    lemma_mul_const(code_of(83), p2((30 - len_of(83)) as nat), 0x6e, 0x800000);
    assert(aligned(83) == 0x37000000);
    assert(order_step_ok(53));
    assert(huff_order()[54] == 83);
    assert(huff_lens()[84] == 7);
    assert(huff_codes()[84] == 0x6f);
    assert(p2(23) == 0x800000);
    lemma_mul_const(code_of(84), p2((30 - len_of(84)) as nat), 0x6f, 0x800000);
    assert(aligned(84) == 0x37800000);
    assert(order_step_ok(54));
    assert(huff_order()[55] == 84);
    assert(huff_lens()[85] == 7);
    assert(huff_codes()[85] == 0x70);
    assert(p2(23) == 0x800000);
    lemma_mul_const(code_of(85), p2((30 - len_of(85)) as nat), 0x70, 0x800000);
    assert(aligned(85) == 0x38000000);
    assert(order_step_ok(55));
    assert(huff_order()[56] == 85);
    assert(huff_lens()[86] == 7);
    assert(huff_codes()[86] == 0x71);
    assert(p2(23) == 0x800000);
    lemma_mul_const(code_of(86), p2((30 - len_of(86)) as nat), 0x71, 0x800000);
    assert(aligned(86) == 0x38800000);
    assert(order_step_ok(56));
    assert(huff_order()[57] == 86);
    assert(huff_lens()[87] == 7);
    assert(huff_codes()[87] == 0x72);
    assert(p2(23) == 0x800000);
    lemma_mul_const(code_of(87), p2((30 - len_of(87)) as nat), 0x72, 0x800000);
    assert(aligned(87) == 0x39000000);
    assert(order_step_ok(57));
    assert(huff_order()[58] == 87);
    assert(huff_lens()[89] == 7);
    assert(huff_codes()[89] == 0x73);
    assert(p2(23) == 0x800000);
    lemma_mul_const(code_of(89), p2((30 - len_of(89)) as nat), 0x73, 0x800000);
    assert(aligned(89) == 0x39800000);
    assert(order_step_ok(58));
    assert(huff_order()[59] == 89);
    assert(huff_lens()[106] == 7);
    assert(huff_codes()[106] == 0x74);
    assert(p2(23) == 0x800000);
    lemma_mul_const(code_of(106), p2((30 - len_of(106)) as nat), 0x74, 0x800000);
    assert(aligned(106) == 0x3a000000);
    assert(order_step_ok(59));
    assert(huff_order()[60] == 106);
    assert(huff_lens()[107] == 7);
    assert(huff_codes()[107] == 0x75);
    assert(p2(23) == 0x800000);
    lemma_mul_const(code_of(107), p2((30 - len_of(107)) as nat), 0x75, 0x800000);
    assert(aligned(107) == 0x3a800000);
    assert(order_step_ok(60));
    assert(huff_order()[61] == 107);
    assert(huff_lens()[113] == 7);
    assert(huff_codes()[113] == 0x76);
    assert(p2(23) == 0x800000);
    lemma_mul_const(code_of(113), p2((30 - len_of(113)) as nat), 0x76, 0x800000);
    assert(aligned(113) == 0x3b000000);
    assert(order_step_ok(61));
    assert(huff_order()[62] == 113);
    assert(huff_lens()[118] == 7);
    assert(huff_codes()[118] == 0x77);
    assert(p2(23) == 0x800000);
    lemma_mul_const(code_of(118), p2((30 - len_of(118)) as nat), 0x77, 0x800000);
    assert(aligned(118) == 0x3b800000);
    assert(order_step_ok(62));
    assert(huff_order()[63] == 118);
    assert(huff_order()[64] == 119);
    assert(huff_lens()[119] == 7);
    assert(huff_codes()[119] == 0x78);
    assert(p2(23) == 0x800000);
    lemma_mul_const(code_of(119), p2((30 - len_of(119)) as nat), 0x78, 0x800000);
    assert(aligned(119) == 0x3c000000);
    assert(order_step_ok(63));
}

proof fn check_order_64_128()
    ensures
        forall|x: int| 64 <= x < 128 ==> #[trigger] order_step_ok(x),
{
    lemma_p2_values();
    assert(huff_order()[64] == 119);
    assert(huff_lens()[119] == 7);
    assert(huff_codes()[119] == 0x78);
    assert(p2(23) == 0x800000);
    lemma_mul_const(code_of(119), p2((30 - len_of(119)) as nat), 0x78, 0x800000);
    assert(aligned(119) == 0x3c000000);
    assert(huff_lens()[120] == 7);
    assert(huff_codes()[120] == 0x79);
    assert(p2(23) == 0x800000);
    lemma_mul_const(code_of(120), p2((30 - len_of(120)) as nat), 0x79, 0x800000);
    assert(aligned(120) == 0x3c800000);
    assert(order_step_ok(64));
    assert(huff_order()[65] == 120);
    assert(huff_lens()[121] == 7);
    assert(huff_codes()[121] == 0x7a);
    assert(p2(23) == 0x800000);
    lemma_mul_const(code_of(121), p2((30 - len_of(121)) as nat), 0x7a, 0x800000);
    assert(aligned(121) == 0x3d000000);
    assert(order_step_ok(65));
    assert(huff_order()[66] == 121);
    assert(huff_lens()[122] == 7);
    assert(huff_codes()[122] == 0x7b);
    assert(p2(23) == 0x800000);
    lemma_mul_const(code_of(122), p2((30 - len_of(122)) as nat), 0x7b, 0x800000);
    assert(aligned(122) == 0x3d800000);
    assert(order_step_ok(66));
    assert(huff_order()[67] == 122);
    assert(huff_lens()[38] == 8);
    assert(huff_codes()[38] == 0xf8);
    assert(p2(22) == 0x400000);
    lemma_mul_const(code_of(38), p2((30 - len_of(38)) as nat), 0xf8, 0x400000);
    assert(aligned(38) == 0x3e000000);
    assert(order_step_ok(67));
    assert(huff_order()[68] == 38);
    assert(huff_lens()[42] == 8);
    assert(huff_codes()[42] == 0xf9);
    assert(p2(22) == 0x400000);
    lemma_mul_const(code_of(42), p2((30 - len_of(42)) as nat), 0xf9, 0x400000);
    assert(aligned(42) == 0x3e400000);
    assert(order_step_ok(68));
    assert(huff_order()[69] == 42);
    assert(huff_lens()[44] == 8);
    assert(huff_codes()[44] == 0xfa);
    assert(p2(22) == 0x400000);
    lemma_mul_const(code_of(44), p2((30 - len_of(44)) as nat), 0xfa, 0x400000);
    assert(aligned(44) == 0x3e800000);
    assert(order_step_ok(69));
    assert(huff_order()[70] == 44);
    assert(huff_lens()[59] == 8);
    assert(huff_codes()[59] == 0xfb);
    assert(p2(22) == 0x400000);
    lemma_mul_const(code_of(59), p2((30 - len_of(59)) as nat), 0xfb, 0x400000);
    assert(aligned(59) == 0x3ec00000);
    assert(order_step_ok(70));
    assert(huff_order()[71] == 59);
    assert(huff_lens()[88] == 8);
    assert(huff_codes()[88] == 0xfc);
    assert(p2(22) == 0x400000);
    lemma_mul_const(code_of(88), p2((30 - len_of(88)) as nat), 0xfc, 0x400000);
    assert(aligned(88) == 0x3f000000);
    assert(order_step_ok(71));
    assert(huff_order()[72] == 88);
    assert(huff_lens()[90] == 8);
    assert(huff_codes()[90] == 0xfd);
    assert(p2(22) == 0x400000);
    lemma_mul_const(code_of(90), p2((30 - len_of(90)) as nat), 0xfd, 0x400000);
    assert(aligned(90) == 0x3f400000);
    assert(order_step_ok(72));
    assert(huff_order()[73] == 90);
    assert(huff_lens()[33] == 10);
    assert(huff_codes()[33] == 0x3f8);
    assert(p2(20) == 0x100000);
    lemma_mul_const(code_of(33), p2((30 - len_of(33)) as nat), 0x3f8, 0x100000);
    assert(aligned(33) == 0x3f800000);
    assert(order_step_ok(73));
    assert(huff_order()[74] == 33);
    assert(huff_lens()[34] == 10);
    assert(huff_codes()[34] == 0x3f9);
    assert(p2(20) == 0x100000);
    lemma_mul_const(code_of(34), p2((30 - len_of(34)) as nat), 0x3f9, 0x100000);
    assert(aligned(34) == 0x3f900000);
    assert(order_step_ok(74));
    assert(huff_order()[75] == 34);
    assert(huff_lens()[40] == 10);
    assert(huff_codes()[40] == 0x3fa);
    assert(p2(20) == 0x100000);
    lemma_mul_const(code_of(40), p2((30 - len_of(40)) as nat), 0x3fa, 0x100000);
    assert(aligned(40) == 0x3fa00000);
    assert(order_step_ok(75));
    assert(huff_order()[76] == 40);
    assert(huff_lens()[41] == 10);
    assert(huff_codes()[41] == 0x3fb);
    assert(p2(20) == 0x100000);
    lemma_mul_const(code_of(41), p2((30 - len_of(41)) as nat), 0x3fb, 0x100000);
    assert(aligned(41) == 0x3fb00000);
    assert(order_step_ok(76));
    assert(huff_order()[77] == 41);
    assert(huff_lens()[63] == 10);
    assert(huff_codes()[63] == 0x3fc);
    assert(p2(20) == 0x100000);
    lemma_mul_const(code_of(63), p2((30 - len_of(63)) as nat), 0x3fc, 0x100000);
    assert(aligned(63) == 0x3fc00000);
    assert(order_step_ok(77));
    assert(huff_order()[78] == 63);
    assert(huff_lens()[39] == 11);
    assert(huff_codes()[39] == 0x7fa);
    assert(p2(19) == 0x80000);
    lemma_mul_const(code_of(39), p2((30 - len_of(39)) as nat), 0x7fa, 0x80000);
    assert(aligned(39) == 0x3fd00000);
    assert(order_step_ok(78));
    assert(huff_order()[79] == 39);
    assert(huff_lens()[43] == 11);
    assert(huff_codes()[43] == 0x7fb);
    assert(p2(19) == 0x80000);
    lemma_mul_const(code_of(43), p2((30 - len_of(43)) as nat), 0x7fb, 0x80000);
    assert(aligned(43) == 0x3fd80000);
    assert(order_step_ok(79));
    assert(huff_order()[80] == 43);
    assert(huff_lens()[124] == 11);
    assert(huff_codes()[124] == 0x7fc);
    assert(p2(19) == 0x80000);
    lemma_mul_const(code_of(124), p2((30 - len_of(124)) as nat), 0x7fc, 0x80000);
    assert(aligned(124) == 0x3fe00000);
    assert(order_step_ok(80));
    assert(huff_order()[81] == 124);
    assert(huff_lens()[35] == 12);
    assert(huff_codes()[35] == 0xffa);
    assert(p2(18) == 0x40000);
    lemma_mul_const(code_of(35), p2((30 - len_of(35)) as nat), 0xffa, 0x40000);
    assert(aligned(35) == 0x3fe80000);
    assert(order_step_ok(81));
    assert(huff_order()[82] == 35);
    assert(huff_lens()[62] == 12);
    assert(huff_codes()[62] == 0xffb);
    assert(p2(18) == 0x40000);
    lemma_mul_const(code_of(62), p2((30 - len_of(62)) as nat), 0xffb, 0x40000);
    assert(aligned(62) == 0x3fec0000);
    assert(order_step_ok(82));
    assert(huff_order()[83] == 62);
    assert(huff_lens()[0] == 13);
    assert(huff_codes()[0] == 0x1ff8);
    assert(p2(17) == 0x20000);
    lemma_mul_const(code_of(0), p2((30 - len_of(0)) as nat), 0x1ff8, 0x20000);
    assert(aligned(0) == 0x3ff00000);
    assert(order_step_ok(83));
    assert(huff_order()[84] == 0);
    assert(huff_lens()[36] == 13);
    assert(huff_codes()[36] == 0x1ff9);
    assert(p2(17) == 0x20000);
    lemma_mul_const(code_of(36), p2((30 - len_of(36)) as nat), 0x1ff9, 0x20000);
    assert(aligned(36) == 0x3ff20000);
    assert(order_step_ok(84));
    assert(huff_order()[85] == 36);
    assert(huff_lens()[64] == 13);
    assert(huff_codes()[64] == 0x1ffa);
    assert(p2(17) == 0x20000);
    lemma_mul_const(code_of(64), p2((30 - len_of(64)) as nat), 0x1ffa, 0x20000);
    assert(aligned(64) == 0x3ff40000);
    assert(order_step_ok(85));
    assert(huff_order()[86] == 64);
    assert(huff_lens()[91] == 13);
    assert(huff_codes()[91] == 0x1ffb);
    assert(p2(17) == 0x20000);
    lemma_mul_const(code_of(91), p2((30 - len_of(91)) as nat), 0x1ffb, 0x20000);
    assert(aligned(91) == 0x3ff60000);
    assert(order_step_ok(86));
    assert(huff_order()[87] == 91);
    assert(huff_lens()[93] == 13);
    assert(huff_codes()[93] == 0x1ffc);
    assert(p2(17) == 0x20000);
    lemma_mul_const(code_of(93), p2((30 - len_of(93)) as nat), 0x1ffc, 0x20000);
    assert(aligned(93) == 0x3ff80000);
    assert(order_step_ok(87));
    assert(huff_order()[88] == 93);
    assert(huff_lens()[126] == 13);
    assert(huff_codes()[126] == 0x1ffd);
    assert(p2(17) == 0x20000);
    lemma_mul_const(code_of(126), p2((30 - len_of(126)) as nat), 0x1ffd, 0x20000);
    assert(aligned(126) == 0x3ffa0000);
    assert(order_step_ok(88));
    assert(huff_order()[89] == 126);
    assert(huff_lens()[94] == 14);
    assert(huff_codes()[94] == 0x3ffc);
    assert(p2(16) == 0x10000);
    lemma_mul_const(code_of(94), p2((30 - len_of(94)) as nat), 0x3ffc, 0x10000);
    assert(aligned(94) == 0x3ffc0000);
    assert(order_step_ok(89));
    assert(huff_order()[90] == 94);
    assert(huff_lens()[125] == 14);
    assert(huff_codes()[125] == 0x3ffd);
    assert(p2(16) == 0x10000);
    lemma_mul_const(code_of(125), p2((30 - len_of(125)) as nat), 0x3ffd, 0x10000);
    assert(aligned(125) == 0x3ffd0000);
    assert(order_step_ok(90));
    assert(huff_order()[91] == 125);
    assert(huff_lens()[60] == 15);
    assert(huff_codes()[60] == 0x7ffc);
    assert(p2(15) == 0x8000);
    lemma_mul_const(code_of(60), p2((30 - len_of(60)) as nat), 0x7ffc, 0x8000);
    assert(aligned(60) == 0x3ffe0000);
    assert(order_step_ok(91));
    assert(huff_order()[92] == 60);
    assert(huff_lens()[96] == 15);
    assert(huff_codes()[96] == 0x7ffd);
    assert(p2(15) == 0x8000);
    lemma_mul_const(code_of(96), p2((30 - len_of(96)) as nat), 0x7ffd, 0x8000);
    assert(aligned(96) == 0x3ffe8000);
    assert(order_step_ok(92));
    assert(huff_order()[93] == 96);
    assert(huff_lens()[123] == 15);
    assert(huff_codes()[123] == 0x7ffe);
    assert(p2(15) == 0x8000);
    lemma_mul_const(code_of(123), p2((30 - len_of(123)) as nat), 0x7ffe, 0x8000);
    assert(aligned(123) == 0x3fff0000);
    assert(order_step_ok(93));
    assert(huff_order()[94] == 123);
    assert(huff_lens()[92] == 19);
    assert(huff_codes()[92] == 0x7fff0);
    assert(p2(11) == 0x800);
    lemma_mul_const(code_of(92), p2((30 - len_of(92)) as nat), 0x7fff0, 0x800);
    assert(aligned(92) == 0x3fff8000);
    assert(order_step_ok(94));
    assert(huff_order()[95] == 92);
    assert(huff_lens()[195] == 19);
    assert(huff_codes()[195] == 0x7fff1);
    assert(p2(11) == 0x800);
    lemma_mul_const(code_of(195), p2((30 - len_of(195)) as nat), 0x7fff1, 0x800);
    assert(aligned(195) == 0x3fff8800);
    assert(order_step_ok(95));
    assert(huff_order()[96] == 195);
    assert(huff_lens()[208] == 19);
    assert(huff_codes()[208] == 0x7fff2);
    assert(p2(11) == 0x800);
    lemma_mul_const(code_of(208), p2((30 - len_of(208)) as nat), 0x7fff2, 0x800);
    assert(aligned(208) == 0x3fff9000);
    assert(order_step_ok(96));
    assert(huff_order()[97] == 208);
    assert(huff_lens()[128] == 20);
    assert(huff_codes()[128] == 0xfffe6);
    assert(p2(10) == 0x400);
    lemma_mul_const(code_of(128), p2((30 - len_of(128)) as nat), 0xfffe6, 0x400);
    assert(aligned(128) == 0x3fff9800);
    assert(order_step_ok(97));
    assert(huff_order()[98] == 128);
    assert(huff_lens()[130] == 20);
    assert(huff_codes()[130] == 0xfffe7);
    assert(p2(10) == 0x400);
    lemma_mul_const(code_of(130), p2((30 - len_of(130)) as nat), 0xfffe7, 0x400);
    assert(aligned(130) == 0x3fff9c00);
    assert(order_step_ok(98));
    assert(huff_order()[99] == 130);
    assert(huff_lens()[131] == 20);
    assert(huff_codes()[131] == 0xfffe8);
    assert(p2(10) == 0x400);
    lemma_mul_const(code_of(131), p2((30 - len_of(131)) as nat), 0xfffe8, 0x400);
    assert(aligned(131) == 0x3fffa000);
    assert(order_step_ok(99));
    assert(huff_order()[100] == 131);
    assert(huff_lens()[162] == 20);
    assert(huff_codes()[162] == 0xfffe9);
    assert(p2(10) == 0x400);
    lemma_mul_const(code_of(162), p2((30 - len_of(162)) as nat), 0xfffe9, 0x400);
    assert(aligned(162) == 0x3fffa400);
    assert(order_step_ok(100));
    assert(huff_order()[101] == 162);
    assert(huff_lens()[184] == 20);
    assert(huff_codes()[184] == 0xfffea);
    assert(p2(10) == 0x400);
    lemma_mul_const(code_of(184), p2((30 - len_of(184)) as nat), 0xfffea, 0x400);
    assert(aligned(184) == 0x3fffa800);
    assert(order_step_ok(101));
    assert(huff_order()[102] == 184);
    assert(huff_lens()[194] == 20);
    assert(huff_codes()[194] == 0xfffeb);
    assert(p2(10) == 0x400);
    lemma_mul_const(code_of(194), p2((30 - len_of(194)) as nat), 0xfffeb, 0x400);
    assert(aligned(194) == 0x3fffac00);
    assert(order_step_ok(102));
    assert(huff_order()[103] == 194);
    assert(huff_lens()[224] == 20);
    assert(huff_codes()[224] == 0xfffec);
    assert(p2(10) == 0x400);
    lemma_mul_const(code_of(224), p2((30 - len_of(224)) as nat), 0xfffec, 0x400);
    assert(aligned(224) == 0x3fffb000);
    assert(order_step_ok(103));
    assert(huff_order()[104] == 224);
    assert(huff_lens()[226] == 20);
    assert(huff_codes()[226] == 0xfffed);
    assert(p2(10) == 0x400);
    lemma_mul_const(code_of(226), p2((30 - len_of(226)) as nat), 0xfffed, 0x400);
    assert(aligned(226) == 0x3fffb400);
    assert(order_step_ok(104));
    assert(huff_order()[105] == 226);
    assert(huff_lens()[153] == 21);
    assert(huff_codes()[153] == 0x1fffdc);
    assert(p2(9) == 0x200);
    lemma_mul_const(code_of(153), p2((30 - len_of(153)) as nat), 0x1fffdc, 0x200);
    assert(aligned(153) == 0x3fffb800);
    assert(order_step_ok(105));
    assert(huff_order()[106] == 153);
    assert(huff_lens()[161] == 21);
    assert(huff_codes()[161] == 0x1fffdd);
    assert(p2(9) == 0x200);
    lemma_mul_const(code_of(161), p2((30 - len_of(161)) as nat), 0x1fffdd, 0x200);
    assert(aligned(161) == 0x3fffba00);
    assert(order_step_ok(106));
    assert(huff_order()[107] == 161);
    assert(huff_lens()[167] == 21);
    assert(huff_codes()[167] == 0x1fffde);
    assert(p2(9) == 0x200);
    lemma_mul_const(code_of(167), p2((30 - len_of(167)) as nat), 0x1fffde, 0x200);
    assert(aligned(167) == 0x3fffbc00);
    assert(order_step_ok(107));
    assert(huff_order()[108] == 167);
    assert(huff_lens()[172] == 21);
    assert(huff_codes()[172] == 0x1fffdf);
    assert(p2(9) == 0x200);
    lemma_mul_const(code_of(172), p2((30 - len_of(172)) as nat), 0x1fffdf, 0x200);
    assert(aligned(172) == 0x3fffbe00);
    assert(order_step_ok(108));
    assert(huff_order()[109] == 172);
    assert(huff_lens()[176] == 21);
    assert(huff_codes()[176] == 0x1fffe0);
    assert(p2(9) == 0x200);
    lemma_mul_const(code_of(176), p2((30 - len_of(176)) as nat), 0x1fffe0, 0x200);
    assert(aligned(176) == 0x3fffc000);
    assert(order_step_ok(109));
    assert(huff_order()[110] == 176);
    assert(huff_lens()[177] == 21);
    assert(huff_codes()[177] == 0x1fffe1);
    assert(p2(9) == 0x200);
    lemma_mul_const(code_of(177), p2((30 - len_of(177)) as nat), 0x1fffe1, 0x200);
    assert(aligned(177) == 0x3fffc200);
    assert(order_step_ok(110));
    assert(huff_order()[111] == 177);
    assert(huff_lens()[179] == 21);
    assert(huff_codes()[179] == 0x1fffe2);
    assert(p2(9) == 0x200);
    lemma_mul_const(code_of(179), p2((30 - len_of(179)) as nat), 0x1fffe2, 0x200);
    assert(aligned(179) == 0x3fffc400);
    assert(order_step_ok(111));
    assert(huff_order()[112] == 179);
    assert(huff_lens()[209] == 21);
    assert(huff_codes()[209] == 0x1fffe3);
    assert(p2(9) == 0x200);
    lemma_mul_const(code_of(209), p2((30 - len_of(209)) as nat), 0x1fffe3, 0x200);
    assert(aligned(209) == 0x3fffc600);
    assert(order_step_ok(112));
    assert(huff_order()[113] == 209);
    assert(huff_lens()[216] == 21);
    assert(huff_codes()[216] == 0x1fffe4);
    assert(p2(9) == 0x200);
    lemma_mul_const(code_of(216), p2((30 - len_of(216)) as nat), 0x1fffe4, 0x200);
    assert(aligned(216) == 0x3fffc800);
    assert(order_step_ok(113));
    assert(huff_order()[114] == 216);
    assert(huff_lens()[217] == 21);
    assert(huff_codes()[217] == 0x1fffe5);
    assert(p2(9) == 0x200);
    lemma_mul_const(code_of(217), p2((30 - len_of(217)) as nat), 0x1fffe5, 0x200);
    assert(aligned(217) == 0x3fffca00);
    assert(order_step_ok(114));
    assert(huff_order()[115] == 217);
    assert(huff_lens()[227] == 21);
    assert(huff_codes()[227] == 0x1fffe6);
    assert(p2(9) == 0x200);
    lemma_mul_const(code_of(227), p2((30 - len_of(227)) as nat), 0x1fffe6, 0x200);
    assert(aligned(227) == 0x3fffcc00);
    assert(order_step_ok(115));
    assert(huff_order()[116] == 227);
    assert(huff_lens()[229] == 21);
    assert(huff_codes()[229] == 0x1fffe7);
    assert(p2(9) == 0x200);
    lemma_mul_const(code_of(229), p2((30 - len_of(229)) as nat), 0x1fffe7, 0x200);
    assert(aligned(229) == 0x3fffce00);
    assert(order_step_ok(116));
    assert(huff_order()[117] == 229);
    assert(huff_lens()[230] == 21);
    assert(huff_codes()[230] == 0x1fffe8);
    assert(p2(9) == 0x200);
    lemma_mul_const(code_of(230), p2((30 - len_of(230)) as nat), 0x1fffe8, 0x200);
    assert(aligned(230) == 0x3fffd000);
    assert(order_step_ok(117));
    assert(huff_order()[118] == 230);
    assert(huff_lens()[129] == 22);
    assert(huff_codes()[129] == 0x3fffd2);
    assert(p2(8) == 0x100);
    lemma_mul_const(code_of(129), p2((30 - len_of(129)) as nat), 0x3fffd2, 0x100);
    assert(aligned(129) == 0x3fffd200);
    assert(order_step_ok(118));
    assert(huff_order()[119] == 129);
    assert(huff_lens()[132] == 22);
    assert(huff_codes()[132] == 0x3fffd3);
    assert(p2(8) == 0x100);
    lemma_mul_const(code_of(132), p2((30 - len_of(132)) as nat), 0x3fffd3, 0x100);
    assert(aligned(132) == 0x3fffd300);
    assert(order_step_ok(119));
    assert(huff_order()[120] == 132);
    assert(huff_lens()[133] == 22);
    assert(huff_codes()[133] == 0x3fffd4);
    assert(p2(8) == 0x100);
    lemma_mul_const(code_of(133), p2((30 - len_of(133)) as nat), 0x3fffd4, 0x100);
    assert(aligned(133) == 0x3fffd400);
    assert(order_step_ok(120));
    assert(huff_order()[121] == 133);
    assert(huff_lens()[134] == 22);
    assert(huff_codes()[134] == 0x3fffd5);
    assert(p2(8) == 0x100);
    lemma_mul_const(code_of(134), p2((30 - len_of(134)) as nat), 0x3fffd5, 0x100);
    assert(aligned(134) == 0x3fffd500);
    assert(order_step_ok(121));
    assert(huff_order()[122] == 134);
    assert(huff_lens()[136] == 22);
    assert(huff_codes()[136] == 0x3fffd6);
    assert(p2(8) == 0x100);
    lemma_mul_const(code_of(136), p2((30 - len_of(136)) as nat), 0x3fffd6, 0x100);
    assert(aligned(136) == 0x3fffd600);
    assert(order_step_ok(122));
    assert(huff_order()[123] == 136);
    assert(huff_lens()[146] == 22);
    assert(huff_codes()[146] == 0x3fffd7);
    assert(p2(8) == 0x100);
    lemma_mul_const(code_of(146), p2((30 - len_of(146)) as nat), 0x3fffd7, 0x100);
    assert(aligned(146) == 0x3fffd700);
    assert(order_step_ok(123));
    assert(huff_order()[124] == 146);
    assert(huff_lens()[154] == 22);
    assert(huff_codes()[154] == 0x3fffd8);
    assert(p2(8) == 0x100);
    lemma_mul_const(code_of(154), p2((30 - len_of(154)) as nat), 0x3fffd8, 0x100);
    assert(aligned(154) == 0x3fffd800);
    assert(order_step_ok(124));
    assert(huff_order()[125] == 154);
    assert(huff_lens()[156] == 22);
    assert(huff_codes()[156] == 0x3fffd9);
    assert(p2(8) == 0x100);
    lemma_mul_const(code_of(156), p2((30 - len_of(156)) as nat), 0x3fffd9, 0x100);
    assert(aligned(156) == 0x3fffd900);
    assert(order_step_ok(125));
    assert(huff_order()[126] == 156);
    assert(huff_lens()[160] == 22);
    assert(huff_codes()[160] == 0x3fffda);
    assert(p2(8) == 0x100);
    lemma_mul_const(code_of(160), p2((30 - len_of(160)) as nat), 0x3fffda, 0x100);
    assert(aligned(160) == 0x3fffda00);
    assert(order_step_ok(126));
    assert(huff_order()[127] == 160);
    assert(huff_order()[128] == 163);
    assert(huff_lens()[163] == 22);
    assert(huff_codes()[163] == 0x3fffdb);
    assert(p2(8) == 0x100);
    lemma_mul_const(code_of(163), p2((30 - len_of(163)) as nat), 0x3fffdb, 0x100);
    assert(aligned(163) == 0x3fffdb00);
    assert(order_step_ok(127));
}

proof fn check_order_128_192()
    ensures
        forall|x: int| 128 <= x < 192 ==> #[trigger] order_step_ok(x),
{
    lemma_p2_values();
    assert(huff_order()[128] == 163);
    assert(huff_lens()[163] == 22);
    assert(huff_codes()[163] == 0x3fffdb);
    assert(p2(8) == 0x100);
    lemma_mul_const(code_of(163), p2((30 - len_of(163)) as nat), 0x3fffdb, 0x100);
    assert(aligned(163) == 0x3fffdb00);
    assert(huff_lens()[164] == 22);
    assert(huff_codes()[164] == 0x3fffdc);
    assert(p2(8) == 0x100);
    lemma_mul_const(code_of(164), p2((30 - len_of(164)) as nat), 0x3fffdc, 0x100);
    assert(aligned(164) == 0x3fffdc00);
    assert(order_step_ok(128));
    assert(huff_order()[129] == 164);
    assert(huff_lens()[169] == 22);
    assert(huff_codes()[169] == 0x3fffdd);
    assert(p2(8) == 0x100);
    lemma_mul_const(code_of(169), p2((30 - len_of(169)) as nat), 0x3fffdd, 0x100);
    assert(aligned(169) == 0x3fffdd00);
    assert(order_step_ok(129));
    assert(huff_order()[130] == 169);
    assert(huff_lens()[170] == 22);
    assert(huff_codes()[170] == 0x3fffde);
    assert(p2(8) == 0x100);
    lemma_mul_const(code_of(170), p2((30 - len_of(170)) as nat), 0x3fffde, 0x100);
    assert(aligned(170) == 0x3fffde00);
    assert(order_step_ok(130));
    assert(huff_order()[131] == 170);
    assert(huff_lens()[173] == 22);
    assert(huff_codes()[173] == 0x3fffdf);
    assert(p2(8) == 0x100);
    lemma_mul_const(code_of(173), p2((30 - len_of(173)) as nat), 0x3fffdf, 0x100);
    assert(aligned(173) == 0x3fffdf00);
    assert(order_step_ok(131));
    assert(huff_order()[132] == 173);
    assert(huff_lens()[178] == 22);
    assert(huff_codes()[178] == 0x3fffe0);
    assert(p2(8) == 0x100);
    lemma_mul_const(code_of(178), p2((30 - len_of(178)) as nat), 0x3fffe0, 0x100);
    assert(aligned(178) == 0x3fffe000);
    assert(order_step_ok(132));
    assert(huff_order()[133] == 178);
    assert(huff_lens()[181] == 22);
    assert(huff_codes()[181] == 0x3fffe1);
    assert(p2(8) == 0x100);
    lemma_mul_const(code_of(181), p2((30 - len_of(181)) as nat), 0x3fffe1, 0x100);
    assert(aligned(181) == 0x3fffe100);
    assert(order_step_ok(133));
    assert(huff_order()[134] == 181);
    assert(huff_lens()[185] == 22);
    assert(huff_codes()[185] == 0x3fffe2);
    assert(p2(8) == 0x100);
    lemma_mul_const(code_of(185), p2((30 - len_of(185)) as nat), 0x3fffe2, 0x100);
    assert(aligned(185) == 0x3fffe200);
    assert(order_step_ok(134));
    assert(huff_order()[135] == 185);
    assert(huff_lens()[186] == 22);
    assert(huff_codes()[186] == 0x3fffe3);
    assert(p2(8) == 0x100);
    lemma_mul_const(code_of(186), p2((30 - len_of(186)) as nat), 0x3fffe3, 0x100);
    assert(aligned(186) == 0x3fffe300);
    assert(order_step_ok(135));
    assert(huff_order()[136] == 186);
    assert(huff_lens()[187] == 22);
    assert(huff_codes()[187] == 0x3fffe4);
    assert(p2(8) == 0x100);
    lemma_mul_const(code_of(187), p2((30 - len_of(187)) as nat), 0x3fffe4, 0x100);
    assert(aligned(187) == 0x3fffe400);
    assert(order_step_ok(136));
    assert(huff_order()[137] == 187);
    assert(huff_lens()[189] == 22);
    assert(huff_codes()[189] == 0x3fffe5);
    assert(p2(8) == 0x100);
    lemma_mul_const(code_of(189), p2((30 - len_of(189)) as nat), 0x3fffe5, 0x100);
    assert(aligned(189) == 0x3fffe500);
    assert(order_step_ok(137));
    assert(huff_order()[138] == 189);
    assert(huff_lens()[190] == 22);
    assert(huff_codes()[190] == 0x3fffe6);
    assert(p2(8) == 0x100);
    lemma_mul_const(code_of(190), p2((30 - len_of(190)) as nat), 0x3fffe6, 0x100);
    assert(aligned(190) == 0x3fffe600);
    assert(order_step_ok(138));
    assert(huff_order()[139] == 190);
    assert(huff_lens()[196] == 22);
    assert(huff_codes()[196] == 0x3fffe7);
    assert(p2(8) == 0x100);
    lemma_mul_const(code_of(196), p2((30 - len_of(196)) as nat), 0x3fffe7, 0x100);
    assert(aligned(196) == 0x3fffe700);
    assert(order_step_ok(139));
    assert(huff_order()[140] == 196);
    assert(huff_lens()[198] == 22);
    assert(huff_codes()[198] == 0x3fffe8);
    assert(p2(8) == 0x100);
    lemma_mul_const(code_of(198), p2((30 - len_of(198)) as nat), 0x3fffe8, 0x100);
    assert(aligned(198) == 0x3fffe800);
    assert(order_step_ok(140));
    assert(huff_order()[141] == 198);
    assert(huff_lens()[228] == 22);
    assert(huff_codes()[228] == 0x3fffe9);
    assert(p2(8) == 0x100);
    lemma_mul_const(code_of(228), p2((30 - len_of(228)) as nat), 0x3fffe9, 0x100);
    assert(aligned(228) == 0x3fffe900);
    assert(order_step_ok(141));
    assert(huff_order()[142] == 228);
    assert(huff_lens()[232] == 22);
    assert(huff_codes()[232] == 0x3fffea);
    assert(p2(8) == 0x100);
    lemma_mul_const(code_of(232), p2((30 - len_of(232)) as nat), 0x3fffea, 0x100);
    assert(aligned(232) == 0x3fffea00);
    assert(order_step_ok(142));
    assert(huff_order()[143] == 232);
    assert(huff_lens()[233] == 22);
    assert(huff_codes()[233] == 0x3fffeb);
    assert(p2(8) == 0x100);
    lemma_mul_const(code_of(233), p2((30 - len_of(233)) as nat), 0x3fffeb, 0x100);
    assert(aligned(233) == 0x3fffeb00);
    assert(order_step_ok(143));
    assert(huff_order()[144] == 233);
    assert(huff_lens()[1] == 23);
    assert(huff_codes()[1] == 0x7fffd8);
    assert(p2(7) == 0x80);
    lemma_mul_const(code_of(1), p2((30 - len_of(1)) as nat), 0x7fffd8, 0x80);
    assert(aligned(1) == 0x3fffec00);
    assert(order_step_ok(144));
    assert(huff_order()[145] == 1);
    assert(huff_lens()[135] == 23);
    assert(huff_codes()[135] == 0x7fffd9);
    assert(p2(7) == 0x80);
    lemma_mul_const(code_of(135), p2((30 - len_of(135)) as nat), 0x7fffd9, 0x80);
    assert(aligned(135) == 0x3fffec80);
    assert(order_step_ok(145));
    assert(huff_order()[146] == 135);
    assert(huff_lens()[137] == 23);
    assert(huff_codes()[137] == 0x7fffda);
    assert(p2(7) == 0x80);
    lemma_mul_const(code_of(137), p2((30 - len_of(137)) as nat), 0x7fffda, 0x80);
    assert(aligned(137) == 0x3fffed00);
    assert(order_step_ok(146));
    assert(huff_order()[147] == 137);
    assert(huff_lens()[138] == 23);
    assert(huff_codes()[138] == 0x7fffdb);
    assert(p2(7) == 0x80);
    lemma_mul_const(code_of(138), p2((30 - len_of(138)) as nat), 0x7fffdb, 0x80);
    assert(aligned(138) == 0x3fffed80);
    assert(order_step_ok(147));
    assert(huff_order()[148] == 138);
    assert(huff_lens()[139] == 23);
    assert(huff_codes()[139] == 0x7fffdc);
    assert(p2(7) == 0x80);
    lemma_mul_const(code_of(139), p2((30 - len_of(139)) as nat), 0x7fffdc, 0x80);
    assert(aligned(139) == 0x3fffee00);
    assert(order_step_ok(148));
    assert(huff_order()[149] == 139);
    assert(huff_lens()[140] == 23);
    assert(huff_codes()[140] == 0x7fffdd);
    assert(p2(7) == 0x80);
    lemma_mul_const(code_of(140), p2((30 - len_of(140)) as nat), 0x7fffdd, 0x80);
    assert(aligned(140) == 0x3fffee80);
    assert(order_step_ok(149));
    assert(huff_order()[150] == 140);
    assert(huff_lens()[141] == 23);
    assert(huff_codes()[141] == 0x7fffde);
    assert(p2(7) == 0x80);
    lemma_mul_const(code_of(141), p2((30 - len_of(141)) as nat), 0x7fffde, 0x80);
    assert(aligned(141) == 0x3fffef00);
    assert(order_step_ok(150));
    assert(huff_order()[151] == 141);
    assert(huff_lens()[143] == 23);
    assert(huff_codes()[143] == 0x7fffdf);
    assert(p2(7) == 0x80);
    lemma_mul_const(code_of(143), p2((30 - len_of(143)) as nat), 0x7fffdf, 0x80);
    assert(aligned(143) == 0x3fffef80);
    assert(order_step_ok(151));
    assert(huff_order()[152] == 143);
    assert(huff_lens()[147] == 23);
    assert(huff_codes()[147] == 0x7fffe0);
    assert(p2(7) == 0x80);
    lemma_mul_const(code_of(147), p2((30 - len_of(147)) as nat), 0x7fffe0, 0x80);
    assert(aligned(147) == 0x3ffff000);
    assert(order_step_ok(152));
    assert(huff_order()[153] == 147);
    assert(huff_lens()[149] == 23);
    assert(huff_codes()[149] == 0x7fffe1);
    assert(p2(7) == 0x80);
    lemma_mul_const(code_of(149), p2((30 - len_of(149)) as nat), 0x7fffe1, 0x80);
    assert(aligned(149) == 0x3ffff080);
    assert(order_step_ok(153));
    assert(huff_order()[154] == 149);
    assert(huff_lens()[150] == 23);
    assert(huff_codes()[150] == 0x7fffe2);
    assert(p2(7) == 0x80);
    lemma_mul_const(code_of(150), p2((30 - len_of(150)) as nat), 0x7fffe2, 0x80);
    assert(aligned(150) == 0x3ffff100);
    assert(order_step_ok(154));
    assert(huff_order()[155] == 150);
    assert(huff_lens()[151] == 23);
    assert(huff_codes()[151] == 0x7fffe3);
    assert(p2(7) == 0x80);
    lemma_mul_const(code_of(151), p2((30 - len_of(151)) as nat), 0x7fffe3, 0x80);
    assert(aligned(151) == 0x3ffff180);
    assert(order_step_ok(155));
    assert(huff_order()[156] == 151);
    assert(huff_lens()[152] == 23);
    assert(huff_codes()[152] == 0x7fffe4);
    assert(p2(7) == 0x80);
    lemma_mul_const(code_of(152), p2((30 - len_of(152)) as nat), 0x7fffe4, 0x80);
    assert(aligned(152) == 0x3ffff200);
    assert(order_step_ok(156));
    assert(huff_order()[157] == 152);
    assert(huff_lens()[155] == 23);
    assert(huff_codes()[155] == 0x7fffe5);
    assert(p2(7) == 0x80);
    lemma_mul_const(code_of(155), p2((30 - len_of(155)) as nat), 0x7fffe5, 0x80);
    assert(aligned(155) == 0x3ffff280);
    assert(order_step_ok(157));
    assert(huff_order()[158] == 155);
    assert(huff_lens()[157] == 23);
    assert(huff_codes()[157] == 0x7fffe6);
    assert(p2(7) == 0x80);
    lemma_mul_const(code_of(157), p2((30 - len_of(157)) as nat), 0x7fffe6, 0x80);
    assert(aligned(157) == 0x3ffff300);
    assert(order_step_ok(158));
    assert(huff_order()[159] == 157);
    assert(huff_lens()[158] == 23);
    assert(huff_codes()[158] == 0x7fffe7);
    assert(p2(7) == 0x80);
    lemma_mul_const(code_of(158), p2((30 - len_of(158)) as nat), 0x7fffe7, 0x80);
    assert(aligned(158) == 0x3ffff380);
    assert(order_step_ok(159));
    assert(huff_order()[160] == 158);
    assert(huff_lens()[165] == 23);
    assert(huff_codes()[165] == 0x7fffe8);
    assert(p2(7) == 0x80);
    lemma_mul_const(code_of(165), p2((30 - len_of(165)) as nat), 0x7fffe8, 0x80);
    assert(aligned(165) == 0x3ffff400);
    assert(order_step_ok(160));
    assert(huff_order()[161] == 165);
    assert(huff_lens()[166] == 23);
    assert(huff_codes()[166] == 0x7fffe9);
    assert(p2(7) == 0x80);
    lemma_mul_const(code_of(166), p2((30 - len_of(166)) as nat), 0x7fffe9, 0x80);
    assert(aligned(166) == 0x3ffff480);
    assert(order_step_ok(161));
    assert(huff_order()[162] == 166);
    assert(huff_lens()[168] == 23);
    assert(huff_codes()[168] == 0x7fffea);
    assert(p2(7) == 0x80);
    lemma_mul_const(code_of(168), p2((30 - len_of(168)) as nat), 0x7fffea, 0x80);
    assert(aligned(168) == 0x3ffff500);
    assert(order_step_ok(162));
    assert(huff_order()[163] == 168);
    assert(huff_lens()[174] == 23);
    assert(huff_codes()[174] == 0x7fffeb);
    assert(p2(7) == 0x80);
    lemma_mul_const(code_of(174), p2((30 - len_of(174)) as nat), 0x7fffeb, 0x80);
    assert(aligned(174) == 0x3ffff580);
    assert(order_step_ok(163));
    assert(huff_order()[164] == 174);
    assert(huff_lens()[175] == 23);
    assert(huff_codes()[175] == 0x7fffec);
    assert(p2(7) == 0x80);
    lemma_mul_const(code_of(175), p2((30 - len_of(175)) as nat), 0x7fffec, 0x80);
    assert(aligned(175) == 0x3ffff600);
    assert(order_step_ok(164));
    assert(huff_order()[165] == 175);
    assert(huff_lens()[180] == 23);
    assert(huff_codes()[180] == 0x7fffed);
    assert(p2(7) == 0x80);
    lemma_mul_const(code_of(180), p2((30 - len_of(180)) as nat), 0x7fffed, 0x80);
    assert(aligned(180) == 0x3ffff680);
    assert(order_step_ok(165));
    assert(huff_order()[166] == 180);
    assert(huff_lens()[182] == 23);
    assert(huff_codes()[182] == 0x7fffee);
    assert(p2(7) == 0x80);
    lemma_mul_const(code_of(182), p2((30 - len_of(182)) as nat), 0x7fffee, 0x80);
    assert(aligned(182) == 0x3ffff700);
    assert(order_step_ok(166));
    assert(huff_order()[167] == 182);
    assert(huff_lens()[183] == 23);
    assert(huff_codes()[183] == 0x7fffef);
    assert(p2(7) == 0x80);
    lemma_mul_const(code_of(183), p2((30 - len_of(183)) as nat), 0x7fffef, 0x80);
    assert(aligned(183) == 0x3ffff780);
    assert(order_step_ok(167));
    assert(huff_order()[168] == 183);
    assert(huff_lens()[188] == 23);
    assert(huff_codes()[188] == 0x7ffff0);
    assert(p2(7) == 0x80);
    lemma_mul_const(code_of(188), p2((30 - len_of(188)) as nat), 0x7ffff0, 0x80);
    assert(aligned(188) == 0x3ffff800);
    assert(order_step_ok(168));
    assert(huff_order()[169] == 188);
    assert(huff_lens()[191] == 23);
    assert(huff_codes()[191] == 0x7ffff1);
    assert(p2(7) == 0x80);
    lemma_mul_const(code_of(191), p2((30 - len_of(191)) as nat), 0x7ffff1, 0x80);
    assert(aligned(191) == 0x3ffff880);
    assert(order_step_ok(169));
    assert(huff_order()[170] == 191);
    assert(huff_lens()[197] == 23);
    assert(huff_codes()[197] == 0x7ffff2);
    assert(p2(7) == 0x80);
    lemma_mul_const(code_of(197), p2((30 - len_of(197)) as nat), 0x7ffff2, 0x80);
    assert(aligned(197) == 0x3ffff900);
    assert(order_step_ok(170));
    assert(huff_order()[171] == 197);
    assert(huff_lens()[231] == 23);
    assert(huff_codes()[231] == 0x7ffff3);
    assert(p2(7) == 0x80);
    lemma_mul_const(code_of(231), p2((30 - len_of(231)) as nat), 0x7ffff3, 0x80);
    assert(aligned(231) == 0x3ffff980);
    assert(order_step_ok(171));
    assert(huff_order()[172] == 231);
    assert(huff_lens()[239] == 23);
    assert(huff_codes()[239] == 0x7ffff4);
    assert(p2(7) == 0x80);
    lemma_mul_const(code_of(239), p2((30 - len_of(239)) as nat), 0x7ffff4, 0x80);
    assert(aligned(239) == 0x3ffffa00);
    assert(order_step_ok(172));
    assert(huff_order()[173] == 239);
    assert(huff_lens()[9] == 24);
    assert(huff_codes()[9] == 0xffffea);
    assert(p2(6) == 0x40);
    lemma_mul_const(code_of(9), p2((30 - len_of(9)) as nat), 0xffffea, 0x40);
    assert(aligned(9) == 0x3ffffa80);
    assert(order_step_ok(173));
    assert(huff_order()[174] == 9);
    assert(huff_lens()[142] == 24);
    assert(huff_codes()[142] == 0xffffeb);
    assert(p2(6) == 0x40);
    lemma_mul_const(code_of(142), p2((30 - len_of(142)) as nat), 0xffffeb, 0x40);
    assert(aligned(142) == 0x3ffffac0);
    assert(order_step_ok(174));
    assert(huff_order()[175] == 142);
    assert(huff_lens()[144] == 24);
    assert(huff_codes()[144] == 0xffffec);
    assert(p2(6) == 0x40);
    lemma_mul_const(code_of(144), p2((30 - len_of(144)) as nat), 0xffffec, 0x40);
    assert(aligned(144) == 0x3ffffb00);
    assert(order_step_ok(175));
    assert(huff_order()[176] == 144);
    assert(huff_lens()[145] == 24);
    assert(huff_codes()[145] == 0xffffed);
    assert(p2(6) == 0x40);
    lemma_mul_const(code_of(145), p2((30 - len_of(145)) as nat), 0xffffed, 0x40);
    assert(aligned(145) == 0x3ffffb40);
    assert(order_step_ok(176));
    assert(huff_order()[177] == 145);
    assert(huff_lens()[148] == 24);
    assert(huff_codes()[148] == 0xffffee);
    assert(p2(6) == 0x40);
    lemma_mul_const(code_of(148), p2((30 - len_of(148)) as nat), 0xffffee, 0x40);
    assert(aligned(148) == 0x3ffffb80);
    assert(order_step_ok(177));
    assert(huff_order()[178] == 148);
    assert(huff_lens()[159] == 24);
    assert(huff_codes()[159] == 0xffffef);
    assert(p2(6) == 0x40);
    lemma_mul_const(code_of(159), p2((30 - len_of(159)) as nat), 0xffffef, 0x40);
    assert(aligned(159) == 0x3ffffbc0);
    assert(order_step_ok(178));
    assert(huff_order()[179] == 159);
    assert(huff_lens()[171] == 24);
    assert(huff_codes()[171] == 0xfffff0);
    assert(p2(6) == 0x40);
    lemma_mul_const(code_of(171), p2((30 - len_of(171)) as nat), 0xfffff0, 0x40);
    assert(aligned(171) == 0x3ffffc00);
    assert(order_step_ok(179));
    assert(huff_order()[180] == 171);
    assert(huff_lens()[206] == 24);
    assert(huff_codes()[206] == 0xfffff1);
    assert(p2(6) == 0x40);
    lemma_mul_const(code_of(206), p2((30 - len_of(206)) as nat), 0xfffff1, 0x40);
    assert(aligned(206) == 0x3ffffc40);
    assert(order_step_ok(180));
    assert(huff_order()[181] == 206);
    assert(huff_lens()[215] == 24);
    assert(huff_codes()[215] == 0xfffff2);
    assert(p2(6) == 0x40);
    lemma_mul_const(code_of(215), p2((30 - len_of(215)) as nat), 0xfffff2, 0x40);
    assert(aligned(215) == 0x3ffffc80);
    assert(order_step_ok(181));
    assert(huff_order()[182] == 215);
    assert(huff_lens()[225] == 24);
    assert(huff_codes()[225] == 0xfffff3);
    assert(p2(6) == 0x40);
    lemma_mul_const(code_of(225), p2((30 - len_of(225)) as nat), 0xfffff3, 0x40);
    assert(aligned(225) == 0x3ffffcc0);
    assert(order_step_ok(182));
    assert(huff_order()[183] == 225);
    assert(huff_lens()[236] == 24);
    assert(huff_codes()[236] == 0xfffff4);
    assert(p2(6) == 0x40);
    lemma_mul_const(code_of(236), p2((30 - len_of(236)) as nat), 0xfffff4, 0x40);
    assert(aligned(236) == 0x3ffffd00);
    assert(order_step_ok(183));
    assert(huff_order()[184] == 236);
    assert(huff_lens()[237] == 24);
    assert(huff_codes()[237] == 0xfffff5);
    assert(p2(6) == 0x40);
    lemma_mul_const(code_of(237), p2((30 - len_of(237)) as nat), 0xfffff5, 0x40);
    assert(aligned(237) == 0x3ffffd40);
    assert(order_step_ok(184));
    assert(huff_order()[185] == 237);
    assert(huff_lens()[199] == 25);
    assert(huff_codes()[199] == 0x1ffffec);
    assert(p2(5) == 0x20);
    lemma_mul_const(code_of(199), p2((30 - len_of(199)) as nat), 0x1ffffec, 0x20);
    assert(aligned(199) == 0x3ffffd80);
    assert(order_step_ok(185));
    assert(huff_order()[186] == 199);
    assert(huff_lens()[207] == 25);
    assert(huff_codes()[207] == 0x1ffffed);
    assert(p2(5) == 0x20);
    lemma_mul_const(code_of(207), p2((30 - len_of(207)) as nat), 0x1ffffed, 0x20);
    assert(aligned(207) == 0x3ffffda0);
    assert(order_step_ok(186));
    assert(huff_order()[187] == 207);
    assert(huff_lens()[234] == 25);
    assert(huff_codes()[234] == 0x1ffffee);
    assert(p2(5) == 0x20);
    lemma_mul_const(code_of(234), p2((30 - len_of(234)) as nat), 0x1ffffee, 0x20);
    assert(aligned(234) == 0x3ffffdc0);
    assert(order_step_ok(187));
    assert(huff_order()[188] == 234);
    assert(huff_lens()[235] == 25);
    assert(huff_codes()[235] == 0x1ffffef);
    assert(p2(5) == 0x20);
    lemma_mul_const(code_of(235), p2((30 - len_of(235)) as nat), 0x1ffffef, 0x20);
    assert(aligned(235) == 0x3ffffde0);
    assert(order_step_ok(188));
    assert(huff_order()[189] == 235);
    assert(huff_lens()[192] == 26);
    assert(huff_codes()[192] == 0x3ffffe0);
    assert(p2(4) == 0x10);
    lemma_mul_const(code_of(192), p2((30 - len_of(192)) as nat), 0x3ffffe0, 0x10);
    assert(aligned(192) == 0x3ffffe00);
    assert(order_step_ok(189));
    assert(huff_order()[190] == 192);
    assert(huff_lens()[193] == 26);
    assert(huff_codes()[193] == 0x3ffffe1);
    assert(p2(4) == 0x10);
    lemma_mul_const(code_of(193), p2((30 - len_of(193)) as nat), 0x3ffffe1, 0x10);
    assert(aligned(193) == 0x3ffffe10);
    assert(order_step_ok(190));
    assert(huff_order()[191] == 193);
    assert(huff_order()[192] == 200);
    assert(huff_lens()[200] == 26);
    assert(huff_codes()[200] == 0x3ffffe2);
    assert(p2(4) == 0x10);
    lemma_mul_const(code_of(200), p2((30 - len_of(200)) as nat), 0x3ffffe2, 0x10);
    assert(aligned(200) == 0x3ffffe20);
    assert(order_step_ok(191));
}

proof fn check_order_192_256()
    ensures
        forall|x: int| 192 <= x < 256 ==> #[trigger] order_step_ok(x),
{
    lemma_p2_values();
    assert(huff_order()[192] == 200);
    assert(huff_lens()[200] == 26);
    assert(huff_codes()[200] == 0x3ffffe2);
    assert(p2(4) == 0x10);
    lemma_mul_const(code_of(200), p2((30 - len_of(200)) as nat), 0x3ffffe2, 0x10);
    assert(aligned(200) == 0x3ffffe20);
    assert(huff_lens()[201] == 26);
    assert(huff_codes()[201] == 0x3ffffe3);
    assert(p2(4) == 0x10);
    lemma_mul_const(code_of(201), p2((30 - len_of(201)) as nat), 0x3ffffe3, 0x10);
    assert(aligned(201) == 0x3ffffe30);
    assert(order_step_ok(192));
    assert(huff_order()[193] == 201);
    assert(huff_lens()[202] == 26);
    assert(huff_codes()[202] == 0x3ffffe4);
    assert(p2(4) == 0x10);
    lemma_mul_const(code_of(202), p2((30 - len_of(202)) as nat), 0x3ffffe4, 0x10);
    assert(aligned(202) == 0x3ffffe40);
    assert(order_step_ok(193));
    assert(huff_order()[194] == 202);
    assert(huff_lens()[205] == 26);
    assert(huff_codes()[205] == 0x3ffffe5);
    assert(p2(4) == 0x10);
    lemma_mul_const(code_of(205), p2((30 - len_of(205)) as nat), 0x3ffffe5, 0x10);
    assert(aligned(205) == 0x3ffffe50);
    assert(order_step_ok(194));
    assert(huff_order()[195] == 205);
    assert(huff_lens()[210] == 26);
    assert(huff_codes()[210] == 0x3ffffe6);
    assert(p2(4) == 0x10);
    lemma_mul_const(code_of(210), p2((30 - len_of(210)) as nat), 0x3ffffe6, 0x10);
    assert(aligned(210) == 0x3ffffe60);
    assert(order_step_ok(195));
    assert(huff_order()[196] == 210);
    assert(huff_lens()[213] == 26);
    assert(huff_codes()[213] == 0x3ffffe7);
    assert(p2(4) == 0x10);
    lemma_mul_const(code_of(213), p2((30 - len_of(213)) as nat), 0x3ffffe7, 0x10);
    assert(aligned(213) == 0x3ffffe70);
    assert(order_step_ok(196));
    assert(huff_order()[197] == 213);
    assert(huff_lens()[218] == 26);
    assert(huff_codes()[218] == 0x3ffffe8);
    assert(p2(4) == 0x10);
    lemma_mul_const(code_of(218), p2((30 - len_of(218)) as nat), 0x3ffffe8, 0x10);
    assert(aligned(218) == 0x3ffffe80);
    assert(order_step_ok(197));
    assert(huff_order()[198] == 218);
    assert(huff_lens()[219] == 26);
    assert(huff_codes()[219] == 0x3ffffe9);
    assert(p2(4) == 0x10);
    lemma_mul_const(code_of(219), p2((30 - len_of(219)) as nat), 0x3ffffe9, 0x10);
    assert(aligned(219) == 0x3ffffe90);
    assert(order_step_ok(198));
    assert(huff_order()[199] == 219);
    assert(huff_lens()[238] == 26);
    assert(huff_codes()[238] == 0x3ffffea);
    assert(p2(4) == 0x10);
    lemma_mul_const(code_of(238), p2((30 - len_of(238)) as nat), 0x3ffffea, 0x10);
    assert(aligned(238) == 0x3ffffea0);
    assert(order_step_ok(199));
    assert(huff_order()[200] == 238);
    assert(huff_lens()[240] == 26);
    assert(huff_codes()[240] == 0x3ffffeb);
    assert(p2(4) == 0x10);
    lemma_mul_const(code_of(240), p2((30 - len_of(240)) as nat), 0x3ffffeb, 0x10);
    assert(aligned(240) == 0x3ffffeb0);
    assert(order_step_ok(200));
    assert(huff_order()[201] == 240);
    assert(huff_lens()[242] == 26);
    assert(huff_codes()[242] == 0x3ffffec);
    assert(p2(4) == 0x10);
    lemma_mul_const(code_of(242), p2((30 - len_of(242)) as nat), 0x3ffffec, 0x10);
    assert(aligned(242) == 0x3ffffec0);
    assert(order_step_ok(201));
    assert(huff_order()[202] == 242);
    assert(huff_lens()[243] == 26);
    assert(huff_codes()[243] == 0x3ffffed);
    assert(p2(4) == 0x10);
    lemma_mul_const(code_of(243), p2((30 - len_of(243)) as nat), 0x3ffffed, 0x10);
    assert(aligned(243) == 0x3ffffed0);
    assert(order_step_ok(202));
    assert(huff_order()[203] == 243);
    assert(huff_lens()[255] == 26);
    assert(huff_codes()[255] == 0x3ffffee);
    assert(p2(4) == 0x10);
    lemma_mul_const(code_of(255), p2((30 - len_of(255)) as nat), 0x3ffffee, 0x10);
    assert(aligned(255) == 0x3ffffee0);
    assert(order_step_ok(203));
    assert(huff_order()[204] == 255);
    assert(huff_lens()[203] == 27);
    assert(huff_codes()[203] == 0x7ffffde);
    assert(p2(3) == 0x8);
    lemma_mul_const(code_of(203), p2((30 - len_of(203)) as nat), 0x7ffffde, 0x8);
    assert(aligned(203) == 0x3ffffef0);
    assert(order_step_ok(204));
    assert(huff_order()[205] == 203);
    assert(huff_lens()[204] == 27);
    assert(huff_codes()[204] == 0x7ffffdf);
    assert(p2(3) == 0x8);
    lemma_mul_const(code_of(204), p2((30 - len_of(204)) as nat), 0x7ffffdf, 0x8);
    assert(aligned(204) == 0x3ffffef8);
    assert(order_step_ok(205));
    assert(huff_order()[206] == 204);
    assert(huff_lens()[211] == 27);
    assert(huff_codes()[211] == 0x7ffffe0);
    assert(p2(3) == 0x8);
    lemma_mul_const(code_of(211), p2((30 - len_of(211)) as nat), 0x7ffffe0, 0x8);
    assert(aligned(211) == 0x3fffff00);
    assert(order_step_ok(206));
    assert(huff_order()[207] == 211);
    assert(huff_lens()[212] == 27);
    assert(huff_codes()[212] == 0x7ffffe1);
    assert(p2(3) == 0x8);
    lemma_mul_const(code_of(212), p2((30 - len_of(212)) as nat), 0x7ffffe1, 0x8);
    assert(aligned(212) == 0x3fffff08);
    assert(order_step_ok(207));
    assert(huff_order()[208] == 212);
    assert(huff_lens()[214] == 27);
    assert(huff_codes()[214] == 0x7ffffe2);
    assert(p2(3) == 0x8);
    lemma_mul_const(code_of(214), p2((30 - len_of(214)) as nat), 0x7ffffe2, 0x8);
    assert(aligned(214) == 0x3fffff10);
    assert(order_step_ok(208));
    assert(huff_order()[209] == 214);
    assert(huff_lens()[221] == 27);
    assert(huff_codes()[221] == 0x7ffffe3);
    assert(p2(3) == 0x8);
    lemma_mul_const(code_of(221), p2((30 - len_of(221)) as nat), 0x7ffffe3, 0x8);
    assert(aligned(221) == 0x3fffff18);
    assert(order_step_ok(209));
    assert(huff_order()[210] == 221);
    assert(huff_lens()[222] == 27);
    assert(huff_codes()[222] == 0x7ffffe4);
    assert(p2(3) == 0x8);
    lemma_mul_const(code_of(222), p2((30 - len_of(222)) as nat), 0x7ffffe4, 0x8);
    assert(aligned(222) == 0x3fffff20);
    assert(order_step_ok(210));
    assert(huff_order()[211] == 222);
    assert(huff_lens()[223] == 27);
    assert(huff_codes()[223] == 0x7ffffe5);
    assert(p2(3) == 0x8);
    lemma_mul_const(code_of(223), p2((30 - len_of(223)) as nat), 0x7ffffe5, 0x8);
    assert(aligned(223) == 0x3fffff28);
    assert(order_step_ok(211));
    assert(huff_order()[212] == 223);
    assert(huff_lens()[241] == 27);
    assert(huff_codes()[241] == 0x7ffffe6);
    assert(p2(3) == 0x8);
    lemma_mul_const(code_of(241), p2((30 - len_of(241)) as nat), 0x7ffffe6, 0x8);
    assert(aligned(241) == 0x3fffff30);
    assert(order_step_ok(212));
    assert(huff_order()[213] == 241);
    assert(huff_lens()[244] == 27);
    assert(huff_codes()[244] == 0x7ffffe7);
    assert(p2(3) == 0x8);
    lemma_mul_const(code_of(244), p2((30 - len_of(244)) as nat), 0x7ffffe7, 0x8);
    assert(aligned(244) == 0x3fffff38);
    assert(order_step_ok(213));
    assert(huff_order()[214] == 244);
    assert(huff_lens()[245] == 27);
    assert(huff_codes()[245] == 0x7ffffe8);
    assert(p2(3) == 0x8);
    lemma_mul_const(code_of(245), p2((30 - len_of(245)) as nat), 0x7ffffe8, 0x8);
    assert(aligned(245) == 0x3fffff40);
    assert(order_step_ok(214));
    assert(huff_order()[215] == 245);
    assert(huff_lens()[246] == 27);
    assert(huff_codes()[246] == 0x7ffffe9);
    assert(p2(3) == 0x8);
    lemma_mul_const(code_of(246), p2((30 - len_of(246)) as nat), 0x7ffffe9, 0x8);
    assert(aligned(246) == 0x3fffff48);
    assert(order_step_ok(215));
    assert(huff_order()[216] == 246);
    assert(huff_lens()[247] == 27);
    assert(huff_codes()[247] == 0x7ffffea);
    assert(p2(3) == 0x8);
    lemma_mul_const(code_of(247), p2((30 - len_of(247)) as nat), 0x7ffffea, 0x8);
    assert(aligned(247) == 0x3fffff50);
    assert(order_step_ok(216));
    assert(huff_order()[217] == 247);
    assert(huff_lens()[248] == 27);
    assert(huff_codes()[248] == 0x7ffffeb);
    assert(p2(3) == 0x8);
    lemma_mul_const(code_of(248), p2((30 - len_of(248)) as nat), 0x7ffffeb, 0x8);
    assert(aligned(248) == 0x3fffff58);
    assert(order_step_ok(217));
    assert(huff_order()[218] == 248);
    assert(huff_lens()[250] == 27);
    assert(huff_codes()[250] == 0x7ffffec);
    assert(p2(3) == 0x8);
    lemma_mul_const(code_of(250), p2((30 - len_of(250)) as nat), 0x7ffffec, 0x8);
    assert(aligned(250) == 0x3fffff60);
    assert(order_step_ok(218));
    assert(huff_order()[219] == 250);
    assert(huff_lens()[251] == 27);
    assert(huff_codes()[251] == 0x7ffffed);
    assert(p2(3) == 0x8);
    lemma_mul_const(code_of(251), p2((30 - len_of(251)) as nat), 0x7ffffed, 0x8);
    assert(aligned(251) == 0x3fffff68);
    assert(order_step_ok(219));
    assert(huff_order()[220] == 251);
    assert(huff_lens()[252] == 27);
    assert(huff_codes()[252] == 0x7ffffee);
    assert(p2(3) == 0x8);
    lemma_mul_const(code_of(252), p2((30 - len_of(252)) as nat), 0x7ffffee, 0x8);
    assert(aligned(252) == 0x3fffff70);
    assert(order_step_ok(220));
    assert(huff_order()[221] == 252);
    assert(huff_lens()[253] == 27);
    assert(huff_codes()[253] == 0x7ffffef);
    assert(p2(3) == 0x8);
    lemma_mul_const(code_of(253), p2((30 - len_of(253)) as nat), 0x7ffffef, 0x8);
    assert(aligned(253) == 0x3fffff78);
    assert(order_step_ok(221));
    assert(huff_order()[222] == 253);
    assert(huff_lens()[254] == 27);
    assert(huff_codes()[254] == 0x7fffff0);
    assert(p2(3) == 0x8);
    lemma_mul_const(code_of(254), p2((30 - len_of(254)) as nat), 0x7fffff0, 0x8);
    assert(aligned(254) == 0x3fffff80);
    assert(order_step_ok(222));
    assert(huff_order()[223] == 254);
    assert(huff_lens()[2] == 28);
    assert(huff_codes()[2] == 0xfffffe2);
    assert(p2(2) == 0x4);
    lemma_mul_const(code_of(2), p2((30 - len_of(2)) as nat), 0xfffffe2, 0x4);
    assert(aligned(2) == 0x3fffff88);
    assert(order_step_ok(223));
    assert(huff_order()[224] == 2);
    assert(huff_lens()[3] == 28);
    assert(huff_codes()[3] == 0xfffffe3);
    assert(p2(2) == 0x4);
    lemma_mul_const(code_of(3), p2((30 - len_of(3)) as nat), 0xfffffe3, 0x4);
    assert(aligned(3) == 0x3fffff8c);
    assert(order_step_ok(224));
    assert(huff_order()[225] == 3);
    assert(huff_lens()[4] == 28);
    assert(huff_codes()[4] == 0xfffffe4);
    assert(p2(2) == 0x4);
    lemma_mul_const(code_of(4), p2((30 - len_of(4)) as nat), 0xfffffe4, 0x4);
    assert(aligned(4) == 0x3fffff90);
    assert(order_step_ok(225));
    assert(huff_order()[226] == 4);
    assert(huff_lens()[5] == 28);
    assert(huff_codes()[5] == 0xfffffe5);
    assert(p2(2) == 0x4);
    lemma_mul_const(code_of(5), p2((30 - len_of(5)) as nat), 0xfffffe5, 0x4);
    assert(aligned(5) == 0x3fffff94);
    assert(order_step_ok(226));
    assert(huff_order()[227] == 5);
    assert(huff_lens()[6] == 28);
    assert(huff_codes()[6] == 0xfffffe6);
    assert(p2(2) == 0x4);
    lemma_mul_const(code_of(6), p2((30 - len_of(6)) as nat), 0xfffffe6, 0x4);
    assert(aligned(6) == 0x3fffff98);
    assert(order_step_ok(227));
    assert(huff_order()[228] == 6);
    assert(huff_lens()[7] == 28);
    assert(huff_codes()[7] == 0xfffffe7);
    assert(p2(2) == 0x4);
    lemma_mul_const(code_of(7), p2((30 - len_of(7)) as nat), 0xfffffe7, 0x4);
    assert(aligned(7) == 0x3fffff9c);
    assert(order_step_ok(228));
    assert(huff_order()[229] == 7);
    assert(huff_lens()[8] == 28);
    assert(huff_codes()[8] == 0xfffffe8);
    assert(p2(2) == 0x4);
    lemma_mul_const(code_of(8), p2((30 - len_of(8)) as nat), 0xfffffe8, 0x4);
    assert(aligned(8) == 0x3fffffa0);
    assert(order_step_ok(229));
    assert(huff_order()[230] == 8);
    assert(huff_lens()[11] == 28);
    assert(huff_codes()[11] == 0xfffffe9);
    assert(p2(2) == 0x4);
    lemma_mul_const(code_of(11), p2((30 - len_of(11)) as nat), 0xfffffe9, 0x4);
    assert(aligned(11) == 0x3fffffa4);
    assert(order_step_ok(230));
    assert(huff_order()[231] == 11);
    assert(huff_lens()[12] == 28);
    assert(huff_codes()[12] == 0xfffffea);
    assert(p2(2) == 0x4);
    lemma_mul_const(code_of(12), p2((30 - len_of(12)) as nat), 0xfffffea, 0x4);
    assert(aligned(12) == 0x3fffffa8);
    assert(order_step_ok(231));
    assert(huff_order()[232] == 12);
    assert(huff_lens()[14] == 28);
    assert(huff_codes()[14] == 0xfffffeb);
    assert(p2(2) == 0x4);
    lemma_mul_const(code_of(14), p2((30 - len_of(14)) as nat), 0xfffffeb, 0x4);
    assert(aligned(14) == 0x3fffffac);
    assert(order_step_ok(232));
    assert(huff_order()[233] == 14);
    assert(huff_lens()[15] == 28);
    assert(huff_codes()[15] == 0xfffffec);
    assert(p2(2) == 0x4);
    lemma_mul_const(code_of(15), p2((30 - len_of(15)) as nat), 0xfffffec, 0x4);
    assert(aligned(15) == 0x3fffffb0);
    assert(order_step_ok(233));
    assert(huff_order()[234] == 15);
    assert(huff_lens()[16] == 28);
    assert(huff_codes()[16] == 0xfffffed);
    assert(p2(2) == 0x4);
    lemma_mul_const(code_of(16), p2((30 - len_of(16)) as nat), 0xfffffed, 0x4);
    assert(aligned(16) == 0x3fffffb4);
    assert(order_step_ok(234));
    assert(huff_order()[235] == 16);
    assert(huff_lens()[17] == 28);
    assert(huff_codes()[17] == 0xfffffee);
    assert(p2(2) == 0x4);
    lemma_mul_const(code_of(17), p2((30 - len_of(17)) as nat), 0xfffffee, 0x4);
    assert(aligned(17) == 0x3fffffb8);
    assert(order_step_ok(235));
    assert(huff_order()[236] == 17);
    assert(huff_lens()[18] == 28);
    assert(huff_codes()[18] == 0xfffffef);
    assert(p2(2) == 0x4);
    lemma_mul_const(code_of(18), p2((30 - len_of(18)) as nat), 0xfffffef, 0x4);
    assert(aligned(18) == 0x3fffffbc);
    assert(order_step_ok(236));
    assert(huff_order()[237] == 18);
    assert(huff_lens()[19] == 28);
    assert(huff_codes()[19] == 0xffffff0);
    assert(p2(2) == 0x4);
    lemma_mul_const(code_of(19), p2((30 - len_of(19)) as nat), 0xffffff0, 0x4);
    assert(aligned(19) == 0x3fffffc0);
    assert(order_step_ok(237));
    assert(huff_order()[238] == 19);
    assert(huff_lens()[20] == 28);
    assert(huff_codes()[20] == 0xffffff1);
    assert(p2(2) == 0x4);
    lemma_mul_const(code_of(20), p2((30 - len_of(20)) as nat), 0xffffff1, 0x4);
    assert(aligned(20) == 0x3fffffc4);
    assert(order_step_ok(238));
    assert(huff_order()[239] == 20);
    assert(huff_lens()[21] == 28);
    assert(huff_codes()[21] == 0xffffff2);
    assert(p2(2) == 0x4);
    lemma_mul_const(code_of(21), p2((30 - len_of(21)) as nat), 0xffffff2, 0x4);
    assert(aligned(21) == 0x3fffffc8);
    assert(order_step_ok(239));
    assert(huff_order()[240] == 21);
    assert(huff_lens()[23] == 28);
    assert(huff_codes()[23] == 0xffffff3);
    assert(p2(2) == 0x4);
    lemma_mul_const(code_of(23), p2((30 - len_of(23)) as nat), 0xffffff3, 0x4);
    assert(aligned(23) == 0x3fffffcc);
    assert(order_step_ok(240));
    assert(huff_order()[241] == 23);
    assert(huff_lens()[24] == 28);
    assert(huff_codes()[24] == 0xffffff4);
    assert(p2(2) == 0x4);
    lemma_mul_const(code_of(24), p2((30 - len_of(24)) as nat), 0xffffff4, 0x4);
    assert(aligned(24) == 0x3fffffd0);
    assert(order_step_ok(241));
    assert(huff_order()[242] == 24);
    assert(huff_lens()[25] == 28);
    assert(huff_codes()[25] == 0xffffff5);
    assert(p2(2) == 0x4);
    lemma_mul_const(code_of(25), p2((30 - len_of(25)) as nat), 0xffffff5, 0x4);
    assert(aligned(25) == 0x3fffffd4);
    assert(order_step_ok(242));
    assert(huff_order()[243] == 25);
    assert(huff_lens()[26] == 28);
    assert(huff_codes()[26] == 0xffffff6);
    assert(p2(2) == 0x4);
    lemma_mul_const(code_of(26), p2((30 - len_of(26)) as nat), 0xffffff6, 0x4);
    assert(aligned(26) == 0x3fffffd8);
    assert(order_step_ok(243));
    assert(huff_order()[244] == 26);
    assert(huff_lens()[27] == 28);
    assert(huff_codes()[27] == 0xffffff7);
    assert(p2(2) == 0x4);
    lemma_mul_const(code_of(27), p2((30 - len_of(27)) as nat), 0xffffff7, 0x4);
    assert(aligned(27) == 0x3fffffdc);
    assert(order_step_ok(244));
    assert(huff_order()[245] == 27);
    assert(huff_lens()[28] == 28);
    assert(huff_codes()[28] == 0xffffff8);
    assert(p2(2) == 0x4);
    lemma_mul_const(code_of(28), p2((30 - len_of(28)) as nat), 0xffffff8, 0x4);
    assert(aligned(28) == 0x3fffffe0);
    assert(order_step_ok(245));
    assert(huff_order()[246] == 28);
    assert(huff_lens()[29] == 28);
    assert(huff_codes()[29] == 0xffffff9);
    assert(p2(2) == 0x4);
    lemma_mul_const(code_of(29), p2((30 - len_of(29)) as nat), 0xffffff9, 0x4);
    assert(aligned(29) == 0x3fffffe4);
    assert(order_step_ok(246));
    assert(huff_order()[247] == 29);
    assert(huff_lens()[30] == 28);
    assert(huff_codes()[30] == 0xffffffa);
    assert(p2(2) == 0x4);
    lemma_mul_const(code_of(30), p2((30 - len_of(30)) as nat), 0xffffffa, 0x4);
    assert(aligned(30) == 0x3fffffe8);
    assert(order_step_ok(247));
    assert(huff_order()[248] == 30);
    assert(huff_lens()[31] == 28);
    assert(huff_codes()[31] == 0xffffffb);
    assert(p2(2) == 0x4);
    lemma_mul_const(code_of(31), p2((30 - len_of(31)) as nat), 0xffffffb, 0x4);
    assert(aligned(31) == 0x3fffffec);
    assert(order_step_ok(248));
    assert(huff_order()[249] == 31);
    assert(huff_lens()[127] == 28);
    assert(huff_codes()[127] == 0xffffffc);
    assert(p2(2) == 0x4);
    lemma_mul_const(code_of(127), p2((30 - len_of(127)) as nat), 0xffffffc, 0x4);
    assert(aligned(127) == 0x3ffffff0);
    assert(order_step_ok(249));
    assert(huff_order()[250] == 127);
    assert(huff_lens()[220] == 28);
    assert(huff_codes()[220] == 0xffffffd);
    assert(p2(2) == 0x4);
    lemma_mul_const(code_of(220), p2((30 - len_of(220)) as nat), 0xffffffd, 0x4);
    assert(aligned(220) == 0x3ffffff4);
    assert(order_step_ok(250));
    assert(huff_order()[251] == 220);
    assert(huff_lens()[249] == 28);
    assert(huff_codes()[249] == 0xffffffe);
    assert(p2(2) == 0x4);
    lemma_mul_const(code_of(249), p2((30 - len_of(249)) as nat), 0xffffffe, 0x4);
    assert(aligned(249) == 0x3ffffff8);
    assert(order_step_ok(251));
    assert(huff_order()[252] == 249);
    assert(huff_lens()[10] == 30);
    assert(huff_codes()[10] == 0x3ffffffc);
    assert(p2(0) == 0x1);
    lemma_mul_const(code_of(10), p2((30 - len_of(10)) as nat), 0x3ffffffc, 0x1);
    assert(aligned(10) == 0x3ffffffc);
    assert(order_step_ok(252));
    assert(huff_order()[253] == 10);
    assert(huff_lens()[13] == 30);
    assert(huff_codes()[13] == 0x3ffffffd);
    assert(p2(0) == 0x1);
    lemma_mul_const(code_of(13), p2((30 - len_of(13)) as nat), 0x3ffffffd, 0x1);
    assert(aligned(13) == 0x3ffffffd);
    assert(order_step_ok(253));
    assert(huff_order()[254] == 13);
    assert(huff_lens()[22] == 30);
    assert(huff_codes()[22] == 0x3ffffffe);
    assert(p2(0) == 0x1);
    lemma_mul_const(code_of(22), p2((30 - len_of(22)) as nat), 0x3ffffffe, 0x1);
    assert(aligned(22) == 0x3ffffffe);
    assert(order_step_ok(254));
    assert(huff_order()[255] == 22);
    assert(huff_order()[256] == 256);
    assert(huff_lens()[256] == 30);
    assert(huff_codes()[256] == 0x3fffffff);
    assert(p2(0) == 0x1);
    lemma_mul_const(code_of(256), p2((30 - len_of(256)) as nat), 0x3fffffff, 0x1);
    assert(aligned(256) == 0x3fffffff);
    assert(order_step_ok(255));
}

proof fn check_order_256_257()
    ensures
        forall|x: int| 256 <= x < 257 ==> #[trigger] order_step_ok(x),
{
    lemma_p2_values();
    assert(huff_order()[256] == 256);
    assert(huff_lens()[256] == 30);
    assert(huff_codes()[256] == 0x3fffffff);
    assert(p2(0) == 0x1);
    lemma_mul_const(code_of(256), p2((30 - len_of(256)) as nat), 0x3fffffff, 0x1);
    assert(aligned(256) == 0x3fffffff);
    assert(order_step_ok(256));
}

proof fn check_rank_0_64()
    ensures
        forall|x: int| 0 <= x < 64 ==> #[trigger] rank_ok(x),
{
    lemma_p2_values();
    assert(rank_ok(0));
    assert(rank_ok(1));
    assert(rank_ok(2));
    assert(rank_ok(3));
    assert(rank_ok(4));
    assert(rank_ok(5));
    assert(rank_ok(6));
    assert(rank_ok(7));
    assert(rank_ok(8));
    assert(rank_ok(9));
    assert(rank_ok(10));
    assert(rank_ok(11));
    assert(rank_ok(12));
    assert(rank_ok(13));
    assert(rank_ok(14));
    assert(rank_ok(15));
    assert(rank_ok(16));
    assert(rank_ok(17));
    assert(rank_ok(18));
    assert(rank_ok(19));
    assert(rank_ok(20));
    assert(rank_ok(21));
    assert(rank_ok(22));
    assert(rank_ok(23));
    assert(rank_ok(24));
    assert(rank_ok(25));
    assert(rank_ok(26));
    assert(rank_ok(27));
    assert(rank_ok(28));
    assert(rank_ok(29));
    assert(rank_ok(30));
    assert(rank_ok(31));
    assert(rank_ok(32));
    assert(rank_ok(33));
    assert(rank_ok(34));
    assert(rank_ok(35));
    assert(rank_ok(36));
    assert(rank_ok(37));
    assert(rank_ok(38));
    assert(rank_ok(39));
    assert(rank_ok(40));
    assert(rank_ok(41));
    assert(rank_ok(42));
    assert(rank_ok(43));
    assert(rank_ok(44));
    assert(rank_ok(45));
    assert(rank_ok(46));
    assert(rank_ok(47));
    assert(rank_ok(48));
    assert(rank_ok(49));
    assert(rank_ok(50));
    assert(rank_ok(51));
    assert(rank_ok(52));
    assert(rank_ok(53));
    assert(rank_ok(54));
    assert(rank_ok(55));
    assert(rank_ok(56));
    assert(rank_ok(57));
    assert(rank_ok(58));
    assert(rank_ok(59));
    assert(rank_ok(60));
    assert(rank_ok(61));
    assert(rank_ok(62));
    assert(rank_ok(63));
}

proof fn check_rank_64_128()
    ensures
        forall|x: int| 64 <= x < 128 ==> #[trigger] rank_ok(x),
{
    lemma_p2_values();
    assert(rank_ok(64));
    assert(rank_ok(65));
    assert(rank_ok(66));
    assert(rank_ok(67));
    assert(rank_ok(68));
    assert(rank_ok(69));
    assert(rank_ok(70));
    assert(rank_ok(71));
    assert(rank_ok(72));
    assert(rank_ok(73));
    assert(rank_ok(74));
    assert(rank_ok(75));
    assert(rank_ok(76));
    assert(rank_ok(77));
    assert(rank_ok(78));
    assert(rank_ok(79));
    assert(rank_ok(80));
    assert(rank_ok(81));
    assert(rank_ok(82));
    assert(rank_ok(83));
    assert(rank_ok(84));
    assert(rank_ok(85));
    assert(rank_ok(86));
    assert(rank_ok(87));
    assert(rank_ok(88));
    assert(rank_ok(89));
    assert(rank_ok(90));
    assert(rank_ok(91));
    assert(rank_ok(92));
    assert(rank_ok(93));
    assert(rank_ok(94));
    assert(rank_ok(95));
    assert(rank_ok(96));
    assert(rank_ok(97));
    assert(rank_ok(98));
    assert(rank_ok(99));
    assert(rank_ok(100));
    assert(rank_ok(101));
    assert(rank_ok(102));
    assert(rank_ok(103));
    assert(rank_ok(104));
    assert(rank_ok(105));
    assert(rank_ok(106));
    assert(rank_ok(107));
    assert(rank_ok(108));
    assert(rank_ok(109));
    assert(rank_ok(110));
    assert(rank_ok(111));
    assert(rank_ok(112));
    assert(rank_ok(113));
    assert(rank_ok(114));
    assert(rank_ok(115));
    assert(rank_ok(116));
    assert(rank_ok(117));
    assert(rank_ok(118));
    assert(rank_ok(119));
    assert(rank_ok(120));
    assert(rank_ok(121));
    assert(rank_ok(122));
    assert(rank_ok(123));
    assert(rank_ok(124));
    assert(rank_ok(125));
    assert(rank_ok(126));
    assert(rank_ok(127));
}

proof fn check_rank_128_192()
    ensures
        forall|x: int| 128 <= x < 192 ==> #[trigger] rank_ok(x),
{
    lemma_p2_values();
    assert(rank_ok(128));
    assert(rank_ok(129));
    assert(rank_ok(130));
    assert(rank_ok(131));
    assert(rank_ok(132));
    assert(rank_ok(133));
    assert(rank_ok(134));
    assert(rank_ok(135));
    assert(rank_ok(136));
    assert(rank_ok(137));
    assert(rank_ok(138));
    assert(rank_ok(139));
    assert(rank_ok(140));
    assert(rank_ok(141));
    assert(rank_ok(142));
    assert(rank_ok(143));
    assert(rank_ok(144));
    assert(rank_ok(145));
    assert(rank_ok(146));
    assert(rank_ok(147));
    assert(rank_ok(148));
    assert(rank_ok(149));
    assert(rank_ok(150));
    assert(rank_ok(151));
    assert(rank_ok(152));
    assert(rank_ok(153));
    assert(rank_ok(154));
    assert(rank_ok(155));
    assert(rank_ok(156));
    assert(rank_ok(157));
    assert(rank_ok(158));
    assert(rank_ok(159));
    assert(rank_ok(160));
    assert(rank_ok(161));
    assert(rank_ok(162));
    assert(rank_ok(163));
    assert(rank_ok(164));
    assert(rank_ok(165));
    assert(rank_ok(166));
    assert(rank_ok(167));
    assert(rank_ok(168));
    assert(rank_ok(169));
    assert(rank_ok(170));
    assert(rank_ok(171));
    assert(rank_ok(172));
    assert(rank_ok(173));
    assert(rank_ok(174));
    assert(rank_ok(175));
    assert(rank_ok(176));
    assert(rank_ok(177));
    assert(rank_ok(178));
    assert(rank_ok(179));
    assert(rank_ok(180));
    assert(rank_ok(181));
    assert(rank_ok(182));
    assert(rank_ok(183));
    assert(rank_ok(184));
    assert(rank_ok(185));
    assert(rank_ok(186));
    assert(rank_ok(187));
    assert(rank_ok(188));
    assert(rank_ok(189));
    assert(rank_ok(190));
    assert(rank_ok(191));
}

proof fn check_rank_192_256()
    ensures
        forall|x: int| 192 <= x < 256 ==> #[trigger] rank_ok(x),
{
    lemma_p2_values();
    assert(rank_ok(192));
    assert(rank_ok(193));
    assert(rank_ok(194));
    assert(rank_ok(195));
    assert(rank_ok(196));
    assert(rank_ok(197));
    assert(rank_ok(198));
    assert(rank_ok(199));
    assert(rank_ok(200));
    assert(rank_ok(201));
    assert(rank_ok(202));
    assert(rank_ok(203));
    assert(rank_ok(204));
    assert(rank_ok(205));
    assert(rank_ok(206));
    assert(rank_ok(207));
    assert(rank_ok(208));
    assert(rank_ok(209));
    assert(rank_ok(210));
    assert(rank_ok(211));
    assert(rank_ok(212));
    assert(rank_ok(213));
    assert(rank_ok(214));
    assert(rank_ok(215));
    assert(rank_ok(216));
    assert(rank_ok(217));
    assert(rank_ok(218));
    assert(rank_ok(219));
    assert(rank_ok(220));
    assert(rank_ok(221));
    assert(rank_ok(222));
    assert(rank_ok(223));
    assert(rank_ok(224));
    assert(rank_ok(225));
    assert(rank_ok(226));
    assert(rank_ok(227));
    assert(rank_ok(228));
    assert(rank_ok(229));
    assert(rank_ok(230));
    assert(rank_ok(231));
    assert(rank_ok(232));
    assert(rank_ok(233));
    assert(rank_ok(234));
    assert(rank_ok(235));
    assert(rank_ok(236));
    assert(rank_ok(237));
    assert(rank_ok(238));
    assert(rank_ok(239));
    assert(rank_ok(240));
    assert(rank_ok(241));
    assert(rank_ok(242));
    assert(rank_ok(243));
    assert(rank_ok(244));
    assert(rank_ok(245));
    assert(rank_ok(246));
    assert(rank_ok(247));
    assert(rank_ok(248));
    assert(rank_ok(249));
    assert(rank_ok(250));
    assert(rank_ok(251));
    assert(rank_ok(252));
    assert(rank_ok(253));
    assert(rank_ok(254));
    assert(rank_ok(255));
}

proof fn check_rank_256_257()
    ensures
        forall|x: int| 256 <= x < 257 ==> #[trigger] rank_ok(x),
{
    lemma_p2_values();
    assert(rank_ok(256));
}

/// The facts about the code table that every proof below draws on: each
/// code fits its stated length, the listed order covers consecutive,
/// exactly adjoining intervals, and every symbol occurs in that order.
pub proof fn table_facts()
    ensures
        forall|s: int| 0 <= s < 257 ==> #[trigger] sym_ok(s),
        forall|j: int| 0 <= j < 257 ==> #[trigger] order_step_ok(j),
        forall|s: int| 0 <= s < 257 ==> #[trigger] rank_ok(s),
{
    check_sym_0_64();
    check_sym_64_128();
    check_sym_128_192();
    check_sym_192_256();
    check_sym_256_257();
    check_order_0_64();
    check_order_64_128();
    check_order_128_192();
    check_order_192_256();
    check_order_256_257();
    check_rank_0_64();
    check_rank_64_128();
    check_rank_128_192();
    check_rank_192_256();
    check_rank_256_257();
}

// ---------------------------------------------------------------------------
// Bit strings and their numeric values
// ---------------------------------------------------------------------------

/// The `l` low-order binary digits of `v`, most significant first.
pub open spec fn num_bits(v: nat, l: nat) -> Seq<bool>
    decreases l,
{
    if l == 0 {
        Seq::empty()
    } else {
        num_bits(v / 2, (l - 1) as nat).push(v % 2 == 1)
    }
}

/// The numeric value of a bit string read most significant bit first.
pub open spec fn bits_val(b: Seq<bool>) -> nat
    decreases b.len(),
{
    if b.len() == 0 {
        0
    } else {
        (2 * bits_val(b.drop_last()) + if b.last() {
            1nat
        } else {
            0nat
        }) as nat
    }
}

/// A run of `k` one bits.
pub open spec fn ones(k: nat) -> Seq<bool> {
    Seq::new(k, |i: int| true)
}

/// Whether every bit of `b` is one.
pub open spec fn all_ones(b: Seq<bool>) -> bool {
    forall|i: int| 0 <= i < b.len() ==> b[i]
}

pub proof fn lemma_num_bits_len(v: nat, l: nat)
    ensures
        num_bits(v, l).len() == l,
    decreases l,
{
    if l > 0 {
        lemma_num_bits_len(v / 2, (l - 1) as nat);
    }
}

/// Reading back the digits of `v` gives `v`, provided `v` fits in `l` bits.
pub proof fn lemma_bits_val_num_bits(v: nat, l: nat)
    requires
        v < p2(l),
    ensures
        bits_val(num_bits(v, l)) == v,
    decreases l,
{
    if l == 0 {
    } else {
        lemma_num_bits_len(v / 2, (l - 1) as nat);
        assert(v / 2 < p2((l - 1) as nat)) by (nonlinear_arith)
            requires
                v < 2 * p2((l - 1) as nat),
        ;
        lemma_bits_val_num_bits(v / 2, (l - 1) as nat);
        let b = num_bits(v, l);
        assert(b.drop_last() =~= num_bits(v / 2, (l - 1) as nat));
        assert(v == 2 * (v / 2) + v % 2);
    }
}

/// The digits of the value of `b` are `b` itself.
pub proof fn lemma_num_bits_bits_val(b: Seq<bool>)
    ensures
        num_bits(bits_val(b), b.len()) == b,
    decreases b.len(),
{
    if b.len() == 0 {
        assert(num_bits(bits_val(b), b.len()) =~= b);
    } else {
        lemma_num_bits_bits_val(b.drop_last());
        let v = bits_val(b);
        let low: nat = if b.last() { 1nat } else { 0nat };
        assert(v == 2 * bits_val(b.drop_last()) + low);
        assert(v / 2 == bits_val(b.drop_last()) && v % 2 == low);
        assert(num_bits(v, b.len()) == num_bits(v / 2, (b.len() - 1) as nat).push(v % 2 == 1));
        assert(num_bits(v, b.len()) =~= b);
    }
}

pub proof fn lemma_bits_val_bound(b: Seq<bool>)
    ensures
        bits_val(b) < p2(b.len()),
    decreases b.len(),
{
    if b.len() > 0 {
        lemma_bits_val_bound(b.drop_last());
    }
}

/// A prefix of the digit string of `v` is the digit string of the matching
/// high-order part of `v`.
pub proof fn lemma_num_bits_take(v: nat, l: nat, l2: nat)
    requires
        l2 <= l,
    ensures
        num_bits(v, l).take(l2 as int) == num_bits(v / p2((l - l2) as nat), l2),
    decreases l - l2,
{
    lemma_num_bits_len(v, l);
    if l2 == l {
        assert(num_bits(v, l).take(l2 as int) =~= num_bits(v, l));
        assert(p2(0) == 1);
        assert(v / p2(0) == v);
    } else {
        lemma_num_bits_len(v / 2, (l - 1) as nat);
        assert(num_bits(v, l).take(l2 as int) =~= num_bits(v / 2, (l - 1) as nat).take(
            l2 as int,
        ));
        lemma_num_bits_take(v / 2, (l - 1) as nat, l2);
        lemma_p2_pos((l - 1 - l2) as nat);
        vstd::arithmetic::div_mod::lemma_div_denominator(
            v as int,
            2,
            p2((l - 1 - l2) as nat) as int,
        );
        assert(p2((l - l2) as nat) == 2 * p2((l - 1 - l2) as nat));
        assert((v / 2) / p2((l - 1 - l2) as nat) == v / p2((l - l2) as nat));
    }
}

pub proof fn lemma_bits_val_ones(k: nat)
    ensures
        bits_val(ones(k)) == p2(k) - 1,
    decreases k,
{
    if k == 0 {
    } else {
        assert(ones(k).drop_last() =~= ones((k - 1) as nat));
        assert(ones(k).last());
        lemma_bits_val_ones((k - 1) as nat);
    }
}

// ---------------------------------------------------------------------------
// Prefix-freeness of the code
// ---------------------------------------------------------------------------

/// The code word bits of symbol `s`, most significant first.
pub open spec fn sym_bits(s: int) -> Seq<bool> {
    num_bits(code_of(s), len_of(s))
}

/// Along the canonical order, the aligned interval starts are separated by
/// at least the width of each earlier interval.
proof fn lemma_aligned_gap(a: int, b: int)
    requires
        0 <= a < b < 257,
        forall|j: int| 0 <= j < 257 ==> #[trigger] order_step_ok(j),
    ensures
        aligned(huff_order()[b]) >= aligned(huff_order()[a]) + p2(
            (30 - len_of(huff_order()[a])) as nat,
        ),
    decreases b - a,
{
    assert(order_step_ok(a));
    if b > a + 1 {
        lemma_aligned_gap(a + 1, b);
        assert(order_step_ok(a + 1));
        lemma_p2_pos((30 - len_of(huff_order()[a + 1])) as nat);
    }
}

/// No code word is a prefix of another symbol's code word: the heart of
/// unique decodability.
pub proof fn lemma_prefix_free(i: int, j: int)
    requires
        0 <= i < 257,
        0 <= j < 257,
        i != j,
        len_of(i) <= len_of(j),
    ensures
        sym_bits(j).take(len_of(i) as int) != sym_bits(i),
{
    table_facts();
    assert(sym_ok(i));
    assert(sym_ok(j));
    let li = len_of(i);
    let lj = len_of(j);
    let d = (lj - li) as nat;
    if sym_bits(j).take(li as int) == sym_bits(i) {
        // The high-order part of j's code equals i's code ...
        lemma_num_bits_take(code_of(j), lj, li);
        assert(num_bits(code_of(j) / p2(d), li) == num_bits(code_of(i), li));
        assert(code_of(j) / p2(d) < p2(li)) by {
            lemma_p2_pos(d);
            lemma_p2_adds(li, d);
            assert(code_of(j) / p2(d) < p2(li)) by (nonlinear_arith)
                requires
                    code_of(j) < p2(li) * p2(d),
                    p2(d) >= 1,
            ;
        }
        lemma_bits_val_num_bits(code_of(j) / p2(d), li);
        lemma_bits_val_num_bits(code_of(i), li);
        assert(code_of(j) / p2(d) == code_of(i));
        // ... so j's interval lies inside i's interval.
        lemma_p2_pos(d);
        lemma_p2_pos((30 - lj) as nat);
        lemma_p2_adds((30 - lj) as nat, d);
        vstd::arithmetic::div_mod::lemma_fundamental_div_mod(code_of(j) as int, p2(d) as int);
        assert(aligned(j) >= aligned(i) && aligned(j) + p2((30 - lj) as nat) <= aligned(i) + p2(
            (30 - li) as nat,
        )) by (nonlinear_arith)
            requires
                code_of(j) as int == p2(d) as int * (code_of(j) as int / p2(d) as int) + code_of(
                    j,
                ) as int % p2(d) as int,
                0 <= (code_of(j) as int % p2(d) as int) < p2(d) as int,
                code_of(j) as int / p2(d) as int == code_of(i) as int,
                aligned(i) == code_of(i) * p2((30 - li) as nat),
                aligned(j) == code_of(j) * p2((30 - lj) as nat),
                p2((30 - li) as nat) == p2((30 - lj) as nat) * p2(d),
                p2(d) >= 1,
                p2((30 - lj) as nat) >= 1,
        ;
        // ... which contradicts the disjointness of the listed intervals.
        assert(rank_ok(i));
        assert(rank_ok(j));
        let ri = huff_rank()[i];
        let rj = huff_rank()[j];
        assert(ri != rj);
        if ri < rj {
            lemma_aligned_gap(ri, rj);
        } else {
            lemma_aligned_gap(rj, ri);
        }
        assert(false);
    }
}

// ---------------------------------------------------------------------------
// The code as a decoding table
// ---------------------------------------------------------------------------

pub open spec fn lookup_from(c: nat, l: nat, s: int) -> Option<int>
    decreases 257 - s,
{
    if s < 0 || s >= 257 {
        None
    } else if code_of(s) == c && len_of(s) == l {
        Some(s)
    } else {
        lookup_from(c, l, s + 1)
    }
}

/// The symbol whose code word is exactly the `l`-bit word `c`, if any.
pub open spec fn lookup(c: nat, l: nat) -> Option<int> {
    lookup_from(c, l, 0)
}

/// Two distinct symbols never share a code word.
proof fn lemma_code_unique(i: int, j: int)
    requires
        0 <= i < 257,
        0 <= j < 257,
        i != j,
        len_of(i) == len_of(j),
    ensures
        code_of(i) != code_of(j),
{
    if code_of(i) == code_of(j) {
        lemma_prefix_free(i, j);
        assert(sym_bits(j).take(len_of(i) as int) =~= sym_bits(i)) by {
            lemma_num_bits_len(code_of(j), len_of(j));
        }
    }
}

proof fn lemma_lookup_from_complete(s: int, t: int)
    requires
        0 <= t <= s < 257,
        forall|x: int| 0 <= x < 257 ==> #[trigger] sym_ok(x),
    ensures
        lookup_from(code_of(s), len_of(s), t) == Some(s),
    decreases 257 - t,
{
    if t < s {
        if code_of(t) == code_of(s) && len_of(t) == len_of(s) {
            lemma_code_unique(t, s);
        }
        lemma_lookup_from_complete(s, t + 1);
    }
}

/// Looking up a symbol's own code word finds that symbol.
pub proof fn lemma_lookup_complete(s: int)
    requires
        0 <= s < 257,
    ensures
        lookup(code_of(s), len_of(s)) == Some(s),
{
    table_facts();
    lemma_lookup_from_complete(s, 0);
}

proof fn lemma_lookup_from_sound(c: nat, l: nat, t: int)
    requires
        0 <= t,
    ensures
        match lookup_from(c, l, t) {
            Some(s) => t <= s < 257 && code_of(s) == c && len_of(s) == l,
            None => forall|x: int| t <= x < 257 ==> !(code_of(x) == c && #[trigger] len_of(x)
                == l),
        },
    decreases 257 - t,
{
    if 0 <= t < 257 {
        lemma_lookup_from_sound(c, l, t + 1);
    }
}

/// What a successful or failed lookup says about the table.
pub proof fn lemma_lookup_sound(c: nat, l: nat)
    ensures
        match lookup(c, l) {
            Some(s) => 0 <= s < 257 && code_of(s) == c && len_of(s) == l,
            None => forall|x: int| 0 <= x < 257 ==> !(code_of(x) == c && #[trigger] len_of(x)
                == l),
        },
{
    lemma_lookup_from_sound(c, l, 0);
}

// ---------------------------------------------------------------------------
// Encoding and decoding at the bit level
// ---------------------------------------------------------------------------

/// The concatenated code words of an octet string.
pub open spec fn huff_bits(s: Seq<u8>) -> Seq<bool>
    decreases s.len(),
{
    if s.len() == 0 {
        Seq::empty()
    } else {
        sym_bits(s[0] as int) + huff_bits(s.skip(1))
    }
}

/// Outcome of Huffman decoding: the decoded octets, or a failure for an
/// invalid code, an in-stream EOS, or bad padding.
pub enum HuffDec {
    Decoded(Seq<u8>),
    Failed,
}

/// The shortest code word that starts at the front of `bits`, found by
/// extending the window one bit at a time from length `l` upward.
pub open spec fn scan(bits: Seq<bool>, l: nat) -> Option<(int, nat)>
    decreases 31 - l,
{
    if l > 30 || l > bits.len() || l < 1 {
        None
    } else {
        match lookup(bits_val(bits.take(l as int)), l) {
            Some(s) => Some((s, l)),
            None => scan(bits, l + 1),
        }
    }
}

/// Decode a whole bit string: code words until the bits run out, with up to
/// seven all-ones padding bits allowed at the end.
pub open spec fn huff_decoding(bits: Seq<bool>) -> HuffDec
    decreases bits.len(),
{
    if bits.len() == 0 {
        HuffDec::Decoded(Seq::empty())
    } else {
        match scan(bits, 1) {
            None => if bits.len() < 8 && all_ones(bits) {
                HuffDec::Decoded(Seq::empty())
            } else {
                HuffDec::Failed
            },
            Some((s, l)) => if s == eos() {
                HuffDec::Failed
            } else if 1 <= l <= bits.len() {
                match huff_decoding(bits.skip(l as int)) {
                    HuffDec::Decoded(r) => HuffDec::Decoded(seq![s as u8] + r),
                    HuffDec::Failed => HuffDec::Failed,
                }
            } else {
                HuffDec::Failed
            },
        }
    }
}

// ---------------------------------------------------------------------------
// Round trip at the bit level
// ---------------------------------------------------------------------------

/// No code word of eight bits or fewer is all ones: the short all-ones words
/// are proper prefixes of the EOS code.
proof fn lemma_ones_no_code(l: nat)
    requires
        1 <= l <= 7,
    ensures
        lookup((p2(l) - 1) as nat, l) == None::<int>,
{
    table_facts();
    lemma_p2_values();
    assert(p2(30) == 0x40000000);
    lemma_lookup_sound((p2(l) - 1) as nat, l);
    if lookup((p2(l) - 1) as nat, l) is Some {
        let j = lookup((p2(l) - 1) as nat, l)->Some_0;
        // j's all-ones code word would be a prefix of the EOS code word.
        assert(sym_ok(j));
        assert(sym_ok(eos()));
        assert(len_of(eos()) == 30) by {
            assert(huff_lens()[256] == 30);
        }
        assert(code_of(eos()) == 0x3fffffff) by {
            assert(huff_codes()[256] == 0x3fffffff);
        }
        lemma_prefix_free(j, eos());
        lemma_num_bits_take(code_of(eos()), 30, l);
        // (2^30 - 1) / 2^(30 - l) == 2^l - 1
        lemma_p2_pos((30 - l) as nat);
        lemma_p2_adds(l, (30 - l) as nat);
        assert(code_of(eos()) as int / p2((30 - l) as nat) as int == p2(l) as int - 1) by (
        nonlinear_arith)
            requires
                code_of(eos()) == p2(l) * p2((30 - l) as nat) - 1,
                p2((30 - l) as nat) >= 1,
                p2(l) >= 1,
        ;
        assert(sym_bits(eos()).take(l as int) == num_bits((p2(l) - 1) as nat, l));
        assert(sym_bits(j) == num_bits((p2(l) - 1) as nat, l)) by {
            lemma_num_bits_len(code_of(j), l);
        }
        assert(false);
    }
}

/// A scan that finds nothing below `ls` and a code word at `ls` returns it.
proof fn lemma_scan_reaches(bits: Seq<bool>, l: nat, ls: nat, s: int)
    requires
        1 <= l <= ls <= 30,
        ls <= bits.len(),
        forall|l2: nat| l <= l2 < ls ==> #[trigger] lookup(bits_val(bits.take(l2 as int)), l2)
            is None,
        lookup(bits_val(bits.take(ls as int)), ls) == Some(s),
    ensures
        scan(bits, l) == Some((s, ls)),
    decreases ls - l,
{
    if l < ls {
        assert(lookup(bits_val(bits.take(l as int)), l) is None);
        lemma_scan_reaches(bits, l + 1, ls, s);
    }
}

/// A scan over too few bits, all of them ones, finds nothing.
proof fn lemma_scan_ones(bits: Seq<bool>, l: nat)
    requires
        bits.len() < 8,
        all_ones(bits),
        1 <= l,
    ensures
        scan(bits, l) == None::<(int, nat)>,
    decreases 31 - l,
{
    if l <= 30 && l <= bits.len() {
        assert(bits.take(l as int) =~= ones(l));
        lemma_bits_val_ones(l);
        lemma_ones_no_code(l);
        lemma_scan_ones(bits, l + 1);
    }
}

/// The first code word found at the front of a symbol's code bits followed
/// by anything is that symbol's own code word.
proof fn lemma_scan_sym(s: int, rest: Seq<bool>)
    requires
        0 <= s < 257,
    ensures
        scan(sym_bits(s) + rest, 1) == Some((s, len_of(s))),
{
    table_facts();
    let bits = sym_bits(s) + rest;
    let ls = len_of(s);
    assert(sym_ok(s));
    lemma_num_bits_len(code_of(s), ls);
    assert(bits.take(ls as int) =~= sym_bits(s));
    lemma_bits_val_num_bits(code_of(s), ls);
    lemma_lookup_complete(s);
    assert(lookup(bits_val(bits.take(ls as int)), ls) == Some(s));
    assert forall|l2: nat| 1 <= l2 < ls implies #[trigger] lookup(
        bits_val(bits.take(l2 as int)),
        l2,
    ) is None by {
        lemma_lookup_sound(bits_val(bits.take(l2 as int)), l2);
        if lookup(bits_val(bits.take(l2 as int)), l2) is Some {
            let j = lookup(bits_val(bits.take(l2 as int)), l2)->Some_0;
            assert(sym_ok(j));
            lemma_prefix_free(j, s);
            // j's code word would be the l2-bit prefix of s's code word.
            assert(bits.take(l2 as int) =~= sym_bits(s).take(l2 as int));
            assert(sym_bits(s).take(l2 as int).len() == l2);
            lemma_num_bits_bits_val(sym_bits(s).take(l2 as int));
            assert(sym_bits(j) == sym_bits(s).take(l2 as int)) by {
                lemma_num_bits_len(code_of(j), l2);
            }
            assert(false);
        }
    }
    lemma_scan_reaches(bits, 1, ls, s);
}

/// Huffman round trip at the bit level: the concatenated code words of any
/// octet string, followed by fewer than eight padding ones, decode back to
/// exactly that octet string.
pub proof fn lemma_huffman_bits_round_trip(s: Seq<u8>, k: nat)
    requires
        k < 8,
    ensures
        huff_decoding(huff_bits(s) + ones(k)) == HuffDec::Decoded(s),
    decreases s.len(),
{
    table_facts();
    if s.len() == 0 {
        assert(huff_bits(s) + ones(k) =~= ones(k));
        assert(s =~= Seq::<u8>::empty());
        if k == 0 {
            assert((huff_bits(s) + ones(k)).len() == 0);
        } else {
            lemma_scan_ones(ones(k), 1);
            assert(all_ones(ones(k)));
        }
    } else {
        let s0 = s[0] as int;
        let rest = huff_bits(s.skip(1)) + ones(k);
        let bits = huff_bits(s) + ones(k);
        assert(bits =~= sym_bits(s0) + rest);
        lemma_scan_sym(s0, rest);
        assert(sym_ok(s0));
        lemma_num_bits_len(code_of(s0), len_of(s0));
        assert(bits.skip(len_of(s0) as int) =~= rest);
        lemma_huffman_bits_round_trip(s.skip(1), k);
        assert(scan(bits, 1) == Some((s0, len_of(s0))));
        assert(s0 != eos());
        assert(bits.len() >= len_of(s0));
        assert(huff_decoding(bits) == HuffDec::Decoded(seq![s[0]] + s.skip(1)));
        assert(seq![s[0]] + s.skip(1) =~= s);
    }
}

// ---------------------------------------------------------------------------
// Packing bits into octets
// ---------------------------------------------------------------------------

/// The bits of one octet, most significant first.
pub open spec fn byte_bits(v: u8) -> Seq<bool> {
    num_bits(v as nat, 8)
}

/// The bit string of an octet string, read octet by octet.
pub open spec fn bytes_bits(s: Seq<u8>) -> Seq<bool>
    decreases s.len(),
{
    if s.len() == 0 {
        Seq::empty()
    } else {
        byte_bits(s[0]) + bytes_bits(s.skip(1))
    }
}

/// The octets holding a bit string whose length is a multiple of eight.
pub open spec fn bits_to_bytes(bits: Seq<bool>) -> Seq<u8>
    decreases bits.len(),
{
    if bits.len() < 8 {
        Seq::empty()
    } else {
        seq![bits_val(bits.take(8)) as u8] + bits_to_bytes(bits.skip(8))
    }
}

/// How many all-ones bits pad a bit string of length `nbits` out to an
/// octet boundary: zero to seven.
pub open spec fn pad_amount(nbits: nat) -> nat {
    ((8 - (nbits % 8)) % 8) as nat
}

/// The Huffman encoding of an octet string: the concatenated code words,
/// padded to an octet boundary with the all-ones EOS prefix.
pub open spec fn huff_encoding(s: Seq<u8>) -> Seq<u8> {
    bits_to_bytes(huff_bits(s) + ones(pad_amount(huff_bits(s).len())))
}

/// Unpacking packed bits gives the bits back.
pub proof fn lemma_bytes_bits_to_bytes(bits: Seq<bool>)
    requires
        bits.len() % 8 == 0,
    ensures
        bytes_bits(bits_to_bytes(bits)) == bits,
    decreases bits.len(),
{
    if bits.len() == 0 {
        assert(bytes_bits(bits_to_bytes(bits)) =~= bits);
    } else {
        assert(bits.len() >= 8);
        let chunk = bits.take(8);
        let rest = bits.skip(8);
        assert(rest.len() % 8 == 0);
        lemma_bytes_bits_to_bytes(rest);
        lemma_bits_val_bound(chunk);
        lemma_p2_values();
        assert(p2(8) == 256);
        assert(bits_val(chunk) < 256);
        lemma_num_bits_bits_val(chunk);
        let packed = bits_to_bytes(bits);
        assert(packed == seq![bits_val(chunk) as u8] + bits_to_bytes(rest));
        assert(packed[0] == bits_val(chunk) as u8);
        assert(packed.skip(1) =~= bits_to_bytes(rest));
        assert(byte_bits(packed[0]) == chunk);
        assert(bytes_bits(packed) =~= bits);
    }
}

/// Huffman round-trip law: decoding the Huffman encoding of any octet
/// string yields exactly that octet string.
pub proof fn lemma_huffman_round_trip(s: Seq<u8>)
    ensures
        huff_decoding(bytes_bits(huff_encoding(s))) == HuffDec::Decoded(s),
{
    let nbits = huff_bits(s).len();
    let pad = pad_amount(nbits);
    let padded = huff_bits(s) + ones(pad);
    assert(padded.len() % 8 == 0) by (nonlinear_arith)
        requires
            pad == ((8 - (nbits % 8)) % 8) as nat,
            padded.len() == nbits + pad,
    ;
    lemma_bytes_bits_to_bytes(padded);
    lemma_huffman_bits_round_trip(s, pad);
}

// ---------------------------------------------------------------------------
// The executable codec
// ---------------------------------------------------------------------------

#[verifier::rlimit(60)]
fn code_part_0(t: &mut Vec<u32>)
    ensures
        final(t)@ == old(t)@ + seq![0x1ff8u32, 0x7fffd8, 0xfffffe2, 0xfffffe3, 0xfffffe4, 0xfffffe5, 0xfffffe6, 0xfffffe7, 0xfffffe8, 0xffffea, 0x3ffffffc, 0xfffffe9, 0xfffffea, 0x3ffffffd, 0xfffffeb, 0xfffffec, 0xfffffed, 0xfffffee, 0xfffffef, 0xffffff0, 0xffffff1, 0xffffff2, 0x3ffffffe, 0xffffff3, 0xffffff4, 0xffffff5, 0xffffff6, 0xffffff7, 0xffffff8, 0xffffff9, 0xffffffa, 0xffffffb, 0x14, 0x3f8, 0x3f9, 0xffa, 0x1ff9, 0x15, 0xf8, 0x7fa, 0x3fa, 0x3fb, 0xf9, 0x7fb, 0xfa, 0x16, 0x17, 0x18, 0x0, 0x1, 0x2, 0x19, 0x1a, 0x1b, 0x1c, 0x1d, 0x1e, 0x1f, 0x5c, 0xfb, 0x7ffc, 0x20, 0xffb, 0x3fc],
{
    let ghost base = t@;
    t.push(0x1ff8);
    t.push(0x7fffd8);
    t.push(0xfffffe2);
    t.push(0xfffffe3);
    t.push(0xfffffe4);
    t.push(0xfffffe5);
    t.push(0xfffffe6);
    t.push(0xfffffe7);
    t.push(0xfffffe8);
    t.push(0xffffea);
    t.push(0x3ffffffc);
    t.push(0xfffffe9);
    t.push(0xfffffea);
    t.push(0x3ffffffd);
    t.push(0xfffffeb);
    t.push(0xfffffec);
    t.push(0xfffffed);
    t.push(0xfffffee);
    t.push(0xfffffef);
    t.push(0xffffff0);
    t.push(0xffffff1);
    t.push(0xffffff2);
    t.push(0x3ffffffe);
    t.push(0xffffff3);
    t.push(0xffffff4);
    t.push(0xffffff5);
    t.push(0xffffff6);
    t.push(0xffffff7);
    t.push(0xffffff8);
    t.push(0xffffff9);
    t.push(0xffffffa);
    t.push(0xffffffb);
    t.push(0x14);
    t.push(0x3f8);
    t.push(0x3f9);
    t.push(0xffa);
    t.push(0x1ff9);
    t.push(0x15);
    t.push(0xf8);
    t.push(0x7fa);
    t.push(0x3fa);
    t.push(0x3fb);
    t.push(0xf9);
    t.push(0x7fb);
    t.push(0xfa);
    t.push(0x16);
    t.push(0x17);
    t.push(0x18);
    t.push(0x0);
    t.push(0x1);
    t.push(0x2);
    t.push(0x19);
    t.push(0x1a);
    t.push(0x1b);
    t.push(0x1c);
    t.push(0x1d);
    t.push(0x1e);
    t.push(0x1f);
    t.push(0x5c);
    t.push(0xfb);
    t.push(0x7ffc);
    t.push(0x20);
    t.push(0xffb);
    t.push(0x3fc);
    assert(t@ =~= base + seq![0x1ff8u32, 0x7fffd8, 0xfffffe2, 0xfffffe3, 0xfffffe4, 0xfffffe5, 0xfffffe6, 0xfffffe7, 0xfffffe8, 0xffffea, 0x3ffffffc, 0xfffffe9, 0xfffffea, 0x3ffffffd, 0xfffffeb, 0xfffffec, 0xfffffed, 0xfffffee, 0xfffffef, 0xffffff0, 0xffffff1, 0xffffff2, 0x3ffffffe, 0xffffff3, 0xffffff4, 0xffffff5, 0xffffff6, 0xffffff7, 0xffffff8, 0xffffff9, 0xffffffa, 0xffffffb, 0x14, 0x3f8, 0x3f9, 0xffa, 0x1ff9, 0x15, 0xf8, 0x7fa, 0x3fa, 0x3fb, 0xf9, 0x7fb, 0xfa, 0x16, 0x17, 0x18, 0x0, 0x1, 0x2, 0x19, 0x1a, 0x1b, 0x1c, 0x1d, 0x1e, 0x1f, 0x5c, 0xfb, 0x7ffc, 0x20, 0xffb, 0x3fc]);
}

#[verifier::rlimit(60)]
fn code_part_64(t: &mut Vec<u32>)
    ensures
        final(t)@ == old(t)@ + seq![0x1ffau32, 0x21, 0x5d, 0x5e, 0x5f, 0x60, 0x61, 0x62, 0x63, 0x64, 0x65, 0x66, 0x67, 0x68, 0x69, 0x6a, 0x6b, 0x6c, 0x6d, 0x6e, 0x6f, 0x70, 0x71, 0x72, 0xfc, 0x73, 0xfd, 0x1ffb, 0x7fff0, 0x1ffc, 0x3ffc, 0x22, 0x7ffd, 0x3, 0x23, 0x4, 0x24, 0x5, 0x25, 0x26, 0x27, 0x6, 0x74, 0x75, 0x28, 0x29, 0x2a, 0x7, 0x2b, 0x76, 0x2c, 0x8, 0x9, 0x2d, 0x77, 0x78, 0x79, 0x7a, 0x7b, 0x7ffe, 0x7fc, 0x3ffd, 0x1ffd, 0xffffffc],
{
    let ghost base = t@;
    t.push(0x1ffa);
    t.push(0x21);
    t.push(0x5d);
    t.push(0x5e);
    t.push(0x5f);
    t.push(0x60);
    t.push(0x61);
    t.push(0x62);
    t.push(0x63);
    t.push(0x64);
    t.push(0x65);
    t.push(0x66);
    t.push(0x67);
    t.push(0x68);
    t.push(0x69);
    t.push(0x6a);
    t.push(0x6b);
    t.push(0x6c);
    t.push(0x6d);
    t.push(0x6e);
    t.push(0x6f);
    t.push(0x70);
    t.push(0x71);
    t.push(0x72);
    t.push(0xfc);
    t.push(0x73);
    t.push(0xfd);
    t.push(0x1ffb);
    t.push(0x7fff0);
    t.push(0x1ffc);
    t.push(0x3ffc);
    t.push(0x22);
    t.push(0x7ffd);
    t.push(0x3);
    t.push(0x23);
    t.push(0x4);
    t.push(0x24);
    t.push(0x5);
    t.push(0x25);
    t.push(0x26);
    t.push(0x27);
    t.push(0x6);
    t.push(0x74);
    t.push(0x75);
    t.push(0x28);
    t.push(0x29);
    t.push(0x2a);
    t.push(0x7);
    t.push(0x2b);
    t.push(0x76);
    t.push(0x2c);
    t.push(0x8);
    t.push(0x9);
    t.push(0x2d);
    t.push(0x77);
    t.push(0x78);
    t.push(0x79);
    t.push(0x7a);
    t.push(0x7b);
    t.push(0x7ffe);
    t.push(0x7fc);
    t.push(0x3ffd);
    t.push(0x1ffd);
    t.push(0xffffffc);
    assert(t@ =~= base + seq![0x1ffau32, 0x21, 0x5d, 0x5e, 0x5f, 0x60, 0x61, 0x62, 0x63, 0x64, 0x65, 0x66, 0x67, 0x68, 0x69, 0x6a, 0x6b, 0x6c, 0x6d, 0x6e, 0x6f, 0x70, 0x71, 0x72, 0xfc, 0x73, 0xfd, 0x1ffb, 0x7fff0, 0x1ffc, 0x3ffc, 0x22, 0x7ffd, 0x3, 0x23, 0x4, 0x24, 0x5, 0x25, 0x26, 0x27, 0x6, 0x74, 0x75, 0x28, 0x29, 0x2a, 0x7, 0x2b, 0x76, 0x2c, 0x8, 0x9, 0x2d, 0x77, 0x78, 0x79, 0x7a, 0x7b, 0x7ffe, 0x7fc, 0x3ffd, 0x1ffd, 0xffffffc]);
}

#[verifier::rlimit(60)]
fn code_part_128(t: &mut Vec<u32>)
    ensures
        final(t)@ == old(t)@ + seq![0xfffe6u32, 0x3fffd2, 0xfffe7, 0xfffe8, 0x3fffd3, 0x3fffd4, 0x3fffd5, 0x7fffd9, 0x3fffd6, 0x7fffda, 0x7fffdb, 0x7fffdc, 0x7fffdd, 0x7fffde, 0xffffeb, 0x7fffdf, 0xffffec, 0xffffed, 0x3fffd7, 0x7fffe0, 0xffffee, 0x7fffe1, 0x7fffe2, 0x7fffe3, 0x7fffe4, 0x1fffdc, 0x3fffd8, 0x7fffe5, 0x3fffd9, 0x7fffe6, 0x7fffe7, 0xffffef, 0x3fffda, 0x1fffdd, 0xfffe9, 0x3fffdb, 0x3fffdc, 0x7fffe8, 0x7fffe9, 0x1fffde, 0x7fffea, 0x3fffdd, 0x3fffde, 0xfffff0, 0x1fffdf, 0x3fffdf, 0x7fffeb, 0x7fffec, 0x1fffe0, 0x1fffe1, 0x3fffe0, 0x1fffe2, 0x7fffed, 0x3fffe1, 0x7fffee, 0x7fffef, 0xfffea, 0x3fffe2, 0x3fffe3, 0x3fffe4, 0x7ffff0, 0x3fffe5, 0x3fffe6, 0x7ffff1],
{
    let ghost base = t@;
    t.push(0xfffe6);
    t.push(0x3fffd2);
    t.push(0xfffe7);
    t.push(0xfffe8);
    t.push(0x3fffd3);
    t.push(0x3fffd4);
    t.push(0x3fffd5);
    t.push(0x7fffd9);
    t.push(0x3fffd6);
    t.push(0x7fffda);
    t.push(0x7fffdb);
    t.push(0x7fffdc);
    t.push(0x7fffdd);
    t.push(0x7fffde);
    t.push(0xffffeb);
    t.push(0x7fffdf);
    t.push(0xffffec);
    t.push(0xffffed);
    t.push(0x3fffd7);
    t.push(0x7fffe0);
    t.push(0xffffee);
    t.push(0x7fffe1);
    t.push(0x7fffe2);
    t.push(0x7fffe3);
    t.push(0x7fffe4);
    t.push(0x1fffdc);
    t.push(0x3fffd8);
    t.push(0x7fffe5);
    t.push(0x3fffd9);
    t.push(0x7fffe6);
    t.push(0x7fffe7);
    t.push(0xffffef);
    t.push(0x3fffda);
    t.push(0x1fffdd);
    t.push(0xfffe9);
    t.push(0x3fffdb);
    t.push(0x3fffdc);
    t.push(0x7fffe8);
    t.push(0x7fffe9);
    t.push(0x1fffde);
    t.push(0x7fffea);
    t.push(0x3fffdd);
    t.push(0x3fffde);
    t.push(0xfffff0);
    t.push(0x1fffdf);
    t.push(0x3fffdf);
    t.push(0x7fffeb);
    t.push(0x7fffec);
    t.push(0x1fffe0);
    t.push(0x1fffe1);
    t.push(0x3fffe0);
    t.push(0x1fffe2);
    t.push(0x7fffed);
    t.push(0x3fffe1);
    t.push(0x7fffee);
    t.push(0x7fffef);
    t.push(0xfffea);
    t.push(0x3fffe2);
    t.push(0x3fffe3);
    t.push(0x3fffe4);
    t.push(0x7ffff0);
    t.push(0x3fffe5);
    t.push(0x3fffe6);
    t.push(0x7ffff1);
    assert(t@ =~= base + seq![0xfffe6u32, 0x3fffd2, 0xfffe7, 0xfffe8, 0x3fffd3, 0x3fffd4, 0x3fffd5, 0x7fffd9, 0x3fffd6, 0x7fffda, 0x7fffdb, 0x7fffdc, 0x7fffdd, 0x7fffde, 0xffffeb, 0x7fffdf, 0xffffec, 0xffffed, 0x3fffd7, 0x7fffe0, 0xffffee, 0x7fffe1, 0x7fffe2, 0x7fffe3, 0x7fffe4, 0x1fffdc, 0x3fffd8, 0x7fffe5, 0x3fffd9, 0x7fffe6, 0x7fffe7, 0xffffef, 0x3fffda, 0x1fffdd, 0xfffe9, 0x3fffdb, 0x3fffdc, 0x7fffe8, 0x7fffe9, 0x1fffde, 0x7fffea, 0x3fffdd, 0x3fffde, 0xfffff0, 0x1fffdf, 0x3fffdf, 0x7fffeb, 0x7fffec, 0x1fffe0, 0x1fffe1, 0x3fffe0, 0x1fffe2, 0x7fffed, 0x3fffe1, 0x7fffee, 0x7fffef, 0xfffea, 0x3fffe2, 0x3fffe3, 0x3fffe4, 0x7ffff0, 0x3fffe5, 0x3fffe6, 0x7ffff1]);
}

#[verifier::rlimit(60)]
fn code_part_192(t: &mut Vec<u32>)
    ensures
        final(t)@ == old(t)@ + seq![0x3ffffe0u32, 0x3ffffe1, 0xfffeb, 0x7fff1, 0x3fffe7, 0x7ffff2, 0x3fffe8, 0x1ffffec, 0x3ffffe2, 0x3ffffe3, 0x3ffffe4, 0x7ffffde, 0x7ffffdf, 0x3ffffe5, 0xfffff1, 0x1ffffed, 0x7fff2, 0x1fffe3, 0x3ffffe6, 0x7ffffe0, 0x7ffffe1, 0x3ffffe7, 0x7ffffe2, 0xfffff2, 0x1fffe4, 0x1fffe5, 0x3ffffe8, 0x3ffffe9, 0xffffffd, 0x7ffffe3, 0x7ffffe4, 0x7ffffe5, 0xfffec, 0xfffff3, 0xfffed, 0x1fffe6, 0x3fffe9, 0x1fffe7, 0x1fffe8, 0x7ffff3, 0x3fffea, 0x3fffeb, 0x1ffffee, 0x1ffffef, 0xfffff4, 0xfffff5, 0x3ffffea, 0x7ffff4, 0x3ffffeb, 0x7ffffe6, 0x3ffffec, 0x3ffffed, 0x7ffffe7, 0x7ffffe8, 0x7ffffe9, 0x7ffffea, 0x7ffffeb, 0xffffffe, 0x7ffffec, 0x7ffffed, 0x7ffffee, 0x7ffffef, 0x7fffff0, 0x3ffffee],
{
    let ghost base = t@;
    t.push(0x3ffffe0);
    t.push(0x3ffffe1);
    t.push(0xfffeb);
    t.push(0x7fff1);
    t.push(0x3fffe7);
    t.push(0x7ffff2);
    t.push(0x3fffe8);
    t.push(0x1ffffec);
    t.push(0x3ffffe2);
    t.push(0x3ffffe3);
    t.push(0x3ffffe4);
    t.push(0x7ffffde);
    t.push(0x7ffffdf);
    t.push(0x3ffffe5);
    t.push(0xfffff1);
    t.push(0x1ffffed);
    t.push(0x7fff2);
    t.push(0x1fffe3);
    t.push(0x3ffffe6);
    t.push(0x7ffffe0);
    t.push(0x7ffffe1);
    t.push(0x3ffffe7);
    t.push(0x7ffffe2);
    t.push(0xfffff2);
    t.push(0x1fffe4);
    t.push(0x1fffe5);
    t.push(0x3ffffe8);
    t.push(0x3ffffe9);
    t.push(0xffffffd);
    t.push(0x7ffffe3);
    t.push(0x7ffffe4);
    t.push(0x7ffffe5);
    t.push(0xfffec);
    t.push(0xfffff3);
    t.push(0xfffed);
    t.push(0x1fffe6);
    t.push(0x3fffe9);
    t.push(0x1fffe7);
    t.push(0x1fffe8);
    t.push(0x7ffff3);
    t.push(0x3fffea);
    t.push(0x3fffeb);
    t.push(0x1ffffee);
    t.push(0x1ffffef);
    t.push(0xfffff4);
    t.push(0xfffff5);
    t.push(0x3ffffea);
    t.push(0x7ffff4);
    t.push(0x3ffffeb);
    t.push(0x7ffffe6);
    t.push(0x3ffffec);
    t.push(0x3ffffed);
    t.push(0x7ffffe7);
    t.push(0x7ffffe8);
    t.push(0x7ffffe9);
    t.push(0x7ffffea);
    t.push(0x7ffffeb);
    t.push(0xffffffe);
    t.push(0x7ffffec);
    t.push(0x7ffffed);
    t.push(0x7ffffee);
    t.push(0x7ffffef);
    t.push(0x7fffff0);
    t.push(0x3ffffee);
    assert(t@ =~= base + seq![0x3ffffe0u32, 0x3ffffe1, 0xfffeb, 0x7fff1, 0x3fffe7, 0x7ffff2, 0x3fffe8, 0x1ffffec, 0x3ffffe2, 0x3ffffe3, 0x3ffffe4, 0x7ffffde, 0x7ffffdf, 0x3ffffe5, 0xfffff1, 0x1ffffed, 0x7fff2, 0x1fffe3, 0x3ffffe6, 0x7ffffe0, 0x7ffffe1, 0x3ffffe7, 0x7ffffe2, 0xfffff2, 0x1fffe4, 0x1fffe5, 0x3ffffe8, 0x3ffffe9, 0xffffffd, 0x7ffffe3, 0x7ffffe4, 0x7ffffe5, 0xfffec, 0xfffff3, 0xfffed, 0x1fffe6, 0x3fffe9, 0x1fffe7, 0x1fffe8, 0x7ffff3, 0x3fffea, 0x3fffeb, 0x1ffffee, 0x1ffffef, 0xfffff4, 0xfffff5, 0x3ffffea, 0x7ffff4, 0x3ffffeb, 0x7ffffe6, 0x3ffffec, 0x3ffffed, 0x7ffffe7, 0x7ffffe8, 0x7ffffe9, 0x7ffffea, 0x7ffffeb, 0xffffffe, 0x7ffffec, 0x7ffffed, 0x7ffffee, 0x7ffffef, 0x7fffff0, 0x3ffffee]);
}

#[verifier::rlimit(60)]
fn code_part_256(t: &mut Vec<u32>)
    ensures
        final(t)@ == old(t)@ + seq![0x3fffffffu32],
{
    let ghost base = t@;
    t.push(0x3fffffff);
    assert(t@ =~= base + seq![0x3fffffffu32]);
}

/// The code words as a runtime table, indexed by symbol.
#[verifier::rlimit(60)]
fn code_table() -> (t: Vec<u32>)
    ensures
        t@ == huff_codes(),
{
    let mut t: Vec<u32> = Vec::with_capacity(257);
    code_part_0(&mut t);
    code_part_64(&mut t);
    code_part_128(&mut t);
    code_part_192(&mut t);
    code_part_256(&mut t);
    assert(t@ =~= huff_codes());
    t
}

#[verifier::rlimit(60)]
fn len_part_0(t: &mut Vec<u8>)
    ensures
        final(t)@ == old(t)@ + seq![13u8, 23, 28, 28, 28, 28, 28, 28, 28, 24, 30, 28, 28, 30, 28, 28, 28, 28, 28, 28, 28, 28, 30, 28, 28, 28, 28, 28, 28, 28, 28, 28, 6, 10, 10, 12, 13, 6, 8, 11, 10, 10, 8, 11, 8, 6, 6, 6, 5, 5, 5, 6, 6, 6, 6, 6, 6, 6, 7, 8, 15, 6, 12, 10],
{
    let ghost base = t@;
    t.push(13);
    t.push(23);
    t.push(28);
    t.push(28);
    t.push(28);
    t.push(28);
    t.push(28);
    t.push(28);
    t.push(28);
    t.push(24);
    t.push(30);
    t.push(28);
    t.push(28);
    t.push(30);
    t.push(28);
    t.push(28);
    t.push(28);
    t.push(28);
    t.push(28);
    t.push(28);
    t.push(28);
    t.push(28);
    t.push(30);
    t.push(28);
    t.push(28);
    t.push(28);
    t.push(28);
    t.push(28);
    t.push(28);
    t.push(28);
    t.push(28);
    t.push(28);
    t.push(6);
    t.push(10);
    t.push(10);
    t.push(12);
    t.push(13);
    t.push(6);
    t.push(8);
    t.push(11);
    t.push(10);
    t.push(10);
    t.push(8);
    t.push(11);
    t.push(8);
    t.push(6);
    t.push(6);
    t.push(6);
    t.push(5);
    t.push(5);
    t.push(5);
    t.push(6);
    t.push(6);
    t.push(6);
    t.push(6);
    t.push(6);
    t.push(6);
    t.push(6);
    t.push(7);
    t.push(8);
    t.push(15);
    t.push(6);
    t.push(12);
    t.push(10);
    assert(t@ =~= base + seq![13u8, 23, 28, 28, 28, 28, 28, 28, 28, 24, 30, 28, 28, 30, 28, 28, 28, 28, 28, 28, 28, 28, 30, 28, 28, 28, 28, 28, 28, 28, 28, 28, 6, 10, 10, 12, 13, 6, 8, 11, 10, 10, 8, 11, 8, 6, 6, 6, 5, 5, 5, 6, 6, 6, 6, 6, 6, 6, 7, 8, 15, 6, 12, 10]);
}

#[verifier::rlimit(60)]
fn len_part_64(t: &mut Vec<u8>)
    ensures
        final(t)@ == old(t)@ + seq![13u8, 6, 7, 7, 7, 7, 7, 7, 7, 7, 7, 7, 7, 7, 7, 7, 7, 7, 7, 7, 7, 7, 7, 7, 8, 7, 8, 13, 19, 13, 14, 6, 15, 5, 6, 5, 6, 5, 6, 6, 6, 5, 7, 7, 6, 6, 6, 5, 6, 7, 6, 5, 5, 6, 7, 7, 7, 7, 7, 15, 11, 14, 13, 28],
{
    let ghost base = t@;
    t.push(13);
    t.push(6);
    t.push(7);
    t.push(7);
    t.push(7);
    t.push(7);
    t.push(7);
    t.push(7);
    t.push(7);
    t.push(7);
    t.push(7);
    t.push(7);
    t.push(7);
    t.push(7);
    t.push(7);
    t.push(7);
    t.push(7);
    t.push(7);
    t.push(7);
    t.push(7);
    t.push(7);
    t.push(7);
    t.push(7);
    t.push(7);
    t.push(8);
    t.push(7);
    t.push(8);
    t.push(13);
    t.push(19);
    t.push(13);
    t.push(14);
    t.push(6);
    t.push(15);
    t.push(5);
    t.push(6);
    t.push(5);
    t.push(6);
    t.push(5);
    t.push(6);
    t.push(6);
    t.push(6);
    t.push(5);
    t.push(7);
    t.push(7);
    t.push(6);
    t.push(6);
    t.push(6);
    t.push(5);
    t.push(6);
    t.push(7);
    t.push(6);
    t.push(5);
    t.push(5);
    t.push(6);
    t.push(7);
    t.push(7);
    t.push(7);
    t.push(7);
    t.push(7);
    t.push(15);
    t.push(11);
    t.push(14);
    t.push(13);
    t.push(28);
    assert(t@ =~= base + seq![13u8, 6, 7, 7, 7, 7, 7, 7, 7, 7, 7, 7, 7, 7, 7, 7, 7, 7, 7, 7, 7, 7, 7, 7, 8, 7, 8, 13, 19, 13, 14, 6, 15, 5, 6, 5, 6, 5, 6, 6, 6, 5, 7, 7, 6, 6, 6, 5, 6, 7, 6, 5, 5, 6, 7, 7, 7, 7, 7, 15, 11, 14, 13, 28]);
}

#[verifier::rlimit(60)]
fn len_part_128(t: &mut Vec<u8>)
    ensures
        final(t)@ == old(t)@ + seq![20u8, 22, 20, 20, 22, 22, 22, 23, 22, 23, 23, 23, 23, 23, 24, 23, 24, 24, 22, 23, 24, 23, 23, 23, 23, 21, 22, 23, 22, 23, 23, 24, 22, 21, 20, 22, 22, 23, 23, 21, 23, 22, 22, 24, 21, 22, 23, 23, 21, 21, 22, 21, 23, 22, 23, 23, 20, 22, 22, 22, 23, 22, 22, 23],
{
    let ghost base = t@;
    t.push(20);
    t.push(22);
    t.push(20);
    t.push(20);
    t.push(22);
    t.push(22);
    t.push(22);
    t.push(23);
    t.push(22);
    t.push(23);
    t.push(23);
    t.push(23);
    t.push(23);
    t.push(23);
    t.push(24);
    t.push(23);
    t.push(24);
    t.push(24);
    t.push(22);
    t.push(23);
    t.push(24);
    t.push(23);
    t.push(23);
    t.push(23);
    t.push(23);
    t.push(21);
    t.push(22);
    t.push(23);
    t.push(22);
    t.push(23);
    t.push(23);
    t.push(24);
    t.push(22);
    t.push(21);
    t.push(20);
    t.push(22);
    t.push(22);
    t.push(23);
    t.push(23);
    t.push(21);
    t.push(23);
    t.push(22);
    t.push(22);
    t.push(24);
    t.push(21);
    t.push(22);
    t.push(23);
    t.push(23);
    t.push(21);
    t.push(21);
    t.push(22);
    t.push(21);
    t.push(23);
    t.push(22);
    t.push(23);
    t.push(23);
    t.push(20);
    t.push(22);
    t.push(22);
    t.push(22);
    t.push(23);
    t.push(22);
    t.push(22);
    t.push(23);
    assert(t@ =~= base + seq![20u8, 22, 20, 20, 22, 22, 22, 23, 22, 23, 23, 23, 23, 23, 24, 23, 24, 24, 22, 23, 24, 23, 23, 23, 23, 21, 22, 23, 22, 23, 23, 24, 22, 21, 20, 22, 22, 23, 23, 21, 23, 22, 22, 24, 21, 22, 23, 23, 21, 21, 22, 21, 23, 22, 23, 23, 20, 22, 22, 22, 23, 22, 22, 23]);
}

#[verifier::rlimit(60)]
fn len_part_192(t: &mut Vec<u8>)
    ensures
        final(t)@ == old(t)@ + seq![26u8, 26, 20, 19, 22, 23, 22, 25, 26, 26, 26, 27, 27, 26, 24, 25, 19, 21, 26, 27, 27, 26, 27, 24, 21, 21, 26, 26, 28, 27, 27, 27, 20, 24, 20, 21, 22, 21, 21, 23, 22, 22, 25, 25, 24, 24, 26, 23, 26, 27, 26, 26, 27, 27, 27, 27, 27, 28, 27, 27, 27, 27, 27, 26],
{
    let ghost base = t@;
    t.push(26);
    t.push(26);
    t.push(20);
    t.push(19);
    t.push(22);
    t.push(23);
    t.push(22);
    t.push(25);
    t.push(26);
    t.push(26);
    t.push(26);
    t.push(27);
    t.push(27);
    t.push(26);
    t.push(24);
    t.push(25);
    t.push(19);
    t.push(21);
    t.push(26);
    t.push(27);
    t.push(27);
    t.push(26);
    t.push(27);
    t.push(24);
    t.push(21);
    t.push(21);
    t.push(26);
    t.push(26);
    t.push(28);
    t.push(27);
    t.push(27);
    t.push(27);
    t.push(20);
    t.push(24);
    t.push(20);
    t.push(21);
    t.push(22);
    t.push(21);
    t.push(21);
    t.push(23);
    t.push(22);
    t.push(22);
    t.push(25);
    t.push(25);
    t.push(24);
    t.push(24);
    t.push(26);
    t.push(23);
    t.push(26);
    t.push(27);
    t.push(26);
    t.push(26);
    t.push(27);
    t.push(27);
    t.push(27);
    t.push(27);
    t.push(27);
    t.push(28);
    t.push(27);
    t.push(27);
    t.push(27);
    t.push(27);
    t.push(27);
    t.push(26);
    assert(t@ =~= base + seq![26u8, 26, 20, 19, 22, 23, 22, 25, 26, 26, 26, 27, 27, 26, 24, 25, 19, 21, 26, 27, 27, 26, 27, 24, 21, 21, 26, 26, 28, 27, 27, 27, 20, 24, 20, 21, 22, 21, 21, 23, 22, 22, 25, 25, 24, 24, 26, 23, 26, 27, 26, 26, 27, 27, 27, 27, 27, 28, 27, 27, 27, 27, 27, 26]);
}

#[verifier::rlimit(60)]
fn len_part_256(t: &mut Vec<u8>)
    ensures
        final(t)@ == old(t)@ + seq![30u8],
{
    let ghost base = t@;
    t.push(30);
    assert(t@ =~= base + seq![30u8]);
}

/// The code lengths as a runtime table, indexed by symbol.
#[verifier::rlimit(60)]
fn len_table() -> (t: Vec<u8>)
    ensures
        t@ == huff_lens(),
{
    let mut t: Vec<u8> = Vec::with_capacity(257);
    len_part_0(&mut t);
    len_part_64(&mut t);
    len_part_128(&mut t);
    len_part_192(&mut t);
    len_part_256(&mut t);
    assert(t@ =~= huff_lens());
    t
}

/// `2^e` as a `u32`, for exponents up to 30.
fn p2_u32(e: u8) -> (r: u32)
    requires
        e <= 30,
    ensures
        r as nat == p2(e as nat),
{
    let mut r: u32 = 1;
    let mut i: u8 = 0;
    proof {
        lemma_p2_values();
    }
    while i < e
        invariant
            i <= e <= 30,
            r as nat == p2(i as nat),
        decreases e - i,
    {
        proof {
            lemma_p2_values();
            assert(p2((i + 1) as nat) == 2 * p2(i as nat));
            lemma_p2_monotone((i + 1) as nat, 30);
        }
        r = r * 2;
        i = i + 1;
    }
    r
}

proof fn lemma_p2_monotone(a: nat, b: nat)
    requires
        a <= b,
    ensures
        p2(a) <= p2(b),
    decreases b - a,
{
    if a < b {
        lemma_p2_monotone(a, (b - 1) as nat);
        lemma_p2_pos((b - 1) as nat);
    }
}

/// Bit `i` (counting from the most significant) of the `l`-bit digit string
/// of `v` is the matching binary digit of `v`.
proof fn lemma_num_bits_index(v: nat, l: nat, i: int)
    requires
        0 <= i < l,
    ensures
        num_bits(v, l)[i] == ((v / p2((l - 1 - i) as nat)) % 2 == 1),
    decreases l,
{
    lemma_num_bits_len(v, l);
    lemma_num_bits_len(v / 2, (l - 1) as nat);
    if i == l - 1 {
        assert(p2(0) == 1);
        assert(v / p2(0) == v);
        assert(num_bits(v, l)[i] == (v % 2 == 1));
    } else {
        lemma_num_bits_index(v / 2, (l - 1) as nat, i);
        assert(num_bits(v, l)[i] == num_bits(v / 2, (l - 1) as nat)[i]);
        lemma_p2_pos((l - 2 - i) as nat);
        vstd::arithmetic::div_mod::lemma_div_denominator(
            v as int,
            2,
            p2((l - 2 - i) as nat) as int,
        );
        assert(p2((l - 1 - i) as nat) == 2 * p2((l - 2 - i) as nat));
        assert((v / 2) / p2((l - 2 - i) as nat) == v / p2((l - 1 - i) as nat));
    }
}

proof fn lemma_huff_bits_snoc(s: Seq<u8>, y: u8)
    ensures
        huff_bits(s.push(y)) == huff_bits(s) + sym_bits(y as int),
    decreases s.len(),
{
    if s.len() == 0 {
        assert(s.push(y).skip(1) =~= Seq::<u8>::empty());
        assert(huff_bits(Seq::<u8>::empty()) == Seq::<bool>::empty());
        assert(s.push(y)[0] == y);
        assert(huff_bits(s.push(y)) == sym_bits(y as int) + Seq::<bool>::empty());
        assert(huff_bits(s.push(y)) =~= huff_bits(s) + sym_bits(y as int));
    } else {
        assert(s.push(y)[0] == s[0]);
        assert(s.push(y).skip(1) =~= s.skip(1).push(y));
        lemma_huff_bits_snoc(s.skip(1), y);
        assert(huff_bits(s.push(y)) == sym_bits(s[0] as int) + huff_bits(s.skip(1).push(y)));
        assert(huff_bits(s.push(y)) =~= huff_bits(s) + sym_bits(y as int));
    }
}

proof fn lemma_bytes_bits_snoc(s: Seq<u8>, y: u8)
    ensures
        bytes_bits(s.push(y)) == bytes_bits(s) + byte_bits(y),
    decreases s.len(),
{
    if s.len() == 0 {
        assert(s.push(y).skip(1) =~= Seq::<u8>::empty());
        assert(bytes_bits(Seq::<u8>::empty()) == Seq::<bool>::empty());
        assert(s.push(y)[0] == y);
        assert(bytes_bits(s.push(y)) == byte_bits(y) + Seq::<bool>::empty());
        assert(bytes_bits(s.push(y)) =~= bytes_bits(s) + byte_bits(y));
    } else {
        assert(s.push(y)[0] == s[0]);
        assert(s.push(y).skip(1) =~= s.skip(1).push(y));
        lemma_bytes_bits_snoc(s.skip(1), y);
        assert(bytes_bits(s.push(y)) == byte_bits(s[0]) + bytes_bits(s.skip(1).push(y)));
        assert(bytes_bits(s.push(y)) =~= bytes_bits(s) + byte_bits(y));
    }
}

proof fn lemma_bits_to_bytes_append(a: Seq<bool>, b: Seq<bool>)
    requires
        a.len() % 8 == 0,
    ensures
        bits_to_bytes(a + b) == bits_to_bytes(a) + bits_to_bytes(b),
    decreases a.len(),
{
    if a.len() == 0 {
        assert(a + b =~= b);
        assert(bits_to_bytes(a + b) =~= bits_to_bytes(a) + bits_to_bytes(b));
    } else {
        assert(a.len() >= 8);
        assert((a + b).take(8) =~= a.take(8));
        assert((a + b).skip(8) =~= a.skip(8) + b);
        assert(a.skip(8).len() % 8 == 0);
        lemma_bits_to_bytes_append(a.skip(8), b);
        assert(bits_to_bytes(a + b) =~= bits_to_bytes(a) + bits_to_bytes(b));
    }
}

/// Append the code word of `sym` to `bits`.
fn push_sym_bits(bits: &mut Vec<bool>, code: u32, len: u8, Ghost(sym): Ghost<int>)
    requires
        0 <= sym < 257,
        code as nat == code_of(sym),
        len as nat == len_of(sym),
        sym_ok(sym),
    ensures
        final(bits)@ == old(bits)@ + sym_bits(sym),
{
    let ghost base = bits@;
    let mut j: u8 = 0;
    while j < len
        invariant
            j <= len,
            sym_ok(sym),
            code as nat == code_of(sym),
            len as nat == len_of(sym),
            bits@.len() == base.len() + j as nat,
            base =~= bits@.take(base.len() as int),
            forall|i: int| 0 <= i < j ==> #[trigger] bits@[base.len() + i] == ((code_of(sym)
                / p2((len_of(sym) - 1 - i) as nat)) % 2 == 1),
        decreases len - j,
    {
        let e: u8 = len - 1 - j;
        let d: u32 = p2_u32(e);
        proof {
            lemma_p2_pos(e as nat);
        }
        let bit: bool = (code / d) % 2 == 1;
        bits.push(bit);
        j = j + 1;
    }
    proof {
        lemma_num_bits_len(code_of(sym), len_of(sym));
        assert forall|i: int| 0 <= i < len_of(sym) implies sym_bits(sym)[i] == bits@[base.len()
            + i] by {
            lemma_num_bits_index(code_of(sym), len_of(sym), i);
        }
        assert(bits@ =~= base + sym_bits(sym));
    }
}

/// Huffman-encode an octet string: concatenate the code words most
/// significant bit first and pad the final octet with ones.
pub fn encode(data: &Vec<u8>) -> (r: Vec<u8>)
    ensures
        r@ == huff_encoding(data@),
{
    let codes = code_table();
    let lens = len_table();
    let mut bits: Vec<bool> = Vec::new();
    let mut idx: usize = 0;
    proof {
        table_facts();
        assert(data@.take(0) =~= Seq::<u8>::empty());
    }
    while idx < data.len()
        invariant
            idx <= data@.len(),
            codes@ == huff_codes(),
            lens@ == huff_lens(),
            bits@ == huff_bits(data@.take(idx as int)),
            forall|x: int| 0 <= x < 257 ==> #[trigger] sym_ok(x),
        decreases data@.len() - idx,
    {
        let sym = data[idx];
        proof {
            assert(sym_ok(sym as int));
        }
        push_sym_bits(&mut bits, codes[sym as usize], lens[sym as usize], Ghost(sym as int));
        proof {
            assert(data@.take(idx as int + 1) =~= data@.take(idx as int).push(sym));
            lemma_huff_bits_snoc(data@.take(idx as int), sym);
        }
        idx = idx + 1;
    }
    proof {
        assert(data@.take(data@.len() as int) =~= data@);
    }
    let ghost nbits = bits@.len();
    proof {
        assert(pad_amount(nbits) <= 7 && (nbits + pad_amount(nbits)) % 8 == 0)
            by (nonlinear_arith);
    }
    while bits.len() % 8 != 0
        invariant
            nbits <= bits@.len() <= nbits + pad_amount(nbits),
            pad_amount(nbits) <= 7,
            (nbits + pad_amount(nbits)) % 8 == 0,
            bits@ =~= bits@.take(nbits as int) + ones((bits@.len() - nbits) as nat),
            bits@.take(nbits as int) == huff_bits(data@),
        decreases nbits + pad_amount(nbits) - bits@.len(),
    {
        proof {
            assert(bits@.len() < nbits + pad_amount(nbits));
        }
        bits.push(true);
        proof {
            assert(bits@ =~= bits@.take(nbits as int) + ones((bits@.len() - nbits) as nat));
        }
    }
    proof {
        assert(bits@.len() == nbits + pad_amount(nbits)) by (nonlinear_arith)
            requires
                bits@.len() % 8 == 0,
                (nbits + pad_amount(nbits)) % 8 == 0,
                nbits <= bits@.len() <= nbits + pad_amount(nbits),
        ;
        assert(bits@ == huff_bits(data@) + ones(pad_amount(huff_bits(data@).len())));
    }
    // pack the bits into octets
    let mut out: Vec<u8> = Vec::new();
    let mut i: usize = 0;
    proof {
        assert(bits@.take(0) =~= Seq::<bool>::empty());
    }
    while i < bits.len()
        invariant
            i % 8 == 0,
            i <= bits@.len(),
            bits@.len() % 8 == 0,
            out@ == bits_to_bytes(bits@.take(i as int)),
        decreases bits@.len() - i,
    {
        proof {
            assert(i + 8 <= bits@.len()) by (nonlinear_arith)
                requires
                    i % 8 == 0,
                    bits@.len() % 8 == 0,
                    i < bits@.len(),
            ;
        }
        let mut b: u8 = 0;
        let mut j: usize = 0;
        while j < 8
            invariant
                j <= 8,
                i + 8 <= bits@.len(),
                bits@.len() <= usize::MAX,
                b as nat == bits_val(bits@.subrange(i as int, i as int + j as int)),
                (b as nat) < p2(j as nat),
            decreases 8 - j,
        {
            proof {
                lemma_p2_values();
                assert(p2((j + 1) as nat) == 2 * p2(j as nat));
                lemma_p2_monotone((j + 1) as nat, 8);
                assert(bits@.subrange(i as int, i as int + j as int + 1).drop_last()
                    =~= bits@.subrange(i as int, i as int + j as int));
            }
            b = b * 2 + if bits[i + j] {
                1
            } else {
                0
            };
            j = j + 1;
        }
        out.push(b);
        proof {
            let chunk = bits@.subrange(i as int, i as int + 8);
            assert(bits@.take(i as int + 8) =~= bits@.take(i as int) + chunk);
            lemma_bits_to_bytes_append(bits@.take(i as int), chunk);
            assert(chunk.take(8) =~= chunk);
            assert(chunk.skip(8) =~= Seq::<bool>::empty());
            assert(bits_to_bytes(Seq::<bool>::empty()) == Seq::<u8>::empty());
            assert(chunk.take(8) =~= chunk);
            assert(bits_to_bytes(chunk) =~= seq![bits_val(chunk) as u8]);
            assert(out@ =~= bits_to_bytes(bits@.take(i as int + 8)));
        }
        i = i + 8;
    }
    proof {
        assert(i == bits@.len());
        assert(bits@.take(i as int) =~= bits@);
    }
    out
}

/// A successful scan never reports a window longer than the bit string.
proof fn lemma_scan_len_bound(bits: Seq<bool>, l: nat)
    requires
        1 <= l,
    ensures
        match scan(bits, l) {
            Some(r) => 1 <= r.1 <= bits.len() && r.1 <= 30,
            None => true,
        },
    decreases 31 - l,
{
    if !(l > 30 || l > bits.len() || l < 1) {
        lemma_scan_len_bound(bits, l + 1);
    }
}

/// Search the code table for the symbol whose code word is the `l`-bit
/// word `c`.
fn find_sym(codes: &Vec<u32>, lens: &Vec<u8>, c: u32, l: u8) -> (r: Option<usize>)
    requires
        codes@ == huff_codes(),
        lens@ == huff_lens(),
    ensures
        match r {
            Some(sym) => sym < 257 && lookup(c as nat, l as nat) == Some(sym as int),
            None => lookup(c as nat, l as nat) is None,
        },
{
    let mut sym: usize = 0;
    while sym < 257
        invariant
            sym <= 257,
            codes@ == huff_codes(),
            lens@ == huff_lens(),
            lookup(c as nat, l as nat) == lookup_from(c as nat, l as nat, sym as int),
        decreases 257 - sym,
    {
        if codes[sym] == c && lens[sym] == l {
            return Some(sym);
        }
        sym = sym + 1;
    }
    None
}

/// Huffman-decode an octet string, failing on an invalid code word, an EOS
/// symbol inside the stream, or final bits that are not a short all-ones
/// padding.
pub fn decode(data: &Vec<u8>) -> (r: Result<Vec<u8>, Http2Error>)
    ensures
        match r {
            Ok(v) => huff_decoding(bytes_bits(data@)) == HuffDec::Decoded(v@),
            Err(e) => e == Http2Error::HuffmanDecodingError && huff_decoding(bytes_bits(data@))
                == HuffDec::Failed,
        },
{
    let codes = code_table();
    let lens = len_table();
    // unpack the octets into bits, most significant first
    let mut bits: Vec<bool> = Vec::new();
    let mut idx: usize = 0;
    proof {
        assert(bytes_bits(data@.take(0)) =~= Seq::<bool>::empty());
    }
    while idx < data.len()
        invariant
            idx <= data@.len(),
            bits@ == bytes_bits(data@.take(idx as int)),
            bits@.len() == 8 * idx,
        decreases data@.len() - idx,
    {
        let byte = data[idx];
        let mut j: u8 = 0;
        let ghost base = bits@;
        while j < 8
            invariant
                j <= 8,
                bits@.len() == base.len() + j as nat,
                base =~= bits@.take(base.len() as int),
                forall|i: int| 0 <= i < j ==> #[trigger] bits@[base.len() + i] == ((byte as nat
                    / p2((7 - i) as nat)) % 2 == 1),
        decreases 8 - j,
        {
            let e: u8 = 7 - j;
            let d: u32 = p2_u32(e);
            proof {
                lemma_p2_pos(e as nat);
                lemma_p2_values();
                assert(d <= 128);
            }
            let bit: bool = (byte as u32 / d) % 2 == 1;
            proof {
                assert(byte as u32 / d == byte as nat / p2(e as nat));
            }
            bits.push(bit);
            j = j + 1;
        }
        proof {
            lemma_num_bits_len(byte as nat, 8);
            assert forall|i: int| 0 <= i < 8 implies byte_bits(byte)[i] == bits@[base.len()
                + i] by {
                lemma_num_bits_index(byte as nat, 8, i);
            }
            assert(bits@ =~= base + byte_bits(byte));
            assert(data@.take(idx as int + 1) =~= data@.take(idx as int).push(byte));
            lemma_bytes_bits_snoc(data@.take(idx as int), byte);
        }
        idx = idx + 1;
    }
    proof {
        assert(data@.take(data@.len() as int) =~= data@);
    }
    let ghost all: Seq<bool> = bits@;
    let total: usize = bits.len();
    let mut out: Vec<u8> = Vec::new();
    let mut p: usize = 0;
    proof {
        assert(all.skip(0) =~= all);
    }
    loop
        invariant
            p <= total,
            total == all.len(),
            bits@ == all,
            all == bytes_bits(data@),
            codes@ == huff_codes(),
            lens@ == huff_lens(),
            huff_decoding(all) == (match huff_decoding(all.skip(p as int)) {
                HuffDec::Decoded(rest) => HuffDec::Decoded(out@ + rest),
                HuffDec::Failed => HuffDec::Failed,
            }),
        decreases all.len() - p,
    {
        if p == total {
            proof {
                assert(all.skip(p as int).len() == 0);
                assert(out@ + Seq::<u8>::empty() =~= out@);
            }
            return Ok(out);
        }
        let ghost tail = all.skip(p as int);
        // grow a window until it holds a code word
        let mut l: usize = 1;
        let mut cur: u32 = 0;
        let mut found: Option<usize> = None;
        while found.is_none() && l <= 30 && l <= total - p
            invariant
                1 <= l <= 31,
                p < total == all.len(),
                bits@ == all,
                codes@ == huff_codes(),
                lens@ == huff_lens(),
                tail == all.skip(p as int),
                cur as nat == bits_val(tail.take((l - 1) as int)),
                match found {
                    Some(sym) => sym < 257 && 2 <= l && scan(tail, 1) == Some(
                        (sym as int, (l - 1) as nat),
                    ),
                    None => scan(tail, 1) == scan(tail, l as nat),
                },
            decreases 31 - l,
        {
            proof {
                assert(tail.take(l as int).drop_last() =~= tail.take((l - 1) as int));
                assert(tail.take(l as int).last() == tail[l - 1]);
                assert(tail[l - 1] == all[p + l - 1]);
                lemma_bits_val_bound(tail.take(l as int));
                lemma_p2_values();
                lemma_p2_monotone(l as nat, 30);
                assert((bits_val(tail.take(l as int))) < 0x40000000);
            }
            cur = cur * 2 + if bits[p + l - 1] {
                1
            } else {
                0
            };
            found = find_sym(&codes, &lens, cur, l as u8);
            proof {
                if found is None {
                    assert(scan(tail, l as nat) == scan(tail, (l + 1) as nat));
                } else {
                    assert(1 <= l <= 30 && l <= tail.len());
                    assert(scan(tail, l as nat) == Some((found->Some_0 as int, l as nat)));
                }
            }
            l = l + 1;
        }
        match found {
            Some(sym) => {
                if sym == 256 {
                    proof {
                        assert(huff_decoding(tail) == HuffDec::Failed);
                    }
                    return Err(Http2Error::HuffmanDecodingError);
                }
                let ghost out_old = out@;
                out.push(sym as u8);
                let step: usize = l - 1;
                proof {
                    assert(scan(tail, 1) == Some((sym as int, step as nat)));
                    assert(1 <= step && step <= tail.len()) by {
                        if step as nat > tail.len() {
                            lemma_scan_len_bound(tail, 1);
                        }
                    }
                    assert(huff_decoding(tail) == (match huff_decoding(tail.skip(step as int)) {
                        HuffDec::Decoded(rest) => HuffDec::Decoded(seq![sym as u8] + rest),
                        HuffDec::Failed => HuffDec::Failed,
                    }));
                    assert(all.skip(p as int + step as int) =~= tail.skip(step as int));
                    let hd2 = huff_decoding(all.skip(p as int + step as int));
                    if hd2 is Decoded {
                        let rest = hd2->Decoded_0;
                        assert(out_old + (seq![sym as u8] + rest) =~= out@ + rest);
                    }
                }
                p = p + step;
            },
            None => {
                // no code word fits: either a bad stream or trailing padding
                proof {
                    assert(scan(tail, 1) == scan(tail, l as nat));
                    if l > 30 {
                        assert(scan(tail, l as nat) is None);
                    } else {
                        assert(p + l > total);
                        assert(l as nat > tail.len());
                        assert(scan(tail, l as nat) is None);
                    }
                    assert(scan(tail, 1) is None);
                }
                if total - p >= 8 {
                    proof {
                        assert(tail.len() >= 8);
                        assert(huff_decoding(tail) == HuffDec::Failed);
                    }
                    return Err(Http2Error::HuffmanDecodingError);
                }
                let mut q: usize = p;
                while q < total
                    invariant
                        p <= q <= total == all.len(),
                        total - p < 8,
                        p < total,
                        bits@ == all,
                        all == bytes_bits(data@),
                        scan(all.skip(p as int), 1) is None,
                        huff_decoding(all) == (match huff_decoding(all.skip(p as int)) {
                            HuffDec::Decoded(rest) => HuffDec::Decoded(out@ + rest),
                            HuffDec::Failed => HuffDec::Failed,
                        }),
                        forall|i: int| p <= i < q ==> all[i],
                    decreases total - q,
                {
                    if !bits[q] {
                        proof {
                            let tl = all.skip(p as int);
                            assert(!tl[q - p]);
                            assert(!all_ones(tl));
                            assert(huff_decoding(tl) == HuffDec::Failed);
                        }
                        return Err(Http2Error::HuffmanDecodingError);
                    }
                    q = q + 1;
                }
                proof {
                    let tl = all.skip(p as int);
                    assert forall|i: int| 0 <= i < tl.len() implies tl[i] by {
                        assert(all[p + i]);
                    }
                    assert(all_ones(tl));
                    assert(tl.len() < 8 && tl.len() > 0);
                    assert(huff_decoding(tl) == HuffDec::Decoded(Seq::<u8>::empty()));
                    assert(out@ + Seq::<u8>::empty() =~= out@);
                }
                return Ok(out);
            },
        }
    }
}

} // verus!
