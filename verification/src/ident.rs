//! Identifiers of transfers and files.
use vstd::prelude::*;
use crate::path_order::{path_before, rank};

verus! {

pub open spec fn hex_char(digit: nat) -> char {
    if digit < 10 {
        ('0' as u8 + digit) as char
    } else {
        ('a' as u8 + (digit - 10)) as char
    }
}

/// The last `width` hexadecimal digits of a number, most significant first.
pub open spec fn hex_digits(value: nat, width: nat) -> Seq<char>
    decreases width,
{
    if width == 0 {
        Seq::empty()
    } else {
        hex_digits(value / 16, (width - 1) as nat).push(hex_char(value % 16))
    }
}

/// An identifier in writing: its 32 digits in groups of 8, 4, 4, 4 and 12.
pub open spec fn hyphenated(bits: u128) -> Seq<char> {
    let digits = hex_digits(bits as nat, 32);
    digits.subrange(0, 8) + seq!['-'] + digits.subrange(8, 12) + seq!['-'] + digits.subrange(12, 16)
        + seq!['-'] + digits.subrange(16, 20) + seq!['-'] + digits.subrange(20, 32)
}

/// The bits of a random identifier that are not random: version 4 in the thirteenth digit, and
/// `10` at the top of the seventeenth.
pub open spec fn marked_random(bits: u128) -> bool {
    &&& (bits >> 76) & 0xf == 4
    &&& (bits >> 62) & 3 == 2
}

/// Draws a random identifier with `uuid::Uuid::new_v4`. All that is claimed is what holds of every
/// draw: the version and variant bits that the crate sets. The draw fails only where the operating
/// system has no random numbers to give.
#[verifier::external_body]
pub(crate) fn random_id() -> (bits: u128)
    ensures
        marked_random(bits),
{
    uuid::Uuid::new_v4().as_u128()
}

/// Writes an identifier with the `Display` impl of `uuid::Uuid`: lower case digits with hyphens.
#[verifier::external_body]
pub(crate) fn id_text(bits: u128) -> (text: String)
    ensures
        text@ == hyphenated(bits),
{
    uuid::Uuid::from_u128(bits).to_string()
}

#[derive(Debug, Clone, Copy, PartialEq, Eq, Hash, Structural)]
pub struct TransferId(u128);

impl TransferId {
    pub closed spec fn bits(self) -> u128 {
        self.0
    }

    /// A fresh random identifier.
    pub fn new() -> (id: Self)
        ensures
            marked_random(id.bits()),
    {
        Self(random_id())
    }

    pub fn from_bits(bits: u128) -> (id: Self)
        ensures
            id.bits() == bits,
    {
        Self(bits)
    }

    /// The 128 bits of the identifier.
    pub fn as_uuid(self) -> (bits: u128)
        ensures
            bits == self.bits(),
    {
        self.0
    }

    pub fn to_text(self) -> (text: String)
        ensures
            text@ == hyphenated(self.bits()),
    {
        id_text(self.0)
    }

    /// The identifier as it is written in descriptions.
    pub open spec fn debug_text(self) -> Seq<char> {
        "TransferId("@ + hyphenated(self.bits()) + ")"@
    }

    pub fn description(self) -> (text: String)
        ensures
            text@ == self.debug_text(),
    {
        let mut text = "TransferId(".to_owned();
        text.append(id_text(self.0).as_str());
        text.append(")");
        text
    }

    pub fn same(self, other: Self) -> (same: bool)
        ensures
            same == (self == other),
            same == (self.bits() == other.bits()),
    {
        self.0 == other.0
    }
}

impl Default for TransferId {
    fn default() -> (id: Self)
        ensures
            marked_random(id.bits()),
    {
        Self::new()
    }
}

/// A lower case hexadecimal digit or a hyphen.
pub open spec fn id_char(c: char) -> bool {
    ||| 48 <= c as u32 && c as u32 <= 57
    ||| 97 <= c as u32 && c as u32 <= 102
    ||| c == '-'
}

proof fn lemma_hex_chars(value: nat, width: nat)
    ensures
        hex_digits(value, width).len() == width,
        forall|i: int| 0 <= i < width ==> id_char(#[trigger] hex_digits(value, width)[i]),
    decreases width,
{
    if width > 0 {
        lemma_hex_chars(value / 16, (width - 1) as nat);
    }
}

/// An identifier in writing is 36 digits and hyphens.
pub proof fn law_id_text_is_plain(bits: u128)
    ensures
        hyphenated(bits).len() == 36,
        forall|i: int| 0 <= i < 36 ==> id_char(#[trigger] hyphenated(bits)[i]),
{
    lemma_hex_chars(bits as nat, 32);
}

/// How many numbers have hexadecimal digits of a width.
spec fn hex_bound(width: nat) -> nat
    decreases width,
{
    if width == 0 {
        1
    } else {
        16 * hex_bound((width - 1) as nat)
    }
}

proof fn lemma_rank_of(c: char, d: char)
    ensures
        rank(c) == rank(d) <==> c == d,
{
}

/// The order of two texts is that of their starts, where these are equally long and differ, and
/// else that of their rests.
proof fn lemma_before_in_two_parts(x: Seq<char>, u: Seq<char>, y: Seq<char>, v: Seq<char>)
    requires
        x.len() == y.len(),
    ensures
        path_before(x + u, y + v) == (path_before(x, y) || (x == y && path_before(u, v))),
    decreases x.len(),
{
    let a = x + u;
    let b = y + v;
    if x.len() == 0 {
        assert(a =~= u);
        assert(b =~= v);
        assert(x =~= y);
    } else {
        assert(a.skip(1) =~= x.skip(1) + u);
        assert(b.skip(1) =~= y.skip(1) + v);
        lemma_before_in_two_parts(x.skip(1), u, y.skip(1), v);
        lemma_rank_of(x[0], y[0]);
        assert(x =~= seq![x[0]] + x.skip(1));
        assert(y =~= seq![y[0]] + y.skip(1));
    }
}

proof fn lemma_one_char_before(c: char, d: char)
    ensures
        path_before(seq![c], seq![d]) == (rank(c) < rank(d)),
{
    assert(seq![d].skip(1).len() == 0);
    assert(!path_before(seq![c].skip(1), seq![d].skip(1)));
}

proof fn lemma_hex_order(a: nat, b: nat, width: nat)
    requires
        a < hex_bound(width),
        b < hex_bound(width),
    ensures
        hex_digits(a, width).len() == width,
        hex_digits(b, width).len() == width,
        path_before(hex_digits(a, width), hex_digits(b, width)) == (a < b),
        hex_digits(a, width) == hex_digits(b, width) <==> a == b,
    decreases width,
{
    if width > 0 {
        let less = (width - 1) as nat;
        let x = hex_digits(a / 16, less);
        let y = hex_digits(b / 16, less);
        let c = hex_char(a % 16);
        let d = hex_char(b % 16);
        lemma_hex_order(a / 16, b / 16, less);
        lemma_before_in_two_parts(x, seq![c], y, seq![d]);
        lemma_one_char_before(c, d);
        assert(x.push(c) =~= x + seq![c]);
        assert(y.push(d) =~= y + seq![d]);
        assert(x.push(c).drop_last() =~= x);
        assert(y.push(d).drop_last() =~= y);
        assert(x.push(c).last() == c);
        assert(y.push(d).last() == d);
    }
}

/// A hyphen after equally many characters does not change an order.
proof fn lemma_hyphen_between(x: Seq<char>, u: Seq<char>, y: Seq<char>, v: Seq<char>)
    requires
        x.len() == y.len(),
    ensures
        path_before(x + (seq!['-'] + u), y + (seq!['-'] + v)) == (path_before(x, y) || (x == y
            && path_before(u, v))),
        x + (seq!['-'] + u) == y + (seq!['-'] + v) <==> x == y && u == v,
{
    let a = seq!['-'] + u;
    let b = seq!['-'] + v;
    lemma_before_in_two_parts(x, a, y, b);
    lemma_before_in_two_parts(seq!['-'], u, seq!['-'], v);
    crate::path_order::lemma_before_irreflexive(seq!['-']);
    assert((x + a).take(x.len() as int) =~= x);
    assert((y + b).take(x.len() as int) =~= y);
    assert((x + a).skip(x.len() as int + 1) =~= u);
    assert((y + b).skip(x.len() as int + 1) =~= v);
}

/// Identifiers are in the order of their texts.
pub proof fn law_ids_are_in_the_order_of_their_texts(a: u128, b: u128)
    ensures
        path_before(hyphenated(a), hyphenated(b)) == (a < b),
        hyphenated(a) == hyphenated(b) <==> a == b,
{
    assert(hex_bound(32) == 0x1_0000_0000_0000_0000_0000_0000_0000_0000) by {
        reveal_with_fuel(hex_bound, 33);
    }
    lemma_hex_order(a as nat, b as nat, 32);
    let x = hex_digits(a as nat, 32);
    let y = hex_digits(b as nat, 32);
    let h = seq!['-'];
    let (x4, y4) = (x.subrange(20, 32), y.subrange(20, 32));
    let (x3, y3) = (x.subrange(16, 20) + (h + x4), y.subrange(16, 20) + (h + y4));
    let (x2, y2) = (x.subrange(12, 16) + (h + x3), y.subrange(12, 16) + (h + y3));
    let (x1, y1) = (x.subrange(8, 12) + (h + x2), y.subrange(8, 12) + (h + y2));
    assert(hyphenated(a) =~= x.subrange(0, 8) + (h + x1));
    assert(hyphenated(b) =~= y.subrange(0, 8) + (h + y1));
    lemma_hyphen_between(x.subrange(0, 8), x1, y.subrange(0, 8), y1);
    lemma_hyphen_between(x.subrange(8, 12), x2, y.subrange(8, 12), y2);
    lemma_hyphen_between(x.subrange(12, 16), x3, y.subrange(12, 16), y3);
    lemma_hyphen_between(x.subrange(16, 20), x4, y.subrange(16, 20), y4);
    lemma_before_cut(x, y, 0, 8);
    lemma_before_cut(x, y, 8, 12);
    lemma_before_cut(x, y, 12, 16);
    lemma_before_cut(x, y, 16, 20);
    assert(x.subrange(0, 32) =~= x);
    assert(y.subrange(0, 32) =~= y);
}

/// The order of the rest of two texts, cut in two.
proof fn lemma_before_cut(x: Seq<char>, y: Seq<char>, from: int, cut: int)
    requires
        x.len() == 32,
        y.len() == 32,
        0 <= from <= cut <= 32,
    ensures
        ({
            let (xa, ya) = (x.subrange(from, cut), y.subrange(from, cut));
            let (xb, yb) = (x.subrange(cut, 32), y.subrange(cut, 32));
            let (xs, ys) = (x.subrange(from, 32), y.subrange(from, 32));
            &&& path_before(xs, ys) == (path_before(xa, ya) || (xa == ya && path_before(xb, yb)))
            &&& xs == ys <==> xa == ya && xb == yb
        }),
{
    let (xa, ya) = (x.subrange(from, cut), y.subrange(from, cut));
    let (xb, yb) = (x.subrange(cut, 32), y.subrange(cut, 32));
    let (xs, ys) = (x.subrange(from, 32), y.subrange(from, 32));
    assert(xs =~= xa + xb);
    assert(ys =~= ya + yb);
    lemma_before_in_two_parts(xa, xb, ya, yb);
    assert(xs.take(cut - from) =~= xa);
    assert(ys.take(cut - from) =~= ya);
    assert(xs.skip(cut - from) =~= xb);
    assert(ys.skip(cut - from) =~= yb);
}

/// A random identifier is never the nil identifier.
pub proof fn law_random_is_not_nil(bits: u128)
    requires
        marked_random(bits),
    ensures
        bits != 0,
{
    assert(bits == 0 ==> (bits >> 76) & 0xf == 0) by (bit_vector);
}

} // verus!
