//! Unsigned integers as bytes: the two byte orders, and the order of the machine
//! that runs the program.

use vstd::arithmetic::div_mod::lemma_div_denominator;
use vstd::prelude::*;

verus! {

/// An order of the bytes of an integer in storage.
#[derive(Clone, Copy, Debug, PartialEq, Eq, Structural)]
pub enum ByteOrder {
    /// Most significant byte first.
    Big,
    /// Least significant byte first.
    Little,
}

/// The number of values that `width` bytes can hold: 256 to the power `width`.
pub open spec fn limit(width: nat) -> nat
    decreases width,
{
    if width == 0 {
        1
    } else {
        256 * limit((width - 1) as nat)
    }
}

/// The `width` lowest base-256 digits of `v`, the lowest first.
pub open spec fn le_bytes(v: nat, width: nat) -> Seq<u8>
    decreases width,
{
    if width == 0 {
        Seq::empty()
    } else {
        seq![(v % 256) as u8] + le_bytes(v / 256, (width - 1) as nat)
    }
}

/// The `width` lowest base-256 digits of `v`, the highest first.
pub open spec fn be_bytes(v: nat, width: nat) -> Seq<u8> {
    le_bytes(v, width).reverse()
}

/// The number whose base-256 digits are `bytes`, the lowest first.
pub open spec fn le_value(bytes: Seq<u8>) -> nat
    decreases bytes.len(),
{
    if bytes.len() == 0 {
        0
    } else {
        bytes[0] as nat + 256 * le_value(bytes.subrange(1, bytes.len() as int))
    }
}

/// The number whose base-256 digits are `bytes`, the highest first.
pub open spec fn be_value(bytes: Seq<u8>) -> nat {
    le_value(bytes.reverse())
}

/// `v` in `width` bytes in the order `order`.
pub open spec fn encoded(v: nat, width: nat, order: ByteOrder) -> Seq<u8> {
    match order {
        ByteOrder::Big => be_bytes(v, width),
        ByteOrder::Little => le_bytes(v, width),
    }
}

/// The number that `bytes` hold in the order `order`.
pub open spec fn decoded(bytes: Seq<u8>, order: ByteOrder) -> nat {
    match order {
        ByteOrder::Big => be_value(bytes),
        ByteOrder::Little => le_value(bytes),
    }
}

/// A wider storage holds more values.
pub proof fn lemma_limit_grows(a: nat, b: nat)
    requires
        a <= b,
    ensures
        1 <= limit(a) <= limit(b),
    decreases b,
{
    if b == 0 {
    } else if a == b {
        lemma_limit_grows(0, (b - 1) as nat);
    } else {
        lemma_limit_grows(a, (b - 1) as nat);
    }
}

/// The limits of the four integer widths.
pub proof fn lemma_limit_values()
    ensures
        limit(0) == 1,
        limit(1) == 0x100,
        limit(2) == 0x1_0000,
        limit(4) == 0x1_0000_0000,
        limit(8) == 0x1_0000_0000_0000_0000,
{
    reveal_with_fuel(limit, 9);
}

/// An encoding has as many bytes as asked for.
pub proof fn lemma_encoded_len(v: nat, width: nat, order: ByteOrder)
    ensures
        encoded(v, width, order).len() == width,
    decreases width,
{
    if width > 0 {
        lemma_encoded_len(v / 256, (width - 1) as nat, ByteOrder::Little);
    }
}

/// Byte `i` of the little-endian encoding is the digit of weight 256 to the `i`.
pub proof fn lemma_le_digit(v: nat, width: nat, i: nat)
    requires
        i < width,
    ensures
        le_bytes(v, width).len() == width,
        le_bytes(v, width)[i as int] == (v / limit(i)) % 256,
    decreases width,
{
    let rest = le_bytes(v / 256, (width - 1) as nat);
    lemma_encoded_len(v, width, ByteOrder::Little);
    lemma_encoded_len(v / 256, (width - 1) as nat, ByteOrder::Little);
    if i > 0 {
        let below: nat = limit((i - 1) as nat);
        lemma_le_digit(v / 256, (width - 1) as nat, (i - 1) as nat);
        lemma_limit_grows(0, (i - 1) as nat);
        assert((v / 256) / below == v / (256 * below)) by {
            lemma_div_denominator(v as int, 256, below as int);
        }
        assert(le_bytes(v, width)[i as int] == rest[i - 1]);
    } else {
        assert(v / 1 == v);
    }
}

/// Byte `i` of the big-endian encoding is the digit of weight 256 to the
/// `width - 1 - i`.
pub proof fn lemma_be_digit(v: nat, width: nat, i: nat)
    requires
        i < width,
    ensures
        be_bytes(v, width).len() == width,
        be_bytes(v, width)[i as int] == (v / limit((width - 1 - i) as nat)) % 256,
{
    lemma_le_digit(v, width, (width - 1 - i) as nat);
}

proof fn lemma_le_value_below_limit(bytes: Seq<u8>)
    ensures
        le_value(bytes) < limit(bytes.len()),
    decreases bytes.len(),
{
    if bytes.len() > 0 {
        lemma_le_value_below_limit(bytes.subrange(1, bytes.len() as int));
    }
}

/// What `bytes` hold is below the limit of their number.
pub proof fn lemma_decoded_below_limit(bytes: Seq<u8>, order: ByteOrder)
    ensures
        decoded(bytes, order) < limit(bytes.len()),
{
    match order {
        ByteOrder::Big => lemma_le_value_below_limit(bytes.reverse()),
        ByteOrder::Little => lemma_le_value_below_limit(bytes),
    }
}

proof fn lemma_le_value_of_bytes(v: nat, width: nat)
    requires
        v < limit(width),
    ensures
        le_value(le_bytes(v, width)) == v,
    decreases width,
{
    if width > 0 {
        let rest = le_bytes(v / 256, (width - 1) as nat);
        let all = le_bytes(v, width);
        lemma_le_value_of_bytes(v / 256, (width - 1) as nat);
        assert(all.subrange(1, all.len() as int) =~= rest);
    }
}

/// Decoding an encoding gives the number back, where it fits the width.
pub proof fn lemma_decode_encoded(v: nat, width: nat, order: ByteOrder)
    requires
        v < limit(width),
    ensures
        decoded(encoded(v, width, order), order) == v,
{
    lemma_le_value_of_bytes(v, width);
    assert(le_bytes(v, width).reverse().reverse() =~= le_bytes(v, width));
}

proof fn lemma_le_bytes_of_value(bytes: Seq<u8>)
    ensures
        le_bytes(le_value(bytes), bytes.len()) == bytes,
    decreases bytes.len(),
{
    if bytes.len() > 0 {
        let rest = bytes.subrange(1, bytes.len() as int);
        lemma_le_bytes_of_value(rest);
        assert(seq![bytes[0]] + rest =~= bytes);
    } else {
        assert(bytes =~= Seq::<u8>::empty());
    }
}

/// Encoding what bytes hold, in as many bytes, gives the bytes back.
pub proof fn lemma_encode_decoded(bytes: Seq<u8>, order: ByteOrder)
    ensures
        encoded(decoded(bytes, order), bytes.len(), order) == bytes,
{
    match order {
        ByteOrder::Big => {
            lemma_le_bytes_of_value(bytes.reverse());
            assert(bytes.reverse().reverse() =~= bytes);
        },
        ByteOrder::Little => lemma_le_bytes_of_value(bytes),
    }
}

fn reversed(bytes: Vec<u8>) -> (back: Vec<u8>)
    ensures
        back@ == bytes@.reverse(),
{
    let n: usize = bytes.len();
    let mut back: Vec<u8> = Vec::new();
    let mut k: usize = 0;
    while k < n
        invariant
            n == bytes@.len(),
            k <= n,
            back@.len() == k,
            forall|i: int| 0 <= i < k ==> back@[i] == bytes@[n - 1 - i],
        decreases n - k,
    {
        back.push(bytes[n - 1 - k]);
        k += 1;
    }
    assert(back@ =~= bytes@.reverse());
    back
}

/// Encodes the `width` lowest bytes of `v` in the order `order`.
pub fn encode(v: u64, width: usize, order: ByteOrder) -> (bytes: Vec<u8>)
    ensures
        bytes@ == encoded(v as nat, width as nat, order),
{
    let mut digits: Vec<u8> = Vec::new();
    let mut rest: u64 = v;
    let mut k: usize = 0;
    while k < width
        invariant
            k <= width,
            digits@.len() == k,
            le_bytes(v as nat, width as nat) == digits@ + le_bytes(rest as nat, (width - k) as nat),
        decreases width - k,
    {
        let ghost before = digits@;
        digits.push((rest % 256) as u8);
        proof {
            let tail = le_bytes((rest / 256) as nat, (width - k - 1) as nat);
            assert(digits@ + tail =~= before + (seq![(rest % 256) as u8] + tail));
        }
        rest = rest / 256;
        k += 1;
    }
    assert(digits@ =~= le_bytes(v as nat, width as nat));
    match order {
        ByteOrder::Little => digits,
        ByteOrder::Big => reversed(digits),
    }
}

/// Decodes the number that at most eight bytes hold in the order `order`.
pub fn decode(bytes: &[u8], order: ByteOrder) -> (v: u64)
    requires
        bytes@.len() <= 8,
    ensures
        v as nat == decoded(bytes@, order),
{
    let n: usize = bytes.len();
    let mut acc: u64 = 0;
    proof {
        lemma_limit_values();
    }
    match order {
        ByteOrder::Big => {
            let mut k: usize = 0;
            while k < n
                invariant
                    n == bytes@.len(),
                    n <= 8,
                    k <= n,
                    acc as nat == le_value(bytes@.subrange(0, k as int).reverse()),
                    acc < limit(k as nat),
                    limit(8) == 0x1_0000_0000_0000_0000,
                decreases n - k,
            {
                proof {
                    let next = bytes@.subrange(0, k + 1).reverse();
                    assert(next.subrange(1, next.len() as int) =~= bytes@.subrange(
                        0,
                        k as int,
                    ).reverse());
                    assert(next[0] == bytes@[k as int]);
                    lemma_limit_grows((k + 1) as nat, 8);
                }
                acc = acc * 256 + bytes[k] as u64;
                k += 1;
            }
            assert(bytes@.subrange(0, n as int) =~= bytes@);
        },
        ByteOrder::Little => {
            let mut k: usize = n;
            while k > 0
                invariant
                    n == bytes@.len(),
                    n <= 8,
                    k <= n,
                    acc as nat == le_value(bytes@.subrange(k as int, n as int)),
                    acc < limit((n - k) as nat),
                    limit(8) == 0x1_0000_0000_0000_0000,
                decreases k,
            {
                proof {
                    let next = bytes@.subrange(k - 1, n as int);
                    assert(next.subrange(1, next.len() as int) =~= bytes@.subrange(
                        k as int,
                        n as int,
                    ));
                    assert(next[0] == bytes@[k - 1]);
                    lemma_limit_grows((n - k + 1) as nat, 8);
                }
                k -= 1;
                acc = acc * 256 + bytes[k] as u64;
            }
            assert(bytes@.subrange(0, n as int) =~= bytes@);
        },
    }
    acc
}

/// `u16::to_ne_bytes`: the two bytes of `v` as the running machine stores them,
/// which is in one of the two byte orders. Which one depends on the machine.
#[verifier::external_body]
fn native_bytes(v: u16) -> (bytes: [u8; 2])
    ensures
        bytes@ == le_bytes(v as nat, 2) || bytes@ == be_bytes(v as nat, 2),
{
    v.to_ne_bytes()
}

/// The byte order that the stored form `probe` of the number one shows: little
/// where the one stands in the first byte, big where it does not.
pub fn order_shown_by(probe: &[u8; 2]) -> (order: ByteOrder)
    ensures
        order == if probe@[0] == 1 {
            ByteOrder::Little
        } else {
            ByteOrder::Big
        },
        forall|o: ByteOrder| probe@ == encoded(1, 2, o) ==> order == o,
{
    proof {
        reveal_with_fuel(le_bytes, 3);
        assert(le_bytes(1, 2)[0] == 1);
        assert(be_bytes(1, 2)[0] == le_bytes(1, 2)[1]);
    }
    if probe[0] == 1 {
        ByteOrder::Little
    } else {
        ByteOrder::Big
    }
}

/// The byte order of the machine that runs the program.
pub fn host_order() -> ByteOrder {
    let probe = native_bytes(1);
    order_shown_by(&probe)
}

} // verus!
