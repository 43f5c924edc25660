//! Unsigned integers as big-endian byte sequences.
use vstd::prelude::*;

verus! {

/// The number that a byte sequence denotes, most significant byte first.
pub open spec fn be_value(s: Seq<u8>) -> nat
    decreases s.len(),
{
    if s.len() == 0 {
        0
    } else {
        be_value(s.drop_last()) * 256 + s.last() as nat
    }
}

/// The `width` least significant bytes of `v`, most significant byte first.
pub open spec fn be_bytes(v: nat, width: nat) -> Seq<u8>
    decreases width,
{
    if width == 0 {
        Seq::empty()
    } else {
        be_bytes(v / 256, (width - 1) as nat).push((v % 256) as u8)
    }
}

/// The number of values that `width` bytes can denote.
pub open spec fn be_capacity(width: nat) -> nat
    decreases width,
{
    if width == 0 {
        1
    } else {
        256 * be_capacity((width - 1) as nat)
    }
}

pub proof fn lemma_be_bytes_len(v: nat, width: nat)
    ensures
        be_bytes(v, width).len() == width,
    decreases width,
{
    if width > 0 {
        lemma_be_bytes_len(v / 256, (width - 1) as nat);
    }
}

/// Reading back the bytes of a number that fits gives the number.
pub proof fn lemma_be_value_of_bytes(v: nat, width: nat)
    requires
        v < be_capacity(width),
    ensures
        be_value(be_bytes(v, width)) == v,
    decreases width,
{
    if width > 0 {
        let w = (width - 1) as nat;
        lemma_be_value_of_bytes(v / 256, w);
        assert(be_bytes(v, width).drop_last() =~= be_bytes(v / 256, w));
    }
}

/// Writing out the number that a byte sequence denotes gives the sequence.
pub proof fn lemma_be_bytes_of_value(s: Seq<u8>)
    ensures
        be_bytes(be_value(s), s.len()) == s,
        be_value(s) < be_capacity(s.len()),
    decreases s.len(),
{
    if s.len() > 0 {
        lemma_be_bytes_of_value(s.drop_last());
        let v = be_value(s);
        assert(v / 256 == be_value(s.drop_last()));
        assert(v % 256 == s.last() as nat);
        assert(s.drop_last().push(s.last()) =~= s);
    } else {
        assert(s =~= Seq::<u8>::empty());
    }
}

/// Only the part of a number below the capacity of the width is written.
pub proof fn lemma_be_bytes_wrap(v: nat, width: nat)
    ensures
        be_bytes(v, width) == be_bytes(v % be_capacity(width), width),
    decreases width,
{
    if width > 0 {
        let c = be_capacity((width - 1) as nat);
        lemma_be_capacity_positive((width - 1) as nat);
        let r = v % (256 * c);
        vstd::arithmetic::div_mod::lemma_mod_breakdown(v as int, 256, c as int);
        assert(r == 256 * ((v / 256) % c) + v % 256);
        assert(r / 256 == (v / 256) % c);
        assert(r % 256 == v % 256);
        lemma_be_bytes_wrap(v / 256, (width - 1) as nat);
    }
}

proof fn lemma_be_capacity_positive(width: nat)
    ensures
        be_capacity(width) > 0,
    decreases width,
{
    if width > 0 {
        lemma_be_capacity_positive((width - 1) as nat);
    }
}

/// The capacities of the widths that the frame format uses.
pub proof fn lemma_be_capacities()
    ensures
        be_capacity(2) == 0x1_0000,
        be_capacity(4) == 0x1_0000_0000,
        be_capacity(16) == 0x1_0000_0000_0000_0000_0000_0000_0000_0000,
{
    reveal_with_fuel(be_capacity, 17);
}

} // verus!
