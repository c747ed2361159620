//! Variable-length unsigned integers.
//!
//! A number is written seven bits to a byte, least significant group first.
//! The high bit of a byte says that another byte follows.

use vstd::prelude::*;

verus! {

/// The bytes that stand for `n`: the shortest such encoding.
pub open spec fn varint(n: nat) -> Seq<u8>
    decreases n,
{
    if n < 128 {
        seq![n as u8]
    } else {
        seq![(n % 128 + 128) as u8] + varint(n / 128)
    }
}

/// Reads one number from the front of `s`, for a target type whose largest
/// value is `max`, and hands back what follows it.
///
/// Longer encodings of a number than the shortest one are read too, as long
/// as they take no more bytes than `max` itself does. A byte that ends the
/// number must not exceed what is left of `max` at its place; a byte that
/// announces another one is refused where `max` leaves room for none.
pub open spec fn take_varint(s: Seq<u8>, max: nat) -> Option<(nat, Seq<u8>)>
    decreases s.len(),
{
    if s.len() == 0 {
        None
    } else if s[0] < 128 {
        if s[0] <= max {
            Some((s[0] as nat, s.skip(1)))
        } else {
            None
        }
    } else if max < 128 {
        None
    } else {
        match take_varint(s.skip(1), max / 128) {
            Some((high, rest)) => Some(((s[0] - 128) as nat + 128 * high, rest)),
            None => None,
        }
    }
}

/// `max` is one less than a power of two: written in groups of seven bits,
/// every group but the topmost is all ones.
pub open spec fn all_ones(max: nat) -> bool
    decreases max,
{
    max < 128 || (max % 128 == 127 && all_ones(max / 128))
}

/// The largest values of `u32`, `u64` and `usize` are of that form.
pub proof fn lemma_all_ones_of_word_sizes()
    ensures
        all_ones(u32::MAX as nat),
        all_ones(u64::MAX as nat),
        all_ones(usize::MAX as nat),
{
    reveal_with_fuel(all_ones, 11);
    assert(all_ones(0xffff_ffff));
    assert(all_ones(0xffff_ffff_ffff_ffff));
    assert(usize::MAX == 0xffff_ffff || usize::MAX == 0xffff_ffff_ffff_ffff);
}

/// A number takes at least one byte: what is left is shorter than what was
/// given.
pub proof fn lemma_take_varint_shrinks(s: Seq<u8>, max: nat)
    ensures
        take_varint(s, max) matches Some((v, rest)) ==> rest.len() < s.len(),
    decreases s.len(),
{
    if s.len() > 0 && s[0] >= 128 && max >= 128 {
        lemma_take_varint_shrinks(s.skip(1), max / 128);
    }
}

/// Reading back what was written gives the number and leaves the rest.
pub proof fn lemma_varint_round_trip(n: nat, max: nat, rest: Seq<u8>)
    requires
        n <= max,
    ensures
        take_varint(varint(n) + rest, max) == Some((n, rest)),
    decreases n,
{
    let s = varint(n) + rest;
    if n < 128 {
        assert(s.skip(1) =~= rest);
    } else {
        assert(s.skip(1) =~= varint(n / 128) + rest);
        lemma_varint_round_trip(n / 128, max / 128, rest);
    }
}

/// Appends the bytes of `n` to `out`.
pub fn put_varint(out: &mut Vec<u8>, n: u64)
    ensures
        final(out)@ == old(out)@ + varint(n as nat),
    decreases n,
{
    if n < 128 {
        out.push(n as u8);
        assert(out@ =~= old(out)@ + varint(n as nat));
    } else {
        out.push((n % 128 + 128) as u8);
        put_varint(out, n / 128);
        assert(out@ =~= old(out)@ + varint(n as nat));
    }
}

/// Reads the number that starts at index `at` of `data`, for a target type
/// whose largest value is `max`; with it comes the index just behind it.
pub(crate) fn take_varint_at(data: &[u8], at: usize, max: u64) -> (r: Option<(u64, usize)>)
    requires
        at <= data@.len(),
        all_ones(max as nat),
    ensures
        match r {
            Some((v, next)) => {
                &&& at < next <= data@.len()
                &&& v <= max
                &&& take_varint(data@.skip(at as int), max as nat) == Some(
                    (v as nat, data@.skip(next as int)),
                )
            },
            None => take_varint(data@.skip(at as int), max as nat) is None,
        },
    decreases data@.len() - at,
{
    if at >= data.len() {
        return None;
    }
    let byte: u8 = data[at];
    assert(data@.skip(at as int)[0] == byte);
    assert(data@.skip(at as int).skip(1) =~= data@.skip(at + 1));
    if byte < 128 {
        if byte as u64 <= max {
            Some((byte as u64, at + 1))
        } else {
            None
        }
    } else if max < 128 {
        None
    } else {
        match take_varint_at(data, at + 1, max / 128) {
            Some((high, next)) => Some(((byte - 128) as u64 + 128 * high, next)),
            None => None,
        }
    }
}

/// Reads a `u32` from the front of `data`; with it comes the number of bytes
/// it took.
pub fn read_varint_u32(data: &[u8]) -> (r: Option<(u32, usize)>)
    ensures
        match r {
            Some((v, used)) => 0 < used <= data@.len() && take_varint(data@, u32::MAX as nat)
                == Some((v as nat, data@.skip(used as int))),
            None => take_varint(data@, u32::MAX as nat) is None,
        },
{
    proof {
        lemma_all_ones_of_word_sizes();
    }
    assert(data@.skip(0) =~= data@);
    match take_varint_at(data, 0, 0xffff_ffff) {
        Some((v, used)) => Some((v as u32, used)),
        None => None,
    }
}

/// Reads a `u64` from the front of `data`; with it comes the number of bytes
/// it took.
pub fn read_varint_u64(data: &[u8]) -> (r: Option<(u64, usize)>)
    ensures
        match r {
            Some((v, used)) => 0 < used <= data@.len() && take_varint(data@, u64::MAX as nat)
                == Some((v as nat, data@.skip(used as int))),
            None => take_varint(data@, u64::MAX as nat) is None,
        },
{
    proof {
        lemma_all_ones_of_word_sizes();
    }
    assert(data@.skip(0) =~= data@);
    take_varint_at(data, 0, 0xffff_ffff_ffff_ffff)
}

} // verus!
