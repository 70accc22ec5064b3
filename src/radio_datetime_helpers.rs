//! Stateless helpers on the per-second bit buffer of a decoder.

use vstd::prelude::*;

verus! {

/// Number of distinct values of a `u32` microsecond counter.
pub open spec fn counter_period() -> int {
    0x1_0000_0000
}

/// Forward distance from `t0` to `t1` on a counter that wraps at `u32::MAX`.
pub open spec fn wrapping_distance(t0: u32, t1: u32) -> int {
    if t1 >= t0 {
        t1 - t0
    } else {
        counter_period() + t1 - t0
    }
}

/// Return the difference in microseconds between two timestamps.
///
/// The timestamps are `u32` counters, so they wrap every 71m35s; the result is
/// the time that passed from `t0` to `t1` with at most one wrap in between.
pub fn time_diff(t0: u32, t1: u32) -> (r: u32)
    ensures
        r == wrapping_distance(t0, t1),
        (t0 + r) % counter_period() == t1,
        t0 == t1 ==> r == 0,
{
    if t1 >= t0 {
        t1 - t0
    } else {
        // t1 < t0, so t0 > 0 and the subtraction below cannot underflow
        u32::MAX - t0 + t1 + 1
    }
}

/// Widest span, in bits, that `get_bcd_value` decodes.
pub const MAX_BCD_RANGE: usize = 8;

/// Distance between the two ends of an inclusive bit span.
pub open spec fn span_width(start: int, stop: int) -> int {
    if start <= stop {
        stop - start
    } else {
        start - stop
    }
}

/// The bits of `buffer` from `start` to `stop` inclusive, in reading order:
/// upwards when `start <= stop`, downwards otherwise.
pub open spec fn span(buffer: Seq<Option<bool>>, start: int, stop: int) -> Seq<Option<bool>> {
    Seq::new(
        (span_width(start, stop) + 1) as nat,
        |i: int|
            if start <= stop {
                buffer[start + i]
            } else {
                buffer[start - i]
            },
    )
}

/// Every bit observation in `bits` is known.
pub open spec fn all_known(bits: Seq<Option<bool>>) -> bool {
    forall|i: int| 0 <= i < bits.len() ==> (#[trigger] bits[i]).is_some()
}

/// Weight of the bit at position `k` in a binary number, least significant first.
pub open spec fn bit_weight(k: nat) -> nat
    decreases k,
{
    if k == 0 {
        1
    } else {
        2 * bit_weight((k - 1) as nat)
    }
}

/// Binary value of `bits`, least significant bit first; unknown bits count as zero.
pub open spec fn bits_value(bits: Seq<Option<bool>>) -> nat
    decreases bits.len(),
{
    if bits.len() == 0 {
        0
    } else {
        bits_value(bits.drop_last()) + if bits.last() == Some(true) {
            bit_weight((bits.len() - 1) as nat)
        } else {
            0
        }
    }
}

/// The units digit of a packed BCD number: its first four bits (or fewer).
pub open spec fn bcd_ones(bits: Seq<Option<bool>>) -> nat {
    bits_value(bits.take(if bits.len() < 4 { bits.len() as int } else { 4 }))
}

/// The tens digit of a packed BCD number: its bits after the first four.
pub open spec fn bcd_tens(bits: Seq<Option<bool>>) -> nat {
    if bits.len() > 4 {
        bits_value(bits.subrange(4, bits.len() as int))
    } else {
        0
    }
}

/// Packed BCD value of `bits`, least significant bit first, if every bit is
/// known, the units digit is at most 9 and the value is below 100.
pub open spec fn bcd_of(bits: Seq<Option<bool>>) -> Option<u8> {
    let value = bcd_ones(bits) + 10 * bcd_tens(bits);
    if !all_known(bits) || bcd_ones(bits) > 9 || value > 99 {
        None
    } else {
        Some(value as u8)
    }
}

/// What `get_bcd_value` returns: spans wider than eight bits are refused.
pub open spec fn bcd_value(buffer: Seq<Option<bool>>, start: int, stop: int) -> Option<u8> {
    if span_width(start, stop) >= MAX_BCD_RANGE {
        None
    } else {
        bcd_of(span(buffer, start, stop))
    }
}

proof fn lemma_bits_value_bound(bits: Seq<Option<bool>>)
    ensures
        bits_value(bits) < bit_weight(bits.len()),
    decreases bits.len(),
{
    if bits.len() > 0 {
        lemma_bits_value_bound(bits.drop_last());
    }
}

/// The four bits of the decimal digit `d`, least significant first.
pub open spec fn digit_bits(d: nat) -> Seq<Option<bool>> {
    seq![Some(d % 2 == 1), Some((d / 2) % 2 == 1), Some((d / 4) % 2 == 1), Some((d / 8) % 2 == 1)]
}

/// The eight bits of `v` in packed BCD: units digit first, then tens digit.
pub open spec fn bcd_bits(v: nat) -> Seq<Option<bool>> {
    digit_bits(v % 10) + digit_bits(v / 10)
}

proof fn lemma_digit_bits_value(d: nat)
    requires
        d < 16,
    ensures
        bits_value(digit_bits(d)) == d,
{
    let b = digit_bits(d);
    reveal_with_fuel(bit_weight, 4);
    assert(b.take(1).drop_last() =~= b.take(0));
    assert(bits_value(b.take(0)) == 0);
    assert(b.take(1).last() == b[0]);
    assert(b.take(2).last() == b[1]);
    assert(b.take(3).last() == b[2]);
    assert(bits_value(b.take(1)) == if d % 2 == 1 { 1nat } else { 0 });
    assert(b.take(2).drop_last() =~= b.take(1));
    assert(bits_value(b.take(2)) == bits_value(b.take(1)) + if (d / 2) % 2 == 1 { 2nat } else { 0 });
    assert(b.take(3).drop_last() =~= b.take(2));
    assert(bits_value(b.take(3)) == bits_value(b.take(2)) + if (d / 4) % 2 == 1 { 4nat } else { 0 });
    assert(b.drop_last() =~= b.take(3));
    assert(bits_value(b) == bits_value(b.take(3)) + if (d / 8) % 2 == 1 { 8nat } else { 0 });
    let x = d as u8;
    assert(x == x % 2 + 2 * ((x / 2) % 2) + 4 * ((x / 4) % 2) + 8 * ((x / 8) % 2)) by (bit_vector)
        requires
            x < 16,
    ;
}

/// Packed BCD round trip: the bits of any value up to 99 decode to that value.
pub proof fn lemma_bcd_round_trip(v: nat)
    requires
        v <= 99,
    ensures
        bcd_of(bcd_bits(v)) == Some(v as u8),
{
    let bits = bcd_bits(v);
    assert(bits.take(4) =~= digit_bits(v % 10));
    assert(bits.subrange(4, 8) =~= digit_bits(v / 10));
    lemma_digit_bits_value(v % 10);
    lemma_digit_bits_value(v / 10);
}

/// Reading a span backwards gives the forward reading of the same bits, reversed.
pub proof fn lemma_backwards_span_is_reversed(buffer: Seq<Option<bool>>, start: int, stop: int)
    ensures
        span(buffer, start, stop) == span(buffer, stop, start).reverse(),
        bcd_value(buffer, start, stop) == if span_width(start, stop) >= MAX_BCD_RANGE {
            None
        } else {
            bcd_of(span(buffer, stop, start).reverse())
        },
{
    assert(span(buffer, start, stop) =~= span(buffer, stop, start).reverse());
}

/// Returns the BCD-encoded value of the given buffer over the given range, or
/// `None` if the range is wider than eight bits, holds an unknown bit, or does
/// not encode a valid BCD number below 100.
///
/// # Arguments
/// * `bit_buffer` - buffer containing the bits
/// * `start` - start bit position (least significant)
/// * `stop` - stop bit position (most significant)
pub fn get_bcd_value(bit_buffer: &[Option<bool>], start: usize, stop: usize) -> (r: Option<u8>)
    requires
        span_width(start as int, stop as int) < MAX_BCD_RANGE ==> start < bit_buffer@.len()
            && stop < bit_buffer@.len(),
    ensures
        r == bcd_value(bit_buffer@, start as int, stop as int),
        span_width(start as int, stop as int) >= MAX_BCD_RANGE ==> r.is_none(),
        !all_known(span(bit_buffer@, start as int, stop as int)) ==> r.is_none(),
{
    let (p0, p1) = min_max(start, stop);
    if p1 - p0 >= MAX_BCD_RANGE {
        return None;
    }
    let ghost bits = span(bit_buffer@, start as int, stop as int);
    let n: usize = p1 - p0 + 1;
    let mut bcd: u8 = 0;
    let mut mult: u8 = 1;
    let mut i: usize = 0;
    while i < n
        invariant
            n == bits.len(),
            n <= MAX_BCD_RANGE,
            i <= n,
            bits == span(bit_buffer@, start as int, stop as int),
            start < bit_buffer@.len(),
            stop < bit_buffer@.len(),
            all_known(bits.take(i as int)),
            i < 4 ==> bcd == bits_value(bits.take(i as int)) && mult == bit_weight(i as nat),
            i >= 4 ==> bits_value(bits.take(4)) <= 9 && bcd == bits_value(bits.take(4)) + 10
                * bits_value(bits.subrange(4, i as int)) && mult == 10 * bit_weight(
                (i - 4) as nat,
            ),
        decreases n - i,
    {
        let idx: usize = if start <= stop {
            start + i
        } else {
            start - i
        };
        let observed = bit_buffer[idx];
        assert(observed == bits[i as int]);
        let bit = match observed {
            Some(b) => b,
            None => {
                assert(!all_known(bits));
                return None;
            },
        };
        proof {
            assert(bits.take(i + 1).drop_last() =~= bits.take(i as int));
            if i >= 4 {
                assert(bits.subrange(4, i + 1).drop_last() =~= bits.subrange(4, i as int));
                lemma_bits_value_bound(bits.subrange(4, i as int));
                lemma_bits_value_bound(bits.subrange(4, i + 1));
                assert(bit_weight((i - 4) as nat) <= 8) by {
                    reveal_with_fuel(bit_weight, 5);
                };
                assert(bit_weight((i + 1 - 4) as nat) <= 16) by {
                    reveal_with_fuel(bit_weight, 5);
                };
            } else {
                reveal_with_fuel(bit_weight, 5);
                lemma_bits_value_bound(bits.take(i as int));
            }
        }
        if bit {
            bcd = bcd + mult;
        }
        mult = mult * 2;
        if mult == 16 {
            if bcd > 9 {
                return None;
            }
            mult = 10;
        }
        i = i + 1;
        proof {
            assert forall|j: int| 0 <= j < i implies (#[trigger] bits.take(i as int)[j]).is_some() by {
                if j < i - 1 {
                    assert(bits.take(i as int)[j] == bits.take(i - 1)[j]);
                }
            }
        }
    }
    proof {
        assert(bits.take(n as int) =~= bits);
        lemma_bits_value_bound(bits.take(n as int));
        reveal_with_fuel(bit_weight, 5);
    }
    if bcd < 100 {
        Some(bcd)
    } else {
        None
    }
}

/// Number of bits in `bits` observed as set.
pub open spec fn count_set(bits: Seq<Option<bool>>) -> nat
    decreases bits.len(),
{
    if bits.len() == 0 {
        0
    } else {
        count_set(bits.drop_last()) + if bits.last() == Some(true) {
            1nat
        } else {
            0
        }
    }
}

/// Parity of `seed` together with `bits`: `Some(false)` when the number of set
/// bits among them is even, `Some(true)` when it is odd, `None` when any is unknown.
pub open spec fn parity_of(bits: Seq<Option<bool>>, seed: Option<bool>) -> Option<bool> {
    if seed.is_none() || !all_known(bits) {
        None
    } else {
        Some(seed.unwrap() != (count_set(bits) % 2 == 1))
    }
}

proof fn lemma_count_set_append(a: Seq<Option<bool>>, b: Seq<Option<bool>>)
    ensures
        count_set(a + b) == count_set(a) + count_set(b),
    decreases b.len(),
{
    if b.len() == 0 {
        assert(a + b =~= a);
    } else {
        assert((a + b).drop_last() =~= a + b.drop_last());
        lemma_count_set_append(a, b.drop_last());
    }
}

proof fn lemma_count_set_reverse(bits: Seq<Option<bool>>)
    ensures
        count_set(bits.reverse()) == count_set(bits),
    decreases bits.len(),
{
    if bits.len() > 0 {
        let init = bits.drop_last();
        let last = seq![bits.last()];
        assert(bits.reverse() =~= last + init.reverse());
        lemma_count_set_append(last, init.reverse());
        lemma_count_set_reverse(init);
        assert(last.drop_last() =~= Seq::<Option<bool>>::empty());
        assert(count_set(last.drop_last()) == 0);
        assert(last.last() == bits.last());
        assert(count_set(last) + count_set(init) == count_set(bits));
    }
}

/// Parity does not depend on the direction in which a span is read.
pub proof fn lemma_parity_direction_free(
    buffer: Seq<Option<bool>>,
    start: int,
    stop: int,
    seed: Option<bool>,
)
    ensures
        parity_of(span(buffer, start, stop), seed) == parity_of(span(buffer, stop, start), seed),
{
    let fwd = span(buffer, stop, start);
    lemma_backwards_span_is_reversed(buffer, start, stop);
    lemma_count_set_reverse(fwd);
    assert(all_known(fwd.reverse()) == all_known(fwd)) by {
        if all_known(fwd) {
            assert forall|i: int| 0 <= i < fwd.reverse().len() implies (
            #[trigger] fwd.reverse()[i]).is_some() by {
                assert(fwd.reverse()[i] == fwd[fwd.len() - 1 - i]);
            }
        }
        if all_known(fwd.reverse()) {
            assert forall|i: int| 0 <= i < fwd.len() implies (#[trigger] fwd[i]).is_some() by {
                assert(fwd.reverse()[fwd.len() - 1 - i] == fwd[i]);
            }
        }
    }
}

/// Returns parity of the given buffer over the given range, or `None` if the
/// parity bit or any bit of the range is unknown.
/// Should be `Some(false)` for even parity and `Some(true)` for odd parity.
///
/// # Arguments
/// * `bit_buffer` - buffer containing the bits to check.
/// * `start` - start bit position
/// * `stop` - stop bit position
/// * `parity` - parity bit value
pub fn get_parity(bit_buffer: &[Option<bool>], start: usize, stop: usize, parity: Option<bool>) -> (r:
    Option<bool>)
    requires
        start < bit_buffer@.len(),
        stop < bit_buffer@.len(),
    ensures
        r == parity_of(span(bit_buffer@, start as int, stop as int), parity),
        parity is None || !all_known(span(bit_buffer@, start as int, stop as int)) ==> r is None,
        r == Some(false) <==> parity is Some && all_known(span(bit_buffer@, start as int, stop as int))
            && (count_set(span(bit_buffer@, start as int, stop as int)) + if parity == Some(true) {
            1nat
        } else {
            0
        }) % 2 == 0,
{
    let mut s_parity = match parity {
        Some(p) => p,
        None => {
            return None;
        },
    };
    let len = bit_buffer.len();
    let (p0, p1) = min_max(start, stop);
    proof {
        lemma_parity_direction_free(bit_buffer@, start as int, stop as int, parity);
    }
    let ghost bits = span(bit_buffer@, p0 as int, p1 as int);
    let n: usize = p1 - p0 + 1;
    let mut i: usize = 0;
    while i < n
        invariant
            n == bits.len(),
            i <= n,
            p0 <= p1 < len == bit_buffer@.len(),
            parity.is_some(),
            bits == span(bit_buffer@, p0 as int, p1 as int),
            parity_of(bits, parity) == parity_of(span(bit_buffer@, start as int, stop as int), parity),
            all_known(bits.take(i as int)),
            s_parity == (parity.unwrap() != (count_set(bits.take(i as int)) % 2 == 1)),
        decreases n - i,
    {
        let observed = bit_buffer[p0 + i];
        assert(observed == bits[i as int]);
        assert(bits.take(i + 1).drop_last() =~= bits.take(i as int));
        let bit = match observed {
            Some(b) => b,
            None => {
                assert(!all_known(bits));
                assert(parity_of(bits, parity).is_none());
                return None;
            },
        };
        s_parity = s_parity ^ bit;
        i = i + 1;
        proof {
            assert forall|j: int| 0 <= j < i implies (#[trigger] bits.take(i as int)[j]).is_some() by {
                if j < i - 1 {
                    assert(bits.take(i as int)[j] == bits.take(i - 1)[j]);
                }
            }
        }
    }
    assert(bits.take(n as int) =~= bits);
    Some(s_parity)
}

/// Return a tuple of the two parameters in ascending order.
fn min_max(a: usize, b: usize) -> (r: (usize, usize))
    ensures
        r.0 <= r.1,
        (r.0 == a && r.1 == b) || (r.0 == b && r.1 == a),
{
    if a < b {
        (a, b)
    } else {
        (b, a)
    }
}

} // verus!
