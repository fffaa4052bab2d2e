//! What is proved of the generator: every number can come, and every order of a short list.

use crate::random;
use vstd::prelude::*;

verus! {

// ---------------------------------------------------------------------------
// Numbers

/// What a generator draws is its state put together with itself three times: moved up by
/// thirteen places, then down by seven, then up by seventeen.
pub proof fn law_states_follow_by_shifts(state: u64)
    ensures
        ({
            let first = state ^ ((state as nat * 0x2000) % 0x1_0000_0000_0000_0000) as u64;
            let second = first ^ (first / 0x80);
            random::next_state(state) == second ^ ((second as nat * 0x2_0000)
                % 0x1_0000_0000_0000_0000) as u64
        }),
{
    let first = state ^ (state << 13u64);
    let second = first ^ (first >> 7u64);
    lemma_moved_up(state, 13, 0x2000);
    lemma_moved_up(second, 17, 0x2_0000);
    assert(first >> 7u64 == first / 0x80) by (bit_vector);
}

proof fn lemma_moved_up(value: u64, by: u64, factor: nat)
    requires
        by == 13 && factor == 0x2000 || by == 17 && factor == 0x2_0000,
    ensures
        value << by == ((value as nat * factor) % 0x1_0000_0000_0000_0000) as u64,
{
    assert(value << 13u64 == (value as u128 * 0x2000) % 0x1_0000_0000_0000_0000) by (bit_vector);
    assert(value << 17u64 == (value as u128 * 0x2_0000) % 0x1_0000_0000_0000_0000)
        by (bit_vector);
}

/// The state before a state.
spec fn state_before(value: u64) -> u64 {
    let second = value ^ (value << 17u64) ^ (value << 34u64) ^ (value << 51u64);
    let first = second ^ (second >> 7u64) ^ (second >> 14u64) ^ (second >> 21u64) ^ (second
        >> 28u64) ^ (second >> 35u64) ^ (second >> 42u64) ^ (second >> 49u64) ^ (second >> 56u64)
        ^ (second >> 63u64);
    first ^ (first << 13u64) ^ (first << 26u64) ^ (first << 39u64) ^ (first << 52u64)
}

proof fn lemma_state_before(value: u64)
    ensures
        random::next_state(state_before(value)) == value,
        state_before(random::next_state(value)) == value,
{
    assert(forall|x: u64|
        {
            let y = #[trigger] (x ^ (x << 17u64) ^ (x << 34u64) ^ (x << 51u64));
            y ^ (y << 17u64) == x
        }) by (bit_vector);
    assert(forall|x: u64|
        {
            let y = #[trigger] (x ^ (x >> 7u64) ^ (x >> 14u64) ^ (x >> 21u64) ^ (x >> 28u64) ^ (x
                >> 35u64) ^ (x >> 42u64) ^ (x >> 49u64) ^ (x >> 56u64) ^ (x >> 63u64));
            y ^ (y >> 7u64) == x
        }) by (bit_vector);
    assert(forall|x: u64|
        {
            let y = #[trigger] (x ^ (x << 13u64) ^ (x << 26u64) ^ (x << 39u64) ^ (x << 52u64));
            y ^ (y << 13u64) == x
        }) by (bit_vector);
    assert(forall|x: u64|
        {
            let y = #[trigger] (x ^ (x << 17u64));
            y ^ (y << 17u64) ^ (y << 34u64) ^ (y << 51u64) == x
        }) by (bit_vector);
    assert(forall|x: u64|
        {
            let y = #[trigger] (x ^ (x >> 7u64));
            y ^ (y >> 7u64) ^ (y >> 14u64) ^ (y >> 21u64) ^ (y >> 28u64) ^ (y >> 35u64) ^ (y
                >> 42u64) ^ (y >> 49u64) ^ (y >> 56u64) ^ (y >> 63u64) == x
        }) by (bit_vector);
    assert(forall|x: u64|
        {
            let y = #[trigger] (x ^ (x << 13u64));
            y ^ (y << 13u64) ^ (y << 26u64) ^ (y << 39u64) ^ (y << 52u64) == x
        }) by (bit_vector);
}

/// Two states are followed by the same state only where they are the same, and every state
/// follows one.
pub proof fn law_states_come_round(a: u64, b: u64)
    ensures
        random::next_state(a) == random::next_state(b) <==> a == b,
        exists|state: u64| #[trigger] random::next_state(state) == a,
{
    lemma_state_before(a);
    lemma_state_before(b);
    assert(random::next_state(state_before(a)) == a);
}

/// The number drawn below a limit is what is left of the number drawn, divided by the limit.
pub proof fn law_numbers_are_remainders(state: u64, upper: usize)
    ensures
        upper > 1 ==> {
            let (number, next) = random::number_below(state, upper);
            number as nat == random::next_state(state) as nat % upper as nat && next
                == random::next_state(state)
        },
        upper <= 1 ==> random::number_below(state, upper) == (0usize, state),
{
}

/// Every number below a limit is drawn from some state.
pub proof fn law_every_number_can_come(upper: usize, number: usize)
    requires
        number < upper,
    ensures
        exists|state: u64| #[trigger] random::number_below(state, upper).0 == number,
{
    if upper > 1 {
        let state = state_before(number as u64);
        lemma_state_before(number as u64);
        vstd::arithmetic::div_mod::lemma_small_mod(number as nat, upper as nat);
        assert(random::number_below(state, upper).0 == number);
    } else {
        assert(random::number_below(0, upper).0 == number);
    }
}

/// Two seeds differ where exactly one of the seconds, the nanoseconds and the process do.
pub proof fn law_seeds_differ(seconds: u64, nanos: u32, pid: u32, other: u64, with: u32)
    ensures
        random::seed(seconds, nanos, pid) == random::seed(other, nanos, pid) <==> seconds == other,
        random::seed(seconds, nanos, pid) == random::seed(seconds, with, pid) <==> nanos == with,
        random::seed(seconds, nanos, pid) == random::seed(seconds, nanos, with) <==> pid == with,
{
    let a = nanos as u64;
    let b = pid as u64;
    let c = with as u64;
    let x = (a << 32u64) | (a >> 32u64);
    let y = (b << 17u64) | (b >> 47u64);
    let z = (c << 32u64) | (c >> 32u64);
    let w = (c << 17u64) | (c >> 47u64);
    let k = 0x9e37_79b9_7f4a_7c15u64;
    assert(x == z <==> a == c) by (bit_vector)
        requires
            x == (a << 32u64) | (a >> 32u64),
            z == (c << 32u64) | (c >> 32u64),
    ;
    assert(y == w <==> b == c) by (bit_vector)
        requires
            y == (b << 17u64) | (b >> 47u64),
            w == (c << 17u64) | (c >> 47u64),
    ;
    assert((seconds ^ x) ^ y ^ k == (other ^ x) ^ y ^ k <==> seconds == other) by (bit_vector);
    assert((seconds ^ x) ^ y ^ k == (seconds ^ z) ^ y ^ k <==> x == z) by (bit_vector);
    assert((seconds ^ x) ^ y ^ k == (seconds ^ x) ^ w ^ k <==> y == w) by (bit_vector);
}

// ---------------------------------------------------------------------------
// Shuffling

/// Where a shuffle has done its part, it leaves the rest as it is.
proof fn lemma_done_stays<T>(list: Seq<T>, n: nat, state: u64)
    requires
        n <= list.len() <= usize::MAX,
    ensures
        ({
            let (out, next) = random::shuffled_below(list, n, state);
            let (part, then) = random::shuffled(list.take(n as int), state);
            out == part + list.skip(n as int) && next == then
        }),
    decreases n,
{
    let head = list.take(n as int);
    let tail = list.skip(n as int);
    random::lemma_shuffle_len(head, state);
    if n <= 1 {
        assert(list =~= head + tail);
    } else {
        let (with, next) = random::number_below(state, n as usize);
        assert(with < n) by {
            assert(random::next_state(state) % (n as u64) < n as u64);
        }
        let less = (n - 1) as nat;
        let moved = random::exchanged(list, n - 1, with as int);
        let short = random::exchanged(head, n - 1, with as int);
        lemma_done_stays(moved, less, next);
        lemma_done_stays(short, less, next);
        assert(moved.take(less as int) =~= short.take(less as int));
        assert(moved.skip(less as int) =~= short.skip(less as int) + tail);
        let part = random::shuffled(moved.take(less as int), next).0;
        assert(part + moved.skip(less as int) =~= (part + short.skip(less as int)) + tail);
    }
}

/// The last wallpaper of a shuffled list is the one whose place the generator gives; the last
/// of the list takes that place, and the others are shuffled in the same way.
pub proof fn law_shuffle_draws_the_last<T>(list: Seq<T>, state: u64)
    requires
        list.len() <= usize::MAX,
    ensures
        list.len() <= 1 ==> random::shuffled(list, state) == (list, state),
        list.len() > 1 ==> {
            let place = (random::next_state(state) as nat % list.len()) as int;
            let rest = list.update(place, list.last()).drop_last();
            let (out, next) = random::shuffled(list, state);
            let (others, then) = random::shuffled(rest, random::next_state(state));
            out == others.push(list[place]) && next == then
        },
{
    if list.len() > 1 {
        let n = list.len();
        let (with, next) = random::number_below(state, n as usize);
        let place = (random::next_state(state) as nat % n) as int;
        assert(with == place);
        let moved = random::exchanged(list, n - 1, place);
        let rest = list.update(place, list.last()).drop_last();
        lemma_done_stays(moved, (n - 1) as nat, next);
        assert(moved.take(n - 1) =~= rest);
        assert(moved.skip(n - 1) =~= seq![list[place]]);
        let others = random::shuffled(rest, next).0;
        assert(others + seq![list[place]] =~= others.push(list[place]));
    }
}

proof fn lemma_order_of_three<T>(list: Seq<T>, state: u64, last: int, middle: int)
    requires
        list.len() == 3,
        random::next_state(state) % 3 == last,
        random::next_state(random::next_state(state)) % 2 == middle,
    ensures
        ({
            let rest = list.update(last, list[2]);
            random::shuffled(list, state).0 == seq![rest[1 - middle], rest[middle], list[last]]
        }),
{
    law_shuffle_draws_the_last(list, state);
    let rest = list.update(last, list.last()).drop_last();
    let next = random::next_state(state);
    law_shuffle_draws_the_last(rest, next);
    let one = rest.update(middle, rest.last()).drop_last();
    law_shuffle_draws_the_last(one, random::next_state(next));
    assert(random::shuffled(list, state).0 =~= seq![one[0], rest[middle], list[last]]);
}

/// Every order of three wallpapers can come out of a shuffle.
pub proof fn law_every_order_of_three_can_come<T>(list: Seq<T>, i: int, j: int, k: int)
    requires
        list.len() == 3,
        0 <= i < 3,
        0 <= j < 3,
        0 <= k < 3,
        i != j,
        j != k,
        k != i,
    ensures
        exists|state: u64| #[trigger]
            random::shuffled(list, state).0 == seq![list[i], list[j], list[k]],
{
    let middle: int = if k == 2 {
        j
    } else if j == 2 {
        k
    } else {
        j
    };
    let order = seq![list[i], list[j], list[k]];
    if k == 0 && middle == 0 {
        assert(random::next_state(3u64) == 0xc18660c3u64) by (bit_vector);
        assert(random::next_state(0xc18660c3u64) == 0x3000c30a14013cc2u64) by (bit_vector);
        lemma_order_of_three(list, 3, k, middle);
        assert(random::shuffled(list, 3).0 =~= order);
    } else if k == 0 && middle == 1 {
        assert(random::next_state(1u64) == 0x40822041u64) by (bit_vector);
        assert(random::next_state(0x40822041u64) == 0x100041060c011441u64) by (bit_vector);
        lemma_order_of_three(list, 1, k, middle);
        assert(random::shuffled(list, 1).0 =~= order);
    } else if k == 1 && middle == 0 {
        assert(random::next_state(35u64) == 0x8d1c268e3u64) by (bit_vector);
        assert(random::next_state(0x8d1c268e3u64) == 0x3008e3cb9403b4f2u64) by (bit_vector);
        lemma_order_of_three(list, 35, k, middle);
        assert(random::shuffled(list, 35).0 =~= order);
    } else if k == 1 && middle == 1 {
        assert(random::next_state(34u64) == 0x8914048a2u64) by (bit_vector);
        assert(random::next_state(0x8914048a2u64) == 0x2008a2cd9802a0b3u64) by (bit_vector);
        lemma_order_of_three(list, 34, k, middle);
        assert(random::shuffled(list, 34).0 =~= order);
    } else if k == 2 && middle == 0 {
        assert(random::next_state(19u64) == 0x4c9a464d3u64) by (bit_vector);
        assert(random::next_state(0x4c9a464d3u64) == 0x3004d36ad40078dau64) by (bit_vector);
        lemma_order_of_three(list, 19, k, middle);
        assert(random::shuffled(list, 19).0 =~= order);
    } else {
        assert(random::next_state(17u64) == 0x448a02451u64) by (bit_vector);
        assert(random::next_state(0x448a02451u64) == 0x10045166cc005059u64) by (bit_vector);
        lemma_order_of_three(list, 17, k, middle);
        assert(random::shuffled(list, 17).0 =~= order);
    }
}

} // verus!
