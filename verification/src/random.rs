//! A small generator of pseudo-random numbers, and shuffling with it.

use vstd::prelude::*;

verus! {

/// A xorshift generator.
#[derive(Clone, Copy, Debug, PartialEq, Eq, Structural)]
pub struct SimpleRng {
    pub state: u64,
}

/// A number with its bits rotated to the left.
pub open spec fn rotated(value: u64, by: u64) -> u64 {
    (value << by) | (value >> ((64 - by) as u64))
}

/// The state that a clock reading and a process id seed.
pub open spec fn seed(seconds: u64, nanos: u32, pid: u32) -> u64 {
    (seconds ^ rotated(nanos as u64, 32)) ^ rotated(pid as u64, 17) ^ 0x9e37_79b9_7f4a_7c15u64
}

/// The state that follows a state, which is also the number drawn.
pub open spec fn next_state(state: u64) -> u64 {
    let a = state ^ (state << 13u64);
    let b = a ^ (a >> 7u64);
    b ^ (b << 17u64)
}

/// The number below a limit that a state gives, and the state that follows.
pub open spec fn number_below(state: u64, upper: usize) -> (usize, u64) {
    if upper <= 1 {
        (0, state)
    } else {
        ((next_state(state) % (upper as u64)) as usize, next_state(state))
    }
}

impl SimpleRng {
    /// A generator seeded by a clock reading and a process id. A clock that cannot be read
    /// counts as zero.
    pub fn seeded(seconds: u64, nanos: u32, pid: u32) -> (rng: Self)
        ensures
            rng.state == seed(seconds, nanos, pid),
    {
        let nanos: u64 = nanos as u64;
        let pid: u64 = pid as u64;
        let turned_nanos: u64 = (nanos << 32u64) | (nanos >> 32u64);
        let turned_pid: u64 = (pid << 17u64) | (pid >> 47u64);
        SimpleRng { state: (seconds ^ turned_nanos) ^ turned_pid ^ 0x9e37_79b9_7f4a_7c15u64 }
    }

    /// Draws a number.
    pub fn next_u64(&mut self) -> (value: u64)
        ensures
            value == next_state(old(self).state),
            final(self).state == value,
            ({
                let first = old(self).state ^ (old(self).state << 13u64);
                let second = first ^ (first >> 7u64);
                value == second ^ (second << 17u64)
            }),
    {
        let state: u64 = self.state;
        let a: u64 = state ^ (state << 13u64);
        let b: u64 = a ^ (a >> 7u64);
        let value: u64 = b ^ (b << 17u64);
        self.state = value;
        value
    }

    /// Draws a number below a limit.
    pub fn next_usize(&mut self, upper: usize) -> (value: usize)
        ensures
            (value, final(self).state) == number_below(old(self).state, upper),
            upper > 0 ==> value < upper,
            upper > 1 ==> value == next_state(old(self).state) as nat % upper as nat,
            upper > 1 ==> final(self).state == next_state(old(self).state),
            upper <= 1 ==> value == 0 && final(self).state == old(self).state,
    {
        if upper <= 1 {
            0
        } else {
            (self.next_u64() % (upper as u64)) as usize
        }
    }
}

/// A list with two of its elements exchanged.
pub open spec fn exchanged<T>(list: Seq<T>, i: int, j: int) -> Seq<T> {
    list.update(i, list[j]).update(j, list[i])
}

/// A list shuffled from its last element down to its second, once the elements from
/// `n` on are done; and the state of the generator after that.
pub open spec fn shuffled_below<T>(list: Seq<T>, n: nat, state: u64) -> (Seq<T>, u64)
    decreases n,
{
    if n <= 1 || n > list.len() {
        (list, state)
    } else {
        let (with, next) = number_below(state, n as usize);
        shuffled_below(exchanged(list, n - 1, with as int), (n - 1) as nat, next)
    }
}

/// A list shuffled, and the state of the generator after that.
pub open spec fn shuffled<T>(list: Seq<T>, state: u64) -> (Seq<T>, u64) {
    shuffled_below(list, list.len(), state)
}

proof fn lemma_exchanged<T>(list: Seq<T>, i: int, j: int)
    requires
        0 <= i < list.len(),
        0 <= j < list.len(),
    ensures
        exchanged(list, i, j).to_multiset() == list.to_multiset(),
{
    broadcast use vstd::seq_lib::group_to_multiset_ensures;

    let a = list[i];
    let b = list[j];
    let once = list.update(i, b);
    assert(once.to_multiset() =~= list.to_multiset().insert(b).remove(a));
    let twice = once.update(j, a);
    assert(once[j] == b);
    assert(twice.to_multiset() =~= once.to_multiset().insert(a).remove(b));
    assert(list.to_multiset().count(a) > 0);
    assert(twice.to_multiset() =~= list.to_multiset());
}

proof fn lemma_shuffled_below<T>(list: Seq<T>, n: nat, state: u64)
    requires
        n <= list.len() <= usize::MAX,
    ensures
        shuffled_below(list, n, state).0.len() == list.len(),
        shuffled_below(list, n, state).0.to_multiset() == list.to_multiset(),
    decreases n,
{
    if n > 1 {
        let (with, next) = number_below(state, n as usize);
        assert(with < n) by {
            assert(next_state(state) % (n as u64) < n as u64);
        }
        lemma_exchanged(list, n - 1, with as int);
        lemma_shuffled_below(exchanged(list, n - 1, with as int), (n - 1) as nat, next);
    }
}

proof fn lemma_shuffled_len<T>(list: Seq<T>, n: nat, state: u64)
    ensures
        shuffled_below(list, n, state).0.len() == list.len(),
    decreases n,
{
    if 1 < n <= list.len() {
        let (with, next) = number_below(state, n as usize);
        lemma_shuffled_len(exchanged(list, n - 1, with as int), (n - 1) as nat, next);
    }
}

/// Shuffling keeps the length of a list.
pub proof fn lemma_shuffle_len<T>(list: Seq<T>, state: u64)
    ensures
        shuffled(list, state).0.len() == list.len(),
{
    lemma_shuffled_len(list, list.len(), state);
}

/// Shuffling keeps every element as often as it was there.
pub proof fn law_shuffle_permutes<T>(list: Seq<T>, state: u64)
    requires
        list.len() <= usize::MAX,
    ensures
        shuffled(list, state).0.len() == list.len(),
        shuffled(list, state).0.to_multiset() == list.to_multiset(),
{
    lemma_shuffled_below(list, list.len(), state);
}

/// Shuffling keeps what is in a list.
pub proof fn lemma_shuffle_contains<T>(list: Seq<T>, state: u64, value: T)
    requires
        list.len() <= usize::MAX,
    ensures
        shuffled(list, state).0.contains(value) == list.contains(value),
{
    broadcast use vstd::seq_lib::group_to_multiset_ensures;

    law_shuffle_permutes(list, state);
    let after = shuffled(list, state).0;
    assert(after.contains(value) <==> after.to_multiset().count(value) > 0);
    assert(list.contains(value) <==> list.to_multiset().count(value) > 0);
}

} // verus!
