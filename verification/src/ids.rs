//! Identifiers for store-generated entities: the decimal representation of a
//! per-store counter. Distinct counter values give distinct identifiers, so a
//! store that only ever hands out the representation of its counter, and then
//! bumps the counter, never repeats an identifier.

use crate::text::push_char;
use vstd::prelude::*;

verus! {

/// The decimal digit character for `d` (meaningful for `d < 10`).
pub open spec fn digit_char(d: nat) -> char {
    if d == 0 {
        '0'
    } else if d == 1 {
        '1'
    } else if d == 2 {
        '2'
    } else if d == 3 {
        '3'
    } else if d == 4 {
        '4'
    } else if d == 5 {
        '5'
    } else if d == 6 {
        '6'
    } else if d == 7 {
        '7'
    } else if d == 8 {
        '8'
    } else {
        '9'
    }
}

/// The decimal representation of `n`, most significant digit first, without
/// leading zeros (`dec_rep(0)` is the single digit `0`).
pub open spec fn dec_rep(n: nat) -> Seq<char>
    decreases n,
{
    if n < 10 {
        seq![digit_char(n)]
    } else {
        dec_rep(n / 10).push(digit_char(n % 10))
    }
}

/// Holds when `id` is the decimal representation of some counter value below
/// `bound`: the identifiers a store with counter `bound` has already issued.
pub open spec fn from_counter_below(id: Seq<char>, bound: nat) -> bool {
    exists|k: nat| k < bound && id == dec_rep(k)
}

pub proof fn lemma_digit_char_injective(a: nat, b: nat)
    requires
        a < 10,
        b < 10,
        digit_char(a) == digit_char(b),
    ensures
        a == b,
{
}

pub proof fn lemma_dec_rep_len(n: nat)
    ensures
        dec_rep(n).len() >= 1,
        (dec_rep(n).len() == 1) == (n < 10),
    decreases n,
{
    if n >= 10 {
        lemma_dec_rep_len(n / 10);
    }
}

/// Distinct numbers have distinct decimal representations.
pub proof fn lemma_dec_rep_injective(a: nat, b: nat)
    requires
        dec_rep(a) == dec_rep(b),
    ensures
        a == b,
    decreases a,
{
    lemma_dec_rep_len(a);
    lemma_dec_rep_len(b);
    if a < 10 && b < 10 {
        assert(dec_rep(a)[0] == digit_char(a));
        assert(dec_rep(b)[0] == digit_char(b));
        lemma_digit_char_injective(a, b);
    } else if a < 10 || b < 10 {
        // one representation has length 1 and the other does not
        assert(false);
    } else {
        assert(dec_rep(a).last() == digit_char(a % 10));
        assert(dec_rep(b).last() == digit_char(b % 10));
        lemma_digit_char_injective(a % 10, b % 10);
        assert(dec_rep(a).drop_last() =~= dec_rep(a / 10));
        assert(dec_rep(b).drop_last() =~= dec_rep(b / 10));
        lemma_dec_rep_injective(a / 10, b / 10);
    }
}

/// An identifier issued below `bound` differs from the one issued at `bound`.
pub proof fn lemma_counter_id_fresh(id: Seq<char>, bound: nat)
    requires
        from_counter_below(id, bound),
    ensures
        id != dec_rep(bound),
{
    let k = choose|k: nat| k < bound && id == dec_rep(k);
    if id == dec_rep(bound) {
        lemma_dec_rep_injective(k, bound);
    }
}

/// Identifiers issued below a bound were also issued below any larger bound.
pub proof fn lemma_counter_below_widen(id: Seq<char>, bound: nat, wider: nat)
    requires
        from_counter_below(id, bound),
        bound <= wider,
    ensures
        from_counter_below(id, wider),
{
    let k = choose|k: nat| k < bound && id == dec_rep(k);
    assert(k < wider && id == dec_rep(k));
}

fn digit_exec(n: u64) -> (c: char)
    requires
        n < 10,
    ensures
        c == digit_char(n as nat),
{
    match n {
        0 => '0',
        1 => '1',
        2 => '2',
        3 => '3',
        4 => '4',
        5 => '5',
        6 => '6',
        7 => '7',
        8 => '8',
        _ => '9',
    }
}

/// The decimal representation of `n` as a string.
pub fn u64_to_dec(n: u64) -> (r: String)
    ensures
        r@ == dec_rep(n as nat),
    decreases n,
{
    if n < 10 {
        let mut s = String::new();
        push_char(&mut s, digit_exec(n));
        proof {
            assert(s@ =~= dec_rep(n as nat));
        }
        s
    } else {
        let mut s = u64_to_dec(n / 10);
        push_char(&mut s, digit_exec(n % 10));
        proof {
            assert(s@ =~= dec_rep(n as nat));
        }
        s
    }
}

} // verus!
