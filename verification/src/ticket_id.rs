use vstd::prelude::*;
use vstd::set_lib::{set_int_range, lemma_int_range, lemma_map_size, lemma_map_size_bound, lemma_len_subset};
use crate::model::{is_lower_hex, is_v4_uuid_text};

verus! {

/// The lower-case hexadecimal digit of value `d` (below 16).
pub open spec fn hex_char(d: nat) -> char {
    if d == 0 { '0' } else if d == 1 { '1' } else if d == 2 { '2' } else if d == 3 { '3' }
    else if d == 4 { '4' } else if d == 5 { '5' } else if d == 6 { '6' } else if d == 7 { '7' }
    else if d == 8 { '8' } else if d == 9 { '9' } else if d == 10 { 'a' } else if d == 11 { 'b' }
    else if d == 12 { 'c' } else if d == 13 { 'd' } else if d == 14 { 'e' } else { 'f' }
}

/// The last `m` hexadecimal digits of `v`, most significant first.
pub open spec fn hex_digits(v: nat, m: nat) -> Seq<char>
    decreases m,
{
    if m == 0 {
        Seq::empty()
    } else {
        hex_digits(v / 16, (m - 1) as nat).push(hex_char(v % 16))
    }
}

/// 16 to the power `m`.
pub open spec fn pow16(m: nat) -> nat
    decreases m,
{
    if m == 0 { 1 } else { 16 * pow16((m - 1) as nat) }
}

/// The `k`-th stand-in ticket id: a version-4 UUID text whose first group
/// and last eight digits write `k` in hexadecimal (high and low 32 bits).
pub open spec fn stand_in_id(k: nat) -> Seq<char> {
    hex_digits(k / 4294967296, 8) + "-0000-4000-8000-0000"@ + hex_digits(k % 4294967296, 8)
}

proof fn lemma_hex_digits_shape(v: nat, m: nat)
    ensures
        hex_digits(v, m).len() == m,
        forall|i: int| 0 <= i < m ==> is_lower_hex(#[trigger] hex_digits(v, m)[i]),
    decreases m,
{
    if m > 0 {
        lemma_hex_digits_shape(v / 16, (m - 1) as nat);
        let d = v % 16;
        assert(is_lower_hex(hex_char(d)));
    }
}

proof fn lemma_hex_digits_injective(v1: nat, v2: nat, m: nat)
    requires
        v1 < pow16(m),
        v2 < pow16(m),
        hex_digits(v1, m) == hex_digits(v2, m),
    ensures
        v1 == v2,
    decreases m,
{
    if m > 0 {
        let m1 = (m - 1) as nat;
        let p = pow16(m1);
        assert(hex_digits(v1, m).drop_last() == hex_digits(v1 / 16, m1));
        assert(hex_digits(v2, m).drop_last() == hex_digits(v2 / 16, m1));
        assert(hex_digits(v1, m).last() == hex_char(v1 % 16));
        assert(hex_digits(v2, m).last() == hex_char(v2 % 16));
        assert(v1 % 16 == v2 % 16);
        assert(v1 / 16 < p) by (nonlinear_arith)
            requires v1 < 16 * p;
        assert(v2 / 16 < p) by (nonlinear_arith)
            requires v2 < 16 * p;
        lemma_hex_digits_injective(v1 / 16, v2 / 16, m1);
        assert(v1 == 16 * (v1 / 16) + v1 % 16) by (nonlinear_arith);
        assert(v2 == 16 * (v2 / 16) + v2 % 16) by (nonlinear_arith);
    }
}

proof fn lemma_pow16_8()
    ensures
        pow16(8) == 4294967296,
{
    reveal_with_fuel(pow16, 9);
}

/// Stand-in ids are version-4 UUID texts, and different numbers give
/// different ids.
proof fn lemma_stand_in_id(k: nat)
    ensures
        is_v4_uuid_text(stand_in_id(k)),
{
    reveal_strlit("-0000-4000-8000-0000");
    let hi = hex_digits(k / 4294967296, 8);
    let lo = hex_digits(k % 4294967296, 8);
    lemma_hex_digits_shape(k / 4294967296, 8);
    lemma_hex_digits_shape(k % 4294967296, 8);
    let mid = "-0000-4000-8000-0000"@;
    let s = stand_in_id(k);
    assert(s.len() == 36);
    assert forall|i: int| 0 <= i < 36 implies (if i == 8 || i == 13 || i == 18 || i == 23 {
        #[trigger] s[i] == '-'
    } else {
        is_lower_hex(s[i])
    }) by {
        if i < 8 {
            assert(s[i] == hi[i]);
        } else if i < 28 {
            assert(s[i] == mid[i - 8]);
        } else {
            assert(s[i] == lo[i - 28]);
        }
    }
    assert(s[14] == mid[6]);
    assert(s[19] == mid[11]);
}

proof fn lemma_stand_in_id_injective(k1: nat, k2: nat)
    requires
        k1 < 18446744073709551616,
        k2 < 18446744073709551616,
        stand_in_id(k1) == stand_in_id(k2),
    ensures
        k1 == k2,
{
    lemma_pow16_8();
    let q: nat = 4294967296;
    lemma_hex_digits_shape(k1 / q, 8);
    lemma_hex_digits_shape(k2 / q, 8);
    lemma_hex_digits_shape(k1 % q, 8);
    lemma_hex_digits_shape(k2 % q, 8);
    reveal_strlit("-0000-4000-8000-0000");
    let s1 = stand_in_id(k1);
    let s2 = stand_in_id(k2);
    assert(s1.subrange(0, 8) =~= hex_digits(k1 / q, 8));
    assert(s2.subrange(0, 8) =~= hex_digits(k2 / q, 8));
    assert(s1.subrange(28, 36) =~= hex_digits(k1 % q, 8));
    assert(s2.subrange(28, 36) =~= hex_digits(k2 % q, 8));
    assert(k1 / q < q) by (nonlinear_arith)
        requires k1 < 18446744073709551616, q == 4294967296;
    assert(k2 / q < q) by (nonlinear_arith)
        requires k2 < 18446744073709551616, q == 4294967296;
    lemma_hex_digits_injective(k1 / q, k2 / q, 8);
    lemma_hex_digits_injective(k1 % q, k2 % q, 8);
    assert(k1 == q * (k1 / q) + k1 % q) by (nonlinear_arith)
        requires q == 4294967296;
    assert(k2 == q * (k2 / q) + k2 % q) by (nonlinear_arith)
        requires q == 4294967296;
}

/// Pigeonhole: when the first `m` stand-in ids are all among the `n` values
/// `ids(0)`, ..., `ids(n - 1)`, then `m <= n`.
pub proof fn lemma_stand_ins_fit(ids: spec_fn(int) -> Seq<char>, n: nat, m: nat)
    requires
        m <= 18446744073709551616,
        forall|i: int|
            #![trigger stand_in_id(i as nat)]
            0 <= i < m ==> exists|j: int| #![trigger ids(j)] 0 <= j < n && ids(j) == stand_in_id(i as nat),
    ensures
        m <= n,
{
    let f = |i: int| stand_in_id(i as nat);
    let cands = set_int_range(0, m as int);
    let slots = set_int_range(0, n as int);
    lemma_int_range(0, m as int);
    lemma_int_range(0, n as int);
    assert(vstd::relations::injective_on(f, cands)) by {
        assert forall|a: int, b: int| cands.contains(a) && cands.contains(b) && #[trigger] f(a) == #[trigger] f(b) implies a == b by {
            lemma_stand_in_id_injective(a as nat, b as nat);
        }
    }
    lemma_map_size(cands, cands.map(f), f);
    lemma_map_size_bound(slots, slots.map(ids), ids);
    assert(cands.map(f).subset_of(slots.map(ids))) by {
        assert forall|c: Seq<char>| #[trigger] cands.map(f).contains(c) implies slots.map(ids).contains(c) by {
            let i = choose|i: int| #[trigger] cands.contains(i) && f(i) == c;
            assert(f(i) == stand_in_id(i as nat));
            let j = choose|j: int| #![trigger ids(j)] 0 <= j < n && ids(j) == stand_in_id(i as nat);
            assert(slots.contains(j));
        }
    }
    lemma_len_subset(cands.map(f), slots.map(ids));
}

/// The text of a hexadecimal digit of value `d`.
fn hex_digit_str(d: u64) -> (s: &'static str)
    requires
        d < 16,
    ensures
        s@ == seq![hex_char(d as nat)],
{
    proof {
        reveal_strlit("0"); reveal_strlit("1"); reveal_strlit("2"); reveal_strlit("3");
        reveal_strlit("4"); reveal_strlit("5"); reveal_strlit("6"); reveal_strlit("7");
        reveal_strlit("8"); reveal_strlit("9"); reveal_strlit("a"); reveal_strlit("b");
        reveal_strlit("c"); reveal_strlit("d"); reveal_strlit("e"); reveal_strlit("f");
    }
    let s = if d == 0 { "0" } else if d == 1 { "1" } else if d == 2 { "2" } else if d == 3 { "3" }
    else if d == 4 { "4" } else if d == 5 { "5" } else if d == 6 { "6" } else if d == 7 { "7" }
    else if d == 8 { "8" } else if d == 9 { "9" } else if d == 10 { "a" } else if d == 11 { "b" }
    else if d == 12 { "c" } else if d == 13 { "d" } else if d == 14 { "e" } else { "f" };
    assert(s@ =~= seq![hex_char(d as nat)]);
    s
}

/// Appends the last `m` hexadecimal digits of `v`.
fn push_hex_digits(s: &mut String, v: u64, m: usize)
    ensures
        final(s)@ == old(s)@ + hex_digits(v as nat, m as nat),
    decreases m,
{
    if m > 0 {
        push_hex_digits(s, v / 16, m - 1);
        let ghost before = s@;
        s.append(hex_digit_str(v % 16));
        assert(s@ =~= old(s)@ + hex_digits(v as nat, m as nat));
    } else {
        assert(s@ =~= old(s)@ + hex_digits(v as nat, m as nat));
    }
}

/// The `k`-th stand-in ticket id.
pub fn stand_in(k: u64) -> (id: String)
    ensures
        id@ == stand_in_id(k as nat),
        is_v4_uuid_text(id@),
{
    let mut s = String::new();
    push_hex_digits(&mut s, k / 4294967296, 8);
    s.append("-0000-4000-8000-0000");
    push_hex_digits(&mut s, k % 4294967296, 8);
    proof {
        lemma_stand_in_id(k as nat);
    }
    assert(s@ =~= stand_in_id(k as nat));
    s
}

} // verus!
