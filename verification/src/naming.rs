//! Names of the pool's worker threads: `"{base} ({index})"`, with the index
//! written in decimal.

use vstd::prelude::*;

verus! {

/// The character of a decimal digit.
pub open spec fn digit_char(d: nat) -> char
    recommends
        d < 10,
{
    if d == 0 { '0' }
    else if d == 1 { '1' }
    else if d == 2 { '2' }
    else if d == 3 { '3' }
    else if d == 4 { '4' }
    else if d == 5 { '5' }
    else if d == 6 { '6' }
    else if d == 7 { '7' }
    else if d == 8 { '8' }
    else { '9' }
}

/// The value of a decimal digit character (the inverse of `digit_char`).
pub open spec fn digit_value(c: char) -> nat {
    if c == '0' { 0 }
    else if c == '1' { 1 }
    else if c == '2' { 2 }
    else if c == '3' { 3 }
    else if c == '4' { 4 }
    else if c == '5' { 5 }
    else if c == '6' { 6 }
    else if c == '7' { 7 }
    else if c == '8' { 8 }
    else { 9 }
}

/// The decimal representation of `n`, most significant digit first, without
/// leading zeros (and `"0"` for zero), as `format!("{}", n)` writes it.
pub open spec fn decimal(n: nat) -> Seq<char>
    decreases n,
{
    if n < 10 {
        seq![digit_char(n)]
    } else {
        decimal(n / 10).push(digit_char(n % 10))
    }
}

/// The number that a string of decimal digits stands for.
pub open spec fn decimal_value(s: Seq<char>) -> nat
    decreases s.len(),
{
    if s.len() == 0 {
        0
    } else {
        decimal_value(s.drop_last()) * 10 + digit_value(s.last())
    }
}

/// The name of the worker thread with the given index in a pool whose
/// threads are called `base`: `"{base} ({index})"`.
pub open spec fn thread_name_spec(base: Seq<char>, index: nat) -> Seq<char> {
    base + seq![' ', '('] + decimal(index) + seq![')']
}

/// Reading the decimal representation of `n` back gives `n`.
pub proof fn lemma_decimal_value(n: nat)
    ensures
        decimal_value(decimal(n)) == n,
        decimal(n).len() >= 1,
    decreases n,
{
    let d = n % 10;
    assert(digit_value(digit_char(d)) == d);
    if n < 10 {
        assert(decimal(n).drop_last() =~= Seq::<char>::empty());
        assert(decimal_value(decimal(n)) == decimal_value(decimal(n).drop_last()) * 10
            + digit_value(decimal(n).last()));
    } else {
        lemma_decimal_value(n / 10);
        assert(decimal(n).drop_last() =~= decimal(n / 10));
        assert(decimal_value(decimal(n)) == decimal_value(decimal(n).drop_last()) * 10
            + digit_value(decimal(n).last()));
    }
}

/// Distinct numbers have distinct decimal representations.
pub proof fn lemma_decimal_injective(i: nat, j: nat)
    requires
        decimal(i) == decimal(j),
    ensures
        i == j,
{
    lemma_decimal_value(i);
    lemma_decimal_value(j);
}

/// A thread's name is the pool's name, a space, an opening parenthesis, the
/// thread's index in decimal and a closing parenthesis, which ends it.
pub proof fn lemma_thread_name_layout(base: Seq<char>, index: nat)
    ensures
        thread_name_spec(base, index) == base + seq![' ', '('] + decimal(index) + seq![')'],
        thread_name_spec(base, index).len() == base.len() + decimal(index).len() + 3,
        thread_name_spec(base, index).last() == ')',
        thread_name_spec(base, index).take(base.len() as int) == base,
        thread_name_spec(base, index)[base.len() as int] == ' ',
        thread_name_spec(base, index)[base.len() as int + 1] == '(',
{
    let name = thread_name_spec(base, index);
    assert(name.take(base.len() as int) =~= base);
}

/// Digit `d` is the character `d` places after `'0'`, and a digit
/// character stands for its distance from `'0'`.
pub proof fn lemma_digit_codes()
    ensures
        forall|d: nat| d < 10 ==> (#[trigger] digit_char(d)) as int == '0' as int + d,
        forall|c: char| '0' <= c <= '9' ==> (#[trigger] digit_value(c)) == c as int - '0' as int,
{
}

/// The decimal representation of `n` is made of digits, reads back as `n`,
/// and has no leading zero (a lone `0` for zero).
pub proof fn lemma_decimal_canonical(n: nat)
    ensures
        forall|i: int|
            0 <= i < decimal(n).len() ==> '0' <= #[trigger] decimal(n)[i] && decimal(n)[i] <= '9',
        decimal_value(decimal(n)) == n,
        decimal(n).len() >= 1,
        decimal(n)[0] == '0' ==> n == 0,
    decreases n,
{
    lemma_decimal_value(n);
    if n >= 10 {
        lemma_decimal_canonical(n / 10);
        assert(decimal(n)[0] == decimal(n / 10)[0]);
    }
}

/// Distinct worker threads of one pool get distinct names.
pub proof fn lemma_thread_names_distinct(base: Seq<char>, i: nat, j: nat)
    requires
        i != j,
    ensures
        thread_name_spec(base, i) != thread_name_spec(base, j),
{
    if thread_name_spec(base, i) == thread_name_spec(base, j) {
        let a = thread_name_spec(base, i);
        let b = thread_name_spec(base, j);
        lemma_decimal_value(i);
        lemma_decimal_value(j);
        assert(a.len() == b.len());
        assert(decimal(i).len() == decimal(j).len());
        let start: int = base.len() as int + 2;
        assert(a.subrange(start, start + decimal(i).len()) =~= decimal(i));
        assert(b.subrange(start, start + decimal(j).len()) =~= decimal(j));
        lemma_decimal_injective(i, j);
    }
}

/// A one-character string holding the decimal digit `d`.
fn digit_str(d: usize) -> (s: &'static str)
    requires
        d < 10,
    ensures
        s@ == seq![digit_char(d as nat)],
{
    proof {
        reveal_strlit("0");
        reveal_strlit("1");
        reveal_strlit("2");
        reveal_strlit("3");
        reveal_strlit("4");
        reveal_strlit("5");
        reveal_strlit("6");
        reveal_strlit("7");
        reveal_strlit("8");
        reveal_strlit("9");
    }
    if d == 0 { "0" }
    else if d == 1 { "1" }
    else if d == 2 { "2" }
    else if d == 3 { "3" }
    else if d == 4 { "4" }
    else if d == 5 { "5" }
    else if d == 6 { "6" }
    else if d == 7 { "7" }
    else if d == 8 { "8" }
    else { "9" }
}

/// Appends the decimal representation of `n` to `s`.
pub fn push_decimal(s: &mut String, n: usize)
    ensures
        final(s)@ == old(s)@ + decimal(n as nat),
    decreases n,
{
    if n >= 10 {
        push_decimal(s, n / 10);
    }
    s.append(digit_str(n % 10));
    proof {
        if n >= 10 {
            assert(decimal(n as nat) == decimal((n / 10) as nat).push(digit_char((n % 10) as nat)));
        }
    }
}

/// The name of worker thread `index` of a pool whose threads are called
/// `base`: `"{base} ({index})"`, i.e. `"Thread pool (0)"` for the first
/// thread of a pool named `"Thread pool"`.
pub fn thread_name(base: &str, index: usize) -> (name: String)
    ensures
        name@ == thread_name_spec(base@, index as nat),
        name@ == base@ + seq![' ', '('] + decimal(index as nat) + seq![')'],
        name@.last() == ')',
{
    proof {
        lemma_thread_name_layout(base@, index as nat);
    }
    let mut name = base.to_owned();
    name.append(" (");
    push_decimal(&mut name, index);
    name.append(")");
    proof {
        reveal_strlit(" (");
        reveal_strlit(")");
    }
    name
}

} // verus!
