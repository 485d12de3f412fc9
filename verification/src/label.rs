//! Labels that carry a number.

use vstd::prelude::*;

verus! {

/// The decimal digit of value `d`.
pub open spec fn digit(d: nat) -> char {
    (48 + d) as char
}

/// `n` in decimal notation, without leading zeros.
pub open spec fn decimal(n: nat) -> Seq<char>
    decreases n,
{
    if n < 10 {
        seq![digit(n)]
    } else {
        decimal(n / 10).push(digit(n % 10))
    }
}

/// `prefix` followed by `n` in decimal notation.
pub open spec fn numbered(prefix: Seq<char>, n: nat) -> Seq<char> {
    prefix + decimal(n)
}

fn digit_str(d: usize) -> (s: &'static str)
    requires
        d < 10,
    ensures
        s@ == seq![digit(d as nat)],
{
    proof {
        reveal_strlit("0");
        reveal_strlit("1");
        reveal_strlit("2");
        reveal_strlit("3");
        reveal_strlit("4");
        reveal_strlit("5");
        reveal_strlit("6");
        reveal_strlit("7");
        reveal_strlit("8");
        reveal_strlit("9");
    }
    match d {
        0 => "0",
        1 => "1",
        2 => "2",
        3 => "3",
        4 => "4",
        5 => "5",
        6 => "6",
        7 => "7",
        8 => "8",
        _ => "9",
    }
}

/// Appends `n` in decimal notation.
fn append_decimal(label: &mut String, n: usize)
    ensures
        final(label)@ == old(label)@ + decimal(n as nat),
    decreases n,
{
    if n >= 10 {
        append_decimal(label, n / 10);
    }
    label.append(digit_str(n % 10));
}

/// The label of the item with number `n`.
pub fn numbered_label(prefix: &str, n: usize) -> (label: String)
    ensures
        label@ == numbered(prefix@, n as nat),
{
    let mut label = prefix.to_owned();
    append_decimal(&mut label, n);
    label
}

proof fn lemma_decimal_injective(m: nat, n: nat)
    requires
        decimal(m) == decimal(n),
    ensures
        m == n,
    decreases m,
{
    assert(decimal(m).last() == digit(m % 10));
    assert(decimal(n).last() == digit(n % 10));
    assert(m % 10 == n % 10);
    lemma_decimal_nonempty(m / 10);
    lemma_decimal_nonempty(n / 10);
    if m >= 10 && n >= 10 {
        assert(decimal(m).drop_last() =~= decimal(m / 10));
        assert(decimal(n).drop_last() =~= decimal(n / 10));
        lemma_decimal_injective(m / 10, n / 10);
    }
}

proof fn lemma_decimal_nonempty(n: nat)
    ensures
        decimal(n).len() > 0,
{
}

/// Labels with the same prefix and different numbers differ.
pub proof fn law_labels_distinct(prefix: Seq<char>, m: nat, n: nat)
    requires
        m != n,
    ensures
        numbered(prefix, m) != numbered(prefix, n),
{
    if numbered(prefix, m) == numbered(prefix, n) {
        let l = prefix.len() as int;
        assert(decimal(m) =~= numbered(prefix, m).subrange(l, numbered(prefix, m).len() as int));
        assert(decimal(n) =~= numbered(prefix, n).subrange(l, numbered(prefix, n).len() as int));
        lemma_decimal_injective(m, n);
    }
}

/// The number that decimal digits stand for.
pub open spec fn read_decimal(digits: Seq<char>) -> int
    decreases digits.len(),
{
    if digits.len() == 0 {
        0
    } else {
        10 * read_decimal(digits.drop_last()) + (digits.last() as int - '0' as int)
    }
}

/// A label is its prefix followed by decimal digits, which read as its number and do not begin with
/// a superfluous 0.
pub proof fn law_label_reads_back(prefix: Seq<char>, n: nat)
    ensures
        ({
            let label = numbered(prefix, n);
            let digits = label.skip(prefix.len() as int);
            &&& label.len() > prefix.len()
            &&& label.take(prefix.len() as int) == prefix
            &&& read_decimal(digits) == n
            &&& forall|i: int| 0 <= i < digits.len() ==> '0' <= #[trigger] digits[i] <= '9'
            &&& digits.len() > 1 ==> digits[0] != '0'
        }),
{
    let label = numbered(prefix, n);
    lemma_decimal_reads(n);
    assert(label.take(prefix.len() as int) =~= prefix);
    assert(label.skip(prefix.len() as int) =~= decimal(n));
}

proof fn lemma_decimal_reads(n: nat)
    ensures
        decimal(n).len() > 0,
        read_decimal(decimal(n)) == n,
        forall|i: int| 0 <= i < decimal(n).len() ==> '0' <= #[trigger] decimal(n)[i] <= '9',
        decimal(n).len() > 1 ==> decimal(n)[0] != '0',
        n > 0 ==> decimal(n)[0] != '0',
    decreases n,
{
    if n < 10 {
        assert(decimal(n).drop_last() =~= Seq::empty());
        reveal_with_fuel(read_decimal, 2);
    } else {
        lemma_decimal_reads(n / 10);
        assert(decimal(n).drop_last() =~= decimal(n / 10));
    }
}

} // verus!
