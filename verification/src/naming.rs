//! The names of part files: the pathname of the whole file, a dot, and the
//! index of the part in decimal, without padding.

use vstd::prelude::*;
use vstd::string::StringExecFns;

verus! {

/// The character that stands for the digit `d`.
pub open spec fn digit_char(d: nat) -> char
    recommends
        d < 10,
{
    if d == 0 {
        '0'
    } else if d == 1 {
        '1'
    } else if d == 2 {
        '2'
    } else if d == 3 {
        '3'
    } else if d == 4 {
        '4'
    } else if d == 5 {
        '5'
    } else if d == 6 {
        '6'
    } else if d == 7 {
        '7'
    } else if d == 8 {
        '8'
    } else {
        '9'
    }
}

/// The digits of `n` in decimal, the most significant first, with no leading
/// zero but for zero itself.
pub open spec fn decimal(n: nat) -> Seq<char>
    decreases n,
{
    if n < 10 {
        seq![digit_char(n)]
    } else {
        decimal(n / 10).push(digit_char(n % 10))
    }
}

/// The name of part `index` of the file `base`.
pub open spec fn part_name_spec(base: Seq<char>, index: nat) -> Seq<char> {
    base + seq!['.'] + decimal(index)
}

/// Two numbers with the same digits are the same number.
pub proof fn lemma_decimal_injective(a: nat, b: nat)
    requires
        decimal(a) == decimal(b),
    ensures
        a == b,
    decreases a,
{
    if a < 10 && b < 10 {
        assert(decimal(a)[0] == digit_char(a));
        assert(decimal(b)[0] == digit_char(b));
    } else if a >= 10 && b >= 10 {
        let head_a = decimal(a / 10);
        let head_b = decimal(b / 10);
        assert(head_a.push(digit_char(a % 10)).drop_last() =~= head_a);
        assert(head_b.push(digit_char(b % 10)).drop_last() =~= head_b);
        assert(head_a.push(digit_char(a % 10)).last() == digit_char(a % 10));
        assert(head_b.push(digit_char(b % 10)).last() == digit_char(b % 10));
        assert(head_a == head_b);
        assert(digit_char(a % 10) == digit_char(b % 10));
        lemma_decimal_injective(a / 10, b / 10);
    } else if a < 10 {
        lemma_decimal_len(b / 10);
        assert(decimal(a).len() == 1);
        assert(decimal(b).len() == decimal(b / 10).len() + 1);
    } else {
        lemma_decimal_len(a / 10);
        assert(decimal(b).len() == 1);
        assert(decimal(a).len() == decimal(a / 10).len() + 1);
    }
}

/// Every number has at least one digit.
pub proof fn lemma_decimal_len(n: nat)
    ensures
        decimal(n).len() >= 1,
    decreases n,
{
    if n >= 10 {
        lemma_decimal_len(n / 10);
    }
}

/// Parts with different indices have different names: no two parts of a file
/// share a file.
pub proof fn lemma_part_names_distinct(base: Seq<char>, i: nat, j: nat)
    requires
        i != j,
    ensures
        part_name_spec(base, i) != part_name_spec(base, j),
{
    let prefix = base + seq!['.'];
    if part_name_spec(base, i) == part_name_spec(base, j) {
        assert((prefix + decimal(i)).subrange(prefix.len() as int, (prefix + decimal(i)).len() as int)
            =~= decimal(i));
        assert((prefix + decimal(j)).subrange(prefix.len() as int, (prefix + decimal(j)).len() as int)
            =~= decimal(j));
        lemma_decimal_injective(i, j);
    }
}

/// The digit `d` as a string.
fn digit_str(d: u64) -> (digit: &'static str)
    requires
        d < 10,
    ensures
        digit@ == seq![digit_char(d as nat)],
{
    proof {
        reveal_strlit("0");
        reveal_strlit("1");
        reveal_strlit("2");
        reveal_strlit("3");
        reveal_strlit("4");
        reveal_strlit("5");
        reveal_strlit("6");
        reveal_strlit("7");
        reveal_strlit("8");
        reveal_strlit("9");
    }
    let digit = if d == 0 {
        "0"
    } else if d == 1 {
        "1"
    } else if d == 2 {
        "2"
    } else if d == 3 {
        "3"
    } else if d == 4 {
        "4"
    } else if d == 5 {
        "5"
    } else if d == 6 {
        "6"
    } else if d == 7 {
        "7"
    } else if d == 8 {
        "8"
    } else {
        "9"
    };
    assert(digit@ =~= seq![digit_char(d as nat)]);
    digit
}

/// Appends the digits of `n` in decimal to `name`.
fn append_decimal(name: &mut String, n: u64)
    ensures
        final(name)@ == old(name)@ + decimal(n as nat),
    decreases n,
{
    if n >= 10 {
        append_decimal(name, n / 10);
    }
    name.append(digit_str(n % 10));
    assert(name@ =~= old(name)@ + decimal(n as nat));
}

/// Makes the name of part `index` of the file `base`.
pub fn part_name(base: &str, index: u64) -> (name: String)
    ensures
        name@ == part_name_spec(base@, index as nat),
{
    proof {
        reveal_strlit(".");
    }
    let mut name = String::from_str(base);
    name.append(".");
    append_decimal(&mut name, index);
    assert(name@ =~= part_name_spec(base@, index as nat));
    name
}

} // verus!
