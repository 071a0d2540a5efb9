//! What holds of numbers in text.

use vstd::prelude::*;

use crate::text::{digits, signed_digits};

verus! {

/// The number that characters spell, each counting ten times the next.
pub open spec fn value(text: Seq<char>) -> int
    decreases text.len(),
{
    if text.len() == 0 {
        0
    } else {
        value(text.drop_last()) * 10 + (text.last() as int - '0' as int)
    }
}

/// Whether `text` spells the number `n` in decimal, without leading zeros.
pub open spec fn is_decimal(text: Seq<char>, n: int) -> bool {
    &&& text.len() > 0
    &&& forall|i: int| 0 <= i < text.len() ==> '0' <= #[trigger] text[i] <= '9'
    &&& text.len() > 1 ==> text[0] != '0'
    &&& value(text) == n
}

/// Whether `text` spells the number `n` in decimal, with a sign in front where
/// it is negative.
pub open spec fn is_signed_decimal(text: Seq<char>, n: int) -> bool {
    if n < 0 {
        text.len() > 0 && text[0] == '-' && is_decimal(text.skip(1), -n)
    } else {
        is_decimal(text, n)
    }
}

/// The digits of a number read back as the number.
pub proof fn digits_read_back(n: nat)
    ensures
        is_decimal(digits(n), n as int),
        n > 0 ==> digits(n)[0] != '0',
    decreases n,
{
    let text = digits(n);
    if n < 10 {
        assert(text.drop_last() =~= seq![]);
        assert(value(text.drop_last()) == 0);
    } else {
        digits_read_back(n / 10);
        assert(text.drop_last() =~= digits(n / 10));
        assert forall|i: int| 0 <= i < text.len() implies '0' <= #[trigger] text[i] <= '9' by {
            if i < text.len() - 1 {
                assert(text[i] == digits(n / 10)[i]);
            }
        }
    }
}

/// A number with its sign reads back as the number.
pub proof fn signed_digits_read_back(n: int)
    ensures
        is_signed_decimal(signed_digits(n), n),
{
    if n < 0 {
        digits_read_back((-n) as nat);
        assert(signed_digits(n).skip(1) =~= digits((-n) as nat));
    } else {
        digits_read_back(n as nat);
    }
}

/// Two texts that spell one number are the same.
pub proof fn decimals_are_unique(a: Seq<char>, b: Seq<char>, n: int)
    requires
        is_decimal(a, n),
        is_decimal(b, n),
    ensures
        a == b,
    decreases a.len(),
{
    lemma_value(a);
    lemma_value(b);
    let (x, y) = (a.drop_last(), b.drop_last());
    lemma_tail_value(a);
    lemma_tail_value(b);
    assert(value(x) == n / 10 && a.last() as int - '0' as int == n % 10);
    assert(value(y) == n / 10 && b.last() as int - '0' as int == n % 10);
    assert(a.last() == b.last());
    if a.len() == 1 || b.len() == 1 {
        if a.len() > 1 {
            lemma_value(x);
        }
        if b.len() > 1 {
            lemma_value(y);
        }
        assert(value(Seq::<char>::empty()) == 0);
        assert(a.len() == 1 ==> x =~= seq![]);
        assert(b.len() == 1 ==> y =~= seq![]);
        assert(a =~= b);
    } else {
        assert(is_decimal(x, n / 10)) by {
            assert(forall|i: int| 0 <= i < x.len() ==> x[i] == a[i]);
        }
        assert(is_decimal(y, n / 10)) by {
            assert(forall|i: int| 0 <= i < y.len() ==> y[i] == b[i]);
        }
        decimals_are_unique(x, y, n / 10);
        assert(a =~= x.push(a.last()));
        assert(b =~= y.push(b.last()));
    }
}

/// What all digits but the last spell, and what the last does.
proof fn lemma_tail_value(text: Seq<char>)
    requires
        text.len() > 0,
        '0' <= text.last() <= '9',
    ensures
        value(text.drop_last()) == value(text) / 10,
        text.last() as int - '0' as int == value(text) % 10,
{
}

/// Digits spell no negative number, and zero only where the first is one.
proof fn lemma_value(text: Seq<char>)
    requires
        text.len() > 0,
        forall|i: int| 0 <= i < text.len() ==> '0' <= #[trigger] text[i] <= '9',
    ensures
        value(text) >= 0,
        text[0] != '0' ==> value(text) > 0,
    decreases text.len(),
{
    let front = text.drop_last();
    assert('0' <= text[text.len() - 1] <= '9');
    if front.len() > 0 {
        assert forall|i: int| 0 <= i < front.len() implies '0' <= #[trigger] front[i] <= '9' by {
            assert(front[i] == text[i]);
        }
        lemma_value(front);
    } else {
        assert(value(front) == 0);
    }
}

} // verus!
