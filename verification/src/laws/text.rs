//! How texts are made, compared and read.

use crate::text::{
    all_digits, char_position, concat, concat3, decimal, decimal_reads_back, decimal_text,
    digits_value, is_digit, join, joined, less, number_value, parse_index, position, same,
    strip_prefix, text_less, texts, unsigned_part,
};
use vstd::prelude::*;

verus! {

/// A number below ten is written as its digit, and any other as what is left without the last digit,
/// and then that digit.
pub proof fn numerals_end_in_their_last_digit(n: nat, d: nat)
    requires
        d < 10,
    ensures
        decimal(d) == seq!["0123456789"@[d as int]],
        n > 0 ==> decimal(10 * n + d) == decimal(n) + seq!["0123456789"@[d as int]],
{
    reveal_strlit("0123456789");
    assert((10 * n + d) / 10 == n) by (nonlinear_arith)
        requires
            d < 10,
    ;
    assert((10 * n + d) % 10 == d) by (nonlinear_arith)
        requires
            d < 10,
    ;
    if n > 0 {
        assert(decimal(10 * n + d) == decimal(n) + seq!["0123456789"@[d as int]]);
    }
}

/// A number is written as its decimal notation.
pub proof fn numbers_are_written(n: u64, r: String)
    requires
        call_ensures(decimal_text, (n,), r),
    ensures
        r@ == decimal(n as nat),
{
}

/// What is put together comes in the order in which it was given.
pub proof fn texts_are_put_together(a: &str, b: &str, c: &str, two: String, three: String)
    requires
        call_ensures(concat, (a, b), two),
        call_ensures(concat3, (a, b, c), three),
    ensures
        two@.len() == a@.len() + b@.len(),
        two@.take(a@.len() as int) == a@,
        two@.skip(a@.len() as int) == b@,
        three@ == two@ + c@,
{
    assert(two@.take(a@.len() as int) == a@);
    assert(two@.skip(a@.len() as int) == b@);
}

/// Nothing joined is nothing, one part is itself, and two lists joined are both with the separator
/// between them.
pub proof fn lists_are_joined(front: Seq<Seq<char>>, back: Seq<Seq<char>>, sep: Seq<char>)
    ensures
        front.len() == 0 ==> joined(front, sep) == Seq::<char>::empty(),
        front.len() == 1 ==> joined(front, sep) == front[0],
        front.len() > 0 && back.len() > 0 ==> joined(front + back, sep) == joined(front, sep) + sep
            + joined(back, sep),
    decreases back.len(),
{
    if front.len() > 0 && back.len() > 0 {
        let whole = front + back;
        assert(whole.last() == back.last());
        assert(whole.drop_last() == front + back.drop_last());
        if back.len() > 1 {
            lists_are_joined(front, back.drop_last(), sep);
            assert(joined(whole, sep) == joined(front, sep) + sep + joined(back, sep));
        } else {
            assert(front + back.drop_last() == front);
        }
    }
}

/// Joined strings are their texts, joined.
pub proof fn strings_are_joined(parts: &Vec<String>, sep: &str, all: Seq<Seq<char>>, r: String)
    requires
        call_ensures(join, (parts, sep), r),
        all.len() == parts@.len(),
        forall|i: int| 0 <= i < all.len() ==> #[trigger] all[i] == parts@[i]@,
    ensures
        r@ == joined(all, sep@),
{
    assert(texts(parts@) == all);
}

proof fn less_behind_common_part(a: Seq<char>, b: Seq<char>, k: int)
    requires
        0 <= k <= a.len(),
        k <= b.len(),
        forall|i: int| 0 <= i < k ==> a[i] == b[i],
    ensures
        text_less(a, b) == text_less(a.skip(k), b.skip(k)),
    decreases k,
{
    if k > 0 {
        less_behind_common_part(a.skip(1), b.skip(1), k - 1);
        assert(a.skip(1).skip(k - 1) == a.skip(k));
        assert(b.skip(1).skip(k - 1) == b.skip(k));
    } else {
        assert(a.skip(0) == a);
        assert(b.skip(0) == b);
    }
}

/// Of two texts that agree up to some place, the one comes first that ends there, or else has the
/// lower character there.
pub proof fn first_difference_decides(a: &str, b: &str, k: int, r: bool)
    requires
        call_ensures(less, (a, b), r),
        0 <= k <= a@.len(),
        k <= b@.len(),
        forall|i: int| 0 <= i < k ==> a@[i] == b@[i],
    ensures
        k == b@.len() ==> !r,
        k == a@.len() && k < b@.len() ==> r,
        k < a@.len() && k < b@.len() && a@[k] != b@[k] ==> (r <==> a@[k] < b@[k]),
{
    less_behind_common_part(a@, b@, k);
}

/// Two texts are the same exactly where all their characters are.
pub proof fn same_characters_are_the_same(a: &str, b: &str, r: bool)
    requires
        call_ensures(same, (a, b), r),
    ensures
        r <==> a@.len() == b@.len() && forall|i: int| 0 <= i < a@.len() ==> a@[i] == b@[i],
{
    if a@.len() == b@.len() && forall|i: int| 0 <= i < a@.len() ==> a@[i] == b@[i] {
        assert(a@ == b@);
    }
}

proof fn position_is_first(s: Seq<char>, c: char)
    ensures
        match char_position(s, c) {
            Some(i) => 0 <= i < s.len() && s[i] == c && forall|j: int| 0 <= j < i ==> s[j] != c,
            None => forall|j: int| 0 <= j < s.len() ==> s[j] != c,
        },
    decreases s.len(),
{
    if s.len() > 0 && s[0] != c {
        position_is_first(s.skip(1), c);
        assert forall|j: int| 0 < j < s.len() implies s[j] == s.skip(1)[j - 1] by {}
    }
}

/// A character is found where it first stands, and nowhere exactly where it does not occur.
pub proof fn characters_are_found_first(s: &str, c: char, r: Option<usize>)
    requires
        call_ensures(position, (s, c), r),
    ensures
        match r {
            Some(i) => i < s@.len() && s@[i as int] == c && forall|j: int|
                0 <= j < i ==> s@[j] != c,
            None => forall|j: int| 0 <= j < s@.len() ==> s@[j] != c,
        },
{
    position_is_first(s@, c);
}

/// A prefix is taken off exactly where the text begins with it, and what is left follows it.
pub proof fn prefixes_are_taken_off(s: &str, prefix: &str, r: Option<&str>)
    requires
        call_ensures(strip_prefix, (s, prefix), r),
    ensures
        r is Some <==> s@.len() >= prefix@.len() && forall|i: int|
            0 <= i < prefix@.len() ==> s@[i] == prefix@[i],
        r matches Some(rest) ==> s@ == prefix@ + rest@,
{
    if r is None && s@.len() >= prefix@.len() && forall|i: int|
        0 <= i < prefix@.len() ==> s@[i] == prefix@[i] {
        assert(prefix@.is_prefix_of(s@)) by {
            assert(prefix@ == s@.subrange(0, prefix@.len() as int));
        }
    }
}

/// One more digit makes a number ten times as large and adds the digit; a leading plus sign adds
/// nothing; nothing, or anything but digits, is no number.
pub proof fn digits_are_read(s: Seq<char>, d: nat)
    requires
        d < 10,
    ensures
        number_value(seq!["0123456789"@[d as int]]) == Some(d),
        all_digits(s) ==> (number_value(s) matches Some(n) && number_value(
            s.push("0123456789"@[d as int]),
        ) == Some(10 * n + d)),
        s.len() == 0 ==> number_value(s) is None,
        s.len() > 0 && s[0] != '+' ==> number_value(seq!['+'] + s) == number_value(s),
        (exists|i: int| 1 <= i < s.len() && !('0' <= #[trigger] s[i] <= '9')) ==> number_value(s)
            is None,
        s.len() > 0 && s[0] != '+' && !('0' <= s[0] <= '9') ==> number_value(s) is None,
{
    reveal_strlit("0123456789");
    let digit = "0123456789"@[d as int];
    let one = seq![digit];
    assert(one.drop_last() == Seq::<char>::empty());
    assert(digits_value(one.drop_last()) == 0);
    assert(is_digit(digit));
    assert(all_digits(one));
    assert(digits_value(one) == d);
    assert(unsigned_part(one) == one);
    if all_digits(s) {
        let more = s.push(digit);
        assert(is_digit(s[0]));
        assert(unsigned_part(s) == s);
        assert(more.drop_last() == s);
        assert(more[0] == s[0]);
        assert(unsigned_part(more) == more);
        assert forall|i: int| 0 <= i < more.len() implies is_digit(#[trigger] more[i]) by {
            if i < s.len() {
                assert(more[i] == s[i]);
            }
        }
        assert(all_digits(more));
    }
    if s.len() > 0 && s[0] != '+' {
        assert((seq!['+'] + s).skip(1) == s);
    }
    if exists|i: int| 1 <= i < s.len() && !('0' <= #[trigger] s[i] <= '9') {
        let i = choose|i: int| 1 <= i < s.len() && !('0' <= #[trigger] s[i] <= '9');
        let part = unsigned_part(s);
        if part == s {
            assert(!is_digit(part[i]));
        } else {
            assert(part == s.skip(1));
            assert(part[i - 1] == s[i]);
            assert(!is_digit(part[i - 1]));
        }
    }
    if s.len() > 0 && s[0] != '+' && !('0' <= s[0] <= '9') {
        assert(!is_digit(unsigned_part(s)[0]));
    }
}

/// A number in decimal notation is read as itself where it fits, and as none where it does not.
pub proof fn numerals_are_read(n: nat, s: &str, r: Option<usize>)
    requires
        call_ensures(parse_index, (s,), r),
        s@ == decimal(n),
    ensures
        n <= usize::MAX ==> r == Some(n as usize),
        n > usize::MAX ==> r is None,
{
    decimal_reads_back(n);
}

/// What is read from a text is the number that stands there.
pub proof fn only_numbers_are_read(s: &str, r: Option<usize>)
    requires
        call_ensures(parse_index, (s,), r),
    ensures
        r matches Some(n) ==> number_value(s@) == Some(n as nat),
        r is None ==> (number_value(s@) matches Some(n) ==> n > usize::MAX),
{
}

} // verus!
