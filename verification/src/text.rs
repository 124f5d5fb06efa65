//! Decimal numerals and small tests on text, over `Seq<char>`.

use vstd::prelude::*;
use vstd::string::StringExecFns;

verus! {

/// The character that writes the digit `d`.
pub open spec fn digit(d: nat) -> char {
    if d == 0 {
        '0'
    } else if d == 1 {
        '1'
    } else if d == 2 {
        '2'
    } else if d == 3 {
        '3'
    } else if d == 4 {
        '4'
    } else if d == 5 {
        '5'
    } else if d == 6 {
        '6'
    } else if d == 7 {
        '7'
    } else if d == 8 {
        '8'
    } else {
        '9'
    }
}

/// `n` written in base ten, without a sign and without leading zeros.
pub open spec fn decimal(n: nat) -> Seq<char>
    decreases n,
{
    if n < 10 {
        seq![digit(n)]
    } else {
        decimal(n / 10).push(digit(n % 10))
    }
}

/// `n` written in base ten on at least two characters: a zero comes first
/// where `n` has one digit.
pub open spec fn two_digits(n: nat) -> Seq<char> {
    if n < 10 {
        seq!['0', digit(n)]
    } else {
        decimal(n)
    }
}

/// The last `width` digits of `n` in base ten, zeros in front where `n` has
/// fewer: a numeral of `width` characters, which holds all of `n` where `n`
/// is below `pow10(width)`.
pub open spec fn digits_on(n: nat, width: nat) -> Seq<char>
    decreases width,
{
    if width == 0 {
        Seq::<char>::empty()
    } else {
        digits_on(n / 10, (width - 1) as nat).push(digit(n % 10))
    }
}

/// `n` written in base ten on ten characters, zeros in front. Ten digits
/// hold every `u32`.
pub open spec fn ten_digits(n: nat) -> Seq<char> {
    digits_on(n, 10)
}

/// Ten to the power `e`.
pub open spec fn pow10(e: nat) -> nat
    decreases e,
{
    if e == 0 {
        1
    } else {
        10 * pow10((e - 1) as nat)
    }
}

/// The texts `a` and `b` agree on their first `k` characters, and there `a`
/// ends while `b` goes on, or `a` has the character that comes first.
pub open spec fn differs_first_at(a: Seq<char>, b: Seq<char>, k: int) -> bool {
    &&& 0 <= k <= a.len()
    &&& k <= b.len()
    &&& forall|i: int| 0 <= i < k ==> a[i] == b[i]
    &&& if k < a.len() && k < b.len() {
        (a[k] as u32) < (b[k] as u32)
    } else {
        k == a.len() && k < b.len()
    }
}

/// `a` sorts before `b`: the order of strings, character by character.
pub open spec fn text_before(a: Seq<char>, b: Seq<char>) -> bool {
    exists|k: int| differs_first_at(a, b, k)
}

/// `text` ends with `suffix`.
pub open spec fn has_suffix(text: Seq<char>, suffix: Seq<char>) -> bool {
    suffix.len() <= text.len() && text.subrange(text.len() - suffix.len(), text.len() as int)
        == suffix
}

/// A numeral on a fixed width has that many characters.
pub proof fn lemma_digits_on_len(n: nat, width: nat)
    ensures
        digits_on(n, width).len() == width,
    decreases width,
{
    if width > 0 {
        lemma_digits_on_len(n / 10, (width - 1) as nat);
    }
}

/// The characters of the digits come in the order of the digits.
pub proof fn lemma_digit_order(low: nat, high: nat)
    requires
        low < high < 10,
    ensures
        (digit(low) as u32) < (digit(high) as u32),
{
}

/// Numerals on one fixed width sort as their numbers do: of two numbers
/// that the width holds, the smaller has the text that sorts first, and the
/// two texts part within the width, at the place handed back.
pub proof fn lemma_digits_on_order(low: nat, high: nat, width: nat) -> (k: int)
    requires
        low < high < pow10(width),
    ensures
        0 <= k < width,
        differs_first_at(digits_on(low, width), digits_on(high, width), k),
        text_before(digits_on(low, width), digits_on(high, width)),
    decreases width,
{
    lemma_digits_on_len(low, width);
    lemma_digits_on_len(high, width);
    let shorter = (width - 1) as nat;
    lemma_digits_on_len(low / 10, shorter);
    lemma_digits_on_len(high / 10, shorter);
    let k = if low / 10 < high / 10 {
        lemma_digits_on_order(low / 10, high / 10, shorter)
    } else {
        lemma_digit_order(low % 10, high % 10);
        width - 1
    };
    assert(differs_first_at(digits_on(low, width), digits_on(high, width), k));
    k
}

/// A number below a hundred is written on two digits as on a fixed width
/// of two.
pub proof fn lemma_two_digits_fixed(n: nat)
    requires
        n < 100,
    ensures
        two_digits(n) == digits_on(n, 2),
{
    reveal_with_fuel(digits_on, 3);
    reveal_with_fuel(decimal, 2);
    assert(two_digits(n) =~= digits_on(n, 2));
}

/// The order of texts is strict: a text that sorts before another is not
/// that other, and does not sort after it.
pub proof fn lemma_text_before_is_strict(a: Seq<char>, b: Seq<char>)
    requires
        text_before(a, b),
    ensures
        a != b,
        !text_before(b, a),
{
    let k = choose|k: int| differs_first_at(a, b, k);
    if text_before(b, a) {
        let j = choose|j: int| differs_first_at(b, a, j);
        if j < k {
            assert(a[j] == b[j]);
        } else if k < j {
            assert(b[k] == a[k]);
        }
    }
    if a == b {
        assert(k == a.len() || a[k] == b[k]);
    }
}

/// Where two texts part within both of them, what follows each of them
/// does not change their order.
pub proof fn lemma_before_with_tails(
    a: Seq<char>,
    b: Seq<char>,
    k: int,
    a_tail: Seq<char>,
    b_tail: Seq<char>,
)
    requires
        differs_first_at(a, b, k),
        k < a.len(),
        k < b.len(),
    ensures
        differs_first_at(a + a_tail, b + b_tail, k),
{
    assert forall|i: int| 0 <= i < k implies (a + a_tail)[i] == (b + b_tail)[i] by {
        assert(a[i] == b[i]);
    }
}

/// The same text in front of two texts does not change their order.
pub proof fn lemma_before_with_head(head: Seq<char>, a: Seq<char>, b: Seq<char>, k: int)
    requires
        differs_first_at(a, b, k),
    ensures
        differs_first_at(head + a, head + b, head.len() + k),
{
    let at = head.len() + k;
    assert forall|i: int| 0 <= i < at implies (head + a)[i] == (head + b)[i] by {
        if i >= head.len() {
            assert(a[i - head.len()] == b[i - head.len()]);
        }
    }
    if k < a.len() && k < b.len() {
        assert((head + a)[at] == a[k]);
        assert((head + b)[at] == b[k]);
    }
}

fn digit_text(d: u64) -> (r: &'static str)
    requires
        d < 10,
    ensures
        r@ == seq![digit(d as nat)],
{
    proof {
        reveal_strlit("0");
        reveal_strlit("1");
        reveal_strlit("2");
        reveal_strlit("3");
        reveal_strlit("4");
        reveal_strlit("5");
        reveal_strlit("6");
        reveal_strlit("7");
        reveal_strlit("8");
        reveal_strlit("9");
    }
    let r: &'static str = if d == 0 {
        "0"
    } else if d == 1 {
        "1"
    } else if d == 2 {
        "2"
    } else if d == 3 {
        "3"
    } else if d == 4 {
        "4"
    } else if d == 5 {
        "5"
    } else if d == 6 {
        "6"
    } else if d == 7 {
        "7"
    } else if d == 8 {
        "8"
    } else {
        "9"
    };
    assert(r@ =~= seq![digit(d as nat)]);
    r
}

/// Appends the numeral of `n` to `out`.
pub fn push_decimal(out: &mut String, n: u64)
    ensures
        final(out)@ == old(out)@ + decimal(n as nat),
    decreases n,
{
    if n >= 10 {
        push_decimal(out, n / 10);
    }
    out.append(digit_text(n % 10));
    proof {
        if n >= 10 {
            assert(old(out)@ + decimal((n / 10) as nat) + seq![digit((n % 10) as nat)] =~= old(out)@ + decimal(n as nat));
        }
    }
}

/// Appends the numeral of `n` to `out`, on at least two characters.
pub fn push_two_digits(out: &mut String, n: u64)
    ensures
        final(out)@ == old(out)@ + two_digits(n as nat),
{
    if n < 10 {
        out.append("0");
        proof {
            reveal_strlit("0");
        }
    }
    push_decimal(out, n);
    proof {
        if n < 10 {
            assert(old(out)@ + "0"@ + decimal(n as nat) =~= old(out)@ + two_digits(n as nat));
        }
    }
}

/// Appends the last `width` digits of `n` to `out`, zeros in front.
pub fn push_digits_on(out: &mut String, n: u64, width: u32)
    ensures
        final(out)@ == old(out)@ + digits_on(n as nat, width as nat),
    decreases width,
{
    if width > 0 {
        push_digits_on(out, n / 10, width - 1);
        out.append(digit_text(n % 10));
        assert(old(out)@ + digits_on((n / 10) as nat, (width - 1) as nat) + seq![
            digit((n % 10) as nat),
        ] =~= old(out)@ + digits_on(n as nat, width as nat));
    } else {
        assert(old(out)@ + digits_on(n as nat, 0) =~= old(out)@);
    }
}

/// Appends the numeral of `n` to `out`, on ten characters.
pub fn push_ten_digits(out: &mut String, n: u32)
    ensures
        final(out)@ == old(out)@ + ten_digits(n as nat),
{
    push_digits_on(out, n as u64, 10);
}

/// Whether the two texts hold the same characters.
pub fn same_text(a: &str, b: &str) -> (r: bool)
    ensures
        r == (a@ == b@),
{
    let n: usize = a.unicode_len();
    if b.unicode_len() != n {
        return false;
    }
    let mut i: usize = 0;
    while i < n
        invariant
            i <= n,
            n == a@.len(),
            n == b@.len(),
            forall|j: int| 0 <= j < i ==> a@[j] == b@[j],
        decreases n - i,
    {
        if a.get_char(i) != b.get_char(i) {
            return false;
        }
        i += 1;
    }
    assert(a@ =~= b@);
    true
}

/// Whether `text` ends with `suffix`.
pub fn ends_with(text: &str, suffix: &str) -> (r: bool)
    ensures
        r == has_suffix(text@, suffix@),
{
    let n: usize = text.unicode_len();
    let m: usize = suffix.unicode_len();
    if m > n {
        return false;
    }
    let start: usize = n - m;
    let ghost tail = text@.subrange(start as int, n as int);
    let mut i: usize = 0;
    while i < m
        invariant
            i <= m,
            m <= n,
            start == n - m,
            n == text@.len(),
            m == suffix@.len(),
            tail == text@.subrange(start as int, n as int),
            forall|j: int| 0 <= j < i ==> tail[j] == suffix@[j],
        decreases m - i,
    {
        if text.get_char(start + i) != suffix.get_char(i) {
            assert(tail[i as int] != suffix@[i as int]);
            return false;
        }
        i += 1;
    }
    assert(tail =~= suffix@);
    true
}

} // verus!
