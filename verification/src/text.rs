//! Decimal amounts and separator handling for the textual records that cross
//! the library's boundary.

use vstd::prelude::*;
use vstd::string::*;

verus! {

/// Whether `c` is one of the ten decimal digits.
pub open spec fn is_digit(c: char) -> bool {
    48 <= c as u32 <= 57
}

/// The number that the decimal digit `c` stands for.
pub open spec fn digit_value(c: char) -> nat {
    (c as u32 - 48) as nat
}

/// The decimal digit that stands for `d`, for `d` below ten.
pub open spec fn digit_char(d: nat) -> char {
    ((48 + d) as u8) as char
}

/// Whether every character of `s` is a decimal digit.
pub open spec fn all_digits(s: Seq<char>) -> bool {
    forall|i: int| 0 <= i < s.len() ==> is_digit(#[trigger] s[i])
}

/// The number that a sequence of decimal digits denotes, most significant
/// digit first. The empty sequence denotes zero.
pub open spec fn digits_value(s: Seq<char>) -> nat
    decreases s.len(),
{
    if s.len() == 0 {
        0
    } else {
        10 * digits_value(s.drop_last()) + digit_value(s.last())
    }
}

/// The shortest decimal notation of `n`.
pub open spec fn digits_of(n: nat) -> Seq<char>
    decreases n,
{
    if n < 10 {
        seq![digit_char(n)]
    } else {
        digits_of(n / 10).push(digit_char(n % 10))
    }
}

/// The digits of an amount text: the text itself, without a leading `+`.
pub open spec fn unsigned_part(s: Seq<char>) -> Seq<char> {
    if s.len() > 0 && s[0] == '+' {
        s.skip(1)
    } else {
        s
    }
}

/// The amount that a text denotes: one or more decimal digits, with an
/// optional `+` in front, whose value fits 64 bits. Any other text denotes
/// no amount.
pub open spec fn amount_of_text(s: Seq<char>) -> Option<u64> {
    let d = unsigned_part(s);
    if d.len() > 0 && all_digits(d) && digits_value(d) <= u64::MAX {
        Some(digits_value(d) as u64)
    } else {
        None
    }
}

/// Whether `c` occurs nowhere in `s`.
pub open spec fn free_of(s: Seq<char>, c: char) -> bool {
    forall|j: int| 0 <= j < s.len() ==> s[j] != c
}

/// The place of the first `c` in `s`, or the length of `s` where there is
/// none.
pub open spec fn position(s: Seq<char>, c: char) -> int
    decreases s.len(),
{
    if s.len() == 0 {
        0
    } else if s[0] == c {
        0
    } else {
        1 + position(s.drop_first(), c)
    }
}

/// A text cut in two at its first `c`: what stands before it and what stands
/// behind it. A text without `c` is not cut.
pub open spec fn cut_at_first(s: Seq<char>, c: char) -> Option<(Seq<char>, Seq<char>)> {
    let p = position(s, c);
    if p < s.len() {
        Some((s.take(p), s.skip(p + 1)))
    } else {
        None
    }
}

/// A text that holds `c` exactly once, cut in two there. Any other text is
/// not a pair.
pub open spec fn pair_of_text(s: Seq<char>, c: char) -> Option<(Seq<char>, Seq<char>)> {
    match cut_at_first(s, c) {
        Some((a, b)) => if free_of(b, c) {
            Some((a, b))
        } else {
            None
        },
        None => None,
    }
}

/// The place of the first `c` is within the text or at its end, nothing
/// before it is `c`, and where it is within the text, `c` stands there.
pub proof fn lemma_position(s: Seq<char>, c: char)
    ensures
        0 <= position(s, c) <= s.len(),
        forall|j: int| 0 <= j < position(s, c) ==> s[j] != c,
        position(s, c) < s.len() ==> s[position(s, c)] == c,
    decreases s.len(),
{
    if s.len() > 0 && s[0] != c {
        let t = s.drop_first();
        lemma_position(t, c);
        assert forall|j: int| 0 <= j < position(s, c) implies s[j] != c by {
            if j > 0 {
                assert(s[j] == t[j - 1]);
            }
        }
    }
}

/// Where `c` stands at `i` and nowhere before, `i` is its first place.
pub proof fn lemma_position_is(s: Seq<char>, c: char, i: int)
    requires
        0 <= i <= s.len(),
        forall|j: int| 0 <= j < i ==> s[j] != c,
        i < s.len() ==> s[i] == c,
    ensures
        position(s, c) == i,
{
    lemma_position(s, c);
    let p = position(s, c);
    if p < i {
        assert(s[p] != c);
    } else if i < p {
        assert(s[i] != c);
    }
}

/// Two texts joined by `c`, the first of them free of `c`, are cut at the
/// joint.
pub proof fn lemma_cut_joined(a: Seq<char>, c: char, b: Seq<char>)
    requires
        free_of(a, c),
    ensures
        cut_at_first(a + seq![c] + b, c) == Some((a, b)),
{
    let s = a + seq![c] + b;
    let i = a.len() as int;
    assert(s[i] == c);
    assert forall|j: int| 0 <= j < i implies s[j] != c by {
        assert(s[j] == a[j]);
    }
    lemma_position_is(s, c, i);
    assert(s.take(i) =~= a);
    assert(s.skip(i + 1) =~= b);
}

/// A value never exceeds the value of the same digits with more digits
/// behind them.
pub proof fn lemma_prefix_value(s: Seq<char>, k: int)
    requires
        0 <= k <= s.len(),
    ensures
        digits_value(s.take(k)) <= digits_value(s),
    decreases s.len() - k,
{
    if k == s.len() {
        assert(s.take(k) =~= s);
    } else {
        lemma_prefix_value(s, k + 1);
        assert(s.take(k + 1).drop_last() =~= s.take(k));
    }
}

/// The notation of a number consists of digits only, is not empty, and
/// denotes that number.
pub proof fn lemma_digits_round_trip(n: nat)
    ensures
        digits_of(n).len() > 0,
        all_digits(digits_of(n)),
        digits_value(digits_of(n)) == n,
    decreases n,
{
    if n < 10 {
        let s = digits_of(n);
        assert(s.drop_last() =~= Seq::<char>::empty());
        assert(digits_value(s.drop_last()) == 0);
    } else {
        lemma_digits_round_trip(n / 10);
        let p = digits_of(n / 10);
        let s = digits_of(n);
        assert(s.drop_last() =~= p);
        assert(s.last() == digit_char(n % 10));
        assert forall|i: int| 0 <= i < s.len() implies is_digit(#[trigger] s[i]) by {
            if i < p.len() {
                assert(s[i] == p[i]);
            }
        }
    }
}

/// The notation of a 64-bit amount denotes that amount again.
pub proof fn lemma_amount_round_trip(n: u64)
    ensures
        amount_of_text(digits_of(n as nat)) == Some(n),
{
    lemma_digits_round_trip(n as nat);
    let s = digits_of(n as nat);
    assert(is_digit(s[0]));
    assert(s[0] != '+');
}

/// The one-character text of a digit.
fn digit_text(d: u64) -> (r: &'static str)
    requires
        d < 10,
    ensures
        r@ == seq![digit_char(d as nat)],
{
    proof {
        reveal_strlit("0");
        reveal_strlit("1");
        reveal_strlit("2");
        reveal_strlit("3");
        reveal_strlit("4");
        reveal_strlit("5");
        reveal_strlit("6");
        reveal_strlit("7");
        reveal_strlit("8");
        reveal_strlit("9");
    }
    let r = if d == 0 {
        "0"
    } else if d == 1 {
        "1"
    } else if d == 2 {
        "2"
    } else if d == 3 {
        "3"
    } else if d == 4 {
        "4"
    } else if d == 5 {
        "5"
    } else if d == 6 {
        "6"
    } else if d == 7 {
        "7"
    } else if d == 8 {
        "8"
    } else {
        "9"
    };
    assert(r@ =~= seq![digit_char(d as nat)]);
    r
}

/// Writes an amount in its shortest decimal notation.
pub fn format_amount(n: u64) -> (r: String)
    ensures
        r@ == digits_of(n as nat),
    decreases n,
{
    if n < 10 {
        String::from_str(digit_text(n))
    } else {
        let head = format_amount(n / 10);
        head.concat(digit_text(n % 10))
    }
}

/// Reads an amount: decimal digits with an optional `+` in front. Returns
/// `None` for any other text and for a number that does not fit 64 bits.
pub fn parse_amount(s: &str) -> (r: Option<u64>)
    ensures
        r == amount_of_text(s@),
{
    let n: usize = s.unicode_len();
    let mut start: usize = 0;
    if n > 0 && s.get_char(0) == '+' {
        start = 1;
    }
    if start == n {
        return None;
    }
    let ghost d = unsigned_part(s@);
    assert(d =~= s@.skip(start as int));
    let mut acc: u64 = 0;
    let mut i: usize = start;
    while i < n
        invariant
            start <= i <= n,
            n == s@.len(),
            d == s@.skip(start as int),
            d == unsigned_part(s@),
            all_digits(d.take(i - start)),
            acc == digits_value(d.take(i - start)),
        decreases n - i,
    {
        let c: char = s.get_char(i);
        let ghost k = i - start;
        assert(d[k] == c);
        if !(c >= '0' && c <= '9') {
            assert(!is_digit(d[k]));
            return None;
        }
        let v: u64 = (c as u32 - 48) as u64;
        proof {
            assert(d.take(k + 1).drop_last() =~= d.take(k));
            assert(d.take(k + 1).last() == c);
            assert(digits_value(d.take(k + 1)) == 10 * acc + v);
            lemma_prefix_value(d, k + 1);
        }
        if acc > (u64::MAX - v) / 10 {
            return None;
        }
        acc = acc * 10 + v;
        proof {
            assert forall|j: int| 0 <= j < k + 1 implies is_digit(#[trigger] d.take(k + 1)[j]) by {
                if j < k {
                    assert(d.take(k + 1)[j] == d.take(k)[j]);
                }
            }
        }
        i = i + 1;
    }
    assert(d.take(n - start) =~= d);
    Some(acc)
}

/// Looks for the first `c` in `s` at or after `from`.
pub fn find_from(s: &str, c: char, from: usize) -> (r: Option<usize>)
    ensures
        match r {
            Some(i) => from <= i < s@.len() && s@[i as int] == c && forall|j: int|
                from <= j < i ==> s@[j] != c,
            None => forall|j: int| from <= j < s@.len() ==> s@[j] != c,
        },
{
    let n: usize = s.unicode_len();
    if from >= n {
        return None;
    }
    let mut i: usize = from;
    while i < n
        invariant
            from <= i <= n,
            n == s@.len(),
            forall|j: int| from <= j < i ==> s@[j] != c,
        decreases n - i,
    {
        if s.get_char(i) == c {
            return Some(i);
        }
        i = i + 1;
    }
    None
}

/// Whether a text begins with another.
pub open spec fn begins_with(s: Seq<char>, prefix: Seq<char>) -> bool {
    s.len() >= prefix.len() && s.take(prefix.len() as int) == prefix
}

/// Tells whether `s` begins with `prefix`.
pub fn starts_with(s: &str, prefix: &str) -> (r: bool)
    ensures
        r == begins_with(s@, prefix@),
{
    let n: usize = s.unicode_len();
    let m: usize = prefix.unicode_len();
    if n < m {
        return false;
    }
    let mut i: usize = 0;
    while i < m
        invariant
            i <= m <= n,
            n == s@.len(),
            m == prefix@.len(),
            forall|j: int| 0 <= j < i ==> s@[j] == prefix@[j],
        decreases m - i,
    {
        if s.get_char(i) != prefix.get_char(i) {
            assert(s@.take(m as int)[i as int] != prefix@[i as int]);
            return false;
        }
        i = i + 1;
    }
    assert(s@.take(m as int) =~= prefix@);
    true
}

/// Decimal digits hold none of the separators.
pub proof fn lemma_digits_are_free(s: Seq<char>)
    requires
        all_digits(s),
    ensures
        free_of(s, '/'),
        free_of(s, '@'),
        free_of(s, ':'),
{
    assert forall|j: int| 0 <= j < s.len() implies s[j] != '/' && s[j] != '@' && s[j] != ':' by {
        assert(is_digit(s[j]));
    }
}

/// Two texts joined by `c`, both free of `c`, make a pair.
pub proof fn lemma_pair_joined(a: Seq<char>, c: char, b: Seq<char>)
    requires
        free_of(a, c),
        free_of(b, c),
    ensures
        pair_of_text(a + seq![c] + b, c) == Some((a, b)),
{
    lemma_cut_joined(a, c, b);
}

/// Cuts a text in two at its first `c`.
pub fn split_first<'a>(s: &'a str, c: char) -> (r: Option<(&'a str, &'a str)>)
    ensures
        match r {
            Some((a, b)) => cut_at_first(s@, c) == Some((a@, b@)),
            None => cut_at_first(s@, c) is None,
        },
{
    let n: usize = s.unicode_len();
    match find_from(s, c, 0) {
        None => {
            proof {
                lemma_position_is(s@, c, n as int);
            }
            None
        },
        Some(i) => {
            proof {
                lemma_position_is(s@, c, i as int);
            }
            let a = s.substring_char(0, i);
            let b = s.substring_char(i + 1, n);
            assert(a@ =~= s@.take(i as int));
            assert(b@ =~= s@.skip(i + 1));
            Some((a, b))
        },
    }
}

/// Cuts a text that holds `c` exactly once in two there.
pub fn split_pair<'a>(s: &'a str, c: char) -> (r: Option<(&'a str, &'a str)>)
    ensures
        match r {
            Some((a, b)) => pair_of_text(s@, c) == Some((a@, b@)),
            None => pair_of_text(s@, c) is None,
        },
{
    match split_first(s, c) {
        None => None,
        Some((a, b)) => {
            match find_from(b, c, 0) {
                None => Some((a, b)),
                Some(k) => None,
            }
        },
    }
}

/// `n` zeros.
pub open spec fn zeros(n: nat) -> Seq<char> {
    Seq::new(n, |i: int| '0')
}

/// The whole part and the fraction of a decimal text: what stands before and
/// behind its first point, or the text and nothing where it has no point.
pub open spec fn decimal_parts(s: Seq<char>) -> (Seq<char>, Seq<char>) {
    match cut_at_first(s, '.') {
        Some((whole, fraction)) => (whole, fraction),
        None => (s, Seq::empty()),
    }
}

/// The atomic amount that a decimal text denotes for an asset with the given
/// number of decimal places: `12.5` at two places is 1250 units. The text
/// is one or more digits, and, if a point follows, one or more digits behind
/// it. A text with more digits behind the point than the asset has places
/// denotes no amount: nothing is rounded. Nor does one whose amount does not
/// fit 64 bits.
pub open spec fn atomic_amount_of(s: Seq<char>, precision: nat) -> Option<u64> {
    let (whole, fraction) = decimal_parts(s);
    let digits = whole + fraction + zeros((precision - fraction.len()) as nat);
    if whole.len() > 0 && all_digits(whole) && all_digits(fraction) && (cut_at_first(s, '.')
        is Some ==> fraction.len() > 0) && fraction.len() <= precision && digits_value(digits)
        <= u64::MAX {
        Some(digits_value(digits) as u64)
    } else {
        None
    }
}

/// Tells whether a text consists of decimal digits only.
pub fn is_all_digits(s: &str) -> (r: bool)
    ensures
        r == all_digits(s@),
{
    let n: usize = s.unicode_len();
    let mut i: usize = 0;
    while i < n
        invariant
            i <= n,
            n == s@.len(),
            forall|j: int| 0 <= j < i ==> is_digit(#[trigger] s@[j]),
        decreases n - i,
    {
        let c: char = s.get_char(i);
        if !(c >= '0' && c <= '9') {
            assert(!is_digit(s@[i as int]));
            return false;
        }
        i = i + 1;
    }
    true
}

/// Reads a decimal amount of an asset with `precision` decimal places into
/// atomic units. An amount that is finer than the asset allows is refused,
/// never rounded.
pub fn atomic_amount(s: &str, precision: u8) -> (r: Option<u64>)
    ensures
        r == atomic_amount_of(s@, precision as nat),
{
    proof {
        reveal_strlit("");
    }
    let (whole, fraction) = match split_first(s, '.') {
        Some((w, f)) => {
            if f.unicode_len() == 0 {
                return None;
            }
            (w, f)
        },
        None => (s, ""),
    };
    assert(""@ =~= Seq::<char>::empty());
    assert((whole@, fraction@) == decimal_parts(s@));
    let places: usize = fraction.unicode_len();
    if whole.unicode_len() == 0 || places > precision as usize {
        return None;
    }
    if !is_all_digits(whole) || !is_all_digits(fraction) {
        return None;
    }
    let mut digits = String::from_str(whole);
    digits.append(fraction);
    let mut i: usize = places;
    assert(digits@ =~= whole@ + fraction@ + zeros(0));
    while i < precision as usize
        invariant
            places <= i <= precision,
            digits@ == whole@ + fraction@ + zeros((i - places) as nat),
        decreases precision - i,
    {
        proof {
            reveal_strlit("0");
        }
        digits.append("0");
        assert("0"@ =~= seq!['0']);
        assert(digits@ =~= whole@ + fraction@ + zeros((i + 1 - places) as nat));
        i = i + 1;
    }
    proof {
        let d = digits@;
        assert(d[0] == whole@[0]);
        assert(is_digit(whole@[0]));
        assert(d[0] != '+');
        assert(unsigned_part(d) == d);
        assert forall|j: int| 0 <= j < d.len() implies is_digit(#[trigger] d[j]) by {
            if j < whole@.len() {
                assert(d[j] == whole@[j]);
            } else if j < whole@.len() + fraction@.len() {
                assert(d[j] == fraction@[j - whole@.len()]);
            } else {
                assert(d[j] == '0');
            }
        }
    }
    parse_amount(digits.as_str())
}

} // verus!
