use vstd::prelude::*;

verus! {

/// The character of a decimal digit `d` (0 to 9).
pub open spec fn digit_char(d: nat) -> char {
    ((48 + d) as u32) as char
}

/// The decimal digits of `n`, most significant first, without leading zeros.
pub open spec fn digits(n: nat) -> Seq<char>
    decreases n,
{
    if n < 10 {
        seq![digit_char(n)]
    } else {
        digits(n / 10).push(digit_char(n % 10))
    }
}

/// How Rust's `Display` writes an integer: a minus sign for negatives, then the digits.
pub open spec fn decimal(n: int) -> Seq<char> {
    if n < 0 {
        seq!['-'] + digits((-n) as nat)
    } else {
        digits(n as nat)
    }
}

/// Appends one character to a string (std's `String::push`).
#[verifier::external_body]
pub(crate) fn push_char(s: &mut String, c: char)
    ensures
        final(s)@ == old(s)@.push(c),
{
    s.push(c);
}

fn digit(d: u64) -> (c: char)
    requires
        d < 10,
    ensures
        c == digit_char(d as nat),
{
    let b: u8 = 48u8 + (d as u8);
    b as char
}

/// Appends the decimal digits of `n` to `s`.
pub fn push_u64(s: &mut String, n: u64)
    ensures
        final(s)@ == old(s)@ + digits(n as nat),
    decreases n,
{
    if n >= 10 {
        push_u64(s, n / 10);
    }
    let c = digit(n % 10);
    push_char(s, c);
}


/// Appends `n` written in decimal (with a leading `-` when negative) to `s`.
pub fn push_i64(s: &mut String, n: i64)
    ensures
        final(s)@ == old(s)@ + decimal(n as int),
{
    if n < 0 {
        push_char(s, '-');
        let m: u64 = ((-(n + 1)) as u64) + 1;
        push_u64(s, m);
        assert(final(s)@ =~= old(s)@ + decimal(n as int));
    } else {
        push_u64(s, n as u64);
    }
}

/// Whether `c` is one of the ASCII digits `0` to `9`.
pub open spec fn is_digit(c: char) -> bool {
    '0' <= c && c <= '9'
}

/// Whether every character of `s` is an ASCII digit.
pub open spec fn all_digits(s: Seq<char>) -> bool {
    forall|i: int| 0 <= i < s.len() ==> is_digit(#[trigger] s[i])
}

/// The number that a sequence of ASCII digits denotes in base 10.
pub open spec fn digits_value(s: Seq<char>) -> int
    decreases s.len(),
{
    if s.len() == 0 {
        0
    } else {
        10 * digits_value(s.drop_last()) + (s.last() as int - 48)
    }
}

/// The integer that `s` denotes in the grammar of Rust's integer `from_str`:
/// an optional `+` or `-`, then one or more ASCII digits.
pub open spec fn signed_value(s: Seq<char>) -> Option<int> {
    if s.len() > 0 && (s[0] == '-' || s[0] == '+') {
        let body = s.drop_first();
        if body.len() > 0 && all_digits(body) {
            if s[0] == '-' {
                Some(-digits_value(body))
            } else {
                Some(digits_value(body))
            }
        } else {
            None
        }
    } else if s.len() > 0 && all_digits(s) {
        Some(digits_value(s))
    } else {
        None
    }
}

/// What `s.parse::<i32>()` gives: the value when `s` is a well-formed integer
/// that fits in an `i32`, else nothing.
pub open spec fn parse_i32_spec(s: Seq<char>) -> Option<i32> {
    match signed_value(s) {
        Some(v) => if i32::MIN <= v <= i32::MAX {
            Some(v as i32)
        } else {
            None
        },
        None => None,
    }
}

proof fn lemma_digits_value_grows(s: Seq<char>, c: char)
    requires
        is_digit(c),
    ensures
        digits_value(s.push(c)) == 10 * digits_value(s) + (c as int - 48),
{
    assert(s.push(c).drop_last() =~= s);
}

proof fn lemma_digits_value_nonneg(s: Seq<char>)
    requires
        all_digits(s),
    ensures
        digits_value(s) >= 0,
    decreases s.len(),
{
    if s.len() > 0 {
        assert(is_digit(s[s.len() - 1]));
        lemma_digits_value_nonneg(s.drop_last());
    }
}

/// Parses `s` as Rust's `s.parse::<i32>()` does.
pub fn parse_i32(s: &str) -> (r: Option<i32>)
    ensures
        r == parse_i32_spec(s@),
{
    let n = s.unicode_len();
    if n == 0 {
        return None;
    }
    let first = s.get_char(0);
    let neg = first == '-';
    let start: usize = if first == '-' || first == '+' { 1 } else { 0 };
    if start == n {
        return None;
    }
    let ghost body = s@.subrange(start as int, n as int);
    let mut acc: i64 = 0;
    let mut big = false;
    let mut i: usize = start;
    while i < n
        invariant
            start <= i <= n,
            n == s@.len(),
            start == 0 || start == 1,
            n > 0,
            start == 1 <==> (s@[0] == '-' || s@[0] == '+'),
            neg <==> s@[0] == '-',
            body == s@.subrange(start as int, n as int),
            all_digits(s@.subrange(start as int, i as int)),
            0 <= acc <= 2147483648,
            !big ==> acc == digits_value(s@.subrange(start as int, i as int)),
            big ==> digits_value(s@.subrange(start as int, i as int)) > 2147483648,
        decreases n - i,
    {
        let c = s.get_char(i);
        let ghost prev = s@.subrange(start as int, i as int);
        assert(s@.subrange(start as int, i + 1) =~= prev.push(c));
        if !(c >= '0' && c <= '9') {
            assert(body[i - start] == c);
            assert(!all_digits(body));
            if start == 1 {
                assert(body =~= s@.drop_first());
            } else {
                assert(body =~= s@);
            }
            return None;
        }
        proof {
            lemma_digits_value_grows(prev, c);
            lemma_digits_value_nonneg(prev);
        }
        let d: i64 = (c as u32 - 48) as i64;
        if !big {
            let next: i64 = acc * 10 + d;
            if next > 2147483648 {
                big = true;
                acc = 0;
            } else {
                acc = next;
            }
        }
        i = i + 1;
    }
    assert(s@.subrange(start as int, n as int) =~= body);
    if start == 1 {
        assert(body =~= s@.drop_first());
    } else {
        assert(body =~= s@);
    }
    if big {
        None
    } else if neg {
        Some((-acc) as i32)
    } else if acc <= 2147483647 {
        Some(acc as i32)
    } else {
        None
    }
}

proof fn lemma_digit_char(d: nat)
    requires
        d < 10,
    ensures
        digit_char(d) as int == 48 + d,
        is_digit(digit_char(d)),
{
}

proof fn lemma_digits_parse(n: nat)
    ensures
        digits(n).len() > 0,
        all_digits(digits(n)),
        digits_value(digits(n)) == n,
    decreases n,
{
    if n >= 10 {
        lemma_digits_parse(n / 10);
        let c = digit_char(n % 10);
        lemma_digit_char(n % 10);
        assert(all_digits(digits(n))) by {
            assert forall|i: int| 0 <= i < digits(n).len() implies is_digit(#[trigger] digits(n)[i]) by {
                if i < digits(n / 10).len() {
                    assert(digits(n)[i] == digits(n / 10)[i]);
                }
            }
        }
        lemma_digits_value_grows(digits(n / 10), c);
    } else {
        lemma_digit_char(n);
        assert(digits(n).drop_last() =~= Seq::<char>::empty());
        assert(digits_value(Seq::<char>::empty()) == 0);
    }
}

/// Reading back what `push_i64` writes gives the number again: the bot prints
/// amounts in decimal and parses them with `parse_i32`, and the two agree on
/// every `i32`.
pub proof fn law_decimal_round_trip(n: i32)
    ensures
        parse_i32_spec(decimal(n as int)) == Some(n),
{
    if n < 0 {
        let m = (-n) as nat;
        lemma_digits_parse(m);
        let s = decimal(n as int);
        assert(s.drop_first() =~= digits(m));
        assert(s[0] == '-');
    } else {
        lemma_digits_parse(n as nat);
        let s = digits(n as nat);
        assert(is_digit(s[0]));
    }
}

} // verus!
