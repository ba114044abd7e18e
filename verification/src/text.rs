//! Text that is put together from parts: numbers in decimal, and messages.
use vstd::prelude::*;
use vstd::string::*;

verus! {

/// The decimal digit of `d`.
pub open spec fn digit(d: nat) -> char {
    if d == 0 {
        '0'
    } else if d == 1 {
        '1'
    } else if d == 2 {
        '2'
    } else if d == 3 {
        '3'
    } else if d == 4 {
        '4'
    } else if d == 5 {
        '5'
    } else if d == 6 {
        '6'
    } else if d == 7 {
        '7'
    } else if d == 8 {
        '8'
    } else {
        '9'
    }
}

/// `n` in decimal, without leading zeros.
pub open spec fn decimal(n: nat) -> Seq<char>
    decreases n,
{
    if n < 10 {
        seq![digit(n)]
    } else {
        decimal(n / 10).push(digit(n % 10))
    }
}

/// `n` in decimal, with a minus sign if it is negative.
pub open spec fn signed_decimal(n: int) -> Seq<char> {
    if n < 0 {
        seq!['-'] + decimal((-n) as nat)
    } else {
        decimal(n as nat)
    }
}

fn digit_text(d: u64) -> (text: &'static str)
    requires
        d < 10,
    ensures
        text@ == seq![digit(d as nat)],
{
    proof {
        reveal_strlit("0");
        reveal_strlit("1");
        reveal_strlit("2");
        reveal_strlit("3");
        reveal_strlit("4");
        reveal_strlit("5");
        reveal_strlit("6");
        reveal_strlit("7");
        reveal_strlit("8");
        reveal_strlit("9");
    }
    if d == 0 {
        "0"
    } else if d == 1 {
        "1"
    } else if d == 2 {
        "2"
    } else if d == 3 {
        "3"
    } else if d == 4 {
        "4"
    } else if d == 5 {
        "5"
    } else if d == 6 {
        "6"
    } else if d == 7 {
        "7"
    } else if d == 8 {
        "8"
    } else {
        "9"
    }
}

/// Writes `n` in decimal.
pub fn decimal_text(n: u64) -> (text: String)
    ensures
        text@ == decimal(n as nat),
    decreases n,
{
    if n < 10 {
        digit_text(n).to_owned()
    } else {
        let mut text = decimal_text(n / 10);
        text.append(digit_text(n % 10));
        assert(text@ =~= decimal(n as nat));
        text
    }
}

/// Writes `n` in decimal, with its sign if it is negative.
pub fn signed_decimal_text(n: i32) -> (text: String)
    ensures
        text@ == signed_decimal(n as int),
{
    if n < 0 {
        proof {
            reveal_strlit("-");
        }
        let mut text = "-".to_owned();
        let magnitude: u64 = (-(n as i64)) as u64;
        text.append(decimal_text(magnitude).as_str());
        assert(text@ =~= signed_decimal(n as int));
        text
    } else {
        decimal_text(n as u64)
    }
}

/// Whether `c` is white space by the Unicode property `White_Space`.
pub open spec fn is_white_space(c: char) -> bool {
    ||| 0x9 <= c as u32 <= 0xd
    ||| c as u32 == 0x20
    ||| c as u32 == 0x85
    ||| c as u32 == 0xa0
    ||| c as u32 == 0x1680
    ||| 0x2000 <= c as u32 <= 0x200a
    ||| c as u32 == 0x2028
    ||| c as u32 == 0x2029
    ||| c as u32 == 0x202f
    ||| c as u32 == 0x205f
    ||| c as u32 == 0x3000
}

/// `s` without the white space at its start.
pub open spec fn trimmed_start(s: Seq<char>) -> Seq<char>
    decreases s.len(),
{
    if s.len() > 0 && is_white_space(s[0]) {
        trimmed_start(s.drop_first())
    } else {
        s
    }
}

/// `s` without the white space at its end.
pub open spec fn trimmed_end(s: Seq<char>) -> Seq<char>
    decreases s.len(),
{
    if s.len() > 0 && is_white_space(s.last()) {
        trimmed_end(s.drop_last())
    } else {
        s
    }
}

/// `s` without the white space at its two ends.
pub open spec fn trimmed(s: Seq<char>) -> Seq<char> {
    trimmed_end(trimmed_start(s))
}

/// Whether `c` is white space.
pub fn white_space(c: char) -> (r: bool)
    ensures
        r == is_white_space(c),
{
    let code: u32 = c as u32;
    (0x9 <= code && code <= 0xd) || code == 0x20 || code == 0x85 || code == 0xa0 || code == 0x1680
        || (0x2000 <= code && code <= 0x200a) || code == 0x2028 || code == 0x2029 || code == 0x202f
        || code == 0x205f || code == 0x3000
}

/// The part of `s` between the white space at its two ends.
pub fn trim<'a>(s: &'a str) -> (r: &'a str)
    ensures
        r@ == trimmed(s@),
{
    let n: usize = s.unicode_len();
    let mut start: usize = 0;
    assert(s@.skip(0) =~= s@);
    while start < n && white_space(s.get_char(start))
        invariant
            start <= n == s@.len(),
            trimmed_start(s@) == trimmed_start(s@.skip(start as int)),
        decreases n - start,
    {
        assert(s@.skip(start as int).drop_first() =~= s@.skip(start + 1));
        start = start + 1;
    }
    let ghost body = s@.skip(start as int);
    assert(trimmed_start(s@) == body);
    let mut end: usize = n;
    assert(body.take(end - start) =~= body);
    while start < end && white_space(s.get_char(end - 1))
        invariant
            start <= end <= n == s@.len(),
            body == s@.skip(start as int),
            trimmed_end(body) == trimmed_end(body.take(end - start)),
        decreases end,
    {
        assert(body.take(end - start).drop_last() =~= body.take(end - start - 1));
        end = end - 1;
    }
    assert(trimmed_end(body) == body.take(end - start));
    assert(body.take(end - start) =~= s@.subrange(start as int, end as int));
    s.substring_char(start, end)
}

/// Whether `c` is a decimal digit.
pub open spec fn is_digit(c: char) -> bool {
    '0' <= c <= '9'
}

/// The number that the digits of `s` make up.
pub open spec fn digits_value(s: Seq<char>) -> nat
    decreases s.len(),
{
    if s.len() == 0 {
        0
    } else {
        digits_value(s.drop_last()) * 10 + (s.last() as u32 - '0' as u32) as nat
    }
}

/// What is left of `s` without a plus sign at its start.
pub open spec fn unsigned_part(s: Seq<char>) -> Seq<char> {
    if s.len() > 0 && s[0] == '+' {
        s.drop_first()
    } else {
        s
    }
}

/// Whether `s` is one digit or more.
pub open spec fn is_number(s: Seq<char>) -> bool {
    s.len() > 0 && forall|i: int| 0 <= i < s.len() ==> is_digit(#[trigger] s[i])
}

/// The number that `s` stands for: digits, maybe with a plus sign before them, if
/// their value fits.
pub open spec fn parsed_u32(s: Seq<char>) -> Option<u32> {
    let digits = unsigned_part(s);
    if is_number(digits) && digits_value(digits) <= u32::MAX {
        Some(digits_value(digits) as u32)
    } else {
        None
    }
}

/// More digits make no smaller number.
proof fn lemma_digits_grow(s: Seq<char>, k: int)
    requires
        is_number(s),
        0 <= k <= s.len(),
    ensures
        digits_value(s.take(k)) <= digits_value(s),
    decreases s.len() - k,
{
    if k == s.len() {
        assert(s.take(k) =~= s);
    } else {
        lemma_digits_grow(s, k + 1);
        assert(s.take(k + 1).drop_last() =~= s.take(k));
        assert(is_digit(s[k]));
    }
}

/// Reads a number in decimal.
pub fn parse_u32(s: &str) -> (r: Option<u32>)
    ensures
        r == parsed_u32(s@),
{
    let n: usize = s.unicode_len();
    let start: usize = if n > 0 && s.get_char(0) == '+' {
        1
    } else {
        0
    };
    let ghost digits = unsigned_part(s@);
    assert(digits =~= s@.skip(start as int));
    if start == n {
        return None;
    }
    let mut value: u64 = 0;
    let mut i: usize = start;
    assert(digits.take(0) =~= Seq::<char>::empty());
    while i < n
        invariant
            start <= i <= n == s@.len(),
            start < n,
            digits == s@.skip(start as int),
            digits == unsigned_part(s@),
            forall|j: int| 0 <= j < i - start ==> is_digit(#[trigger] digits[j]),
            value == digits_value(digits.take(i - start)),
            value <= u32::MAX,
        decreases n - i,
    {
        let c: char = s.get_char(i);
        assert(digits[i - start] == c);
        if !('0' <= c && c <= '9') {
            assert(!is_digit(digits[i - start]));
            return None;
        }
        assert(digits.take(i - start + 1).drop_last() =~= digits.take(i - start));
        value = value * 10 + (c as u32 - '0' as u32) as u64;
        i = i + 1;
        if value > 0xffff_ffff {
            proof {
                if is_number(digits) {
                    lemma_digits_grow(digits, i - start);
                }
            }
            return None;
        }
    }
    assert(digits.take(i - start) =~= digits);
    Some(value as u32)
}

/// A number in decimal is made up of digits that give the number back.
pub proof fn lemma_decimal_value(n: nat)
    ensures
        is_number(decimal(n)),
        digits_value(decimal(n)) == n,
        unsigned_part(decimal(n)) == decimal(n),
    decreases n,
{
    let text = decimal(n);
    if n < 10 {
        assert(text.drop_last() =~= Seq::<char>::empty());
        assert(digits_value(text.drop_last()) == 0);
    } else {
        lemma_decimal_value(n / 10);
        assert(text.drop_last() =~= decimal(n / 10));
        assert(text[0] == decimal(n / 10)[0]);
        assert forall|i: int| 0 <= i < text.len() implies is_digit(#[trigger] text[i]) by {
            if i < text.len() - 1 {
                assert(text[i] == decimal(n / 10)[i]);
            }
        }
    }
    assert(is_digit(text[0]));
}

/// Reading what was written gives the number back.
pub proof fn law_number_reads_back(n: u32)
    ensures
        parsed_u32(decimal(n as nat)) == Some(n),
{
    lemma_decimal_value(n as nat);
}

/// What is trimmed is the part between white space at the two ends: everything before and
/// after it is white space, and it neither starts nor ends with white space.
pub proof fn law_trimmed_is_the_part_between(s: Seq<char>)
    ensures
        exists|i: int, j: int| #[trigger] is_between(s, i, j) && trimmed(s) == s.subrange(i, j),
{
    let i = lemma_trimmed_start(s);
    let body = s.skip(i);
    let n = lemma_trimmed_end(body);
    let j = i + n;
    assert(s.subrange(i, j) =~= body.take(n));
    assert forall|k: int| j <= k < s.len() implies is_white_space(#[trigger] s[k]) by {
        assert(body[k - i] == s[k]);
    }
    if i < j {
        assert(body[0] == s[i]);
        assert(body[n - 1] == s[j - 1]);
    }
    assert(is_between(s, i, j));
}

/// Whether `i..j` is where `s` is neither led nor followed by anything but white space, and has
/// none at its own ends.
pub open spec fn is_between(s: Seq<char>, i: int, j: int) -> bool {
    &&& 0 <= i <= j <= s.len()
    &&& forall|k: int| 0 <= k < i ==> is_white_space(#[trigger] s[k])
    &&& forall|k: int| j <= k < s.len() ==> is_white_space(#[trigger] s[k])
    &&& i < j ==> !is_white_space(s[i]) && !is_white_space(s[j - 1])
}

/// Where the trimmed start of `s` starts.
proof fn lemma_trimmed_start(s: Seq<char>) -> (i: int)
    ensures
        0 <= i <= s.len(),
        trimmed_start(s) == s.skip(i),
        forall|k: int| 0 <= k < i ==> is_white_space(#[trigger] s[k]),
        i < s.len() ==> !is_white_space(s[i]),
    decreases s.len(),
{
    if s.len() > 0 && is_white_space(s[0]) {
        let rest = s.drop_first();
        let i = lemma_trimmed_start(rest);
        assert(rest.skip(i) =~= s.skip(i + 1));
        assert forall|k: int| 0 <= k < i + 1 implies is_white_space(#[trigger] s[k]) by {
            if k > 0 {
                assert(rest[k - 1] == s[k]);
            }
        }
        if i < rest.len() {
            assert(rest[i] == s[i + 1]);
        }
        i + 1
    } else {
        assert(s.skip(0) =~= s);
        0
    }
}

/// Where the trimmed end of `s` ends.
proof fn lemma_trimmed_end(s: Seq<char>) -> (n: int)
    ensures
        0 <= n <= s.len(),
        trimmed_end(s) == s.take(n),
        forall|k: int| n <= k < s.len() ==> is_white_space(#[trigger] s[k]),
        n > 0 ==> !is_white_space(s[n - 1]),
    decreases s.len(),
{
    if s.len() > 0 && is_white_space(s.last()) {
        let rest = s.drop_last();
        let n = lemma_trimmed_end(rest);
        assert(rest.take(n) =~= s.take(n));
        assert forall|k: int| n <= k < s.len() implies is_white_space(#[trigger] s[k]) by {
            if k < rest.len() {
                assert(rest[k] == s[k]);
            }
        }
        n
    } else {
        assert(s.take(s.len() as int) =~= s);
        s.len() as int
    }
}

/// `k` zeros.
pub open spec fn zeros(k: nat) -> Seq<char> {
    Seq::new(k, |i: int| '0')
}

/// Zeros before digits do not change the number.
proof fn lemma_zeros_before(k: nat, t: Seq<char>)
    requires
        is_number(t),
    ensures
        is_number(zeros(k) + t),
        digits_value(zeros(k) + t) == digits_value(t),
    decreases t.len(),
{
    let s = zeros(k) + t;
    assert forall|i: int| 0 <= i < s.len() implies is_digit(#[trigger] s[i]) by {
        if i >= k {
            assert(s[i] == t[i - k]);
        }
    }
    assert(s.drop_last() =~= zeros(k) + t.drop_last());
    assert(s.last() == t.last());
    if t.len() == 1 {
        assert(t.drop_last() =~= Seq::<char>::empty());
        assert(zeros(k) + t.drop_last() =~= zeros(k));
        lemma_zeros(k);
        assert(digits_value(t.drop_last()) == 0);
    } else {
        assert forall|i: int| 0 <= i < t.drop_last().len() implies is_digit(
            #[trigger] t.drop_last()[i],
        ) by {
            assert(t.drop_last()[i] == t[i]);
        }
        lemma_zeros_before(k, t.drop_last());
    }
}

/// Zeros alone are nothing.
proof fn lemma_zeros(k: nat)
    ensures
        digits_value(zeros(k)) == 0,
    decreases k,
{
    if k > 0 {
        assert(zeros(k).drop_last() =~= zeros((k - 1) as nat));
        lemma_zeros((k - 1) as nat);
        assert(zeros(k).last() == '0');
    }
}

/// Digits are some zeros and the number that they make up in decimal.
proof fn lemma_digits_are_decimal(s: Seq<char>) -> (k: nat)
    requires
        is_number(s),
    ensures
        s == zeros(k) + decimal(digits_value(s)),
    decreases s.len(),
{
    let last = s.last();
    assert(is_digit(s[s.len() - 1]));
    let d = (last as u32 - '0' as u32) as nat;
    assert(last == digit(d));
    let rest = s.drop_last();
    assert(digits_value(s) == digits_value(rest) * 10 + d);
    if rest.len() == 0 {
        assert(digits_value(rest) == 0);
        assert(s =~= zeros(0) + decimal(d));
        0
    } else {
        assert forall|i: int| 0 <= i < rest.len() implies is_digit(#[trigger] rest[i]) by {
            assert(rest[i] == s[i]);
        }
        let k = lemma_digits_are_decimal(rest);
        let v = digits_value(rest);
        assert(s =~= rest.push(last));
        if v == 0 {
            assert(decimal(0) =~= seq!['0']);
            assert(rest =~= zeros(k + 1));
            assert(decimal(d) =~= seq![last]);
            assert(s =~= zeros(k + 1) + decimal(d));
            k + 1
        } else {
            let n = v * 10 + d;
            assert(n / 10 == v && n % 10 == d);
            assert(decimal(n) =~= decimal(v).push(digit(d)));
            assert((zeros(k) + decimal(v)).push(last) =~= zeros(k) + decimal(v).push(last));
            assert(s =~= zeros(k) + decimal(n));
            k
        }
    }
}

/// A number of 32 bits is read exactly from its decimal text, with any number of zeros before it
/// and maybe a plus sign before those. Nothing else is read as a number.
pub proof fn law_number_is_read_from_its_decimal_text(s: Seq<char>, n: u32, k: nat)
    ensures
        parsed_u32(zeros(k) + decimal(n as nat)) == Some(n),
        parsed_u32(seq!['+'] + (zeros(k) + decimal(n as nat))) == Some(n),
        parsed_u32(s) == Some(n) ==> exists|z: nat|
            #![trigger zeros(z)]
            s == zeros(z) + decimal(n as nat) || s == seq!['+'] + (zeros(z) + decimal(n as nat)),
{
    let text = zeros(k) + decimal(n as nat);
    lemma_decimal_value(n as nat);
    lemma_zeros_before(k, decimal(n as nat));
    assert(is_digit(text[0]));
    assert(unsigned_part(text) == text);
    assert((seq!['+'] + text).drop_first() =~= text);
    if parsed_u32(s) == Some(n) {
        let digits = unsigned_part(s);
        let z = lemma_digits_are_decimal(digits);
        assert(digits == zeros(z) + decimal(n as nat));
        if s[0] == '+' {
            assert(s =~= seq!['+'] + digits);
        }
    }
}

/// A number in decimal has no zero at its start, but for zero itself, and a negative one has a
/// minus sign before the digits of its magnitude.
pub proof fn law_decimal_form(n: int)
    ensures
        n >= 0 ==> signed_decimal(n) == decimal(n as nat),
        n < 0 ==> signed_decimal(n).len() > 0 && signed_decimal(n)[0] == '-' && signed_decimal(
            n,
        ).skip(1) == decimal((-n) as nat),
        n > 0 ==> decimal(n as nat)[0] != '0',
        decimal(0) == seq!['0'],
{
    if n < 0 {
        assert(signed_decimal(n).skip(1) =~= decimal((-n) as nat));
    }
    if n > 0 {
        lemma_leading_digit(n as nat);
    }
    assert(decimal(0) =~= seq!['0']);
}

/// The first digit of a positive number is not zero.
proof fn lemma_leading_digit(n: nat)
    requires
        n > 0,
    ensures
        decimal(n).len() > 0,
        decimal(n)[0] != '0',
    decreases n,
{
    if n >= 10 {
        lemma_leading_digit(n / 10);
    }
}

} // verus!
