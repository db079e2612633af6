use vstd::prelude::*;

verus! {

/// How many times `c` occurs in `s`.
pub open spec fn occurrences(s: Seq<char>, c: char) -> nat
    decreases s.len(),
{
    if s.len() == 0 {
        0
    } else {
        occurrences(s.drop_last(), c) + if s.last() == c { 1nat } else { 0nat }
    }
}

proof fn lemma_occurrences_take(s: Seq<char>, c: char, i: int)
    requires
        0 <= i < s.len(),
    ensures
        occurrences(s.take(i + 1), c) == occurrences(s.take(i), c) + if s[i] == c { 1nat } else {
            0nat
        },
{
    assert(s.take(i + 1).drop_last() =~= s.take(i));
}

proof fn lemma_occurrences_grow(s: Seq<char>, c: char, i: int)
    requires
        0 <= i <= s.len(),
    ensures
        occurrences(s.take(i), c) <= occurrences(s, c),
    decreases s.len() - i,
{
    if i == s.len() {
        assert(s.take(i) =~= s);
    } else {
        lemma_occurrences_take(s, c, i);
        lemma_occurrences_grow(s, c, i + 1);
    }
}

/// Whether `c` occurs in `s` once and no more.
pub fn occurs_once(s: &str, c: char) -> (once: bool)
    ensures
        once == (occurrences(s@, c) == 1),
{
    let mut found: bool = false;
    for x in it: s.chars()
        invariant
            it.seq() == s@,
            occurrences(s@.take(it.index() as int), c) == if found { 1nat } else { 0nat },
    {
        proof {
            lemma_occurrences_take(s@, c, it.index() as int);
            lemma_occurrences_grow(s@, c, it.index() as int + 1);
        }
        if x == c {
            if found {
                return false;
            }
            found = true;
        }
    }
    assert(s@.take(s@.len() as int) =~= s@);
    found
}

/// The characters of `s`, in order.
pub fn characters(s: &str) -> (chars: Vec<char>)
    ensures
        chars@ == s@,
{
    let mut chars: Vec<char> = Vec::new();
    for x in it: s.chars()
        invariant
            it.seq() == s@,
            chars@ =~= s@.take(it.index() as int),
    {
        chars.push(x);
    }
    assert(s@.take(s@.len() as int) =~= s@);
    chars
}

/// Whether `s` begins with `prefix`.
pub fn starts_with(s: &str, prefix: &str) -> (yes: bool)
    ensures
        yes == prefix@.is_prefix_of(s@),
{
    let text: Vec<char> = characters(s);
    let start: Vec<char> = characters(prefix);
    if text.len() < start.len() {
        return false;
    }
    let mut i: usize = 0;
    while i < start.len()
        invariant
            i <= start.len() <= text.len(),
            forall|j: int| 0 <= j < i ==> text[j] == start[j],
            text@ == s@,
            start@ == prefix@,
        decreases start.len() - i,
    {
        if text[i] != start[i] {
            assert(prefix@[i as int] != s@.take(prefix@.len() as int)[i as int]);
            return false;
        }
        i += 1;
    }
    assert(prefix@ =~= s@.take(prefix@.len() as int));
    true
}

/// Whether two texts are the same.
pub fn same_text(a: &str, b: &str) -> (same: bool)
    ensures
        same == (a@ == b@),
{
    let left: Vec<char> = characters(a);
    let right: Vec<char> = characters(b);
    if left.len() != right.len() {
        return false;
    }
    let mut i: usize = 0;
    while i < left.len()
        invariant
            i <= left.len() == right.len(),
            forall|j: int| 0 <= j < i ==> left[j] == right[j],
            left@ == a@,
            right@ == b@,
        decreases left.len() - i,
    {
        if left[i] != right[i] {
            assert(a@[i as int] != b@[i as int]);
            return false;
        }
        i += 1;
    }
    assert(a@ =~= b@);
    true
}

/// The character that stands for the decimal digit `d`.
pub open spec fn digit_char(d: nat) -> char {
    (48 + d) as char
}

/// Whether `c` is one of `0` to `9`.
pub open spec fn is_digit(c: char) -> bool {
    '0' <= c && c <= '9'
}

/// The number that a row of decimal digits denotes, most significant digit first.
pub open spec fn digits_value(s: Seq<char>) -> nat
    decreases s.len(),
{
    if s.len() == 0 {
        0
    } else {
        10 * digits_value(s.drop_last()) + (s.last() as nat - 48) as nat
    }
}

/// Whether every character of `s` is a decimal digit.
pub open spec fn all_digits(s: Seq<char>) -> bool {
    forall|i: int| 0 <= i < s.len() ==> is_digit(#[trigger] s[i])
}

/// `s` without the plus sign that it may begin with.
pub open spec fn unsigned_part(s: Seq<char>) -> Seq<char> {
    if s.len() > 0 && s[0] == '+' {
        s.skip(1)
    } else {
        s
    }
}

/// The number that `s` writes in decimal: an optional plus sign, then digits and nothing else.
/// `None` where `s` has another form, or where the number does not fit in 64 bits.
pub open spec fn parsed_u64(s: Seq<char>) -> Option<u64> {
    let digits = unsigned_part(s);
    if digits.len() > 0 && all_digits(digits) && digits_value(digits) <= u64::MAX {
        Some(digits_value(digits) as u64)
    } else {
        None
    }
}

/// `n` in decimal, without leading zeros.
pub open spec fn decimal(n: nat) -> Seq<char>
    decreases n,
{
    if n < 10 {
        seq![digit_char(n)]
    } else {
        decimal(n / 10).push(digit_char(n % 10))
    }
}

proof fn lemma_digits_value_grows(s: Seq<char>, i: int)
    requires
        0 <= i <= s.len(),
    ensures
        digits_value(s.take(i)) <= digits_value(s),
    decreases s.len() - i,
{
    if i == s.len() {
        assert(s.take(i) =~= s);
    } else {
        assert(s.take(i + 1).drop_last() =~= s.take(i));
        lemma_digits_value_grows(s, i + 1);
    }
}

/// Reads a decimal number, as `parsed_u64` says.
pub fn parse_u64(s: &str) -> (value: Option<u64>)
    ensures
        value == parsed_u64(s@),
{
    let text: Vec<char> = characters(s);
    let start: usize = if text.len() > 0 && text[0] == '+' { 1 } else { 0 };
    if text.len() == start {
        return None;
    }
    let ghost digits = unsigned_part(s@);
    let mut value: u64 = 0;
    let mut i: usize = start;
    while i < text.len()
        invariant
            start <= i <= text.len(),
            text@ == s@,
            digits == unsigned_part(s@),
            digits == s@.skip(start as int),
            all_digits(digits.take(i - start)),
            value == digits_value(digits.take(i - start)),
        decreases text.len() - i,
    {
        let c: char = text[i];
        let ghost k = i - start;
        proof {
            assert(digits[k] == c);
            assert(digits.take(k + 1).drop_last() =~= digits.take(k));
            lemma_digits_value_grows(digits, k + 1);
        }
        if c < '0' || c > '9' {
            return None;
        }
        let digit: u64 = c as u64 - 48;
        if value > (u64::MAX - digit) / 10 {
            return None;
        }
        value = 10 * value + digit;
        i += 1;
        assert forall|j: int| 0 <= j < k + 1 implies is_digit(#[trigger] digits.take(k + 1)[j]) by {
            if j < k {
                assert(is_digit(digits.take(k)[j]));
            }
        }
    }
    assert(digits.take(text.len() - start) =~= digits);
    Some(value)
}

/// The decimal digit `d` as text.
fn digit_text(d: u64) -> (text: &'static str)
    requires
        d < 10,
    ensures
        text@ == seq![digit_char(d as nat)],
{
    proof {
        reveal_strlit("0");
        reveal_strlit("1");
        reveal_strlit("2");
        reveal_strlit("3");
        reveal_strlit("4");
        reveal_strlit("5");
        reveal_strlit("6");
        reveal_strlit("7");
        reveal_strlit("8");
        reveal_strlit("9");
    }
    match d {
        0 => "0",
        1 => "1",
        2 => "2",
        3 => "3",
        4 => "4",
        5 => "5",
        6 => "6",
        7 => "7",
        8 => "8",
        _ => "9",
    }
}

/// Writes `n` in decimal.
pub fn format_u64(n: u64) -> (text: String)
    ensures
        text@ == decimal(n as nat),
    decreases n,
{
    if n < 10 {
        digit_text(n).to_owned()
    } else {
        format_u64(n / 10).concat(digit_text(n % 10))
    }
}

proof fn lemma_decimal_is_digits(n: nat)
    ensures
        decimal(n).len() > 0,
        all_digits(decimal(n)),
        digits_value(decimal(n)) == n,
    decreases n,
{
    let s = decimal(n);
    if n < 10 {
        assert(s.drop_last() =~= Seq::empty());
        assert(digits_value(s.drop_last()) == 0);
    } else {
        lemma_decimal_is_digits(n / 10);
        assert(s.drop_last() =~= decimal(n / 10));
        assert forall|j: int| 0 <= j < s.len() implies is_digit(#[trigger] s[j]) by {
            if j < s.len() - 1 {
                assert(is_digit(decimal(n / 10)[j]));
            }
        }
    }
}

/// Reading what was written gives the number back: every 64-bit number written in decimal is
/// read as itself.
pub proof fn decimal_reads_back(n: u64)
    ensures
        parsed_u64(decimal(n as nat)) == Some(n),
{
    lemma_decimal_is_digits(n as nat);
    assert(is_digit(decimal(n as nat)[0]));
}

/// A plus sign in front of a written number is ignored when it is read.
pub proof fn plus_sign_is_ignored(n: u64)
    ensures
        parsed_u64(seq!['+'] + decimal(n as nat)) == Some(n),
{
    lemma_decimal_is_digits(n as nat);
    assert((seq!['+'] + decimal(n as nat)).skip(1) =~= decimal(n as nat));
}

/// Counting goes by the characters themselves: a text without `c` has none, `c` alone has one, and
/// what two texts have together is what they have apart.
pub proof fn occurrences_add_up(left: Seq<char>, right: Seq<char>, c: char)
    ensures
        occurrences(left + right, c) == occurrences(left, c) + occurrences(right, c),
        occurrences(seq![c], c) == 1,
        !left.contains(c) <==> occurrences(left, c) == 0,
    decreases left.len() + right.len(),
{
    assert(seq![c].drop_last() =~= Seq::empty());
    reveal_with_fuel(occurrences, 2);
    if right.len() > 0 {
        assert((left + right).drop_last() =~= left + right.drop_last());
        occurrences_add_up(left, right.drop_last(), c);
    } else {
        assert(left + right =~= left);
        if left.len() > 0 {
            let shorter = left.drop_last();
            occurrences_add_up(shorter, right, c);
            assert(left[left.len() - 1] == left.last());
            if left.contains(c) && left.last() != c {
                let i = choose|i: int| 0 <= i < left.len() && left[i] == c;
                assert(shorter[i] == c);
            }
            if shorter.contains(c) {
                let i = choose|i: int| 0 <= i < shorter.len() && shorter[i] == c;
                assert(left[i] == c);
            }
        }
    }
}

/// One character is a number where it is a digit. A number of any length, with one more digit
/// behind it, is ten times as large and that digit more, as long as 64 bits can hold it; with any
/// other character behind it, it is none. What is no number does not become one by what comes
/// behind it, unless it is empty or a mere plus sign.
pub proof fn number_is_read_digit_by_digit(s: Seq<char>, c: char)
    ensures
        parsed_u64(Seq::<char>::empty()) is None,
        parsed_u64(seq!['+']) is None,
        '0' <= c <= '9' ==> parsed_u64(seq![c]) == Some((c as int - '0' as int) as u64),
        !('0' <= c <= '9') ==> parsed_u64(seq![c]) is None,
        !('0' <= c <= '9') ==> parsed_u64(seq!['+'].push(c)) is None,
        '0' <= c <= '9' ==> parsed_u64(seq!['+'].push(c)) == Some((c as int - '0' as int) as u64),
        parsed_u64(s) matches Some(n) ==> parsed_u64(s.push(c)) == if '0' <= c <= '9' && 10 * n + (
        c as int - '0' as int) <= u64::MAX {
            Some((10 * n + (c as int - '0' as int)) as u64)
        } else {
            None
        },
        s.len() > 0 && s != seq!['+'] && parsed_u64(s) is None ==> parsed_u64(s.push(c)) is None,
{
    lemma_one_character(seq![c], c);
    assert(seq!['+'].skip(1) =~= Seq::empty());
    assert(seq!['+'].push(c).skip(1) =~= seq![c]);
    let digits = unsigned_part(s);
    let longer = unsigned_part(s.push(c));
    if s.len() > 0 {
        assert(longer =~= digits.push(c));
        assert(longer.drop_last() =~= digits);
        assert(longer.last() == c);
        assert(longer[longer.len() - 1] == c);
        if all_digits(longer) {
            assert forall|i: int| 0 <= i < digits.len() implies is_digit(#[trigger] digits[i]) by {
                assert(longer[i] == digits[i]);
            }
        }
        if all_digits(digits) && is_digit(c) {
            assert forall|i: int| 0 <= i < longer.len() implies is_digit(#[trigger] longer[i]) by {
                if i < digits.len() {
                    assert(longer[i] == digits[i]);
                }
            }
        }
        if s != seq!['+'] && digits.len() == 0 {
            assert(s =~= seq!['+']);
        }
    }
}

proof fn lemma_one_character(s: Seq<char>, c: char)
    requires
        s == seq![c],
    ensures
        all_digits(s) <==> is_digit(c),
        digits_value(s) == (c as nat - 48) as nat,
{
    assert(s[0] == c);
    assert(s.drop_last() =~= Seq::empty());
    reveal_with_fuel(digits_value, 2);
}

/// A number is written with digits only, and never begins with a zero unless it is zero itself.
pub proof fn decimal_has_digits_only(n: nat)
    ensures
        decimal(n).len() > 0,
        forall|i: int| 0 <= i < decimal(n).len() ==> '0' <= #[trigger] decimal(n)[i] <= '9',
        n > 0 ==> decimal(n)[0] != '0',
        n == 0 ==> decimal(n) == seq!['0'],
    decreases n,
{
    lemma_decimal_is_digits(n);
    assert forall|i: int| 0 <= i < decimal(n).len() implies '0' <= #[trigger] decimal(n)[i]
        <= '9' by {
        assert(is_digit(decimal(n)[i]));
    }
    if n >= 10 {
        decimal_has_digits_only(n / 10);
        assert(decimal(n)[0] == decimal(n / 10)[0]);
    }
}

} // verus!
