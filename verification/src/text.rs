//! Text that chains put into their replies: decimal numbers and fields
//! separated by dashes.

use vstd::prelude::*;

verus! {

/// Every character of `s` is an ASCII digit.
pub open spec fn all_digits(s: Seq<char>) -> bool {
    forall|i: int| 0 <= i < s.len() ==> '0' <= #[trigger] s[i] <= '9'
}

/// The number that a run of ASCII digits writes in base ten.
pub open spec fn digits_value(s: Seq<char>) -> nat
    decreases s.len(),
{
    if s.len() == 0 {
        0
    } else {
        10 * digits_value(s.drop_last()) + (s.last() as nat - '0' as nat) as nat
    }
}

/// `s` without one leading plus sign, if it has one.
pub open spec fn unsigned_part(s: Seq<char>) -> Seq<char> {
    if s.len() > 0 && s[0] == '+' {
        s.skip(1)
    } else {
        s
    }
}

/// The `u64` that `s` writes: at least one ASCII digit, optionally behind a
/// plus sign, and nothing else.
pub open spec fn decimal_u64(s: Seq<char>) -> Option<u64> {
    let digits = unsigned_part(s);
    if digits.len() > 0 && all_digits(digits) && digits_value(digits) <= u64::MAX {
        Some(digits_value(digits) as u64)
    } else {
        None
    }
}

/// A longer run of digits never writes a smaller number.
proof fn lemma_digits_value_grows(s: Seq<char>, n: int)
    requires
        0 <= n <= s.len(),
    ensures
        digits_value(s.take(n)) <= digits_value(s),
    decreases s.len() - n,
{
    if n == s.len() {
        assert(s.take(n) == s);
    } else {
        lemma_digits_value_grows(s, n + 1);
        assert(s.take(n + 1).drop_last() == s.take(n));
    }
}

/// The character that writes a digit.
pub open spec fn digit_char(digit: nat) -> char
    recommends
        digit < 10,
{
    ('0' as u32 + digit) as char
}

/// The shortest decimal writing of a number.
pub open spec fn decimal_digits(n: nat) -> Seq<char>
    decreases n,
{
    if n < 10 {
        seq![digit_char(n)]
    } else {
        decimal_digits(n / 10).push(digit_char(n % 10))
    }
}

proof fn lemma_decimal_digits(n: nat)
    ensures
        decimal_digits(n).len() > 0,
        all_digits(decimal_digits(n)),
        digits_value(decimal_digits(n)) == n,
    decreases n,
{
    let s = decimal_digits(n);
    if n < 10 {
        assert(s.drop_last() =~= Seq::empty());
        assert(digits_value(s.drop_last()) == 0);
    } else {
        lemma_decimal_digits(n / 10);
        assert(s.drop_last() =~= decimal_digits(n / 10));
        assert forall|i: int| 0 <= i < s.len() implies '0' <= #[trigger] s[i] <= '9' by {
            if i < s.len() - 1 {
                assert(s[i] == decimal_digits(n / 10)[i]);
            }
        }
    }
}

/// A number in decimal is read back as that number.
pub proof fn law_decimal_read_back(n: u64)
    ensures
        decimal_u64(decimal_digits(n as nat)) == Some(n),
{
    lemma_decimal_digits(n as nat);
}

/// A run of zeros.
pub open spec fn zeros(n: nat) -> Seq<char> {
    Seq::new(n, |i: int| '0')
}

/// `s` is the decimal writing of `n`, with any number of zeros before it, and a plus
/// sign or none before those.
pub open spec fn writes_number(s: Seq<char>, n: nat) -> bool {
    exists|k: nat|
        s == #[trigger] zeros(k) + decimal_digits(n) || s == seq!['+'] + (zeros(k)
            + decimal_digits(n))
}

/// Leading zeros change no number.
proof fn lemma_leading_zeros(k: nat, s: Seq<char>)
    requires
        all_digits(s),
    ensures
        all_digits(zeros(k) + s),
        digits_value(zeros(k) + s) == digits_value(s),
    decreases k + s.len(),
{
    let all = zeros(k) + s;
    if s.len() > 0 {
        lemma_leading_zeros(k, s.drop_last());
        assert(all.drop_last() =~= zeros(k) + s.drop_last());
        assert forall|i: int| 0 <= i < all.len() implies '0' <= #[trigger] all[i] <= '9' by {
            if i >= k {
                assert(all[i] == s[i - k]);
            }
        }
    } else if k > 0 {
        lemma_leading_zeros((k - 1) as nat, s);
        assert(all.drop_last() =~= zeros((k - 1) as nat) + s);
    }
}

/// A run of digits is the decimal writing of its number behind zeros.
proof fn lemma_digits_written(s: Seq<char>) -> (k: nat)
    requires
        s.len() > 0,
        all_digits(s),
    ensures
        s == zeros(k) + decimal_digits(digits_value(s)),
    decreases s.len(),
{
    let front = s.drop_last();
    let digit = (s.last() as nat - '0' as nat) as nat;
    assert(s[s.len() - 1] == s.last());
    assert(digit_char(digit) == s.last());
    if front.len() == 0 {
        assert(digits_value(front) == 0);
        assert(s =~= zeros(0) + decimal_digits(digit));
        0
    } else {
        assert forall|i: int| 0 <= i < front.len() implies '0' <= #[trigger] front[i] <= '9' by {
            assert(front[i] == s[i]);
        }
        let k = lemma_digits_written(front);
        let m = digits_value(front);
        assert(s =~= front.push(s.last()));
        if m == 0 {
            assert(front =~= zeros(k + 1));
            assert(s =~= zeros(k + 1) + decimal_digits(digit));
            k + 1
        } else {
            let n = 10 * m + digit;
            assert(n / 10 == m && n % 10 == digit);
            assert(decimal_digits(n) == decimal_digits(m).push(s.last()));
            assert(s =~= zeros(k) + decimal_digits(n));
            k
        }
    }
}

/// A text is read as a number if and only if it writes that number: what is not such
/// a writing is refused, and so is a number that does not fit.
pub proof fn law_decimal_exact(s: Seq<char>, n: u64)
    ensures
        decimal_u64(s) == Some(n) <==> writes_number(s, n as nat),
        decimal_u64(s) is None ==> forall|m: nat| writes_number(s, m) ==> m > u64::MAX,
{
    let digits = unsigned_part(s);
    if decimal_u64(s) == Some(n) {
        let k = lemma_digits_written(digits);
        if s[0] == '+' {
            assert(s =~= seq!['+'] + (zeros(k) + decimal_digits(n as nat)));
        } else {
            assert(s == zeros(k) + decimal_digits(n as nat));
        }
    }
    assert forall|m: nat| writes_number(s, m) implies digits.len() > 0 && all_digits(digits)
        && digits_value(digits) == m by {
        let k = choose|k: nat|
            s == #[trigger] zeros(k) + decimal_digits(m) || s == seq!['+'] + (zeros(k)
                + decimal_digits(m));
        let written = zeros(k) + decimal_digits(m);
        lemma_decimal_digits(m);
        lemma_leading_zeros(k, decimal_digits(m));
        assert('0' <= written[0] <= '9');
        if s == written {
            assert(digits == written);
        } else {
            assert(digits =~= written);
        }
    }
}

/// What writes a number holds no dash.
pub proof fn law_number_without_dash(s: Seq<char>)
    requires
        decimal_u64(s) is Some,
    ensures
        !s.contains(DASH),
{
    if s.contains(DASH) {
        let i = s.index_of(DASH);
        assert(s[i] == DASH);
        if s[0] == '+' {
            assert(unsigned_part(s)[i - 1] == DASH);
        } else {
            assert(unsigned_part(s)[i] == DASH);
        }
    }
}

/// A number in decimal holds no dash.
pub proof fn law_decimal_without_dash(n: u64)
    ensures
        !decimal_digits(n as nat).contains(DASH),
{
    lemma_decimal_digits(n as nat);
}

/// The characters of a string.
fn chars_of(s: &str) -> (chars: Vec<char>)
    ensures
        chars@ == s@,
{
    let mut chars: Vec<char> = Vec::new();
    for c in it: s.chars()
        invariant
            chars@ == it.seq().take(it.index() as int),
            it.seq() == s@,
    {
        chars.push(c);
    }
    chars
}

/// Reads a decimal `u64` from a run of characters.
pub fn parse_decimal(chars: &Vec<char>) -> (value: Option<u64>)
    ensures
        value == decimal_u64(chars@),
{
    let start: usize = if chars.len() > 0 && chars[0] == '+' { 1 } else { 0 };
    let ghost digits = unsigned_part(chars@);
    assert(digits =~= chars@.skip(start as int));
    if start == chars.len() {
        return None;
    }
    let mut value: u64 = 0;
    let mut i: usize = start;
    while i < chars.len()
        invariant
            start <= i <= chars.len(),
            digits == unsigned_part(chars@),
            digits == chars@.skip(start as int),
            all_digits(digits.take(i - start)),
            value == digits_value(digits.take(i - start)),
        decreases chars.len() - i,
    {
        let c = chars[i];
        let ghost n = i - start;
        assert(digits[n] == c);
        if c < '0' || c > '9' {
            return None;
        }
        let digit: u64 = c as u64 - '0' as u64;
        proof {
            assert(digits.take(n + 1).drop_last() == digits.take(n));
            lemma_digits_value_grows(digits, n + 1);
        }
        if value > (u64::MAX - digit) / 10 {
            return None;
        }
        value = value * 10 + digit;
        i = i + 1;
    }
    assert(digits.take(digits.len() as int) == digits);
    Some(value)
}

/// Reads a decimal `u64` from a string.
pub fn parse_u64(s: &str) -> (value: Option<u64>)
    ensures
        value == decimal_u64(s@),
{
    parse_decimal(&chars_of(s))
}

/// The dash that separates fields.
pub const DASH: char = '-';

/// The fields of `s` between its dashes; a string without a dash is one field.
pub open spec fn split_dash(s: Seq<char>) -> Seq<Seq<char>>
    decreases s.len(),
{
    match s.index_of_first(DASH) {
        Some(i) => if 0 <= i < s.len() {
            seq![s.take(i)] + split_dash(s.skip(i + 1))
        } else {
            seq![s]
        },
        None => seq![s],
    }
}

/// What stands before the first dash is the first field.
proof fn lemma_split_first(head: Seq<char>, tail: Seq<char>)
    requires
        !head.contains(DASH),
    ensures
        split_dash(head + seq![DASH] + tail) == seq![head] + split_dash(tail),
{
    let s = head + seq![DASH] + tail;
    s.index_of_first_ensures(DASH);
    assert(s[head.len() as int] == DASH);
    let i = s.index_of_first(DASH).unwrap();
    if i < head.len() {
        assert(head[i] == s[i]);
    }
    assert(i == head.len());
    assert(s.take(i) =~= head);
    assert(s.skip(i + 1) =~= tail);
}

/// Splits a string at its dashes.
pub fn split_at_dashes(s: &str) -> (fields: Vec<Vec<char>>)
    ensures
        fields.deep_view() == split_dash(s@),
{
    let chars = chars_of(s);
    let mut fields: Vec<Vec<char>> = Vec::new();
    let mut field: Vec<char> = Vec::new();
    let mut i: usize = 0;
    let ghost mut done: Seq<Seq<char>> = Seq::empty();
    assert(Seq::<char>::empty() + s@.skip(0) =~= s@);
    while i < chars.len()
        invariant
            chars@ == s@,
            i <= chars.len(),
            !field@.contains(DASH),
            done.len() == fields@.len(),
            forall|j: int| 0 <= j < done.len() ==> (#[trigger] fields@[j])@ == done[j],
            split_dash(s@) == done + split_dash(field@ + s@.skip(i as int)),
        decreases chars.len() - i,
    {
        let c = chars[i];
        let ghost rest = s@.skip(i + 1);
        if c == DASH {
            proof {
                assert(field@ + s@.skip(i as int) =~= field@ + seq![DASH] + rest);
                lemma_split_first(field@, rest);
                assert(Seq::<char>::empty() + rest =~= rest);
                assert(done + (seq![field@] + split_dash(rest)) =~= done.push(field@) + split_dash(rest));
                done = done.push(field@);
            }
            fields.push(field);
            field = Vec::new();
        } else {
            assert(field@ + s@.skip(i as int) =~= field@.push(c) + rest);
            field.push(c);
        }
        i = i + 1;
    }
    proof {
        assert(field@ + s@.skip(i as int) =~= field@);
        field@.index_of_first_ensures(DASH);
    }
    fields.push(field);
    assert forall|j: int| 0 <= j < fields@.len() implies #[trigger] fields.deep_view()[j]
        == split_dash(s@)[j] by {
        assert(fields@[j].deep_view() =~= fields@[j]@);
    }
    assert(fields.deep_view() =~= split_dash(s@));
    fields
}

/// Writes `fields` one after the other with a dash between neighbours.
pub open spec fn join_dash(fields: Seq<Seq<char>>) -> Seq<char>
    decreases fields.len(),
{
    if fields.len() == 0 {
        Seq::empty()
    } else if fields.len() == 1 {
        fields[0]
    } else {
        fields[0] + seq![DASH] + join_dash(fields.skip(1))
    }
}

/// Splitting loses nothing: the fields, joined by dashes, are the string again,
/// and no field holds a dash.
pub proof fn law_split_then_join(s: Seq<char>)
    ensures
        split_dash(s).len() > 0,
        forall|i: int| 0 <= i < split_dash(s).len() ==> !(#[trigger] split_dash(s)[i]).contains(DASH),
        join_dash(split_dash(s)) == s,
    decreases s.len(),
{
    s.index_of_first_ensures(DASH);
    match s.index_of_first(DASH) {
        Some(i) => {
            law_split_then_join(s.skip(i + 1));
            let rest = split_dash(s.skip(i + 1));
            let fields = split_dash(s);
            assert(fields.skip(1) =~= rest);
            assert forall|j: int| 0 <= j < fields.len() implies !(#[trigger] fields[j]).contains(
                DASH,
            ) by {
                if j > 0 {
                    assert(fields[j] == rest[j - 1]);
                }
            }
            assert(s =~= s.take(i) + seq![DASH] + s.skip(i + 1));
        },
        None => {},
    }
}

/// Fields without dashes survive being joined and split again.
pub proof fn law_join_then_split(fields: Seq<Seq<char>>)
    requires
        fields.len() > 0,
        forall|i: int| 0 <= i < fields.len() ==> !(#[trigger] fields[i]).contains(DASH),
    ensures
        split_dash(join_dash(fields)) == fields,
    decreases fields.len(),
{
    if fields.len() == 1 {
        fields[0].index_of_first_ensures(DASH);
        assert(split_dash(fields[0]) =~= fields);
    } else {
        let rest = fields.skip(1);
        assert forall|i: int| 0 <= i < rest.len() implies !(#[trigger] rest[i]).contains(DASH) by {
            assert(rest[i] == fields[i + 1]);
        }
        law_join_then_split(rest);
        lemma_split_first(fields[0], join_dash(rest));
        assert(seq![fields[0]] + rest =~= fields);
    }
}

/// What stands behind the last dash is the last field.
pub proof fn law_last_field(head: Seq<char>, field: Seq<char>)
    requires
        !field.contains(DASH),
    ensures
        split_dash(head + seq![DASH] + field).last() == field,
    decreases head.len(),
{
    head.index_of_first_ensures(DASH);
    field.index_of_first_ensures(DASH);
    match head.index_of_first(DASH) {
        None => {
            lemma_split_first(head, field);
        },
        Some(i) => {
            let rest = head.skip(i + 1);
            law_last_field(rest, field);
            assert(!head.take(i).contains(DASH));
            lemma_split_first(head.take(i), rest + seq![DASH] + field);
            assert(head + seq![DASH] + field =~= head.take(i) + seq![DASH] + (rest + seq![DASH]
                + field));
            law_split_then_join(rest + seq![DASH] + field);
        },
    }
}

} // verus!
