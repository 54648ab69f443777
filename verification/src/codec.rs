//! Canonical photo file names: `PICT`, the identifier in at least four decimal
//! digits, `.jpg`; and the way back from a file name to its identifier.

use vstd::prelude::*;

verus! {

/// The four characters every photo file name starts with.
pub open spec fn prefix_chars() -> Seq<char> {
    seq!['P', 'I', 'C', 'T']
}

/// The four characters every photo file name ends with.
pub open spec fn suffix_chars() -> Seq<char> {
    seq!['.', 'j', 'p', 'g']
}

/// The character of one decimal digit.
pub open spec fn digit_char(d: nat) -> char
    recommends
        d < 10,
{
    ((d + 48) as u8) as char
}

/// Whether `c` is one of `'0'` to `'9'`.
pub open spec fn is_digit(c: char) -> bool {
    '0' <= c && c <= '9'
}

/// The value of a digit character.
pub open spec fn digit_value(c: char) -> nat
    recommends
        is_digit(c),
{
    ((c as u32) - 48) as nat
}

/// The decimal numeral of `n` without leading zeros, most significant digit first.
pub open spec fn decimal(n: nat) -> Seq<char>
    decreases n,
{
    if n < 10 {
        seq![digit_char(n)]
    } else {
        decimal(n / 10).push(digit_char(n % 10))
    }
}

/// `count` zeros.
pub open spec fn zeros(count: nat) -> Seq<char> {
    Seq::new(count, |i: int| '0')
}

/// The decimal numeral of `n`, padded with zeros on the left to four digits.
/// Numbers of more than four digits keep all their digits.
pub open spec fn padded(n: nat) -> Seq<char> {
    let digits = decimal(n);
    if digits.len() >= 4 {
        digits
    } else {
        zeros((4 - digits.len()) as nat) + digits
    }
}

/// The canonical file name of the photo with identifier `id`.
pub open spec fn file_name(id: nat) -> Seq<char> {
    prefix_chars() + padded(id) + suffix_chars()
}

/// `c` with an ASCII lower-case letter turned into its upper-case form.
pub open spec fn ascii_upper(c: char) -> char {
    if 'a' <= c && c <= 'z' {
        (((c as u32) - 32) as u8) as char
    } else {
        c
    }
}

/// Whether `a` and `b` are the same text up to the case of ASCII letters.
pub open spec fn same_ignoring_case(a: Seq<char>, b: Seq<char>) -> bool {
    a.len() == b.len() && forall|i: int|
        0 <= i < a.len() ==> ascii_upper(#[trigger] a[i]) == ascii_upper(b[i])
}

/// Whether `name` has the shape of a photo file name: at least twelve
/// characters, the prefix and the suffix in any case, and four digits at
/// positions 4 to 7.
pub open spec fn is_photo_name(name: Seq<char>) -> bool {
    &&& name.len() >= 12
    &&& same_ignoring_case(name.subrange(0, 4), prefix_chars())
    &&& same_ignoring_case(name.subrange(name.len() - 4, name.len() as int), suffix_chars())
    &&& is_digit(name[4])
    &&& is_digit(name[5])
    &&& is_digit(name[6])
    &&& is_digit(name[7])
}

/// The number written by the four digits at positions 4 to 7 of `name`.
pub open spec fn numeral_value(name: Seq<char>) -> nat
    recommends
        name.len() >= 8,
{
    digit_value(name[4]) * 1000 + digit_value(name[5]) * 100 + digit_value(name[6]) * 10
        + digit_value(name[7])
}

/// The identifier that `name` stands for, if it is a photo file name.
pub open spec fn file_id(name: Seq<char>) -> Option<nat> {
    if is_photo_name(name) {
        Some(numeral_value(name))
    } else {
        None
    }
}

/// `String::push` appends one character to the string.
pub assume_specification[ String::push ](s: &mut String, ch: char)
    ensures
        final(s)@ == old(s)@.push(ch),
;

/// Appends the decimal numeral of `n` to `out`.
pub fn push_decimal(out: &mut String, n: usize)
    ensures
        final(out)@ == old(out)@ + decimal(n as nat),
    decreases n,
{
    if n >= 10 {
        push_decimal(out, n / 10);
    }
    let d: u8 = (n % 10) as u8;
    out.push((d + 48) as char);
    proof {
        if n >= 10 {
            assert(final(out)@ =~= old(out)@ + decimal(n as nat));
        } else {
            assert(final(out)@ =~= old(out)@ + decimal(n as nat));
        }
    }
}

/// The numeral of a number below ten thousand has as many digits as its size class.
pub proof fn lemma_decimal_len(n: nat)
    requires
        n < 10000,
    ensures
        n < 10 ==> decimal(n).len() == 1,
        10 <= n < 100 ==> decimal(n).len() == 2,
        100 <= n < 1000 ==> decimal(n).len() == 3,
        1000 <= n ==> decimal(n).len() == 4,
{
    reveal_with_fuel(decimal, 5);
}

/// A numeral of a number from one thousand up has at least four digits.
pub proof fn lemma_decimal_long(n: nat)
    requires
        n >= 1000,
    ensures
        decimal(n).len() >= 4,
    decreases n,
{
    if n < 10000 {
        lemma_decimal_len(n);
    } else {
        lemma_decimal_long(n / 10);
    }
}

/// Builds the canonical file name of a photo: `PICT`, the identifier padded
/// with zeros to four digits (more digits widen the field), `.jpg`.
pub fn photo_file_name(id: usize) -> (name: String)
    ensures
        name@ == file_name(id as nat),
{
    let mut name = String::new();
    name.push('P');
    name.push('I');
    name.push('C');
    name.push('T');
    if id < 10 {
        name.push('0');
    }
    if id < 100 {
        name.push('0');
    }
    if id < 1000 {
        name.push('0');
    }
    let ghost head = name@;
    push_decimal(&mut name, id);
    let ghost body = name@;
    name.push('.');
    name.push('j');
    name.push('p');
    name.push('g');
    proof {
        if id < 10000 {
            lemma_decimal_len(id as nat);
        } else {
            lemma_decimal_long(id as nat);
        }
        let pad = if id < 10 {
            3nat
        } else if id < 100 {
            2nat
        } else if id < 1000 {
            1nat
        } else {
            0nat
        };
        assert(head.len() == 4 + pad);
        assert(head =~= prefix_chars() + zeros(pad));
        assert(decimal(id as nat).len() < 4 ==> pad == 4 - decimal(id as nat).len());
        assert(decimal(id as nat).len() >= 4 ==> pad == 0);
        assert(body =~= prefix_chars() + zeros(pad) + decimal(id as nat));
        assert(body =~= prefix_chars() + padded(id as nat));
        assert(name@ =~= file_name(id as nat));
    }
    name
}

/// The ASCII upper-case form of `c`.
fn upper(c: char) -> (r: char)
    ensures
        r == ascii_upper(c),
{
    if 'a' <= c && c <= 'z' {
        let code: u32 = c as u32;
        ((code - 32) as u8) as char
    } else {
        c
    }
}

/// The value of the digit at position `at` of `name`, if a digit stands there.
fn digit_at(name: &str, at: usize) -> (d: Option<usize>)
    requires
        at < name@.len(),
    ensures
        is_digit(name@[at as int]) <==> d.is_some(),
        d.is_some() ==> d.unwrap() == digit_value(name@[at as int]),
{
    let c = name.get_char(at);
    if '0' <= c && c <= '9' {
        let code: u32 = c as u32;
        Some((code - 48) as usize)
    } else {
        None
    }
}

/// Reads the identifier out of a photo file name. The name must have at least
/// twelve characters, start with `PICT` and end with `.jpg` (both in any case),
/// and hold four decimal digits at positions 4 to 7; their value is the
/// identifier. Every other name gives `None`.
pub fn photo_file_id(name: &str) -> (id: Option<usize>)
    ensures
        id.is_some() <==> is_photo_name(name@),
        id.is_some() ==> file_id(name@) == Some(id.unwrap() as nat),
        id.is_none() ==> file_id(name@).is_none(),
{
    let len = name.unicode_len();
    if len < 12 {
        return None;
    }
    let ghost head = name@.subrange(0, 4);
    let ghost tail = name@.subrange(len - 4, len as int);
    let p0 = upper(name.get_char(0));
    let p1 = upper(name.get_char(1));
    let p2 = upper(name.get_char(2));
    let p3 = upper(name.get_char(3));
    if !(p0 == 'P' && p1 == 'I' && p2 == 'C' && p3 == 'T') {
        proof {
            if same_ignoring_case(head, prefix_chars()) {
                assert(ascii_upper(head[0]) == ascii_upper(prefix_chars()[0]));
                assert(ascii_upper(head[1]) == ascii_upper(prefix_chars()[1]));
                assert(ascii_upper(head[2]) == ascii_upper(prefix_chars()[2]));
                assert(ascii_upper(head[3]) == ascii_upper(prefix_chars()[3]));
            }
        }
        return None;
    }
    let s0 = upper(name.get_char(len - 4));
    let s1 = upper(name.get_char(len - 3));
    let s2 = upper(name.get_char(len - 2));
    let s3 = upper(name.get_char(len - 1));
    if !(s0 == '.' && s1 == 'J' && s2 == 'P' && s3 == 'G') {
        proof {
            if same_ignoring_case(tail, suffix_chars()) {
                assert(ascii_upper(tail[0]) == ascii_upper(suffix_chars()[0]));
                assert(ascii_upper(tail[1]) == ascii_upper(suffix_chars()[1]));
                assert(ascii_upper(tail[2]) == ascii_upper(suffix_chars()[2]));
                assert(ascii_upper(tail[3]) == ascii_upper(suffix_chars()[3]));
            }
        }
        return None;
    }
    assert(same_ignoring_case(head, prefix_chars()));
    assert(same_ignoring_case(tail, suffix_chars()));
    match (digit_at(name, 4), digit_at(name, 5), digit_at(name, 6), digit_at(name, 7)) {
        (Some(d0), Some(d1), Some(d2), Some(d3)) => Some(d0 * 1000 + d1 * 100 + d2 * 10 + d3),
        _ => None,
    }
}

/// The padded numeral of a number below ten thousand is its four digits.
pub proof fn lemma_padded_digits(id: nat)
    requires
        id < 10000,
    ensures
        padded(id) == seq![
            digit_char(id / 10 / 10 / 10),
            digit_char((id / 10 / 10) % 10),
            digit_char((id / 10) % 10),
            digit_char(id % 10),
        ],
{
    reveal_with_fuel(decimal, 5);
    lemma_decimal_len(id);
    let want = seq![
        digit_char(id / 10 / 10 / 10),
        digit_char((id / 10 / 10) % 10),
        digit_char((id / 10) % 10),
        digit_char(id % 10),
    ];
    assert(padded(id).len() == 4);
    assert(padded(id) =~= want);
}

/// A digit's character is a digit character, and has the digit as its value.
pub proof fn lemma_digit_char(d: nat)
    requires
        d < 10,
    ensures
        is_digit(digit_char(d)),
        digit_value(digit_char(d)) == d,
{
}

/// A number below ten thousand is the sum of its four digits, each weighted.
pub proof fn lemma_four_digits(id: nat)
    requires
        id < 10000,
    ensures
        id / 10 / 10 / 10 < 10,
        id == (id / 10 / 10 / 10) * 1000 + ((id / 10 / 10) % 10) * 100 + ((id / 10) % 10) * 10 + id
            % 10,
{
    let q1 = id / 10;
    let q2 = q1 / 10;
    let q3 = q2 / 10;
    assert(id == q1 * 10 + id % 10);
    assert(q1 == q2 * 10 + q1 % 10);
    assert(q2 == q3 * 10 + q2 % 10);
}

/// Reading the canonical file name of an identifier below ten thousand gives
/// the identifier back.
pub proof fn lemma_name_round_trip(id: nat)
    requires
        id < 10000,
    ensures
        file_id(file_name(id)) == Some(id),
{
    lemma_padded_digits(id);
    lemma_four_digits(id);
    let d0 = id / 10 / 10 / 10;
    let d1 = (id / 10 / 10) % 10;
    let d2 = (id / 10) % 10;
    let d3 = id % 10;
    lemma_digit_char(d0);
    lemma_digit_char(d1);
    lemma_digit_char(d2);
    lemma_digit_char(d3);
    let name = file_name(id);
    assert(name =~= seq![
        'P',
        'I',
        'C',
        'T',
        digit_char(d0),
        digit_char(d1),
        digit_char(d2),
        digit_char(d3),
        '.',
        'j',
        'p',
        'g',
    ]);
    assert(name.subrange(0, 4) =~= prefix_chars());
    assert(name.subrange(8, 12) =~= suffix_chars());
}

/// Sameness up to case is symmetric.
pub proof fn lemma_same_case_symmetric(a: Seq<char>, b: Seq<char>)
    requires
        same_ignoring_case(a, b),
    ensures
        same_ignoring_case(b, a),
{
    assert forall|i: int| 0 <= i < b.len() implies ascii_upper(#[trigger] b[i]) == ascii_upper(
        a[i],
    ) by {
        assert(ascii_upper(a[i]) == ascii_upper(b[i]));
    }
}

/// Sameness up to case is transitive.
pub proof fn lemma_same_case_transitive(a: Seq<char>, b: Seq<char>, c: Seq<char>)
    requires
        same_ignoring_case(a, b),
        same_ignoring_case(b, c),
    ensures
        same_ignoring_case(a, c),
{
    assert forall|i: int| 0 <= i < a.len() implies ascii_upper(#[trigger] a[i]) == ascii_upper(
        c[i],
    ) by {
        assert(ascii_upper(a[i]) == ascii_upper(b[i]));
        assert(ascii_upper(b[i]) == ascii_upper(c[i]));
    }
}

/// Sameness up to case carries over to the same stretch of both texts.
pub proof fn lemma_same_case_subrange(a: Seq<char>, b: Seq<char>, from: int, to: int)
    requires
        same_ignoring_case(a, b),
        0 <= from <= to <= a.len(),
    ensures
        same_ignoring_case(a.subrange(from, to), b.subrange(from, to)),
{
    assert forall|i: int| 0 <= i < to - from implies ascii_upper(
        #[trigger] a.subrange(from, to)[i],
    ) == ascii_upper(b.subrange(from, to)[i]) by {
        assert(ascii_upper(a[from + i]) == ascii_upper(b[from + i]));
    }
}

/// Changing the case of ASCII letters anywhere in a name changes neither
/// whether it is a photo file name nor the identifier it stands for.
pub proof fn lemma_case_blind(a: Seq<char>, b: Seq<char>)
    requires
        same_ignoring_case(a, b),
    ensures
        file_id(a) == file_id(b),
{
    if a.len() >= 12 {
        let n = a.len() as int;
        lemma_same_case_subrange(a, b, 0, 4);
        lemma_same_case_subrange(a, b, n - 4, n);
        lemma_same_case_symmetric(a.subrange(0, 4), b.subrange(0, 4));
        lemma_same_case_symmetric(a.subrange(n - 4, n), b.subrange(n - 4, n));
        if same_ignoring_case(a.subrange(0, 4), prefix_chars()) {
            lemma_same_case_transitive(b.subrange(0, 4), a.subrange(0, 4), prefix_chars());
        }
        if same_ignoring_case(b.subrange(0, 4), prefix_chars()) {
            lemma_same_case_transitive(a.subrange(0, 4), b.subrange(0, 4), prefix_chars());
        }
        if same_ignoring_case(a.subrange(n - 4, n), suffix_chars()) {
            lemma_same_case_transitive(b.subrange(n - 4, n), a.subrange(n - 4, n), suffix_chars());
        }
        if same_ignoring_case(b.subrange(n - 4, n), suffix_chars()) {
            lemma_same_case_transitive(a.subrange(n - 4, n), b.subrange(n - 4, n), suffix_chars());
        }
        assert(ascii_upper(a[4]) == ascii_upper(b[4]));
        assert(ascii_upper(a[5]) == ascii_upper(b[5]));
        assert(ascii_upper(a[6]) == ascii_upper(b[6]));
        assert(ascii_upper(a[7]) == ascii_upper(b[7]));
    }
}

/// Any casing of the canonical file name of an identifier below ten thousand
/// is read as that identifier.
pub proof fn lemma_round_trip_any_case(id: nat, name: Seq<char>)
    requires
        id < 10000,
        same_ignoring_case(name, file_name(id)),
    ensures
        file_id(name) == Some(id),
{
    lemma_name_round_trip(id);
    lemma_case_blind(name, file_name(id));
}

/// The number that a text of digits writes, read as a decimal numeral.
pub open spec fn numeral(digits: Seq<char>) -> nat
    decreases digits.len(),
{
    if digits.len() == 0 {
        0
    } else {
        numeral(digits.drop_last()) * 10 + digit_value(digits.last())
    }
}

/// The decimal numeral of a number writes that number.
pub proof fn lemma_numeral_of_decimal(n: nat)
    ensures
        numeral(decimal(n)) == n,
    decreases n,
{
    lemma_digit_char(n % 10);
    if n < 10 {
        assert(decimal(n).drop_last() =~= Seq::<char>::empty());
        assert(numeral(decimal(n).drop_last()) == 0);
    } else {
        lemma_numeral_of_decimal(n / 10);
        assert(decimal(n).drop_last() =~= decimal(n / 10));
    }
}

/// Zeros in front of a text of digits do not change the number it writes.
pub proof fn lemma_numeral_ignores_zeros(count: nat, digits: Seq<char>)
    ensures
        numeral(zeros(count) + digits) == numeral(digits),
    decreases digits.len(), count,
{
    let all = zeros(count) + digits;
    if digits.len() > 0 {
        lemma_numeral_ignores_zeros(count, digits.drop_last());
        assert(all.drop_last() =~= zeros(count) + digits.drop_last());
    } else if count > 0 {
        lemma_numeral_ignores_zeros((count - 1) as nat, digits);
        assert(all.drop_last() =~= zeros((count - 1) as nat) + digits);
        assert(all.last() == '0');
    } else {
        assert(all =~= Seq::<char>::empty());
    }
}

/// The numeric field of a canonical file name writes the identifier, however
/// many digits it takes.
pub proof fn lemma_padded_value(id: nat)
    ensures
        numeral(padded(id)) == id,
        padded(id).len() >= 4,
{
    lemma_numeral_of_decimal(id);
    if decimal(id).len() < 4 {
        lemma_numeral_ignores_zeros((4 - decimal(id).len()) as nat, decimal(id));
    }
}

/// Different identifiers have different canonical file names.
pub proof fn lemma_name_injective(a: nat, b: nat)
    requires
        file_name(a) == file_name(b),
    ensures
        a == b,
{
    lemma_padded_value(a);
    lemma_padded_value(b);
    let name = file_name(a);
    assert(padded(a) =~= name.subrange(4, name.len() - 4));
    assert(padded(b) =~= file_name(b).subrange(4, file_name(b).len() - 4));
}

} // verus!
