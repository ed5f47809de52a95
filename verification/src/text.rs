//! Text as sequences of characters: decimal numbers, separated fields and
//! padded table cells.

use vstd::prelude::*;
use vstd::string::*;

verus! {

/// The views of a vector of character vectors, element by element.
pub open spec fn rows(fields: Seq<Vec<char>>) -> Seq<Seq<char>> {
    fields.map_values(|f: Vec<char>| f@)
}

/// The views of a vector of strings, element by element.
pub open spec fn texts(items: Seq<String>) -> Seq<Seq<char>> {
    items.map_values(|s: String| s@)
}

/// `parts` joined end to end.
pub open spec fn concat(parts: Seq<Seq<char>>) -> Seq<char>
    decreases parts.len(),
{
    if parts.len() == 0 {
        Seq::empty()
    } else {
        concat(parts.drop_last()) + parts.last()
    }
}

/// `c` is one of the ASCII digits `0` to `9`.
pub open spec fn is_digit(c: char) -> bool {
    48 <= c as u32 <= 57
}

/// The number an ASCII digit stands for.
pub open spec fn digit_value(c: char) -> nat {
    (c as u32 - 48) as nat
}

/// Every character of `s` is an ASCII digit.
pub open spec fn all_digits(s: Seq<char>) -> bool {
    forall|i: int| 0 <= i < s.len() ==> is_digit(#[trigger] s[i])
}

/// The number that a sequence of digits denotes in base ten; leading zeros
/// count for nothing and the empty sequence denotes zero.
pub open spec fn decimal_value(s: Seq<char>) -> nat
    decreases s.len(),
{
    if s.len() == 0 {
        0
    } else {
        10 * decimal_value(s.drop_last()) + digit_value(s.last())
    }
}

/// `field` without one leading plus sign, if it has one.
pub open spec fn unsigned_part(field: Seq<char>) -> Seq<char> {
    if field.len() > 0 && field[0] == '+' {
        field.drop_first()
    } else {
        field
    }
}

/// The port number that `field` spells: an optional plus sign followed by
/// one or more digits whose value is at most 65535. Anything else, blanks
/// and the empty field included, spells no port.
pub open spec fn port_number(field: Seq<char>) -> Option<u16> {
    let digits = unsigned_part(field);
    if digits.len() > 0 && all_digits(digits) && decimal_value(digits) <= 65535 {
        Some(decimal_value(digits) as u16)
    } else {
        None
    }
}

/// The length of the first field of `text`: the number of characters before
/// the first `sep`, or all of them where there is none.
pub open spec fn field_len(text: Seq<char>, sep: char) -> nat
    decreases text.len(),
{
    if text.len() == 0 || text[0] == sep {
        0
    } else {
        1 + field_len(text.drop_first(), sep)
    }
}

/// `text` cut at every `sep`. There is always at least one field; two
/// separators in a row, or one at either end, give an empty field.
pub open spec fn fields(text: Seq<char>, sep: char) -> Seq<Seq<char>>
    decreases text.len(),
{
    let n = field_len(text, sep) as int;
    if n >= text.len() {
        seq![text]
    } else {
        seq![text.take(n)] + fields(text.skip(n + 1), sep)
    }
}

/// The port numbers that `fields` spell, if every one of them spells one.
pub open spec fn port_numbers(fields: Seq<Seq<char>>) -> Option<Seq<u16>> {
    if forall|i: int| 0 <= i < fields.len() ==> port_number(#[trigger] fields[i]) is Some {
        Some(Seq::new(fields.len(), |i: int| port_number(fields[i])->Some_0))
    } else {
        None
    }
}

/// A first field is as long as the run of characters that are not `sep`.
pub proof fn lemma_field_len(text: Seq<char>, sep: char, n: int)
    requires
        0 <= n <= text.len(),
        forall|k: int| 0 <= k < n ==> text[k] != sep,
        n == text.len() || text[n] == sep,
    ensures
        field_len(text, sep) == n,
    decreases n,
{
    if n > 0 {
        let rest = text.drop_first();
        assert forall|k: int| 0 <= k < n - 1 implies rest[k] != sep by {
            assert(rest[k] == text[k + 1]);
        }
        lemma_field_len(rest, sep, n - 1);
    }
}

/// A longer run of digits denotes no smaller a number than its beginning.
pub proof fn lemma_decimal_value_grows(s: Seq<char>, n: int)
    requires
        0 <= n <= s.len(),
    ensures
        decimal_value(s.take(n)) <= decimal_value(s),
    decreases s.len(),
{
    if n < s.len() {
        lemma_decimal_value_grows(s.drop_last(), n);
        assert(s.drop_last().take(n) =~= s.take(n));
    } else {
        assert(s.take(n) =~= s);
    }
}

/// The characters of a string slice.
pub fn chars_of(s: &str) -> (out: Vec<char>)
    ensures
        out@ == s@,
{
    let mut out: Vec<char> = Vec::new();
    for c in it: s.chars()
        invariant
            it.seq() == s@,
            out@ == s@.take(it.index() as int),
    {
        out.push(c);
        assert(s@.take(it.index() + 1) =~= s@.take(it.index() as int).push(c));
    }
    assert(s@.take(s@.len() as int) =~= s@);
    out
}

/// Reads a port number from a field.
pub fn parse_port(field: &Vec<char>) -> (r: Option<u16>)
    ensures
        r == port_number(field@),
{
    let n: usize = field.len();
    let start: usize = if n > 0 && field[0] == '+' {
        1
    } else {
        0
    };
    let ghost digits = unsigned_part(field@);
    assert(digits =~= field@.skip(start as int));
    if start == n {
        return None;
    }
    let mut acc: u32 = 0;
    let mut i: usize = start;
    while i < n
        invariant
            start <= i <= n,
            n == field@.len(),
            digits == unsigned_part(field@),
            digits == field@.skip(start as int),
            all_digits(digits.take(i - start)),
            acc == decimal_value(digits.take(i - start)),
            acc <= 65535,
        decreases n - i,
    {
        let c: char = field[i];
        let code: u32 = c as u32;
        assert(digits[i - start] == c);
        if code < 48 || code > 57 {
            assert(!is_digit(digits[i - start]));
            return None;
        }
        let ghost before = digits.take(i - start);
        let ghost after = digits.take(i - start + 1);
        assert(after.drop_last() =~= before);
        assert(after.last() == c);
        assert forall|k: int| 0 <= k < after.len() implies is_digit(#[trigger] after[k]) by {
            if k < before.len() {
                assert(before[k] == after[k]);
            }
        }
        let next: u32 = acc * 10 + (code - 48);
        assert(next == decimal_value(after));
        if next > 65535 {
            proof {
                lemma_decimal_value_grows(digits, i - start + 1);
            }
            return None;
        }
        acc = next;
        i = i + 1;
    }
    assert(digits.take(n - start) =~= digits);
    Some(acc as u16)
}

/// Cuts `text` at every `sep`.
pub fn split_fields(text: &Vec<char>, sep: char) -> (out: Vec<Vec<char>>)
    ensures
        rows(out@) == fields(text@, sep),
{
    let n: usize = text.len();
    let mut out: Vec<Vec<char>> = Vec::new();
    let mut start: usize = 0;
    proof {
        assert(text@.skip(0) =~= text@);
        assert(rows(out@) + fields(text@, sep) =~= fields(text@, sep));
    }
    loop
        invariant_except_break
            start <= n,
            n == text@.len(),
            fields(text@, sep) == rows(out@) + fields(text@.skip(start as int), sep),
        ensures
            rows(out@) == fields(text@, sep),
        decreases n - start,
    {
        let ghost rest = text@.skip(start as int);
        let mut field: Vec<char> = Vec::new();
        let mut j: usize = start;
        while j < n && text[j] != sep
            invariant
                start <= j <= n,
                n == text@.len(),
                field@ == text@.subrange(start as int, j as int),
                forall|k: int| start <= k < j ==> text@[k] != sep,
            decreases n - j,
        {
            field.push(text[j]);
            assert(text@.subrange(start as int, j + 1) =~= text@.subrange(
                start as int,
                j as int,
            ).push(text@[j as int]));
            j = j + 1;
        }
        proof {
            assert forall|k: int| 0 <= k < j - start implies rest[k] != sep by {
                assert(rest[k] == text@[start + k]);
            }
            lemma_field_len(rest, sep, j - start);
            assert(rest.take(j - start) =~= field@);
            assert(rows(out@.push(field)) =~= rows(out@) + seq![field@]);
        }
        out.push(field);
        if j == n {
            proof {
                assert(rest =~= rest.take(j - start));
            }
            break;
        }
        proof {
            assert(rest.skip(j - start + 1) =~= text@.skip(j + 1));
        }
        start = j + 1;
    }
    out
}

/// Reads one port number from each field; fails as soon as one spells none.
pub fn parse_ports(fields: &Vec<Vec<char>>) -> (r: Option<Vec<u16>>)
    ensures
        match port_numbers(rows(fields@)) {
            Some(ports) => r matches Some(v) && v@ == ports,
            None => r is None,
        },
{
    let n: usize = fields.len();
    let mut out: Vec<u16> = Vec::new();
    let mut i: usize = 0;
    while i < n
        invariant
            i <= n,
            n == fields@.len(),
            out@.len() == i,
            forall|k: int| 0 <= k < i ==> port_number(#[trigger] rows(fields@)[k]) == Some(out@[k]),
        decreases n - i,
    {
        assert(rows(fields@)[i as int] == fields@[i as int]@);
        match parse_port(&fields[i]) {
            Some(port) => {
                out.push(port);
            },
            None => {
                return None;
            },
        }
        i = i + 1;
    }
    assert(out@ =~= port_numbers(rows(fields@))->Some_0);
    Some(out)
}

/// The ASCII digit that stands for `d`, a number below ten.
pub open spec fn digit_char(d: nat) -> char {
    ((48 + d) as u8) as char
}

/// `n` written in base ten, without leading zeros.
pub open spec fn decimal_text(n: nat) -> Seq<char>
    decreases n,
{
    if n < 10 {
        seq![digit_char(n)]
    } else {
        decimal_text(n / 10).push(digit_char(n % 10))
    }
}

/// `text` filled up with blanks on the right to `width` characters; a text
/// that is as long or longer stays as it is.
pub open spec fn padded(text: Seq<char>, width: nat) -> Seq<char> {
    if text.len() >= width {
        text
    } else {
        text + Seq::new((width - text.len()) as nat, |i: int| ' ')
    }
}

/// What is written in base ten reads back as the same number.
pub proof fn lemma_decimal_round_trip(n: nat)
    ensures
        decimal_text(n).len() > 0,
        all_digits(decimal_text(n)),
        decimal_value(decimal_text(n)) == n,
    decreases n,
{
    assert(digit_char(n % 10) as u32 == 48 + n % 10);
    assert(digit_value(digit_char(n % 10)) == n % 10);
    if n >= 10 {
        lemma_decimal_round_trip(n / 10);
        let head = decimal_text(n / 10);
        let all = decimal_text(n);
        assert(all.drop_last() =~= head);
        assert(all.last() == digit_char(n % 10));
        assert(decimal_value(all) == 10 * decimal_value(head) + digit_value(all.last()));
        assert forall|i: int| 0 <= i < all.len() implies is_digit(#[trigger] all[i]) by {
            if i < head.len() {
                assert(all[i] == head[i]);
            }
        }
    } else {
        let all = decimal_text(n);
        assert(all.drop_last() =~= Seq::<char>::empty());
        assert(all.last() == digit_char(n % 10));
        assert(decimal_value(all) == 10 * decimal_value(all.drop_last()) + digit_value(all.last()));
    }
}

fn digit_text(d: u16) -> (s: &'static str)
    requires
        d < 10,
    ensures
        s@ == seq![digit_char(d as nat)],
{
    proof {
        reveal_strlit("0");
        reveal_strlit("1");
        reveal_strlit("2");
        reveal_strlit("3");
        reveal_strlit("4");
        reveal_strlit("5");
        reveal_strlit("6");
        reveal_strlit("7");
        reveal_strlit("8");
        reveal_strlit("9");
    }
    let s: &'static str = match d {
        0 => "0",
        1 => "1",
        2 => "2",
        3 => "3",
        4 => "4",
        5 => "5",
        6 => "6",
        7 => "7",
        8 => "8",
        _ => "9",
    };
    assert(s@ =~= seq![digit_char(d as nat)]);
    s
}

/// Writes `n` in base ten behind `out`.
pub fn append_decimal(out: &mut String, n: u16)
    ensures
        final(out)@ == old(out)@ + decimal_text(n as nat),
    decreases n,
{
    if n >= 10 {
        append_decimal(out, n / 10);
    }
    out.append(digit_text(n % 10));
    assert(out@ =~= old(out)@ + decimal_text(n as nat));
}

/// Writes `text` behind `out` and fills it up with blanks to `width`
/// characters.
pub fn append_padded(out: &mut String, text: &str, width: usize)
    ensures
        final(out)@ == old(out)@ + padded(text@, width as nat),
{
    let len: usize = text.unicode_len();
    out.append(text);
    let mut k: usize = len;
    while k < width
        invariant
            len == text@.len(),
            len <= k,
            k <= width || k == len,
            out@ == old(out)@ + text@ + Seq::new((k - len) as nat, |i: int| ' '),
        decreases width - k,
    {
        proof {
            reveal_strlit(" ");
        }
        out.append(" ");
        assert(out@ =~= old(out)@ + text@ + Seq::new((k + 1 - len) as nat, |i: int| ' '));
        k = k + 1;
    }
    assert(out@ =~= old(out)@ + padded(text@, width as nat));
}

} // verus!
