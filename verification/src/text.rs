//! Text helpers: decimal digits of integers, the order of strings, case folding
//! and trimming, each with the statement that contracts elsewhere rely on.

use vstd::prelude::*;
use vstd::std_specs::iter::IteratorSpec;
use vstd::string::StrSliceExecFns;
use vstd::string::StringSliceAdditionalSpecFns;

verus! {

/// The character of one decimal digit.
pub open spec fn digit_char(d: int) -> char {
    if d == 0 {
        '0'
    } else if d == 1 {
        '1'
    } else if d == 2 {
        '2'
    } else if d == 3 {
        '3'
    } else if d == 4 {
        '4'
    } else if d == 5 {
        '5'
    } else if d == 6 {
        '6'
    } else if d == 7 {
        '7'
    } else if d == 8 {
        '8'
    } else {
        '9'
    }
}

/// The decimal digits of a natural number, most significant first, without
/// leading zeros (`0` is written `"0"`).
pub open spec fn nat_digits(n: nat) -> Seq<char>
    decreases n,
{
    if n < 10 {
        seq![digit_char(n as int)]
    } else {
        nat_digits(n / 10).push(digit_char((n % 10) as int))
    }
}

/// The decimal text of an integer: a minus sign where it is negative, then its
/// digits.
pub open spec fn int_text(n: int) -> Seq<char> {
    if n < 0 {
        seq!['-'] + nat_digits((-n) as nat)
    } else {
        nat_digits(n as nat)
    }
}

/// Strings in lexicographic order of their code points; a proper prefix comes
/// first.
pub open spec fn text_less(a: Seq<char>, b: Seq<char>) -> bool
    decreases a.len(),
{
    if b.len() == 0 {
        false
    } else if a.len() == 0 {
        true
    } else if a[0] != b[0] {
        (a[0] as u32) < (b[0] as u32)
    } else {
        text_less(a.drop_first(), b.drop_first())
    }
}

/// An ASCII capital letter becomes its small letter; every other character stays.
pub open spec fn ascii_lower_char(c: char) -> char {
    if 'A' as u32 <= c as u32 && c as u32 <= 'Z' as u32 {
        ((c as u32) + 32) as char
    } else {
        c
    }
}

/// An ASCII small letter becomes its capital letter; every other character stays.
pub open spec fn ascii_upper_char(c: char) -> char {
    if 'a' as u32 <= c as u32 && c as u32 <= 'z' as u32 {
        ((c as u32) - 32) as char
    } else {
        c
    }
}

/// A text with its ASCII capital letters made small.
pub open spec fn ascii_lower(s: Seq<char>) -> Seq<char> {
    Seq::new(s.len(), |i: int| ascii_lower_char(s[i]))
}

/// A text with its ASCII small letters made capital.
pub open spec fn ascii_upper(s: Seq<char>) -> Seq<char> {
    Seq::new(s.len(), |i: int| ascii_upper_char(s[i]))
}

/// The character is white space: a tab, a line feed, a vertical tab, a form feed,
/// a carriage return, a space, a next-line mark, a no-break space, or one of the
/// spaces and separators of Unicode beyond those.
pub open spec fn is_white_space(c: char) -> bool {
    let n = c as u32;
    ||| 0x09 <= n <= 0x0d
    ||| n == 0x20
    ||| n == 0x85
    ||| n == 0xa0
    ||| n == 0x1680
    ||| 0x2000 <= n <= 0x200a
    ||| n == 0x2028
    ||| n == 0x2029
    ||| n == 0x202f
    ||| n == 0x205f
    ||| n == 0x3000
}

/// The number of white-space characters at the start of a text.
pub open spec fn leading_space(s: Seq<char>) -> nat
    decreases s.len(),
{
    if s.len() > 0 && is_white_space(s[0]) {
        1 + leading_space(s.drop_first())
    } else {
        0
    }
}

/// The number of white-space characters at the end of a text.
pub open spec fn trailing_space(s: Seq<char>) -> nat
    decreases s.len(),
{
    if s.len() > 0 && is_white_space(s.last()) {
        1 + trailing_space(s.drop_last())
    } else {
        0
    }
}

/// A text without its leading and trailing white space.
pub open spec fn trimmed(s: Seq<char>) -> Seq<char> {
    if leading_space(s) == s.len() {
        Seq::empty()
    } else {
        s.subrange(leading_space(s) as int, s.len() - trailing_space(s))
    }
}

/// A text in lower case, by the full Unicode mapping.
pub uninterp spec fn lowercased(s: Seq<char>) -> Seq<char>;

/// The pieces of a text between the occurrences of a separator. A text without
/// the separator is one piece, the empty text too; a separator at the end is
/// followed by an empty piece.
pub open spec fn split_text(s: Seq<char>, separator: char) -> Seq<Seq<char>>
    decreases s.len(),
{
    if s.len() == 0 {
        seq![Seq::<char>::empty()]
    } else {
        let before = split_text(s.drop_last(), separator);
        if s.last() == separator {
            before.push(Seq::<char>::empty())
        } else {
            before.drop_last().push(before.last().push(s.last()))
        }
    }
}

/// A line without the carriage return at its end, if it has one.
pub open spec fn without_return(line: Seq<char>) -> Seq<char> {
    if line.len() > 0 && line.last() == '\r' {
        line.drop_last()
    } else {
        line
    }
}

/// The lines of a text, without their line ends. A line ends with a line feed,
/// or with a carriage return and a line feed. What follows the last line feed is
/// a line as it stands, unless it is empty.
pub open spec fn text_lines(s: Seq<char>) -> Seq<Seq<char>> {
    let pieces = split_text(s, '\n');
    let ended = Seq::new((pieces.len() - 1) as nat, |i: int| without_return(pieces[i]));
    if pieces.last().len() == 0 {
        ended
    } else {
        ended.push(pieces.last())
    }
}

/// The number of a decimal digit; zero for any other character.
pub open spec fn digit_number(c: char) -> nat {
    if c == '1' {
        1
    } else if c == '2' {
        2
    } else if c == '3' {
        3
    } else if c == '4' {
        4
    } else if c == '5' {
        5
    } else if c == '6' {
        6
    } else if c == '7' {
        7
    } else if c == '8' {
        8
    } else if c == '9' {
        9
    } else {
        0
    }
}

/// The number that decimal digits denote.
pub open spec fn digits_value(digits: Seq<char>) -> nat
    decreases digits.len(),
{
    if digits.len() == 0 {
        0
    } else {
        digits_value(digits.drop_last()) * 10 + digit_number(digits.last())
    }
}

/// The character is one of `0` to `9`.
pub open spec fn is_digit(c: char) -> bool {
    c == '0' || c == '1' || c == '2' || c == '3' || c == '4' || c == '5' || c == '6' || c == '7'
        || c == '8' || c == '9'
}

/// The number that a text of decimal digits denotes; nothing where the text is
/// empty or holds anything but digits. Leading zeros do no harm.
pub open spec fn number_of_digits(s: Seq<char>) -> Option<nat> {
    if s.len() > 0 && forall|i: int| 0 <= i < s.len() ==> is_digit(#[trigger] s[i]) {
        Some(digits_value(s))
    } else {
        None
    }
}

/// The number, where there is one and it is no more than the limit.
pub open spec fn within(number: Option<nat>, limit: nat) -> Option<nat> {
    match number {
        Some(n) => if n <= limit {
            Some(n)
        } else {
            None
        },
        None => None,
    }
}

/// The 16-bit unsigned integer that a text denotes in decimal: digits, with a
/// plus sign in front or without, that denote a number up to 65535.
pub open spec fn u16_of_text(s: Seq<char>) -> Option<u16> {
    let digits = if s.len() > 0 && s[0] == '+' {
        s.drop_first()
    } else {
        s
    };
    match number_of_digits(digits) {
        Some(n) => if n <= u16::MAX {
            Some(n as u16)
        } else {
            None
        },
        None => None,
    }
}

/// The 64-bit signed integer that a text denotes in decimal: digits, with a plus
/// or a minus sign in front or without, that denote a number in range.
pub open spec fn i64_of_text(s: Seq<char>) -> Option<i64> {
    if s.len() > 0 && s[0] == '-' {
        match number_of_digits(s.drop_first()) {
            Some(n) => if n <= 0x8000_0000_0000_0000 {
                Some((-(n as int)) as i64)
            } else {
                None
            },
            None => None,
        }
    } else {
        let digits = if s.len() > 0 && s[0] == '+' {
            s.drop_first()
        } else {
            s
        };
        match number_of_digits(digits) {
            Some(n) => if n <= i64::MAX {
                Some(n as i64)
            } else {
                None
            },
            None => None,
        }
    }
}

/// The texts of a list of strings.
pub open spec fn texts(v: Seq<String>) -> Seq<Seq<char>> {
    Seq::new(v.len(), |i: int| v[i]@)
}

/// The parts trimmed, those that are empty after trimming left out.
pub open spec fn kept_parts(parts: Seq<Seq<char>>) -> Seq<Seq<char>>
    decreases parts.len(),
{
    if parts.len() == 0 {
        Seq::empty()
    } else {
        let rest = kept_parts(parts.drop_last());
        let t = trimmed(parts.last());
        if t.len() > 0 {
            rest.push(t)
        } else {
            rest
        }
    }
}

/// `String::push`: the character is added at the end.
#[verifier::external_body]
fn push_char(s: &mut String, c: char)
    ensures
        final(s)@ == old(s)@.push(c),
{
    s.push(c)
}

/// A text always has a piece.
pub proof fn lemma_split_text_has_a_piece(s: Seq<char>, separator: char)
    ensures
        split_text(s, separator).len() >= 1,
    decreases s.len(),
{
    if s.len() > 0 {
        lemma_split_text_has_a_piece(s.drop_last(), separator);
    }
}

/// The pieces of a text between the occurrences of a separator, each as an
/// owned text.
pub(crate) fn split_on(s: &str, separator: char) -> (r: Vec<String>)
    ensures
        texts(r@) == split_text(s@, separator),
{
    broadcast use vstd::string::axiom_spec_iter, vstd::string::next_postcondition;

    let mut pieces: Vec<String> = Vec::new();
    let mut current = String::new();
    let mut rest = s.chars();
    let ghost mut done: int = 0;
    proof {
        assert(s@.skip(0) =~= s@);
        assert(s@.take(0) =~= Seq::<char>::empty());
        assert(texts(pieces@).push(current@) =~= split_text(s@.take(0), separator));
    }
    loop
        invariant
            0 <= done <= s@.len(),
            rest.remaining() == s@.skip(done),
            texts(pieces@).push(current@) == split_text(s@.take(done), separator),
        decreases s@.len() - done,
    {
        match rest.next() {
            None => {
                proof {
                    assert(s@.take(done) =~= s@);
                    assert(texts(pieces@.push(current)) =~= texts(pieces@).push(current@));
                }
                pieces.push(current);
                return pieces;
            },
            Some(c) => {
                let ghost before = split_text(s@.take(done), separator);
                let ghost held = texts(pieces@);
                let ghost piece = current@;
                proof {
                    assert(s@.skip(done).drop_first() =~= s@.skip(done + 1));
                    assert(s@.take(done + 1).drop_last() =~= s@.take(done));
                    assert(s@.take(done + 1).last() == c);
                    assert(before.last() == piece);
                    assert(before.drop_last() =~= held);
                }
                if c == separator {
                    proof {
                        assert(texts(pieces@.push(current)) =~= held.push(piece));
                    }
                    pieces.push(current);
                    current = String::new();
                } else {
                    push_char(&mut current, c);
                }
                proof {
                    done = done + 1;
                }
            },
        }
    }
}

/// A line without the carriage return at its end, if it has one.
fn strip_return(line: &str) -> (r: &str)
    ensures
        r@ == without_return(line@),
{
    let n = line.unicode_len();
    if n > 0 && line.get_char(n - 1) == '\r' {
        line.substring_char(0, n - 1)
    } else {
        line
    }
}

/// The lines of a text, each as an owned text.
pub(crate) fn lines_of(s: &str) -> (r: Vec<String>)
    ensures
        texts(r@) == text_lines(s@),
{
    let pieces = split_on(s, '\n');
    proof {
        lemma_split_text_has_a_piece(s@, '\n');
    }
    let ghost parts = split_text(s@, '\n');
    let ended = pieces.len() - 1;
    let mut lines: Vec<String> = Vec::new();
    let mut i: usize = 0;
    while i < ended
        invariant
            i <= ended,
            ended == pieces@.len() - 1,
            texts(pieces@) == parts,
            texts(lines@) == Seq::new(i as nat, |k: int| without_return(parts[k])),
        decreases ended - i,
    {
        let ghost before = texts(lines@);
        assert(parts[i as int] == pieces@[i as int]@);
        let line = strip_return(pieces[i].as_str()).to_owned();
        lines.push(line);
        assert(texts(lines@) =~= before.push(without_return(parts[i as int])));
        assert(texts(lines@) =~= Seq::new((i + 1) as nat, |k: int| without_return(parts[k])));
        i += 1;
    }
    assert(parts.last() == pieces@[ended as int]@);
    if !pieces[ended].as_str().is_empty() {
        let ghost before = texts(lines@);
        lines.push(pieces[ended].clone());
        assert(texts(lines@) =~= before.push(parts.last()));
    }
    lines
}

/// The number of a decimal digit, if the character is one.
fn digit_value(c: char) -> (r: Option<u8>)
    ensures
        match r {
            Some(d) => is_digit(c) && d as nat == digit_number(c),
            None => !is_digit(c),
        },
{
    if c == '0' {
        Some(0)
    } else if c == '1' {
        Some(1)
    } else if c == '2' {
        Some(2)
    } else if c == '3' {
        Some(3)
    } else if c == '4' {
        Some(4)
    } else if c == '5' {
        Some(5)
    } else if c == '6' {
        Some(6)
    } else if c == '7' {
        Some(7)
    } else if c == '8' {
        Some(8)
    } else if c == '9' {
        Some(9)
    } else {
        None
    }
}

/// The digits at the start of a text denote no more than the whole does.
pub proof fn lemma_digits_value_grows(digits: Seq<char>, k: int)
    requires
        0 <= k <= digits.len(),
    ensures
        digits_value(digits.take(k)) <= digits_value(digits),
    decreases digits.len(),
{
    if k == digits.len() {
        assert(digits.take(k) =~= digits);
    } else {
        lemma_digits_value_grows(digits.drop_last(), k);
        assert(digits.drop_last().take(k) =~= digits.take(k));
    }
}

/// The number that the digits of a text denote, the first character left out
/// where that is asked for, if it is no more than the limit.
fn digits_within(s: &str, skip_first: bool, limit: u64) -> (r: Option<u64>)
    requires
        skip_first ==> s@.len() > 0,
    ensures
        match within(
            number_of_digits(
                if skip_first {
                    s@.drop_first()
                } else {
                    s@
                },
            ),
            limit as nat,
        ) {
            Some(n) => r == Some(n as u64),
            None => r is None,
        },
{
    broadcast use vstd::string::axiom_spec_iter, vstd::string::next_postcondition;

    let mut rest = s.chars();
    if skip_first {
        let _ = rest.next();
    }
    let ghost digits = if skip_first {
        s@.drop_first()
    } else {
        s@
    };
    let mut value: u64 = 0;
    let mut any = false;
    let ghost mut done: int = 0;
    proof {
        assert(digits.skip(0) =~= digits);
        assert(digits.take(0) =~= Seq::<char>::empty());
    }
    loop
        invariant
            digits == (if skip_first {
                s@.drop_first()
            } else {
                s@
            }),
            0 <= done <= digits.len(),
            rest.remaining() == digits.skip(done),
            forall|k: int| 0 <= k < done ==> is_digit(#[trigger] digits[k]),
            value as nat == digits_value(digits.take(done)),
            value <= limit,
            any == (done > 0),
        decreases digits.len() - done,
    {
        match rest.next() {
            None => {
                assert(digits.take(done) =~= digits);
                return if any {
                    Some(value)
                } else {
                    None
                };
            },
            Some(c) => {
                proof {
                    assert(digits.skip(done).drop_first() =~= digits.skip(done + 1));
                    assert(digits.take(done + 1).drop_last() =~= digits.take(done));
                    assert(digits.take(done + 1).last() == c);
                    assert(digits[done] == c);
                }
                let d = match digit_value(c) {
                    Some(d) => d,
                    None => {
                        return None;
                    },
                };
                let next: u128 = (value as u128) * 10 + (d as u128);
                if next > limit as u128 {
                    proof {
                        lemma_digits_value_grows(digits, done + 1);
                    }
                    return None;
                }
                value = next as u64;
                any = true;
                proof {
                    done = done + 1;
                }
            },
        }
    }
}

/// The first character of a text, if it has one.
fn first_char(s: &str) -> (r: Option<char>)
    ensures
        match r {
            Some(c) => s@.len() > 0 && c == s@[0],
            None => s@.len() == 0,
        },
{
    broadcast use vstd::string::axiom_spec_iter, vstd::string::next_postcondition;

    let mut rest = s.chars();
    rest.next()
}

/// The 16-bit unsigned integer that a text denotes in decimal, a plus sign
/// allowed in front; nothing for an empty text, anything but digits, or a number
/// out of range.
pub(crate) fn parse_u16(s: &str) -> (r: Option<u16>)
    ensures
        r == u16_of_text(s@),
{
    let signed = match first_char(s) {
        Some(c) => c == '+',
        None => false,
    };
    match digits_within(s, signed, 65535) {
        Some(n) => Some(n as u16),
        None => None,
    }
}

/// The 64-bit signed integer that a text denotes in decimal, a plus or a minus
/// sign allowed in front; nothing for an empty text, anything but digits, or a
/// number out of range.
pub(crate) fn parse_i64(s: &str) -> (r: Option<i64>)
    ensures
        r == i64_of_text(s@),
{
    let first = first_char(s);
    let minus = match first {
        Some(c) => c == '-',
        None => false,
    };
    if minus {
        match digits_within(s, true, 0x8000_0000_0000_0000) {
            Some(n) => if n == 0x8000_0000_0000_0000 {
                Some(i64::MIN)
            } else {
                Some(-(n as i64))
            },
            None => None,
        }
    } else {
        let plus = match first {
            Some(c) => c == '+',
            None => false,
        };
        match digits_within(s, plus, 0x7fff_ffff_ffff_ffff) {
            Some(n) => Some(n as i64),
            None => None,
        }
    }
}

/// Trims each part and leaves out those that are empty after trimming.
pub fn trim_and_keep(parts: &Vec<String>) -> (r: Vec<String>)
    ensures
        texts(r@) == kept_parts(texts(parts@)),
{
    let mut out: Vec<String> = Vec::new();
    let mut i: usize = 0;
    assert(texts(parts@.take(0)) =~= Seq::<Seq<char>>::empty());
    assert(texts(out@) =~= Seq::<Seq<char>>::empty());
    while i < parts.len()
        invariant
            i <= parts@.len(),
            texts(out@) == kept_parts(texts(parts@.take(i as int))),
        decreases parts@.len() - i,
    {
        let ghost before = out@;
        proof {
            assert(texts(parts@.take(i + 1)).drop_last() =~= texts(parts@.take(i as int)));
            assert(texts(parts@.take(i + 1)).last() == parts@[i as int]@);
        }
        let t = trim(parts[i].as_str());
        if !t.is_empty() {
            out.push(t.to_owned());
            assert(texts(out@) =~= texts(before).push(trimmed(parts@[i as int]@)));
        }
        i += 1;
    }
    assert(parts@.take(i as int) =~= parts@);
    out
}

/// The character of a decimal digit.
fn digit_of(d: u8) -> (r: char)
    requires
        d < 10,
    ensures
        r == digit_char(d as int),
{
    if d == 0 {
        '0'
    } else if d == 1 {
        '1'
    } else if d == 2 {
        '2'
    } else if d == 3 {
        '3'
    } else if d == 4 {
        '4'
    } else if d == 5 {
        '5'
    } else if d == 6 {
        '6'
    } else if d == 7 {
        '7'
    } else if d == 8 {
        '8'
    } else {
        '9'
    }
}

/// Adds the decimal digits of a number at the end of a text.
fn push_digits(out: &mut String, n: u64)
    ensures
        final(out)@ == old(out)@ + nat_digits(n as nat),
    decreases n,
{
    if n >= 10 {
        push_digits(out, n / 10);
    }
    let ghost before = out@;
    push_char(out, digit_of((n % 10) as u8));
    proof {
        if n >= 10 {
            assert(out@ =~= old(out)@ + nat_digits((n / 10) as nat).push(
                digit_char((n % 10) as int),
            ));
        } else {
            assert(out@ =~= old(out)@ + seq![digit_char(n as int)]);
        }
    }
}

/// The decimal text of the integer.
pub(crate) fn i64_text(n: i64) -> (r: String)
    ensures
        r@ == int_text(n as int),
{
    let mut out = String::new();
    if n < 0 {
        let size: u64 = if n == i64::MIN {
            0x8000_0000_0000_0000
        } else {
            (-n) as u64
        };
        push_char(&mut out, '-');
        push_digits(&mut out, size);
        assert(out@ =~= seq!['-'] + nat_digits((-n) as nat));
    } else {
        push_digits(&mut out, n as u64);
        assert(out@ =~= nat_digits(n as nat));
    }
    out
}

/// The decimal text of the number.
pub(crate) fn usize_text(n: usize) -> (r: String)
    ensures
        r@ == int_text(n as int),
{
    let mut out = String::new();
    push_digits(&mut out, n as u64);
    assert(out@ =~= nat_digits(n as nat));
    out
}

/// The decimal text of the number.
pub(crate) fn u16_text(n: u16) -> (r: String)
    ensures
        r@ == int_text(n as int),
{
    let mut out = String::new();
    push_digits(&mut out, n as u64);
    assert(out@ =~= nat_digits(n as nat));
    out
}

/// True if the first text comes before the second in the order of their code
/// points, a proper prefix first.
pub(crate) fn str_less(a: &str, b: &str) -> (r: bool)
    ensures
        r == text_less(a@, b@),
{
    broadcast use vstd::string::axiom_spec_iter, vstd::string::next_postcondition;

    let mut left = a.chars();
    let mut right = b.chars();
    let ghost mut done: int = 0;
    assert(a@.skip(0) =~= a@);
    loop
        invariant
            0 <= done <= a@.len(),
            left.remaining() == a@.skip(done),
            text_less(a@, b@) == text_less(left.remaining(), right.remaining()),
        decreases a@.len() - done,
    {
        let y = right.next();
        let x = left.next();
        proof {
            if done < a@.len() {
                assert(a@.skip(done).drop_first() =~= a@.skip(done + 1));
                done = done + 1;
            }
        }
        match y {
            None => {
                return false;
            },
            Some(cy) => match x {
                None => {
                    return true;
                },
                Some(cx) => {
                    if cx != cy {
                        return (cx as u32) < (cy as u32);
                    }
                },
            },
        }
    }
}

/// True if the two texts hold the same characters.
pub(crate) fn str_equal(a: &str, b: &str) -> (r: bool)
    ensures
        r == (a@ == b@),
{
    let x = a.as_bytes();
    let y = b.as_bytes();
    proof {
        vstd::utf8::encode_utf8_decode_utf8(a@);
        vstd::utf8::encode_utf8_decode_utf8(b@);
    }
    if x.len() != y.len() {
        return false;
    }
    let mut i: usize = 0;
    while i < x.len()
        invariant
            i <= x@.len(),
            x@.len() == y@.len(),
            forall|k: int| 0 <= k < i ==> x@[k] == y@[k],
            x@ == a.spec_bytes(),
            y@ == b.spec_bytes(),
        decreases x@.len() - i,
    {
        if x[i] != y[i] {
            return false;
        }
        i += 1;
    }
    assert(x@ =~= y@);
    true
}

/// The small letter of an ASCII capital letter; any other character as it is.
fn lower_char(c: char) -> (r: char)
    ensures
        r == ascii_lower_char(c),
{
    if 'A' <= c && c <= 'Z' {
        ((c as u8) + 32) as char
    } else {
        c
    }
}

/// The capital letter of an ASCII small letter; any other character as it is.
fn upper_char(c: char) -> (r: char)
    ensures
        r == ascii_upper_char(c),
{
    if 'a' <= c && c <= 'z' {
        ((c as u8) - 32) as char
    } else {
        c
    }
}

/// A text with its ASCII letters of one case made the other.
pub open spec fn ascii_folded(s: Seq<char>, capital: bool) -> Seq<char> {
    if capital {
        ascii_upper(s)
    } else {
        ascii_lower(s)
    }
}

/// The text with its ASCII letters made capital, or made small.
fn fold_ascii(s: &str, capital: bool) -> (r: String)
    ensures
        r@ == ascii_folded(s@, capital),
{
    broadcast use vstd::string::axiom_spec_iter, vstd::string::next_postcondition;

    let mut out = String::new();
    let mut rest = s.chars();
    let ghost mut done: int = 0;
    assert(s@.skip(0) =~= s@);
    assert(ascii_folded(s@.take(0), capital) =~= Seq::<char>::empty());
    loop
        invariant
            0 <= done <= s@.len(),
            rest.remaining() == s@.skip(done),
            out@ == ascii_folded(s@.take(done), capital),
        decreases s@.len() - done,
    {
        match rest.next() {
            None => {
                assert(s@.take(done) =~= s@);
                return out;
            },
            Some(c) => {
                let folded = if capital {
                    upper_char(c)
                } else {
                    lower_char(c)
                };
                push_char(&mut out, folded);
                proof {
                    assert(s@.skip(done).drop_first() =~= s@.skip(done + 1));
                    assert(ascii_folded(s@.take(done + 1), capital) =~= ascii_folded(
                        s@.take(done),
                        capital,
                    ).push(folded));
                    done = done + 1;
                }
            },
        }
    }
}

/// The text with its ASCII capital letters made small.
pub(crate) fn to_ascii_lower(s: &str) -> (r: String)
    ensures
        r@ == ascii_lower(s@),
{
    fold_ascii(s, false)
}

/// The text with its ASCII small letters made capital.
pub(crate) fn to_ascii_upper(s: &str) -> (r: String)
    ensures
        r@ == ascii_upper(s@),
{
    fold_ascii(s, true)
}

/// True if the character is white space.
fn is_space(c: char) -> (r: bool)
    ensures
        r == is_white_space(c),
{
    let n = c as u32;
    (0x09 <= n && n <= 0x0d) || n == 0x20 || n == 0x85 || n == 0xa0 || n == 0x1680 || (0x2000 <= n
        && n <= 0x200a) || n == 0x2028 || n == 0x2029 || n == 0x202f || n == 0x205f || n == 0x3000
}

/// A text that starts with `k` white-space characters, and then ends or goes on
/// with another character, has `k` of them at its start.
pub proof fn lemma_leading_space(s: Seq<char>, k: int)
    requires
        0 <= k <= s.len(),
        forall|j: int| 0 <= j < k ==> is_white_space(#[trigger] s[j]),
        k == s.len() || !is_white_space(s[k]),
    ensures
        leading_space(s) == k,
    decreases k,
{
    if k > 0 {
        let rest = s.drop_first();
        assert forall|j: int| 0 <= j < k - 1 implies is_white_space(#[trigger] rest[j]) by {
            assert(rest[j] == s[j + 1]);
        }
        lemma_leading_space(rest, k - 1);
    }
}

/// A text whose last `k` characters are white space, and which has no more or
/// another character before them, has `k` of them at its end.
pub proof fn lemma_trailing_space(s: Seq<char>, k: int)
    requires
        0 <= k <= s.len(),
        forall|j: int| s.len() - k <= j < s.len() ==> is_white_space(#[trigger] s[j]),
        k == s.len() || !is_white_space(s[s.len() - k - 1]),
    ensures
        trailing_space(s) == k,
    decreases k,
{
    if k > 0 {
        let rest = s.drop_last();
        assert forall|j: int| rest.len() - (k - 1) <= j < rest.len() implies is_white_space(
            #[trigger] rest[j],
        ) by {
            assert(rest[j] == s[j]);
        }
        lemma_trailing_space(rest, k - 1);
    }
}

/// The text between the first and the last character that is not white space.
pub(crate) fn trim(s: &str) -> (r: &str)
    ensures
        r@ == trimmed(s@),
{
    broadcast use vstd::string::axiom_spec_iter, vstd::string::next_postcondition;

    let n = s.unicode_len();
    let mut rest = s.chars();
    let mut i: usize = 0;
    let mut from: usize = 0;
    let mut end: usize = 0;
    let mut leading = true;
    assert(s@.skip(0) =~= s@);
    while i < n
        invariant
            n == s@.len(),
            i <= n,
            rest.remaining() == s@.skip(i as int),
            leading ==> from == i && end == 0,
            forall|k: int| 0 <= k < from ==> is_white_space(#[trigger] s@[k]),
            !leading ==> from < end <= i && !is_white_space(s@[from as int]) && !is_white_space(
                s@[end - 1],
            ),
            !leading ==> forall|k: int| end <= k < i ==> is_white_space(#[trigger] s@[k]),
        decreases n - i,
    {
        let next = rest.next();
        proof {
            assert(s@.skip(i as int).drop_first() =~= s@.skip(i + 1));
            assert(s@.skip(i as int)[0] == s@[i as int]);
        }
        match next {
            Some(c) => {
                if is_space(c) {
                    if leading {
                        from = i + 1;
                    }
                } else {
                    if leading {
                        from = i;
                        leading = false;
                    }
                    end = i + 1;
                }
            },
            None => {},
        }
        i += 1;
    }
    proof {
        lemma_leading_space(s@, from as int);
        if !leading {
            lemma_trailing_space(s@, n - end);
        }
    }
    if leading {
        s.substring_char(0, 0)
    } else {
        s.substring_char(from, end)
    }
}

/// `str::to_lowercase`.
#[verifier::external_body]
pub(crate) fn to_lower(s: &str) -> (r: String)
    ensures
        r@ == lowercased(s@),
{
    s.to_lowercase()
}

/// `text_less` never holds of a text and itself.
pub proof fn lemma_text_less_irreflexive(a: Seq<char>)
    ensures
        !text_less(a, a),
    decreases a.len(),
{
    if a.len() > 0 {
        lemma_text_less_irreflexive(a.drop_first());
    }
}

/// Of two different texts exactly one comes first.
pub proof fn lemma_text_less_total(a: Seq<char>, b: Seq<char>)
    ensures
        a == b || text_less(a, b) || text_less(b, a),
        !(text_less(a, b) && text_less(b, a)),
    decreases a.len(),
{
    if a.len() == 0 || b.len() == 0 {
        if a.len() == 0 && b.len() == 0 {
            assert(a =~= b);
        }
    } else if a[0] != b[0] {
        vstd::utf8::char_u32_cast(a[0], a[0] as u32);
        vstd::utf8::char_u32_cast(b[0], b[0] as u32);
    } else {
        lemma_text_less_total(a.drop_first(), b.drop_first());
        if a.drop_first() == b.drop_first() {
            assert(a =~= seq![a[0]] + a.drop_first());
            assert(b =~= seq![b[0]] + b.drop_first());
        }
    }
}

/// `text_less` is transitive.
pub proof fn lemma_text_less_transitive(a: Seq<char>, b: Seq<char>, c: Seq<char>)
    requires
        text_less(a, b),
        text_less(b, c),
    ensures
        text_less(a, c),
    decreases a.len(),
{
    if a.len() > 0 && a[0] == b[0] && b[0] == c[0] {
        lemma_text_less_transitive(a.drop_first(), b.drop_first(), c.drop_first());
    }
}

} // verus!
