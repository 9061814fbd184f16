//! Text: decimal numbers, padding to a column's width, and lines.
use vstd::prelude::*;

verus! {

/// The digit of the value `d`.
pub open spec fn digit(d: int) -> char {
    (48 + d) as char
}

pub open spec fn is_digit(c: char) -> bool {
    '0' <= c <= '9'
}

/// `n` in decimal, without leading zeros.
pub open spec fn decimal(n: nat) -> Seq<char>
    decreases n,
{
    if n < 10 {
        seq![digit(n as int)]
    } else {
        decimal(n / 10).push(digit((n % 10) as int))
    }
}

pub open spec fn all_digits(s: Seq<char>) -> bool {
    forall|i: int| 0 <= i < s.len() ==> is_digit(#[trigger] s[i])
}

/// The number that the digits `s` write.
pub open spec fn digits_value(s: Seq<char>) -> nat
    decreases s.len(),
{
    if s.len() == 0 {
        0
    } else {
        (digits_value(s.drop_last()) * 10 + (s.last() as int - 48)) as nat
    }
}

pub open spec fn spaces(n: nat) -> Seq<char> {
    Seq::new(n, |i: int| ' ')
}

/// `s` filled up with spaces behind it to `width` characters.
pub open spec fn left_aligned(s: Seq<char>, width: nat) -> Seq<char> {
    s + spaces(if s.len() < width {
        (width - s.len()) as nat
    } else {
        0
    })
}

/// `s` filled up with spaces in front of it to `width` characters.
pub open spec fn right_aligned(s: Seq<char>, width: nat) -> Seq<char> {
    spaces(if s.len() < width {
        (width - s.len()) as nat
    } else {
        0
    }) + s
}

/// The texts that `strings` hold.
pub open spec fn texts(strings: Seq<String>) -> Seq<Seq<char>> {
    strings.map_values(|s: String| s@)
}

/// A decimal is made of digits, at least one, and reads back as the number.
pub proof fn law_decimal_round_trip(n: nat)
    ensures
        decimal(n).len() > 0,
        all_digits(decimal(n)),
        digits_value(decimal(n)) == n,
    decreases n,
{
    if n < 10 {
        reveal_with_fuel(digits_value, 2);
        assert(decimal(n).drop_last() =~= Seq::<char>::empty());
    } else {
        law_decimal_round_trip(n / 10);
        let front = decimal(n / 10);
        assert(decimal(n).drop_last() =~= front);
        assert forall|i: int| 0 <= i < decimal(n).len() implies is_digit(
            #[trigger] decimal(n)[i],
        ) by {
            if i < front.len() {
                assert(decimal(n)[i] == front[i]);
            }
        }
    }
}

/// A decimal of more than one digit does not start with zero.
pub proof fn lemma_no_leading_zero(n: nat)
    ensures
        decimal(n).len() > 1 ==> decimal(n)[0] != '0',
        n > 0 ==> decimal(n)[0] != '0',
    decreases n,
{
    if n >= 10 {
        lemma_no_leading_zero(n / 10);
        law_decimal_round_trip(n / 10);
        assert(decimal(n)[0] == decimal(n / 10)[0]);
    }
}

/// Digits that do not start with zero, unless there is only one, are the
/// decimal of the number that they write.
pub proof fn lemma_canonical_digits(s: Seq<char>)
    requires
        s.len() > 0,
        all_digits(s),
        s.len() == 1 || s[0] != '0',
    ensures
        decimal(digits_value(s)) == s,
        s[0] != '0' ==> digits_value(s) > 0,
    decreases s.len(),
{
    let front = s.drop_last();
    let last = s.last() as int - 48;
    assert(is_digit(s.last()));
    if s.len() == 1 {
        reveal_with_fuel(digits_value, 2);
        assert(digits_value(s) == last);
        assert(decimal(digits_value(s)) =~= s);
    } else {
        assert(front[0] == s[0]);
        assert forall|i: int| 0 <= i < front.len() implies is_digit(#[trigger] front[i]) by {
            assert(front[i] == s[i]);
        }
        lemma_canonical_digits(front);
        let v = digits_value(front);
        assert(digits_value(s) == v * 10 + last);
        assert(digits_value(s) / 10 == v);
        assert(digits_value(s) % 10 == last);
        assert(decimal(digits_value(s)) =~= front.push(s.last()));
        assert(front.push(s.last()) =~= s);
    }
}

/// A decimal of at most 255 has at most three digits.
pub proof fn lemma_octet_width(n: nat)
    requires
        n <= 255,
    ensures
        1 <= decimal(n).len() <= 3,
{
    reveal_with_fuel(decimal, 4);
}

/// The digit of the value `d`, as text.
fn digit_text(d: u64) -> (text: &'static str)
    requires
        d < 10,
    ensures
        text@ == seq![digit(d as int)],
{
    proof {
        reveal_strlit("0");
        reveal_strlit("1");
        reveal_strlit("2");
        reveal_strlit("3");
        reveal_strlit("4");
        reveal_strlit("5");
        reveal_strlit("6");
        reveal_strlit("7");
        reveal_strlit("8");
        reveal_strlit("9");
    }
    let text: &'static str = match d {
        0 => "0",
        1 => "1",
        2 => "2",
        3 => "3",
        4 => "4",
        5 => "5",
        6 => "6",
        7 => "7",
        8 => "8",
        _ => "9",
    };
    assert(text@ =~= seq![digit(d as int)]);
    text
}

/// Appends `n` in decimal.
pub fn append_decimal(out: &mut String, n: u64)
    ensures
        final(out)@ == old(out)@ + decimal(n as nat),
    decreases n,
{
    if n >= 10 {
        append_decimal(out, n / 10);
    }
    out.append(digit_text(n % 10));
    assert(out@ =~= old(out)@ + decimal(n as nat));
}

/// `n` in decimal.
pub fn decimal_text(n: u64) -> (text: String)
    ensures
        text@ == decimal(n as nat),
{
    let mut text: String = String::new();
    append_decimal(&mut text, n);
    assert(text@ =~= decimal(n as nat));
    text
}

/// Appends `n` spaces.
fn append_spaces(out: &mut String, n: usize)
    ensures
        final(out)@ == old(out)@ + spaces(n as nat),
{
    let mut done: usize = 0;
    assert(out@ =~= old(out)@ + spaces(0));
    proof {
        reveal_strlit(" ");
    }
    while done < n
        invariant
            done <= n,
            " "@.len() == 1,
            " "@[0] == ' ',
            out@ == old(out)@ + spaces(done as nat),
        decreases n - done,
    {
        out.append(" ");
        done = done + 1;
        assert(out@ =~= old(out)@ + spaces(done as nat));
    }
}

/// Appends `s`, filled up with spaces behind it to `width` characters.
pub fn append_left_aligned(out: &mut String, s: &str, width: usize)
    ensures
        final(out)@ == old(out)@ + left_aligned(s@, width as nat),
{
    out.append(s);
    let len: usize = s.unicode_len();
    append_spaces(
        out,
        if len < width {
            width - len
        } else {
            0
        },
    );
    assert(out@ =~= old(out)@ + left_aligned(s@, width as nat));
}

/// Appends `s`, filled up with spaces in front of it to `width` characters.
pub fn append_right_aligned(out: &mut String, s: &str, width: usize)
    ensures
        final(out)@ == old(out)@ + right_aligned(s@, width as nat),
{
    let len: usize = s.unicode_len();
    append_spaces(
        out,
        if len < width {
            width - len
        } else {
            0
        },
    );
    out.append(s);
    assert(out@ =~= old(out)@ + right_aligned(s@, width as nat));
}

/// Whether `s` is the text `word`.
pub fn is_text(s: &String, word: &str) -> (same: bool)
    ensures
        same == (s@ == word@),
{
    *s == word.to_owned()
}

/// The characters of `s`.
pub fn chars_of(s: &str) -> (chars: Vec<char>)
    ensures
        chars@ == s@,
{
    let mut chars: Vec<char> = Vec::new();
    for c in it: s.chars()
        invariant
            chars@ == s@.take(it.index() as int),
            it.seq() == s@,
    {
        chars.push(c);
        assert(chars@ =~= s@.take(it.index() + 1));
    }
    assert(chars@ =~= s@);
    chars
}

/// How often `s` ends a line.
pub open spec fn newlines(s: Seq<char>) -> nat
    decreases s.len(),
{
    if s.len() == 0 {
        0
    } else {
        newlines(s.drop_last()) + if s.last() == '\n' {
            1nat
        } else {
            0nat
        }
    }
}

/// How many lines `s` has. The end of the last one need not be marked.
pub open spec fn line_count(s: Seq<char>) -> nat {
    newlines(s) + if s.len() > 0 && s.last() != '\n' {
        1nat
    } else {
        0nat
    }
}

/// The line ends of two texts add up.
pub proof fn lemma_newlines_add(a: Seq<char>, b: Seq<char>)
    ensures
        newlines(a + b) == newlines(a) + newlines(b),
    decreases b.len(),
{
    if b.len() == 0 {
        assert(a + b =~= a);
    } else {
        lemma_newlines_add(a, b.drop_last());
        assert((a + b).drop_last() =~= a + b.drop_last());
    }
}

/// A text without a line end has none.
pub proof fn lemma_no_newlines(s: Seq<char>)
    requires
        !s.contains('\n'),
    ensures
        newlines(s) == 0,
    decreases s.len(),
{
    if s.len() > 0 {
        assert(s[s.len() - 1] == s.last());
        assert forall|i: int| 0 <= i < s.drop_last().len() implies s.drop_last()[i] != '\n' by {
            assert(s.drop_last()[i] == s[i]);
        }
        lemma_no_newlines(s.drop_last());
    }
}

/// The number of lines of a text, as far as 16 bits hold it.
pub fn count_lines(rendered_table: &str) -> (lines: u16)
    ensures
        lines == line_count(rendered_table@) % 0x10000,
{
    let mut lines: u16 = 0;
    let mut open_line: bool = false;
    for c in it: rendered_table.chars()
        invariant
            it.seq() == rendered_table@,
            lines == newlines(rendered_table@.take(it.index() as int)) % 0x10000,
            open_line == (it.index() > 0 && rendered_table@[it.index() - 1] != '\n'),
    {
        assert(rendered_table@.take(it.index() + 1).drop_last() =~= rendered_table@.take(
            it.index() as int,
        ));
        if c == '\n' {
            lines = lines.wrapping_add(1);
            open_line = false;
        } else {
            open_line = true;
        }
    }
    assert(rendered_table@.take(rendered_table@.len() as int) =~= rendered_table@);
    if open_line {
        lines = lines.wrapping_add(1);
    }
    lines
}

/// Digits are worth ten times as much with one more digit behind them, and that
/// digit.
pub proof fn law_digits_are_positional(s: Seq<char>, d: nat)
    requires
        d < 10,
    ensures
        digits_value(Seq::empty()) == 0,
        digits_value(s.push(digit(d as int))) == 10 * digits_value(s) + d,
        digit(0) == '0',
        digit(d as int) as int == '0' as int + d,
{
    assert(s.push(digit(d as int)).drop_last() =~= s);
}

/// A decimal has no leading zeros.
pub proof fn law_decimal_has_no_leading_zeros(n: nat)
    ensures
        n > 0 ==> decimal(n)[0] != '0',
        decimal(0) == seq!['0'],
{
    lemma_no_leading_zero(n);
}

/// A text is filled up with spaces to a width, in front of it or behind it, and
/// is itself left as it is. One that is too long stays as it is.
pub proof fn law_alignment_only_adds_spaces(s: Seq<char>, width: nat)
    ensures
        left_aligned(s, width).len() == if s.len() < width {
            width
        } else {
            s.len()
        },
        right_aligned(s, width).len() == left_aligned(s, width).len(),
        left_aligned(s, width).take(s.len() as int) == s,
        right_aligned(s, width).skip(right_aligned(s, width).len() - s.len()) == s,
        forall|i: int|
            s.len() <= i < left_aligned(s, width).len() ==> #[trigger] left_aligned(s, width)[i]
                == ' ',
        forall|i: int|
            0 <= i < right_aligned(s, width).len() - s.len() ==> #[trigger] right_aligned(
                s,
                width,
            )[i] == ' ',
{
    assert(left_aligned(s, width).take(s.len() as int) =~= s);
    assert(right_aligned(s, width).skip(right_aligned(s, width).len() - s.len()) =~= s);
}

/// The texts of strings are those of each of them.
pub proof fn law_texts_are_those_of_the_strings(strings: Seq<String>)
    ensures
        texts(strings).len() == strings.len(),
        forall|i: int| 0 <= i < strings.len() ==> #[trigger] texts(strings)[i] == strings[i]@,
{
}

/// How lines are counted: nothing has no lines, a text without a line end is one
/// line, and a line that ends counts one more than what follows it.
pub proof fn law_lines_are_counted_one_by_one(line: Seq<char>, rest: Seq<char>)
    requires
        !line.contains('\n'),
    ensures
        line_count(Seq::empty()) == 0,
        line.len() > 0 ==> line_count(line) == 1,
        line_count(line.push('\n') + rest) == 1 + line_count(rest),
{
    lemma_no_newlines(line);
    let ended = line.push('\n');
    assert(ended.drop_last() =~= line);
    lemma_newlines_add(ended, rest);
    if line.len() > 0 {
        assert(line.last() == line[line.len() - 1]);
        assert(line.contains(line.last()));
    }
    if rest.len() > 0 {
        assert((ended + rest).last() == rest.last());
    }
}

/// The digits are the ten characters from `0` to `9`.
pub proof fn law_there_are_ten_digits(c: char)
    ensures
        is_digit(c) <==> 48 <= c as int <= 57,
        is_digit(c) ==> c == digit(c as int - 48),
{
}

} // verus!
