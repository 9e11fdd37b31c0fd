//! What numbers and texts are written and read as.

use crate::text::{
    bool_str, chars_of, contains, dec, dec_string, decimal_value, digit_char, hex2_lower,
    hex2_upper, hex_items, hex_lower_char, hex_upper, hex_upper_char, is_digit, occurs_at,
    parse_number, push_dec, push_dec2, push_hex2_lower, push_hex2_upper, push_hex4_lower,
    push_hex4_upper, push_hex_list, push_hex_upper_min4, push_padded_right, starts_with, trim,
    trimmed,
};
use vstd::prelude::*;

verus! {

/// What a digit is worth.
pub open spec fn face(c: char) -> nat {
    if '0' <= c <= '9' {
        (c as u32 - '0' as u32) as nat
    } else if 'A' <= c <= 'F' {
        (c as u32 - 'A' as u32 + 10) as nat
    } else if 'a' <= c <= 'f' {
        (c as u32 - 'a' as u32 + 10) as nat
    } else {
        0
    }
}

/// What a text of digits is worth: each digit is worth `base` times the one behind it.
pub open spec fn worth(s: Seq<char>, base: nat) -> nat
    decreases s.len(),
{
    if s.len() == 0 {
        0
    } else {
        worth(s.drop_last(), base) * base + face(s.last())
    }
}

/// Whether a text is decimal digits.
pub open spec fn decimal(s: Seq<char>) -> bool {
    forall|i: int| 0 <= i < s.len() ==> '0' <= #[trigger] s[i] <= '9'
}

/// Whether a text is upper-case hexadecimal digits.
pub open spec fn upper_hex(s: Seq<char>) -> bool {
    forall|i: int| 0 <= i < s.len() ==> '0' <= #[trigger] s[i] <= '9' || 'A' <= s[i] <= 'F'
}

/// Whether a text is lower-case hexadecimal digits.
pub open spec fn lower_hex(s: Seq<char>) -> bool {
    forall|i: int| 0 <= i < s.len() ==> '0' <= #[trigger] s[i] <= '9' || 'a' <= s[i] <= 'f'
}

/// What a decimal text is worth with one digit more.
proof fn lemma_worth_push(s: Seq<char>, c: char, base: nat)
    ensures
        worth(s.push(c), base) == worth(s, base) * base + face(c),
{
    assert(s.push(c).drop_last() =~= s);
}

/// A number in decimal is decimal digits that are worth it, without a leading zero.
pub proof fn lemma_dec(n: nat)
    ensures
        decimal(dec(n)),
        worth(dec(n), 10) == n,
        dec(n).len() > 0,
        dec(n).len() > 1 ==> dec(n)[0] != '0',
        n > 0 ==> dec(n)[0] != '0',
        n >= 10 ==> dec(n).len() > 1,
    decreases n,
{
    if n < 10 {
        lemma_worth_push(Seq::empty(), digit_char(n as int), 10);
        assert(dec(n) =~= Seq::<char>::empty().push(digit_char(n as int)));
    } else {
        lemma_dec(n / 10);
        lemma_worth_push(dec(n / 10), digit_char((n % 10) as int), 10);
    }
}

/// The value of digits is what they are worth.
proof fn lemma_decimal_value(s: Seq<char>)
    requires
        decimal(s),
    ensures
        decimal_value(s) == worth(s, 10),
    decreases s.len(),
{
    if s.len() > 0 {
        lemma_decimal_value(s.drop_last());
    }
}

/// A number in decimal is worth itself, and has no leading zero.
pub proof fn numbers_are_written_in_decimal(n: u64, r: String)
    requires
        call_ensures(dec_string, (n,), r),
    ensures
        decimal(r@),
        worth(r@, 10) == n,
        r@.len() > 0,
        r@.len() > 1 ==> r@[0] != '0',
{
    lemma_dec(n as nat);
}

/// A number is written behind what stands there.
pub proof fn numbers_go_behind_what_stands(out: &mut String, n: u64)
    requires
        call_ensures(push_dec, (out, n), ()),
    ensures
        old(out)@.is_prefix_of(final(out)@),
        decimal(final(out)@.skip(old(out)@.len() as int)),
        worth(final(out)@.skip(old(out)@.len() as int), 10) == n,
{
    lemma_dec(n as nat);
    assert(final(out)@.skip(old(out)@.len() as int) =~= dec(n as nat));
    assert(final(out)@.take(old(out)@.len() as int) =~= old(out)@);
}

/// Below one hundred, a number is written with two digits.
pub proof fn two_digits_are_padded(out: &mut String, n: u64)
    requires
        call_ensures(push_dec2, (out, n), ()),
        n < 100,
    ensures
        final(out)@.len() == old(out)@.len() + 2,
        final(out)@.take(old(out)@.len() as int) == old(out)@,
        face(final(out)@[old(out)@.len() as int]) == n / 10,
        face(final(out)@.last()) == n % 10,
        decimal(final(out)@.skip(old(out)@.len() as int)),
{
    assert(final(out)@.take(old(out)@.len() as int) =~= old(out)@);
    reveal_with_fuel(dec, 3);
}

/// What is written of a number is read as that number.
pub proof fn written_numbers_are_read(n: u64, max: u64, s: String, t: &str, r: Option<u64>)
    requires
        call_ensures(dec_string, (n,), s),
        t@ == s@,
        call_ensures(parse_number, (t, max), r),
    ensures
        n <= max ==> r == Some(n),
        n > max ==> r is None,
{
    lemma_dec(n as nat);
    assert(is_digit(s@[0]));
    lemma_decimal_value(s@);
    assert(crate::text::all_digits(s@));
}

/// A number is read from decimal digits, behind a plus sign or not, and is what they are
/// worth. Nothing else is a number, nor what is worth more than the bound.
pub proof fn only_numbers_are_read(s: &str, max: u64, r: Option<u64>)
    requires
        call_ensures(parse_number, (s, max), r),
    ensures
        ({
            let d = if s@.len() > 0 && s@[0] == '+' {
                s@.skip(1)
            } else {
                s@
            };
            &&& r is Some <==> d.len() > 0 && decimal(d) && worth(d, 10) <= max
            &&& r is Some ==> r->0 == worth(d, 10)
        }),
{
    let d = crate::text::unsigned_digits(s@);
    assert(s@.len() > 0 ==> s@.drop_first() =~= s@.skip(1));
    if decimal(d) {
        lemma_decimal_value(d);
        assert(crate::text::all_digits(d));
    } else {
        let i = choose|i: int| 0 <= i < d.len() && !('0' <= #[trigger] d[i] <= '9');
        assert(!is_digit(d[i]));
    }
}

/// A byte is written as two hexadecimal digits in the case that was asked for, the higher
/// half first.
pub proof fn bytes_are_written_in_hex(up: &mut String, low: &mut String, b: u8)
    requires
        call_ensures(push_hex2_upper, (up, b), ()),
        call_ensures(push_hex2_lower, (low, b), ()),
    ensures
        final(up)@ == old(up)@ + final(up)@.skip(old(up)@.len() as int),
        final(up)@.len() == old(up)@.len() + 2,
        upper_hex(final(up)@.skip(old(up)@.len() as int)),
        worth(final(up)@.skip(old(up)@.len() as int), 16) == b,
        final(low)@ == old(low)@ + final(low)@.skip(old(low)@.len() as int),
        final(low)@.len() == old(low)@.len() + 2,
        lower_hex(final(low)@.skip(old(low)@.len() as int)),
        worth(final(low)@.skip(old(low)@.len() as int), 16) == b,
{
    lemma_hex2(b);
    assert(final(up)@.skip(old(up)@.len() as int) =~= hex2_upper(b));
    assert(final(low)@.skip(old(low)@.len() as int) =~= hex2_lower(b));
}

/// Two hexadecimal digits are worth their byte.
pub proof fn lemma_hex2(b: u8)
    ensures
        upper_hex(hex2_upper(b)),
        lower_hex(hex2_lower(b)),
        worth(hex2_upper(b), 16) == b,
        worth(hex2_lower(b), 16) == b,
{
    let (h, l) = ((b / 16) as int, (b % 16) as int);
    let u = Seq::<char>::empty().push(hex_upper_char(h));
    let w = Seq::<char>::empty().push(hex_lower_char(h));
    lemma_worth_push(Seq::empty(), hex_upper_char(h), 16);
    lemma_worth_push(Seq::empty(), hex_lower_char(h), 16);
    lemma_worth_push(u, hex_upper_char(l), 16);
    lemma_worth_push(w, hex_lower_char(l), 16);
    assert(hex2_upper(b) =~= u.push(hex_upper_char(l)));
    assert(hex2_lower(b) =~= w.push(hex_lower_char(l)));
}

/// What two texts of digits are worth together.
proof fn lemma_worth_two(a: Seq<char>, b: Seq<char>)
    requires
        b.len() == 2,
    ensures
        worth(a + b, 16) == worth(a, 16) * 256 + worth(b, 16),
{
    let one = Seq::<char>::empty().push(b[0]);
    lemma_worth_push(Seq::empty(), b[0], 16);
    lemma_worth_push(one, b[1], 16);
    assert(b =~= one.push(b[1]));
    lemma_worth_push(a, b[0], 16);
    lemma_worth_push(a.push(b[0]), b[1], 16);
    assert(a + b =~= a.push(b[0]).push(b[1]));
}

/// A word is written as four hexadecimal digits in the case that was asked for.
pub proof fn words_are_written_in_hex(up: &mut String, low: &mut String, w: u16)
    requires
        call_ensures(push_hex4_upper, (up, w), ()),
        call_ensures(push_hex4_lower, (low, w), ()),
    ensures
        final(up)@ == old(up)@ + final(up)@.skip(old(up)@.len() as int),
        final(up)@.len() == old(up)@.len() + 4,
        upper_hex(final(up)@.skip(old(up)@.len() as int)),
        worth(final(up)@.skip(old(up)@.len() as int), 16) == w,
        final(low)@ == old(low)@ + final(low)@.skip(old(low)@.len() as int),
        final(low)@.len() == old(low)@.len() + 4,
        lower_hex(final(low)@.skip(old(low)@.len() as int)),
        worth(final(low)@.skip(old(low)@.len() as int), 16) == w,
{
    let (h, l) = ((w / 256) as u8, (w % 256) as u8);
    lemma_hex2(h);
    lemma_hex2(l);
    lemma_worth_two(hex2_upper(h), hex2_upper(l));
    lemma_worth_two(hex2_lower(h), hex2_lower(l));
    assert(final(up)@.skip(old(up)@.len() as int) =~= hex2_upper(h) + hex2_upper(l));
    assert(final(low)@.skip(old(low)@.len() as int) =~= hex2_lower(h) + hex2_lower(l));
}

/// A number in hexadecimal is digits that are worth it.
proof fn lemma_hex_upper(n: nat)
    ensures
        upper_hex(hex_upper(n)),
        worth(hex_upper(n), 16) == n,
        n >= 0x1000 ==> hex_upper(n).len() >= 4,
    decreases n,
{
    if n < 16 {
        lemma_worth_push(Seq::empty(), hex_upper_char(n as int), 16);
        assert(hex_upper(n) =~= Seq::<char>::empty().push(hex_upper_char(n as int)));
    } else {
        lemma_hex_upper(n / 16);
        lemma_worth_push(hex_upper(n / 16), hex_upper_char((n % 16) as int), 16);
        if n >= 0x1000 {
            reveal_with_fuel(hex_upper, 5);
        }
    }
}

/// A number is written in upper-case hexadecimal digits that are worth it, at least four.
pub proof fn numbers_are_written_in_hex(out: &mut String, n: u32)
    requires
        call_ensures(push_hex_upper_min4, (out, n), ()),
    ensures
        final(out)@ == old(out)@ + final(out)@.skip(old(out)@.len() as int),
        final(out)@.len() >= old(out)@.len() + 4,
        upper_hex(final(out)@.skip(old(out)@.len() as int)),
        worth(final(out)@.skip(old(out)@.len() as int), 16) == n,
{
    if n < 0x10000 {
        let (h, l) = ((n as u16 / 256) as u8, (n as u16 % 256) as u8);
        lemma_hex2(h);
        lemma_hex2(l);
        lemma_worth_two(hex2_upper(h), hex2_upper(l));
        assert(final(out)@.skip(old(out)@.len() as int) =~= hex2_upper(h) + hex2_upper(l));
    } else {
        lemma_hex_upper(n as nat);
        assert(final(out)@.skip(old(out)@.len() as int) =~= hex_upper(n as nat));
    }
}

/// A list of bytes takes four characters for each: two digits, and a comma and a blank, of
/// which the last has none.
proof fn lemma_hex_items(b: Seq<u8>)
    ensures
        b.len() > 0 ==> hex_items(b).len() == 4 * b.len() - 2,
        b.len() == 0 ==> hex_items(b).len() == 0,
        forall|i: int|
            0 <= i < b.len() ==> #[trigger] hex_items(b).subrange(4 * i, 4 * i + 2) == hex2_lower(
                b[i],
            ),
        forall|i: int|
            0 <= i < b.len() - 1 ==> #[trigger] hex_items(b).subrange(4 * i + 2, 4 * i + 4)
                == ", "@,
    decreases b.len(),
{
    reveal_strlit(", ");
    let all = hex_items(b);
    if b.len() == 1 {
        assert(all.subrange(0, 2) =~= hex2_lower(b[0]));
    } else if b.len() > 1 {
        let n = b.len() - 1;
        let before = hex_items(b.drop_last());
        lemma_hex_items(b.drop_last());
        assert forall|i: int| 0 <= i < b.len() implies #[trigger] all.subrange(4 * i, 4 * i + 2)
            == hex2_lower(b[i]) by {
            if i < n {
                assert(all.subrange(4 * i, 4 * i + 2) =~= before.subrange(4 * i, 4 * i + 2));
            } else {
                assert(all.subrange(4 * i, 4 * i + 2) =~= hex2_lower(b[i]));
            }
        }
        assert forall|i: int| 0 <= i < b.len() - 1 implies #[trigger] all.subrange(
            4 * i + 2,
            4 * i + 4,
        ) == ", "@ by {
            if i < n - 1 {
                assert(all.subrange(4 * i + 2, 4 * i + 4) =~= before.subrange(
                    4 * i + 2,
                    4 * i + 4,
                ));
            } else {
                assert(all.subrange(4 * i + 2, 4 * i + 4) =~= ", "@);
            }
        }
    }
}

/// Bytes are listed in brackets, each as its two digits, in their order.
pub proof fn bytes_are_listed_in_order(
    out: &mut String,
    bytes: &[u8],
    start: usize,
    end: usize,
    i: int,
)
    requires
        call_ensures(push_hex_list, (out, bytes, start, end), ()),
        start <= i < end <= bytes@.len(),
    ensures
        ({
            let list = final(out)@.skip(old(out)@.len() as int);
            let at = 1 + 4 * (i - start);
            &&& old(out)@.is_prefix_of(final(out)@)
            &&& list.len() == 4 * (end - start)
            &&& list[0] == '['
            &&& list.last() == ']'
            &&& lower_hex(list.subrange(at, at + 2))
            &&& worth(list.subrange(at, at + 2), 16) == bytes@[i]
            &&& i + 1 < end ==> list[at + 2] == ',' && list[at + 3] == ' '
        }),
{
    reveal_strlit("[");
    reveal_strlit("]");
    reveal_strlit(", ");
    let b = bytes@.subrange(start as int, end as int);
    let list = final(out)@.skip(old(out)@.len() as int);
    let k = i - start;
    let at = 1 + 4 * k;
    lemma_hex_items(b);
    lemma_hex2(b[k]);
    assert(list =~= "["@ + hex_items(b) + "]"@);
    assert(list.subrange(at, at + 2) =~= hex_items(b).subrange(4 * k, 4 * k + 2));
    assert(final(out)@.take(old(out)@.len() as int) =~= old(out)@);
    if i + 1 < end {
        let gap = hex_items(b).subrange(4 * k + 2, 4 * k + 4);
        assert(gap == ", "@);
        assert(gap[0] == list[at + 2] && gap[1] == list[at + 3]);
    }
}

/// Padding adds blanks up to the width, and never cuts.
pub proof fn padding_fills_with_blanks(out: &mut String, s: &str, width: usize)
    requires
        call_ensures(push_padded_right, (out, s, width), ()),
    ensures
        ({
            let new = final(out)@.skip(old(out)@.len() as int);
            &&& old(out)@.is_prefix_of(final(out)@)
            &&& s@.is_prefix_of(new)
            &&& new.len() == (if s@.len() < width {
                width as nat
            } else {
                s@.len()
            })
            &&& forall|i: int| s@.len() <= i < new.len() ==> #[trigger] new[i] == ' '
        }),
{
    let new = final(out)@.skip(old(out)@.len() as int);
    assert(new =~= crate::text::padded_right(s@, width as nat));
    assert(new.take(s@.len() as int) =~= s@);
    assert(final(out)@.take(old(out)@.len() as int) =~= old(out)@);
}

/// Whether a character is a blank, a tab or the end of a line.
pub open spec fn plain_blank(c: char) -> bool {
    c == ' ' || c == '\t' || c == '\n' || c == '\r'
}

/// Where trimming starts and ends.
proof fn lemma_trimmed(s: Seq<char>) -> (r: (int, int))
    ensures
        0 <= r.0 <= r.1 <= s.len(),
        trimmed(s) == s.subrange(r.0, r.1),
        r.0 < r.1 ==> !crate::text::is_white_space(s[r.0]) && !crate::text::is_white_space(
            s[r.1 - 1],
        ),
        forall|i: int|
            0 <= i < r.0 || r.1 <= i < s.len() ==> crate::text::is_white_space(#[trigger] s[i]),
    decreases s.len(),
{
    if s.len() > 0 && crate::text::is_white_space(s.first()) {
        let t = s.drop_first();
        let (a, b) = lemma_trimmed(t);
        assert(t.subrange(a, b) =~= s.subrange(a + 1, b + 1));
        assert forall|i: int| 0 <= i < a + 1 || b + 1 <= i < s.len() implies
            crate::text::is_white_space(#[trigger] s[i]) by {
            if i > 0 {
                assert(t[i - 1] == s[i]);
            }
        }
        (a + 1, b + 1)
    } else if s.len() > 0 && crate::text::is_white_space(s.last()) {
        let t = s.drop_last();
        let (a, b) = lemma_trimmed(t);
        assert(t.subrange(a, b) =~= s.subrange(a, b));
        assert forall|i: int| 0 <= i < a || b <= i < s.len() implies crate::text::is_white_space(
            #[trigger] s[i],
        ) by {
            if i < t.len() {
                assert(t[i] == s[i]);
            }
        }
        (a, b)
    } else {
        assert(s.subrange(0, s.len() as int) =~= s);
        (0, s.len() as int)
    }
}

/// Trimming takes blanks off the ends of a text, and nothing else off it.
pub proof fn trimming_takes_blanks_off_the_ends(s: &str, r: &str) -> (at: int)
    requires
        call_ensures(trim, (s,), r),
    ensures
        0 <= at <= at + r@.len() <= s@.len(),
        r@ == s@.subrange(at, at + r@.len()),
        r@.len() > 0 ==> !plain_blank(r@[0]) && !plain_blank(r@.last()),
        forall|i: int|
            0 <= i < at || at + r@.len() <= i < s@.len() ==> !('!' <= #[trigger] s@[i] <= '~'),
{
    let (a, b) = lemma_trimmed(s@);
    a
}

/// A text is found where it stands: a text contains what it is made of, and what it
/// contains stands in it somewhere.
pub proof fn contained_text_is_found(s: &str, needle: &str, r: bool, before: Seq<char>, after: Seq<char>)
    requires
        call_ensures(contains, (s, needle), r),
    ensures
        s@ == before + needle@ + after ==> r,
        needle@.len() > s@.len() ==> !r,
        needle@.len() == 1 ==> r == s@.contains(needle@[0]),
{
    if s@ == before + needle@ + after {
        let at = before.len() as int;
        assert(s@.subrange(at, at + needle@.len()) =~= needle@);
        assert(occurs_at(s@, needle@, at));
    }
    if needle@.len() == 1 {
        if s@.contains(needle@[0]) {
            let i = choose|i: int| 0 <= i < s@.len() && s@[i] == needle@[0];
            assert(s@.subrange(i, i + 1) =~= needle@);
            assert(occurs_at(s@, needle@, i));
        }
        if r {
            let i = choose|i: int| #[trigger] occurs_at(s@, needle@, i);
            assert(s@.subrange(i, i + 1)[0] == s@[i]);
        }
    }
}

/// A text starts with another if that is followed by the rest of it.
pub proof fn beginnings_are_told(s: &str, part: &str, r: bool)
    requires
        call_ensures(starts_with, (s, part), r),
    ensures
        r <==> s@.len() >= part@.len() && s@.take(part@.len() as int) == part@,
{
}

/// A truth value is written as the word for it.
pub proof fn truth_is_written(b: bool, r: &str)
    requires
        call_ensures(bool_str, (b,), r),
    ensures
        b ==> r@ == seq!['t', 'r', 'u', 'e'],
        !b ==> r@ == seq!['f', 'a', 'l', 's', 'e'],
{
    reveal_strlit("true");
    reveal_strlit("false");
}

/// The characters of a text are those that it holds, in their order.
pub proof fn characters_keep_their_order(s: &str, r: Vec<char>)
    requires
        call_ensures(chars_of, (s,), r),
    ensures
        r@ == s@,
{
}

} // verus!
