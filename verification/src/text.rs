//! Text helpers: the parts of `str` that the service relies on, with their meaning.
use vstd::prelude::*;
use vstd::string::StrSliceExecFns;
use vstd::utf8::{encode_utf8, encode_utf8_decode_utf8};

verus! {

/// The code points with the Unicode property `White_Space`.
pub open spec fn is_white_space(c: char) -> bool {
    let code = c as u32;
    ||| 0x09 <= code <= 0x0d
    ||| code == 0x20
    ||| code == 0x85
    ||| code == 0xa0
    ||| code == 0x1680
    ||| 0x2000 <= code <= 0x200a
    ||| code == 0x2028
    ||| code == 0x2029
    ||| code == 0x202f
    ||| code == 0x205f
    ||| code == 0x3000
}

/// `text` without its leading white space.
pub open spec fn trimmed_start(text: Seq<char>) -> Seq<char>
    decreases text.len(),
{
    if text.len() > 0 && is_white_space(text[0]) {
        trimmed_start(text.drop_first())
    } else {
        text
    }
}

/// `text` without its trailing white space.
pub open spec fn trimmed_end(text: Seq<char>) -> Seq<char>
    decreases text.len(),
{
    if text.len() > 0 && is_white_space(text.last()) {
        trimmed_end(text.drop_last())
    } else {
        text
    }
}

/// `text` without the white space at either end.
pub open spec fn trimmed(text: Seq<char>) -> Seq<char> {
    trimmed_end(trimmed_start(text))
}

/// The order of `str`: by code point, a proper prefix before what extends it.
pub open spec fn text_less(left: Seq<char>, right: Seq<char>) -> bool
    decreases left.len(),
{
    if right.len() == 0 {
        false
    } else if left.len() == 0 {
        true
    } else if left[0] != right[0] {
        (left[0] as int) < (right[0] as int)
    } else {
        text_less(left.drop_first(), right.drop_first())
    }
}

/// Whether `c` is one of the ten decimal digits.
pub open spec fn is_digit(c: char) -> bool {
    0x30 <= c as u32 <= 0x39
}

/// The digit that stands for `n`, which is below ten.
pub open spec fn digit(n: nat) -> char {
    (0x30 + n) as char
}

/// `n` written in decimal, without leading zeros.
pub open spec fn decimal(n: nat) -> Seq<char>
    decreases n,
{
    if n < 10 {
        seq![digit(n)]
    } else {
        decimal(n / 10).push(digit(n % 10))
    }
}

/// The number that a run of digits stands for.
pub open spec fn digits_value(digits: Seq<char>) -> nat
    decreases digits.len(),
{
    if digits.len() == 0 {
        0
    } else {
        digits_value(digits.drop_last()) * 10 + (digits.last() as u32 - 0x30) as nat
    }
}

/// `text` without the plus sign at its start, where there is one.
pub open spec fn without_plus(text: Seq<char>) -> Seq<char> {
    if text.len() > 0 && text[0] == '+' {
        text.drop_first()
    } else {
        text
    }
}

/// Whether there is nothing but digits.
pub open spec fn all_digits(text: Seq<char>) -> bool {
    forall|i: int| 0 <= i < text.len() ==> is_digit(#[trigger] text[i])
}

/// The number that `text` writes: an optional plus sign, then one digit or more.
pub open spec fn written_number(text: Seq<char>) -> Option<nat> {
    let digits = without_plus(text);
    if digits.len() > 0 && all_digits(digits) {
        Some(digits_value(digits))
    } else {
        None
    }
}

/// The texts that a list of strings holds.
pub open spec fn texts(strings: Seq<String>) -> Seq<Seq<char>> {
    strings.map_values(|string: String| string@)
}

/// The text that an optional string holds.
pub open spec fn optional_text(string: Option<String>) -> Option<Seq<char>> {
    match string {
        Some(string) => Some(string@),
        None => None,
    }
}

/// Tells whether a character is white space.
pub fn is_space(c: char) -> (result: bool)
    ensures
        result == is_white_space(c),
{
    let code: u32 = c as u32;
    (0x09 <= code && code <= 0x0d) || code == 0x20 || code == 0x85 || code == 0xa0 || code == 0x1680
        || (0x2000 <= code && code <= 0x200a) || code == 0x2028 || code == 0x2029 || code == 0x202f
        || code == 0x205f || code == 0x3000
}

/// The text without the white space at either end.
pub fn trim(text: &str) -> (result: &str)
    ensures
        result@ == trimmed(text@),
{
    let ghost all = text@;
    let length = text.unicode_len();
    let mut from: usize = 0;
    let mut to: usize = 0;
    let mut i: usize = 0;
    for c in iter: text.chars()
        invariant
            iter.seq() == all,
            i == iter.index(),
            all.len() == length,
            from <= to <= i,
            forall|k: int| 0 <= k < from || to <= k < i ==> is_white_space(#[trigger] all[k]),
            from < to ==> !is_white_space(all[from as int]) && !is_white_space(all[to - 1]),
            from == to ==> to == 0,
    {
        assert(i < length);
        if !is_space(c) {
            if from == to {
                from = i;
            }
            to = i + 1;
        }
        i += 1;
    }
    proof {
        lemma_trimmed_part(all, from as int, to as int);
    }
    text.substring_char(from, to)
}

/// Tells whether two texts are the same.
pub fn same_text(left: &str, right: &str) -> (result: bool)
    ensures
        result == (left@ == right@),
{
    let a = left.as_bytes();
    let b = right.as_bytes();
    proof {
        encode_utf8_decode_utf8(left@);
        encode_utf8_decode_utf8(right@);
    }
    if a.len() != b.len() {
        return false;
    }
    let mut i: usize = 0;
    while i < a.len()
        invariant
            i <= a@.len(),
            a@.len() == b@.len(),
            a@ == encode_utf8(left@),
            b@ == encode_utf8(right@),
            forall|k: int| 0 <= k < i ==> a@[k] == #[trigger] b@[k],
        decreases a@.len() - i,
    {
        if a[i] != b[i] {
            return false;
        }
        i += 1;
    }
    assert(a@ =~= b@);
    true
}

/// The characters of a text.
fn characters(text: &str) -> (result: Vec<char>)
    ensures
        result@ == text@,
{
    let ghost all = text@;
    let mut result: Vec<char> = Vec::new();
    for c in iter: text.chars()
        invariant
            iter.seq() == all,
            result@ == all.take(iter.index() as int),
    {
        result.push(c);
        assert(result@ =~= all.take(iter.index() + 1));
    }
    assert(all.take(all.len() as int) =~= all);
    result
}

/// Tells whether one text comes before another.
pub fn precedes(left: &str, right: &str) -> (result: bool)
    ensures
        result == text_less(left@, right@),
{
    let a = characters(left);
    let b = characters(right);
    let mut i: usize = 0;
    assert(a@.skip(0) =~= a@);
    assert(b@.skip(0) =~= b@);
    while i < a.len() && i < b.len()
        invariant
            i <= a@.len(),
            i <= b@.len(),
            a@ == left@,
            b@ == right@,
            text_less(a@, b@) == text_less(a@.skip(i as int), b@.skip(i as int)),
        decreases a@.len() - i,
    {
        assert(a@.skip(i as int)[0] == a@[i as int]);
        assert(b@.skip(i as int)[0] == b@[i as int]);
        if a[i] != b[i] {
            return a[i] < b[i];
        }
        assert(a@.skip(i as int).drop_first() =~= a@.skip(i + 1));
        assert(b@.skip(i as int).drop_first() =~= b@.skip(i + 1));
        i += 1;
    }
    i < b.len()
}

/// A number written in decimal, without leading zeros.
pub fn decimal_text(number: u64) -> (result: String)
    ensures
        result@ == decimal(number as nat),
    decreases number,
{
    let mut result: String = if number < 10 {
        String::new()
    } else {
        decimal_text(number / 10)
    };
    let last: u8 = 0x30 + (number % 10) as u8;
    push_char(&mut result, last as char);
    assert(number < 10 ==> result@ =~= seq![digit(number as nat)]);
    result
}

/// Reads a number: an optional plus sign followed by digits only, as far as it fits.
pub fn parse_u32(text: &str) -> (result: Option<u32>)
    ensures
        match result {
            Some(number) => written_number(text@) == Some(number as nat),
            None => match written_number(text@) {
                Some(number) => number > u32::MAX,
                None => true,
            },
        },
{
    let all = characters(text);
    let start: usize = if all.len() > 0 && all[0] == '+' {
        1
    } else {
        0
    };
    let ghost digits = all@.skip(start as int);
    proof {
        assert(all@.skip(0) =~= all@);
        assert(all@.len() > 0 ==> all@.skip(1) =~= all@.drop_first());
    }
    if start == all.len() {
        return None;
    }
    let mut value: u64 = 0;
    let mut i: usize = start;
    assert(digits_value(digits.take(0)) == 0);
    while i < all.len()
        invariant
            start <= i <= all@.len(),
            all@ == text@,
            digits == all@.skip(start as int),
            digits == without_plus(text@),
            forall|k: int| 0 <= k < i - start ==> is_digit(#[trigger] digits[k]),
            value <= u32::MAX ==> value == digits_value(digits.take(i - start)),
            value > u32::MAX ==> digits_value(digits.take(i - start)) > u32::MAX,
        decreases all@.len() - i,
    {
        let code: u32 = all[i] as u32;
        assert(digits[i - start] == all@[i as int]);
        if code < 0x30 || code > 0x39 {
            assert(!is_digit(digits[i - start]));
            return None;
        }
        proof {
            let before = digits.take(i - start);
            let after = digits.take(i - start + 1);
            assert(after.drop_last() =~= before);
            assert(after.last() == all@[i as int]);
        }
        if value <= u32::MAX as u64 {
            value = value * 10 + (code - 0x30) as u64;
        }
        i += 1;
    }
    assert(digits.take(digits.len() as int) =~= digits);
    if value <= u32::MAX as u64 {
        Some(value as u32)
    } else {
        None
    }
}

/// Trusted: `String::push` appends one character.
#[verifier::external_body]
pub(crate) fn push_char(text: &mut String, c: char)
    ensures
        final(text)@ == old(text)@.push(c),
{
    text.push(c)
}

/// One text after the other.
pub fn joined(left: &str, right: &str) -> (result: String)
    ensures
        result@ == left@ + right@,
{
    let mut result: String = left.to_owned();
    result.append(right);
    result
}

proof fn lemma_trimmed_start(text: Seq<char>)
    ensures
        trimmed_start(text).len() <= text.len(),
        trimmed_start(text).len() > 0 ==> !is_white_space(trimmed_start(text)[0]),
        trimmed_start(text) == text.skip(text.len() - trimmed_start(text).len()),
        forall|i: int|
            0 <= i < text.len() - trimmed_start(text).len() ==> is_white_space(#[trigger] text[i]),
    decreases text.len(),
{
    if text.len() > 0 && is_white_space(text[0]) {
        let rest = text.drop_first();
        lemma_trimmed_start(rest);
        let cut = text.len() - trimmed_start(text).len();
        assert(trimmed_start(text) =~= text.skip(cut)) by {
            assert(rest.skip(cut - 1) =~= text.skip(cut));
        }
        assert forall|i: int| 0 <= i < cut implies is_white_space(#[trigger] text[i]) by {
            if i > 0 {
                assert(rest[i - 1] == text[i]);
            }
        }
    } else {
        assert(text.skip(0) =~= text);
    }
}

proof fn lemma_trimmed_end(text: Seq<char>)
    ensures
        trimmed_end(text).len() <= text.len(),
        trimmed_end(text).len() > 0 ==> !is_white_space(trimmed_end(text).last()),
        trimmed_end(text) == text.take(trimmed_end(text).len() as int),
        forall|i: int| trimmed_end(text).len() <= i < text.len() ==> is_white_space(#[trigger] text[i]),
    decreases text.len(),
{
    if text.len() > 0 && is_white_space(text.last()) {
        let rest = text.drop_last();
        lemma_trimmed_end(rest);
        let kept = trimmed_end(text).len() as int;
        assert(rest.take(kept) =~= text.take(kept));
        assert forall|i: int| kept <= i < text.len() implies is_white_space(#[trigger] text[i]) by {
            if i < text.len() - 1 {
                assert(rest[i] == text[i]);
            }
        }
    } else {
        assert(text.take(text.len() as int) =~= text);
    }
}

proof fn lemma_trimmed_part(text: Seq<char>, from: int, to: int)
    requires
        0 <= from <= to <= text.len(),
        forall|k: int|
            0 <= k < from || to <= k < text.len() ==> is_white_space(#[trigger] text[k]),
        from < to ==> !is_white_space(text[from]) && !is_white_space(text[to - 1]),
        from == to ==> to == 0,
    ensures
        trimmed(text) == text.subrange(from, to),
{
    let start = trimmed_start(text);
    let cut = text.len() - start.len();
    lemma_trimmed_start(text);
    lemma_trimmed_end(start);
    if from < to {
        assert(cut == from) by {
            if cut < from {
                assert(is_white_space(text[cut]));
                assert(start[0] == text[cut]);
            }
        }
        let kept = trimmed(text).len();
        assert(kept == to - from) by {
            if kept > to - from {
                assert(start[kept - 1] == text[from + kept - 1]);
                assert(trimmed(text).last() == start[kept - 1]);
            }
            if kept < to - from {
                assert(start[to - from - 1] == text[to - 1]);
            }
        }
        assert(trimmed(text) =~= text.subrange(from, to));
    } else {
        if start.len() > 0 {
            assert(start[0] == text[cut]);
        }
        assert(trimmed(text) =~= text.subrange(from, to));
    }
}

/// Trimming keeps one contiguous part of the text, whose ends are not white space, and drops
/// white space only.
pub proof fn trimming_drops_only_outer_white_space(text: Seq<char>)
    ensures
        exists|from: int, to: int|
            #![trigger text.subrange(from, to)]
            {
                &&& 0 <= from <= to <= text.len()
                &&& trimmed(text) == text.subrange(from, to)
                &&& forall|i: int|
                    0 <= i < from || to <= i < text.len() ==> is_white_space(#[trigger] text[i])
            },
        trimmed(text).len() > 0 ==> !is_white_space(trimmed(text)[0]) && !is_white_space(
            trimmed(text).last(),
        ),
{
    let start = trimmed_start(text);
    lemma_trimmed_start(text);
    lemma_trimmed_end(start);
    let from = text.len() - start.len();
    let to = from + trimmed(text).len();
    assert(trimmed(text) =~= text.subrange(from, to));
    assert forall|i: int| 0 <= i < from || to <= i < text.len() implies is_white_space(
        #[trigger] text[i],
    ) by {
        if i >= to {
            assert(start[i - from] == text[i]);
        }
    }
    if trimmed(text).len() > 0 {
        assert(trimmed(text)[0] == start[0]);
    }
}

/// Trimming a trimmed text changes nothing.
pub proof fn trimming_is_idempotent(text: Seq<char>)
    ensures
        trimmed(trimmed(text)) == trimmed(text),
{
    trimming_drops_only_outer_white_space(text);
}

/// A number written in decimal is read back as itself.
pub proof fn decimal_is_read_back(n: nat)
    ensures
        written_number(decimal(n)) == Some(n),
{
    lemma_decimal(n);
    assert(decimal(n)[0] != '+') by {
        assert(is_digit(decimal(n)[0]));
    }
}

pub(crate) proof fn lemma_decimal(n: nat)
    ensures
        decimal(n).len() > 0,
        forall|i: int| 0 <= i < decimal(n).len() ==> is_digit(#[trigger] decimal(n)[i]),
        digits_value(decimal(n)) == n,
    decreases n,
{
    if n < 10 {
        assert(decimal(n).drop_last() =~= Seq::<char>::empty());
        reveal_with_fuel(digits_value, 2);
    } else {
        lemma_decimal(n / 10);
        assert(decimal(n).drop_last() =~= decimal(n / 10));
    }
}

/// No text comes before itself.
pub proof fn text_order_is_irreflexive(text: Seq<char>)
    ensures
        !text_less(text, text),
    decreases text.len(),
{
    if text.len() > 0 {
        text_order_is_irreflexive(text.drop_first());
    }
}

/// The order of texts is transitive.
pub proof fn text_order_is_transitive(a: Seq<char>, b: Seq<char>, c: Seq<char>)
    requires
        text_less(a, b),
        text_less(b, c),
    ensures
        text_less(a, c),
    decreases a.len(),
{
    if a.len() > 0 && b.len() > 0 && c.len() > 0 && a[0] == b[0] && b[0] == c[0] {
        text_order_is_transitive(a.drop_first(), b.drop_first(), c.drop_first());
    }
}

/// Of two different texts one comes before the other.
pub proof fn text_order_is_total(a: Seq<char>, b: Seq<char>)
    ensures
        a == b || text_less(a, b) || text_less(b, a),
    decreases a.len(),
{
    if a.len() > 0 && b.len() > 0 && a[0] == b[0] {
        text_order_is_total(a.drop_first(), b.drop_first());
        if a.drop_first() == b.drop_first() {
            assert(a =~= seq![a[0]] + a.drop_first());
            assert(b =~= seq![b[0]] + b.drop_first());
        }
    } else if a.len() == 0 && b.len() == 0 {
        assert(a =~= b);
    }
}

/// The white space characters.
pub proof fn these_are_white_space(c: char)
    ensures
        is_white_space(c) <==> {
            ||| '\t' <= c <= '\r'
            ||| c == ' '
            ||| c == '\u{85}'
            ||| c == '\u{a0}'
            ||| c == '\u{1680}'
            ||| '\u{2000}' <= c <= '\u{200a}'
            ||| c == '\u{2028}'
            ||| c == '\u{2029}'
            ||| c == '\u{202f}'
            ||| c == '\u{205f}'
            ||| c == '\u{3000}'
        },
{
}

/// The ten digits.
pub proof fn these_are_digits(c: char)
    ensures
        is_digit(c) <==> '0' <= c <= '9',
{
}

/// A number is written with its last digit behind the rest of it.
pub proof fn numbers_are_written_digit_by_digit(n: nat)
    ensures
        decimal(n).len() > 0,
        decimal(n)[decimal(n).len() - 1] as u32 == 0x30 + n % 10,
        n < 10 ==> decimal(n).len() == 1,
        n >= 10 ==> decimal(n).take(decimal(n).len() - 1) == decimal(n / 10),
{
    if n >= 10 {
        assert(decimal(n).take(decimal(n).len() - 1) =~= decimal(n / 10));
    }
}

/// Different numbers are written differently.
pub proof fn different_numbers_are_written_differently(a: nat, b: nat)
    ensures
        decimal(a) == decimal(b) <==> a == b,
{
    decimal_is_read_back(a);
    decimal_is_read_back(b);
}

/// A text is read as a number digit by digit. A plus sign in front makes no difference, and without
/// a digit, or with anything else, it is no number.
pub proof fn numbers_are_read_digit_by_digit(digits: Seq<char>, last: char, at: int)
    ensures
        written_number(Seq::empty()) is None,
        written_number(seq!['+']) is None,
        '0' <= last <= '9' ==> written_number(seq![last]) == Some((last as u32 - 0x30) as nat),
        digits.len() > 0 && (forall|i: int| 0 <= i < digits.len() ==> '0' <= #[trigger] digits[i]
            <= '9') && '0' <= last <= '9' ==> {
            &&& written_number(digits) matches Some(value)
            &&& written_number(digits.push(last)) == Some(
                (value * 10 + (last as u32 - 0x30)) as nat,
            )
            &&& written_number(seq!['+'] + digits) == Some(value)
        },
        0 <= at < digits.len() && !('0' <= digits[at] <= '9') && !(at == 0 && digits[at] == '+')
            ==> written_number(digits) is None,
{
    reveal_with_fuel(digits_value, 2);
    assert(seq!['+'].drop_first() =~= Seq::<char>::empty());
    assert(seq![last].drop_last() =~= Seq::<char>::empty());
    assert(seq![last][0] == last);
    if 0 <= at < digits.len() && !('0' <= digits[at] <= '9') && !(at == 0 && digits[at] == '+') {
        let rest = without_plus(digits);
        let place = if digits[0] == '+' {
            at - 1
        } else {
            at
        };
        assert(rest[place] == digits[at]);
        these_are_digits(rest[place]);
        assert(!all_digits(rest));
    }
    if digits.len() > 0 && (forall|i: int|
        0 <= i < digits.len() ==> '0' <= #[trigger] digits[i] <= '9') && '0' <= last <= '9' {
        assert('0' <= digits[0] <= '9');
        assert(all_digits(digits));
        let more = digits.push(last);
        assert(more.drop_last() =~= digits);
        assert(more[0] == digits[0]);
        assert(all_digits(more)) by {
            assert forall|i: int| 0 <= i < more.len() implies is_digit(#[trigger] more[i]) by {
                if i < digits.len() {
                    assert(more[i] == digits[i]);
                }
            }
        }
        assert((seq!['+'] + digits).drop_first() =~= digits);
    }
}

/// Texts are ordered by the first character in which they differ, and a text that goes on comes
/// after its start.
pub proof fn texts_are_ordered_by_their_first_difference(a: Seq<char>, b: Seq<char>, at: int)
    requires
        0 <= at <= a.len(),
        at <= b.len(),
        forall|i: int| 0 <= i < at ==> #[trigger] a[i] == b[i],
    ensures
        at == a.len() && at < b.len() ==> text_less(a, b),
        at == b.len() ==> !text_less(a, b),
        at < a.len() && at < b.len() && a[at] != b[at] ==> (text_less(a, b) <==> a[at] < b[at]),
    decreases at,
{
    if at > 0 {
        assert(a[0] == b[0]);
        assert forall|i: int| 0 <= i < at - 1 implies #[trigger] a.drop_first()[i]
            == b.drop_first()[i] by {
            assert(a.drop_first()[i] == a[i + 1]);
            assert(a[i + 1] == b[i + 1]);
        }
        texts_are_ordered_by_their_first_difference(a.drop_first(), b.drop_first(), at - 1);
        if at < a.len() && at < b.len() {
            assert(a.drop_first()[at - 1] == a[at]);
            assert(b.drop_first()[at - 1] == b[at]);
        }
    }
}

/// Lists and options of strings are seen as the texts of their strings.
pub proof fn strings_are_seen_as_their_texts(strings: Seq<String>, string: String, i: int)
    ensures
        texts(strings).len() == strings.len(),
        0 <= i < strings.len() ==> texts(strings)[i] == strings[i]@,
        optional_text(Some(string)) == Some(string@),
        optional_text(None) is None,
{
}

} // verus!
