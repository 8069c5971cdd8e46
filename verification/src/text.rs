//! Text: the characters of a string, its bytes, and the few operations on it
//! that the rest of the crate is built from.
use vstd::prelude::*;
use vstd::utf8::encode_utf8;

verus! {

/// The UTF-8 bytes of a text.
pub open spec fn bytes_of(s: Seq<char>) -> Seq<u8> {
    encode_utf8(s)
}

/// The characters with the Unicode `White_Space` property.
pub open spec fn whitespace(c: char) -> bool {
    let v = c as u32;
    ||| 0x9 <= v <= 0xd
    ||| v == 0x20
    ||| v == 0x85
    ||| v == 0xa0
    ||| v == 0x1680
    ||| 0x2000 <= v <= 0x200a
    ||| v == 0x2028
    ||| v == 0x2029
    ||| v == 0x202f
    ||| v == 0x205f
    ||| v == 0x3000
}

/// A text without the whitespace that it starts with.
pub open spec fn without_leading(s: Seq<char>) -> Seq<char>
    decreases s.len(),
{
    if s.len() > 0 && whitespace(s.first()) {
        without_leading(s.drop_first())
    } else {
        s
    }
}

/// A text without the whitespace that it ends with.
pub open spec fn without_trailing(s: Seq<char>) -> Seq<char>
    decreases s.len(),
{
    if s.len() > 0 && whitespace(s.last()) {
        without_trailing(s.drop_last())
    } else {
        s
    }
}

/// A text without the whitespace around it.
pub open spec fn trimmed(s: Seq<char>) -> Seq<char> {
    without_trailing(without_leading(s))
}

/// A text with nothing but whitespace in it.
pub open spec fn blank(s: Seq<char>) -> bool {
    trimmed(s).len() == 0
}

/// `str::eq`: two strings are equal exactly when they hold the same
/// characters.
#[verifier::external_body]
pub(crate) fn same(a: &str, b: &str) -> (r: bool)
    ensures
        r == (a@ == b@),
{
    a == b
}

/// `str::trim`: the text without its leading and trailing whitespace, where
/// whitespace is the Unicode property `White_Space`.
#[verifier::external_body]
pub(crate) fn trim(s: &str) -> (r: &str)
    ensures
        r@ == trimmed(s@),
{
    s.trim()
}

/// `str::starts_with` on a string pattern.
#[verifier::external_body]
pub(crate) fn starts_with(s: &str, prefix: &str) -> (r: bool)
    ensures
        r == prefix@.is_prefix_of(s@),
{
    s.starts_with(prefix)
}

/// A text occurs somewhere in another.
pub open spec fn has_text(s: Seq<char>, part: Seq<char>) -> bool {
    exists|i: int|
        0 <= i <= s.len() - part.len() && #[trigger] s.subrange(i, i + part.len()) == part
}

/// `str::contains` on a string pattern.
#[verifier::external_body]
pub(crate) fn contains_text(s: &str, part: &str) -> (r: bool)
    ensures
        r == has_text(s@, part@),
{
    s.contains(part)
}

/// `str::strip_prefix` on a string pattern: what follows the prefix, if the
/// text starts with it.
#[verifier::external_body]
pub(crate) fn strip_prefix<'a>(s: &'a str, prefix: &str) -> (r: Option<&'a str>)
    ensures
        match r {
            Some(rest) => s@ == prefix@ + rest@,
            None => !prefix@.is_prefix_of(s@),
        },
{
    s.strip_prefix(prefix)
}

/// `str::strip_suffix` on a string pattern: what precedes the suffix, if the
/// text ends with it.
#[verifier::external_body]
pub(crate) fn strip_suffix<'a>(s: &'a str, suffix: &str) -> (r: Option<&'a str>)
    ensures
        match r {
            Some(rest) => s@ == rest@ + suffix@,
            None => !suffix@.is_suffix_of(s@),
        },
{
    s.strip_suffix(suffix)
}

/// `str::rsplit_once` on a character: the texts around its last occurrence.
#[verifier::external_body]
pub(crate) fn rsplit_once(s: &str, delimiter: char) -> (r: Option<(&str, &str)>)
    ensures
        match r {
            Some((head, tail)) => s@ == head@.push(delimiter) + tail@ && !tail@.contains(
                delimiter,
            ),
            None => !s@.contains(delimiter),
        },
{
    s.rsplit_once(delimiter)
}

/// `str::split_once` on a character: the texts around its first occurrence.
#[verifier::external_body]
pub(crate) fn split_once(s: &str, delimiter: char) -> (r: Option<(&str, &str)>)
    ensures
        match r {
            Some((head, tail)) => s@ == head@.push(delimiter) + tail@ && !head@.contains(
                delimiter,
            ),
            None => !s@.contains(delimiter),
        },
{
    s.split_once(delimiter)
}

/// Where a character occurs last in a text; -1 if it does not.
pub open spec fn last_position(s: Seq<char>, c: char) -> int
    decreases s.len(),
{
    if s.len() == 0 {
        -1
    } else if s.last() == c {
        s.len() - 1
    } else {
        last_position(s.drop_last(), c)
    }
}

/// The last occurrence is the one with none behind it.
pub proof fn lemma_last_position(s: Seq<char>, head: Seq<char>, tail: Seq<char>, c: char)
    requires
        s == head.push(c) + tail,
        !tail.contains(c),
    ensures
        s.contains(c),
        last_position(s, c) == head.len(),
        s.take(head.len() as int) == head,
        s.skip(head.len() as int + 1) == tail,
    decreases tail.len(),
{
    assert(s[head.len() as int] == c);
    assert(s.take(head.len() as int) =~= head);
    assert(s.skip(head.len() as int + 1) =~= tail);
    if tail.len() > 0 {
        assert(tail.contains(tail.last()));
        assert(s.drop_last() =~= head.push(c) + tail.drop_last());
        assert forall|i: int| 0 <= i < tail.drop_last().len() implies tail.drop_last()[i] != c by {
            assert(tail.contains(tail[i]));
        }
        lemma_last_position(s.drop_last(), head, tail.drop_last(), c);
    }
}

/// The number of bytes of a text.
pub(crate) fn byte_len(s: &str) -> (n: usize)
    ensures
        n == bytes_of(s@).len(),
{
    s.as_bytes().len()
}

/// Whether a text has nothing but whitespace in it.
pub(crate) fn is_blank(s: &str) -> (r: bool)
    ensures
        r == blank(s@),
{
    trim(s).is_empty()
}

/// An ASCII letter or digit.
pub open spec fn alphanumeric(b: u8) -> bool {
    ||| 0x61 <= b <= 0x7a
    ||| 0x41 <= b <= 0x5a
    ||| 0x30 <= b <= 0x39
}

pub(crate) fn is_alphanumeric(b: u8) -> (r: bool)
    ensures
        r == alphanumeric(b),
{
    (0x61 <= b && b <= 0x7a) || (0x41 <= b && b <= 0x5a) || (0x30 <= b && b <= 0x39)
}

/// Every byte of a text is a letter, a digit or one of `extra`.
pub open spec fn made_of(s: Seq<char>, extra: Seq<u8>) -> bool {
    forall|i: int|
        0 <= i < bytes_of(s).len() ==> alphanumeric(#[trigger] bytes_of(s)[i]) || extra.contains(
            bytes_of(s)[i],
        )
}

pub(crate) fn contains_byte(extra: &[u8], b: u8) -> (r: bool)
    ensures
        r == extra@.contains(b),
{
    let mut i: usize = 0;
    while i < extra.len()
        invariant
            i <= extra.len(),
            forall|j: int| 0 <= j < i ==> extra@[j] != b,
        decreases extra.len() - i,
    {
        if extra[i] == b {
            return true;
        }
        i += 1;
    }
    false
}

pub(crate) fn is_made_of(s: &str, extra: &[u8]) -> (r: bool)
    ensures
        r == made_of(s@, extra@),
{
    let bytes = s.as_bytes();
    let mut i: usize = 0;
    while i < bytes.len()
        invariant
            i <= bytes.len(),
            bytes@ == bytes_of(s@),
            forall|j: int|
                0 <= j < i ==> alphanumeric(#[trigger] bytes@[j]) || extra@.contains(bytes@[j]),
        decreases bytes.len() - i,
    {
        if !is_alphanumeric(bytes[i]) && !contains_byte(extra, bytes[i]) {
            assert(!(alphanumeric(bytes_of(s@)[i as int]) || extra@.contains(
                bytes_of(s@)[i as int],
            )));
            return false;
        }
        i += 1;
    }
    true
}

/// Whether some text of the list reads `s`.
pub open spec fn listed(list: Seq<String>, s: Seq<char>) -> bool {
    exists|i: int| 0 <= i < list.len() && #[trigger] list[i]@ == s
}

pub(crate) fn is_listed(list: &Vec<String>, s: &str) -> (r: bool)
    ensures
        r == listed(list@, s@),
{
    let mut i: usize = 0;
    while i < list.len()
        invariant
            i <= list.len(),
            forall|j: int| 0 <= j < i ==> #[trigger] list@[j]@ != s@,
        decreases list.len() - i,
    {
        if same(list[i].as_str(), s) {
            return true;
        }
        i += 1;
    }
    false
}

/// Two optional texts that are both missing or read the same.
pub open spec fn same_option_view(a: Option<String>, b: Option<String>) -> bool {
    match (a, b) {
        (Some(x), Some(y)) => x@ == y@,
        (None, None) => true,
        _ => false,
    }
}

pub(crate) fn same_option(a: &Option<String>, b: &Option<String>) -> (r: bool)
    ensures
        r == same_option_view(*a, *b),
{
    match (a, b) {
        (Some(x), Some(y)) => same(x.as_str(), y.as_str()),
        (None, None) => true,
        _ => false,
    }
}

pub(crate) fn copy_texts(list: &Vec<String>) -> (r: Vec<String>)
    ensures
        r@ == list@,
{
    let mut out: Vec<String> = Vec::new();
    let mut i: usize = 0;
    while i < list.len()
        invariant
            i <= list.len(),
            out@ == list@.take(i as int),
        decreases list.len() - i,
    {
        out.push(list[i].clone());
        assert(list@.take(i as int + 1) == list@.take(i as int).push(list@[i as int]));
        i += 1;
    }
    assert(list@.take(list@.len() as int) == list@);
    out
}

pub(crate) fn copy_option(a: &Option<String>) -> (r: Option<String>)
    ensures
        r == *a,
{
    match a {
        Some(s) => Some(s.clone()),
        None => None,
    }
}

/// The value of a decimal digit.
pub open spec fn digit(c: char) -> bool {
    '0' <= c && c <= '9'
}

/// The number that a row of decimal digits stands for.
pub open spec fn digits_value(s: Seq<char>) -> nat
    decreases s.len(),
{
    if s.len() == 0 {
        0
    } else {
        digits_value(s.drop_last()) * 10 + (s.last() as u32 - '0' as u32) as nat
    }
}

pub open spec fn all_digits(s: Seq<char>) -> bool {
    s.len() > 0 && forall|i: int| 0 <= i < s.len() ==> digit(#[trigger] s[i])
}

/// What a text reads as an unsigned decimal number with an optional plus sign.
pub open spec fn unsigned_value(s: Seq<char>) -> Option<nat> {
    if all_digits(s) {
        Some(digits_value(s))
    } else if s.len() > 0 && s.first() == '+' && all_digits(s.drop_first()) {
        Some(digits_value(s.drop_first()))
    } else {
        None
    }
}

/// What a text reads as a decimal number with an optional sign.
pub open spec fn signed_value(s: Seq<char>) -> Option<int> {
    if s.len() > 0 && s.first() == '-' {
        if all_digits(s.drop_first()) {
            Some(-(digits_value(s.drop_first()) as int))
        } else {
            None
        }
    } else {
        match unsigned_value(s) {
            Some(n) => Some(n as int),
            None => None,
        }
    }
}

/// `str::parse::<u64>`: decimal digits with an optional plus sign, if the
/// number fits.
#[verifier::external_body]
pub(crate) fn parse_u64(s: &str) -> (r: Option<u64>)
    ensures
        match unsigned_value(s@) {
            Some(n) if n <= u64::MAX => r == Some(n as u64),
            _ => r is None,
        },
{
    s.parse::<u64>().ok()
}

/// `str::parse::<i64>`: decimal digits with an optional sign, if the number
/// fits.
#[verifier::external_body]
pub(crate) fn parse_i64(s: &str) -> (r: Option<i64>)
    ensures
        match signed_value(s@) {
            Some(n) if i64::MIN <= n <= i64::MAX => r == Some(n as i64),
            _ => r is None,
        },
{
    s.parse::<i64>().ok()
}

/// The decimal text of a natural number.
pub open spec fn nat_text(n: nat) -> Seq<char>
    decreases n,
{
    if n < 10 {
        seq![(n + 48) as char]
    } else {
        nat_text(n / 10).push((n % 10 + 48) as char)
    }
}

/// The decimal text of an integer.
pub open spec fn int_text(n: int) -> Seq<char> {
    if n < 0 {
        seq!['-'] + nat_text((-n) as nat)
    } else {
        nat_text(n as nat)
    }
}

/// `i64::to_string`: the decimal text, with a minus sign before a negative
/// number.
#[verifier::external_body]
pub(crate) fn decimal(n: i64) -> (r: String)
    ensures
        r@ == int_text(n as int),
{
    n.to_string()
}

/// `u64::to_string`: the decimal text.
#[verifier::external_body]
pub(crate) fn unsigned_decimal(n: u64) -> (r: String)
    ensures
        r@ == nat_text(n as nat),
{
    n.to_string()
}

/// `str::to_ascii_lowercase`: the text with its ASCII letters in lower case,
/// everything else as it is.
#[verifier::external_body]
pub(crate) fn lowercase(s: &str) -> (r: String)
    ensures
        r@ == crate::headers::lowered(s@),
{
    s.to_ascii_lowercase()
}

/// A text without the slashes that it ends with.
pub open spec fn without_slashes(s: Seq<char>) -> Seq<char>
    decreases s.len(),
{
    if s.len() > 0 && s.last() == '/' {
        without_slashes(s.drop_last())
    } else {
        s
    }
}

/// `str::trim_end_matches` of a slash: the text without the slashes at its
/// end.
#[verifier::external_body]
pub(crate) fn trim_slashes(s: &str) -> (r: &str)
    ensures
        r@ == without_slashes(s@),
{
    s.trim_end_matches('/')
}

/// Two texts, one after the other.
pub(crate) fn join(a: &str, b: &str) -> (r: String)
    ensures
        r@ == a@ + b@,
{
    let mut out = a.to_owned();
    out.append(b);
    out
}

/// A number that was written down reads back as itself.
pub proof fn law_numbers_read_back(n: nat)
    ensures
        all_digits(nat_text(n)),
        unsigned_value(nat_text(n)) == Some(n),
        int_text(n as int) == nat_text(n),
    decreases n,
{
    if n >= 10 {
        law_numbers_read_back(n / 10);
        let head = nat_text(n / 10);
        let text = nat_text(n);
        assert(text.drop_last() =~= head);
        assert forall|i: int| 0 <= i < text.len() implies digit(#[trigger] text[i]) by {
            if i < head.len() {
                assert(text[i] == head[i]);
            }
        }
        assert(digits_value(text) == digits_value(head) * 10 + n % 10);
    } else {
        let text = nat_text(n);
        assert(text.drop_last() =~= Seq::<char>::empty());
        assert(digits_value(text.drop_last()) == 0);
    }
}

/// A signed number reads back as itself too.
pub proof fn law_signed_numbers_read_back(n: int)
    ensures
        signed_value(int_text(n)) == Some(n),
{
    if n < 0 {
        law_numbers_read_back((-n) as nat);
        assert(int_text(n).drop_first() =~= nat_text((-n) as nat));
    } else {
        law_numbers_read_back(n as nat);
        assert(digit(nat_text(n as nat)[0]));
    }
}

/// A text is blank exactly if there is nothing but space in it.
pub proof fn law_blank_texts_are_space(s: Seq<char>)
    ensures
        blank(s) <==> forall|i: int| 0 <= i < s.len() ==> whitespace(#[trigger] s[i]),
        trimmed(s).len() <= s.len(),
    decreases s.len(),
{
    if s.len() > 0 {
        if whitespace(s.first()) {
            let rest = s.drop_first();
            law_blank_texts_are_space(rest);
            assert(trimmed(s) == trimmed(rest));
            assert(s[0] == s.first());
            assert forall|i: int| 0 <= i < rest.len() implies rest[i] == s[i + 1] by {}
            if blank(s) {
                assert forall|i: int| 0 <= i < s.len() implies whitespace(#[trigger] s[i]) by {
                    if i > 0 {
                        assert(s[i] == rest[i - 1]);
                    }
                }
            }
            if forall|i: int| 0 <= i < s.len() ==> whitespace(#[trigger] s[i]) {
                assert forall|i: int| 0 <= i < rest.len() implies whitespace(#[trigger] rest[i]) by {
                    assert(whitespace(s[i + 1]));
                }
            }
        } else {
            assert(!whitespace(s[0]));
            lemma_trailing_keeps_text(s);
        }
    }
}

/// A text that starts with something other than space keeps its start when trailing space goes.
proof fn lemma_trailing_keeps_text(s: Seq<char>)
    requires
        s.len() > 0,
        !whitespace(s.first()),
    ensures
        0 < without_trailing(s).len() <= s.len(),
        without_trailing(s).first() == s.first(),
    decreases s.len(),
{
    if whitespace(s.last()) {
        assert(s.drop_last().first() == s.first());
        lemma_trailing_keeps_text(s.drop_last());
    }
}

/// What a text is made of stays what its parts are made of: nothing outside letters, digits and
/// the extra bytes is let in.
pub proof fn law_plain_texts_hold_letters_digits_and_no_more(s: Seq<char>, extra: Seq<u8>, i: int)
    requires
        made_of(s, extra),
        0 <= i < bytes_of(s).len(),
    ensures
        ({
            let b = bytes_of(s)[i];
            ||| 'a' as u8 <= b <= 'z' as u8
            ||| 'A' as u8 <= b <= 'Z' as u8
            ||| '0' as u8 <= b <= '9' as u8
            ||| extra.contains(b)
        }),
{
}

} // verus!
