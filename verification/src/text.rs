//! Character-level building blocks shared by the codecs and the detection rules.
//!
//! Text is modelled as a sequence of Unicode scalar values. Lengths that the
//! rules measure in bytes are lengths of the UTF-8 encoding of that sequence.

use vstd::prelude::*;
use vstd::utf8::{decode_utf8, encode_utf8, is_ascii_chars, valid_utf8};

verus! {

/// The code points that carry the Unicode `White_Space` property.
pub open spec fn is_white_space(c: char) -> bool {
    let v = c as u32;
    ||| 0x09 <= v <= 0x0D
    ||| v == 0x20
    ||| v == 0x85
    ||| v == 0xA0
    ||| v == 0x1680
    ||| 0x2000 <= v <= 0x200A
    ||| v == 0x2028
    ||| v == 0x2029
    ||| v == 0x202F
    ||| v == 0x205F
    ||| v == 0x3000
}

/// `s` with every whitespace character removed.
pub open spec fn without_whitespace(s: Seq<char>) -> Seq<char> {
    s.filter(|c: char| !is_white_space(c))
}

/// `s` without its leading whitespace.
pub open spec fn trimmed_start(s: Seq<char>) -> Seq<char>
    decreases s.len(),
{
    if s.len() > 0 && is_white_space(s.first()) {
        trimmed_start(s.drop_first())
    } else {
        s
    }
}

/// `s` without its trailing whitespace.
pub open spec fn trimmed_end(s: Seq<char>) -> Seq<char>
    decreases s.len(),
{
    if s.len() > 0 && is_white_space(s.last()) {
        trimmed_end(s.drop_last())
    } else {
        s
    }
}

/// `s` without leading and trailing whitespace.
pub open spec fn trimmed(s: Seq<char>) -> Seq<char> {
    trimmed_end(trimmed_start(s))
}

/// Number of bytes in the UTF-8 encoding of `s`.
pub open spec fn utf8_len(s: Seq<char>) -> nat {
    encode_utf8(s).len()
}

/// Number of bytes in the UTF-8 encoding of `c`.
pub open spec fn char_width(c: char) -> nat {
    if (c as u32) < 0x80 {
        1
    } else if (c as u32) < 0x800 {
        2
    } else if (c as u32) < 0x10000 {
        3
    } else {
        4
    }
}

/// Number of characters at the start of `s` that fit, whole, in `max` bytes
/// of UTF-8.
pub open spec fn kept_count(s: Seq<char>, max: nat) -> nat
    decreases s.len(),
{
    if s.len() == 0 || char_width(s.first()) > max {
        0
    } else {
        1 + kept_count(s.drop_first(), (max - char_width(s.first())) as nat)
    }
}

/// `s` shortened for display: itself if it has at most `max` bytes, else
/// its longest run of whole leading characters within `max` bytes, followed
/// by three dots.
pub open spec fn shortened(s: Seq<char>, max: nat) -> Seq<char> {
    if utf8_len(s) <= max {
        s
    } else {
        s.take(kept_count(s, max) as int) + "..."@
    }
}

/// `0`-`9`, `a`-`f` or `A`-`F`.
pub open spec fn is_hex_digit(c: char) -> bool {
    ('0' <= c <= '9') || ('a' <= c <= 'f') || ('A' <= c <= 'F')
}

/// `a`-`z` or `A`-`Z`.
pub open spec fn is_ascii_letter(c: char) -> bool {
    ('a' <= c <= 'z') || ('A' <= c <= 'Z')
}

/// `0`-`9`.
pub open spec fn is_ascii_decimal(c: char) -> bool {
    '0' <= c <= '9'
}

/// Whether `s` begins with the characters of `prefix`.
pub open spec fn starts_with(s: Seq<char>, prefix: Seq<char>) -> bool {
    prefix.len() <= s.len() && s.take(prefix.len() as int) == prefix
}

/// Whether `part` stands somewhere in `s`.
pub open spec fn holds(s: Seq<char>, part: Seq<char>) -> bool {
    exists|i: int| 0 <= i <= s.len() - part.len() && #[trigger] s.subrange(i, i + part.len()) == part
}

/// Whether `s` begins with `0x` or `0X`.
pub open spec fn has_hex_prefix(s: Seq<char>) -> bool {
    s.len() >= 2 && s[0] == '0' && (s[1] == 'x' || s[1] == 'X')
}

/// Whether `s` begins with `<~` and ends with `~>`.
///
/// The two marks may share the `~` of a three-character text such as `<~>`.
pub open spec fn is_ascii85_framed(s: Seq<char>) -> bool {
    s.len() >= 2 && s[0] == '<' && s[1] == '~' && s[s.len() - 2] == '~' && s[s.len() - 1] == '>'
}

/// Whether a `%` followed by two hexadecimal digits stands at index `i` of `s`.
pub open spec fn is_percent_escape_at(s: Seq<char>, i: int) -> bool {
    0 <= i && i + 2 < s.len() && s[i] == '%' && is_hex_digit(s[i + 1]) && is_hex_digit(s[i + 2])
}

/// Whether `s` holds a `%` followed by two hexadecimal digits.
pub open spec fn has_percent_escape(s: Seq<char>) -> bool {
    exists|i: int| is_percent_escape_at(s, i)
}

/// Number of `=` signs that bring a text of `len` bytes to a multiple of `block`.
pub open spec fn padding_needed(len: nat, block: nat) -> nat {
    if block == 0 || len % block == 0 {
        0
    } else {
        (block - len % block) as nat
    }
}

/// `s` followed by the `=` signs that bring its UTF-8 length to a multiple of `block`.
pub open spec fn padded(s: Seq<char>, block: nat) -> Seq<char> {
    s + Seq::new(padding_needed(utf8_len(s), block), |i: int| '=')
}

/// Decimal digits of `n`, most significant first.
pub open spec fn decimal(n: nat) -> Seq<char>
    decreases n,
{
    if n < 10 {
        seq![decimal_digit(n)]
    } else {
        decimal(n / 10).push(decimal_digit(n % 10))
    }
}

/// The digit character for a value below ten.
pub open spec fn decimal_digit(d: nat) -> char {
    ('0' as u8 + d % 10) as char
}

/// The lowercase hexadecimal digit for a value below sixteen.
pub open spec fn hex_lower_digit(d: nat) -> char {
    if d % 16 < 10 {
        ('0' as u8 + d % 16) as char
    } else {
        ('a' as u8 + (d % 16 - 10)) as char
    }
}

/// Two lowercase hexadecimal digits for each byte of `bytes`.
pub open spec fn hex_lower(bytes: Seq<u8>) -> Seq<char>
    decreases bytes.len(),
{
    if bytes.len() == 0 {
        Seq::empty()
    } else {
        hex_lower(bytes.drop_last()).push(hex_lower_digit(bytes.last() as nat / 16)).push(
            hex_lower_digit(bytes.last() as nat % 16),
        )
    }
}

/// The uppercase mapping that Unicode gives a character outside ASCII: one
/// character or several. It is what `char::to_uppercase` yields.
pub uninterp spec fn unicode_uppercase(c: char) -> Seq<char>;

/// Whether Unicode counts a character outside ASCII as alphabetic or
/// numeric. It is what `char::is_alphanumeric` answers.
pub uninterp spec fn unicode_alphanumeric(c: char) -> bool;

/// Whether `c` is a letter or a digit: for ASCII `a`-`z`, `A`-`Z` and
/// `0`-`9`, for any other character what Unicode says of it.
pub open spec fn is_alphanumeric(c: char) -> bool {
    if (c as u32) < 128 {
        is_ascii_letter(c) || is_ascii_decimal(c)
    } else {
        unicode_alphanumeric(c)
    }
}

/// How the standard library describes what is wrong with `bytes` as UTF-8:
/// where the first ill-formed sequence stands and how long it is.
pub uninterp spec fn utf8_fault(bytes: Seq<u8>) -> Seq<char>;

/// `c` with `a`-`z` turned into `A`-`Z`.
pub open spec fn ascii_uppercase(c: char) -> char {
    if 'a' <= c <= 'z' {
        ((c as u8) - 32) as char
    } else {
        c
    }
}

/// The uppercase form of one character: for ASCII the letter's capital, for
/// any other character its Unicode uppercase mapping.
pub open spec fn upper(c: char) -> Seq<char> {
    if (c as u32) < 128 {
        seq![ascii_uppercase(c)]
    } else {
        unicode_uppercase(c)
    }
}

/// `s` with each character replaced by its uppercase form.
pub open spec fn uppercased(s: Seq<char>) -> Seq<char>
    decreases s.len(),
{
    if s.len() == 0 {
        Seq::empty()
    } else {
        uppercased(s.drop_last()) + upper(s.last())
    }
}

/// The characters kept are characters of the text.
pub proof fn lemma_kept_count_bound(s: Seq<char>, max: nat)
    ensures
        kept_count(s, max) <= s.len(),
    decreases s.len(),
{
    if s.len() > 0 && char_width(s.first()) <= max {
        lemma_kept_count_bound(s.drop_first(), (max - char_width(s.first())) as nat);
    }
}

/// The characters kept take no more than the bytes allowed, and the next
/// character, if there is one, would not fit beside them.
pub proof fn lemma_kept_count_fits(s: Seq<char>, max: nat)
    ensures
        kept_count(s, max) <= s.len(),
        utf8_len(s.take(kept_count(s, max) as int)) <= max,
        kept_count(s, max) < s.len() ==> utf8_len(s.take(kept_count(s, max) as int + 1)) > max,
    decreases s.len(),
{
    lemma_kept_count_bound(s, max);
    if s.len() > 0 {
        let c = s.first();
        let rest = s.drop_first();
        lemma_first_width(s.take(1));
        if char_width(c) <= max {
            let left = (max - char_width(c)) as nat;
            let k = kept_count(rest, left) as int;
            lemma_kept_count_fits(rest, left);
            assert(s.take(k + 1).first() == c);
            assert(s.take(k + 1).drop_first() =~= rest.take(k));
            lemma_first_width(s.take(k + 1));
            if k < rest.len() {
                assert(s.take(k + 2).first() == c);
                assert(s.take(k + 2).drop_first() =~= rest.take(k + 1));
                lemma_first_width(s.take(k + 2));
            }
        } else {
            assert(s.take(0) =~= Seq::<char>::empty());
            assert(s.take(1).drop_first() =~= Seq::<char>::empty());
        }
    } else {
        assert(s.take(0) =~= s);
    }
}

/// A text takes the bytes of its first character and those of the rest.
pub proof fn lemma_first_width(s: Seq<char>)
    requires
        s.len() > 0,
    ensures
        utf8_len(s) == char_width(s.first()) + utf8_len(s.drop_first()),
{
    let c = s.first();
    assert(s[0] == c);
    vstd::utf8::char_is_scalar(c);
    assert(vstd::utf8::encode_scalar(c as u32).len() == char_width(c));
}

pub proof fn lemma_without_whitespace_push(s: Seq<char>, c: char)
    ensures
        without_whitespace(s.push(c)) == if is_white_space(c) {
            without_whitespace(s)
        } else {
            without_whitespace(s).push(c)
        },
{
    reveal(Seq::filter);
    assert(s.push(c).drop_last() =~= s);
}

/// Removing whitespace keeps the characters that are no whitespace, and only those.
pub proof fn lemma_without_whitespace_clean(s: Seq<char>)
    ensures
        forall|i: int|
            0 <= i < without_whitespace(s).len() ==> !is_white_space(
                #[trigger] without_whitespace(s)[i],
            ),
        without_whitespace(s).len() <= s.len(),
        (forall|i: int| 0 <= i < s.len() ==> !is_white_space(#[trigger] s[i]))
            ==> without_whitespace(s) == s,
    decreases s.len(),
{
    reveal(Seq::filter);
    if s.len() > 0 {
        lemma_without_whitespace_clean(s.drop_last());
        if forall|i: int| 0 <= i < s.len() ==> !is_white_space(#[trigger] s[i]) {
            assert forall|i: int| 0 <= i < s.drop_last().len() implies !is_white_space(
                #[trigger] s.drop_last()[i],
            ) by {
                assert(s.drop_last()[i] == s[i]);
            }
            assert(s.drop_last().push(s.last()) =~= s);
        }
    }
}

pub proof fn lemma_trimmed_start(s: Seq<char>, k: int)
    requires
        0 <= k <= s.len(),
        forall|i: int| 0 <= i < k ==> is_white_space(#[trigger] s[i]),
        k == s.len() || !is_white_space(s[k]),
    ensures
        trimmed_start(s) == s.skip(k),
    decreases k,
{
    if k == 0 {
        assert(s.skip(0) =~= s);
    } else {
        let t = s.drop_first();
        assert(is_white_space(s[0]));
        assert forall|i: int| 0 <= i < k - 1 implies is_white_space(#[trigger] t[i]) by {
            assert(t[i] == s[i + 1]);
        }
        lemma_trimmed_start(t, k - 1);
        assert(t.skip(k - 1) =~= s.skip(k));
    }
}

pub proof fn lemma_trimmed_end(s: Seq<char>, k: int)
    requires
        0 <= k <= s.len(),
        forall|i: int| k <= i < s.len() ==> is_white_space(#[trigger] s[i]),
        k == 0 || !is_white_space(s[k - 1]),
    ensures
        trimmed_end(s) == s.take(k),
    decreases s.len() - k,
{
    if k == s.len() {
        assert(s.take(k) =~= s);
    } else {
        let t = s.drop_last();
        assert(is_white_space(s[s.len() - 1]));
        assert forall|i: int| k <= i < t.len() implies is_white_space(#[trigger] t[i]) by {
            assert(t[i] == s[i]);
        }
        lemma_trimmed_end(t, k);
        assert(t.take(k) =~= s.take(k));
    }
}

/// A text of ASCII characters takes one byte for each character.
pub proof fn lemma_ascii_utf8_len(s: Seq<char>)
    requires
        is_ascii_chars(s),
    ensures
        utf8_len(s) == s.len(),
{
    vstd::utf8::is_ascii_chars_encode_utf8(s);
}

/// Tells whether `c` is Unicode whitespace.
pub fn is_whitespace(c: char) -> (b: bool)
    ensures
        b == is_white_space(c),
{
    let v: u32 = c as u32;
    (0x09 <= v && v <= 0x0D) || v == 0x20 || v == 0x85 || v == 0xA0 || v == 0x1680 || (0x2000 <= v
        && v <= 0x200A) || v == 0x2028 || v == 0x2029 || v == 0x202F || v == 0x205F || v == 0x3000
}

/// Tells whether `c` is a hexadecimal digit of either case.
pub fn is_hexdigit(c: char) -> (b: bool)
    ensures
        b == is_hex_digit(c),
{
    ('0' <= c && c <= '9') || ('a' <= c && c <= 'f') || ('A' <= c && c <= 'F')
}

/// The characters of `s`, in order.
pub fn chars_of(s: &str) -> (v: Vec<char>)
    ensures
        v@ == s@,
{
    let mut v: Vec<char> = Vec::new();
    for c in it: s.chars()
        invariant
            it.seq() == s@,
            v@ == it.seq().take(it.index() as int),
    {
        v.push(c);
    }
    v
}

/// Builds the string that holds `chars`, through `String::from_iter`, which
/// collects the characters it is given in their order.
#[verifier::external_body]
pub(crate) fn text_of(chars: &Vec<char>) -> (s: String)
    ensures
        s@ == chars@,
{
    String::from_iter(chars.iter())
}

/// Reads `bytes` as UTF-8 through `std::str::from_utf8`, which accepts exactly
/// the well-formed encodings and yields the text they encode. A fault is
/// handed on as the text that the standard library's error displays.
#[verifier::external_body]
pub(crate) fn utf8_text(bytes: &[u8]) -> (r: Result<String, String>)
    ensures
        match r {
            Ok(s) => valid_utf8(bytes@) && s@ == decode_utf8(bytes@),
            Err(reason) => !valid_utf8(bytes@) && reason@ == utf8_fault(bytes@),
        },
{
    match std::str::from_utf8(bytes) {
        Ok(s) => Ok(s.to_owned()),
        Err(e) => Err(e.to_string()),
    }
}

/// The Unicode uppercase mapping of `c`, from `char::to_uppercase`, which
/// yields the character's uppercase form as one or more characters.
#[verifier::external_body]
pub(crate) fn unicode_uppercase_of(c: char) -> (out: Vec<char>)
    ensures
        out@ == unicode_uppercase(c),
{
    c.to_uppercase().collect()
}

/// `char::is_alphanumeric`, which tells whether Unicode counts the character
/// as alphabetic or numeric.
#[verifier::external_body]
pub(crate) fn unicode_is_alphanumeric(c: char) -> (b: bool)
    ensures
        b == unicode_alphanumeric(c),
{
    c.is_alphanumeric()
}

/// Tells whether `c` is a letter or a digit.
pub fn is_letter_or_digit(c: char) -> (b: bool)
    ensures
        b == is_alphanumeric(c),
{
    if (c as u32) < 128 {
        ('a' <= c && c <= 'z') || ('A' <= c && c <= 'Z') || ('0' <= c && c <= '9')
    } else {
        unicode_is_alphanumeric(c)
    }
}

/// Copies `chars` with each character replaced by its uppercase form.
pub fn uppercase_of(chars: &Vec<char>) -> (out: Vec<char>)
    ensures
        out@ == uppercased(chars@),
{
    let mut out: Vec<char> = Vec::new();
    let mut i: usize = 0;
    proof {
        assert(chars@.take(0) =~= Seq::<char>::empty());
    }
    while i < chars.len()
        invariant
            i <= chars.len(),
            out@ == uppercased(chars@.take(i as int)),
        decreases chars.len() - i,
    {
        let c = chars[i];
        proof {
            assert(chars@.take(i + 1).drop_last() =~= chars@.take(i as int));
        }
        if (c as u32) < 128 {
            if 'a' <= c && c <= 'z' {
                let folded: u8 = (c as u8) - 32;
                out.push(folded as char);
            } else {
                out.push(c);
            }
            proof {
                assert(out@ =~= uppercased(chars@.take(i as int)) + seq![ascii_uppercase(c)]);
            }
        } else {
            let mut mapped = unicode_uppercase_of(c);
            out.append(&mut mapped);
        }
        i += 1;
    }
    proof {
        assert(chars@.take(chars.len() as int) =~= chars@);
    }
    out
}

/// Copies `chars` without its whitespace.
pub fn strip_whitespace(chars: &Vec<char>) -> (out: Vec<char>)
    ensures
        out@ == without_whitespace(chars@),
{
    let mut out: Vec<char> = Vec::new();
    let mut i: usize = 0;
    proof {
        reveal(Seq::filter);
        assert(chars@.take(0) =~= Seq::<char>::empty());
    }
    while i < chars.len()
        invariant
            i <= chars.len(),
            out@ == without_whitespace(chars@.take(i as int)),
        decreases chars.len() - i,
    {
        let c = chars[i];
        proof {
            lemma_without_whitespace_push(chars@.take(i as int), c);
            assert(chars@.take(i as int).push(c) =~= chars@.take(i + 1));
        }
        if !is_whitespace(c) {
            out.push(c);
        }
        i += 1;
    }
    proof {
        assert(chars@.take(chars.len() as int) =~= chars@);
    }
    out
}

/// Copies `chars` from index `from` on.
pub fn skip_chars(chars: &Vec<char>, from: usize) -> (out: Vec<char>)
    requires
        from <= chars.len(),
    ensures
        out@ == chars@.skip(from as int),
{
    let mut out: Vec<char> = Vec::new();
    let mut i: usize = from;
    while i < chars.len()
        invariant
            from <= i <= chars.len(),
            out@ == chars@.subrange(from as int, i as int),
        decreases chars.len() - i,
    {
        out.push(chars[i]);
        assert(out@ =~= chars@.subrange(from as int, i + 1));
        i += 1;
    }
    assert(out@ =~= chars@.skip(from as int));
    out
}

/// Copies the first `count` characters of `chars`.
pub fn take_chars(chars: &Vec<char>, count: usize) -> (out: Vec<char>)
    requires
        count <= chars.len(),
    ensures
        out@ == chars@.take(count as int),
{
    let mut out: Vec<char> = Vec::new();
    let mut i: usize = 0;
    while i < count
        invariant
            i <= count <= chars.len(),
            out@ == chars@.take(i as int),
        decreases count - i,
    {
        out.push(chars[i]);
        assert(out@ =~= chars@.take(i + 1));
        i += 1;
    }
    out
}

/// Copies `chars` without its leading whitespace.
pub fn trim_start(chars: &Vec<char>) -> (out: Vec<char>)
    ensures
        out@ == trimmed_start(chars@),
{
    let mut start: usize = 0;
    while start < chars.len() && is_whitespace(chars[start])
        invariant
            start <= chars.len(),
            forall|i: int| 0 <= i < start ==> is_white_space(#[trigger] chars@[i]),
        decreases chars.len() - start,
    {
        start += 1;
    }
    proof {
        lemma_trimmed_start(chars@, start as int);
    }
    skip_chars(chars, start)
}

/// Copies `chars` without its trailing whitespace.
pub fn trim_end(chars: &Vec<char>) -> (out: Vec<char>)
    ensures
        out@ == trimmed_end(chars@),
{
    let mut end: usize = chars.len();
    while end > 0 && is_whitespace(chars[end - 1])
        invariant
            end <= chars.len(),
            forall|i: int| end <= i < chars.len() ==> is_white_space(#[trigger] chars@[i]),
        decreases end,
    {
        end -= 1;
    }
    proof {
        lemma_trimmed_end(chars@, end as int);
    }
    take_chars(chars, end)
}

/// Copies `chars` without its leading and trailing whitespace.
pub fn trim(chars: &Vec<char>) -> (out: Vec<char>)
    ensures
        out@ == trimmed(chars@),
{
    let start = trim_start(chars);
    trim_end(&start)
}

/// Appends to `chars` the `=` signs that bring its UTF-8 length to a multiple
/// of `block`; none where `block` is zero.
pub fn pad(chars: Vec<char>, block: usize) -> (out: Vec<char>)
    ensures
        out@ == padded(chars@, block as nat),
{
    let mut out = chars;
    if block == 0 {
        assert(out@ =~= padded(chars@, block as nat));
        return out;
    }
    let remainder: usize = utf8_length(&out) % block;
    if remainder != 0 {
        let missing: usize = block - remainder;
        let mut k: usize = 0;
        while k < missing
            invariant
                k <= missing,
                out@ == chars@ + Seq::new(k as nat, |i: int| '='),
            decreases missing - k,
        {
            out.push('=');
            k += 1;
            assert(out@ =~= chars@ + Seq::new(k as nat, |i: int| '='));
        }
    }
    assert(out@ =~= padded(chars@, block as nat));
    out
}

/// Appends the characters of `tail` to `chars`.
pub fn push_str(chars: &mut Vec<char>, tail: &str)
    ensures
        final(chars)@ == old(chars)@ + tail@,
{
    let mut more = chars_of(tail);
    chars.append(&mut more);
}

/// Appends the characters of `tail` to `chars`.
pub fn push_chars(chars: &mut Vec<char>, tail: &Vec<char>)
    ensures
        final(chars)@ == old(chars)@ + tail@,
{
    let mut i: usize = 0;
    while i < tail.len()
        invariant
            i <= tail.len(),
            chars@ == old(chars)@ + tail@.take(i as int),
        decreases tail.len() - i,
    {
        chars.push(tail[i]);
        assert(chars@ =~= old(chars)@ + tail@.take(i + 1));
        i += 1;
    }
    assert(tail@.take(tail.len() as int) =~= tail@);
}

/// Appends the decimal digits of `n` to `chars`.
pub fn push_decimal(chars: &mut Vec<char>, n: usize)
    ensures
        final(chars)@ == old(chars)@ + decimal(n as nat),
    decreases n,
{
    if n >= 10 {
        push_decimal(chars, n / 10);
    }
    let digit: u8 = (n % 10) as u8;
    chars.push((48u8 + digit) as char);
    proof {
        assert(decimal_digit(n as nat) == (48u8 + digit) as char);
        assert(chars@ =~= old(chars)@ + decimal(n as nat));
    }
}

/// Appends two lowercase hexadecimal digits for each byte of `bytes` to `chars`.
pub fn push_hex_lower(chars: &mut Vec<char>, bytes: &Vec<u8>)
    ensures
        final(chars)@ == old(chars)@ + hex_lower(bytes@),
{
    let mut i: usize = 0;
    proof {
        assert(bytes@.take(0) =~= Seq::<u8>::empty());
        assert(chars@ =~= old(chars)@ + hex_lower(bytes@.take(0)));
    }
    while i < bytes.len()
        invariant
            i <= bytes.len(),
            chars@ == old(chars)@ + hex_lower(bytes@.take(i as int)),
        decreases bytes.len() - i,
    {
        let b: u8 = bytes[i];
        chars.push(hex_lower_digit_of(b / 16));
        chars.push(hex_lower_digit_of(b % 16));
        proof {
            let before = bytes@.take(i as int);
            let after = bytes@.take(i + 1);
            assert(after.drop_last() =~= before);
            assert(after.last() == b);
            assert(chars@ =~= old(chars)@ + hex_lower(after));
        }
        i += 1;
    }
    proof {
        assert(bytes@.take(bytes.len() as int) =~= bytes@);
    }
}

/// The lowercase hexadecimal digit for `d`.
pub fn hex_lower_digit_of(d: u8) -> (c: char)
    requires
        d < 16,
    ensures
        c == hex_lower_digit(d as nat),
{
    if d < 10 {
        (48u8 + d) as char
    } else {
        (87u8 + d) as char
    }
}

/// Tells whether `s` begins with `prefix`.
pub fn begins_with(s: &Vec<char>, prefix: &Vec<char>) -> (b: bool)
    ensures
        b == starts_with(s@, prefix@),
{
    if prefix.len() > s.len() {
        return false;
    }
    let mut i: usize = 0;
    while i < prefix.len()
        invariant
            i <= prefix.len() <= s.len(),
            forall|j: int| 0 <= j < i ==> s@[j] == prefix@[j],
        decreases prefix.len() - i,
    {
        if s[i] != prefix[i] {
            assert(s@.take(prefix@.len() as int)[i as int] != prefix@[i as int]);
            return false;
        }
        i += 1;
    }
    assert(s@.take(prefix@.len() as int) =~= prefix@);
    true
}

/// Tells whether `part` stands at index `at` of `s`.
pub fn stands_at(s: &Vec<char>, part: &Vec<char>, at: usize) -> (b: bool)
    requires
        at + part.len() <= s.len(),
    ensures
        b == (s@.subrange(at as int, at + part.len()) == part@),
{
    let mut i: usize = 0;
    while i < part.len()
        invariant
            i <= part.len(),
            at + part.len() <= s.len(),
            forall|j: int| 0 <= j < i ==> s@[at + j] == part@[j],
        decreases part.len() - i,
    {
        if s[at + i] != part[i] {
            assert(s@.subrange(at as int, at + part.len())[i as int] != part@[i as int]);
            return false;
        }
        i += 1;
    }
    assert(s@.subrange(at as int, at + part.len()) =~= part@);
    true
}

/// Tells whether `part` stands somewhere in `s`.
pub fn contains_part(s: &Vec<char>, part: &Vec<char>) -> (b: bool)
    ensures
        b == holds(s@, part@),
{
    if part.len() > s.len() {
        return false;
    }
    if part.len() == 0 {
        assert(s@.subrange(0int, 0int + part@.len()) =~= part@);
        return true;
    }
    let end: usize = s.len() - part.len() + 1;
    let mut at: usize = 0;
    while at < end
        invariant
            at <= end,
            end == s.len() - part.len() + 1,
            forall|j: int| 0 <= j < at ==> #[trigger] s@.subrange(j, j + part.len()) != part@,
        decreases end - at,
    {
        if stands_at(s, part, at) {
            return true;
        }
        at += 1;
    }
    false
}

/// Tells whether two texts are the same.
pub fn same_text(a: &Vec<char>, b: &Vec<char>) -> (same: bool)
    ensures
        same == (a@ == b@),
{
    if a.len() != b.len() {
        return false;
    }
    let mut i: usize = 0;
    while i < a.len()
        invariant
            i <= a.len(),
            a.len() == b.len(),
            forall|j: int| 0 <= j < i ==> a@[j] == b@[j],
        decreases a.len() - i,
    {
        if a[i] != b[i] {
            return false;
        }
        i += 1;
    }
    assert(a@ =~= b@);
    true
}

/// Shortens a text for display: a text of at most `max_len` bytes is
/// returned as it is, a longer one is cut after the last whole character
/// within `max_len` bytes and followed by three dots.
pub fn truncate_text(s: &str, max_len: usize) -> (out: String)
    ensures
        out@ == shortened(s@, max_len as nat),
        utf8_len(s@) <= max_len ==> out@ == s@,
        utf8_len(s@) > max_len ==> out@ == s@.take(kept_count(s@, max_len as nat) as int) + "..."@,
        utf8_len(s@.take(kept_count(s@, max_len as nat) as int)) <= max_len,
{
    proof {
        lemma_kept_count_fits(s@, max_len as nat);
    }
    if s.as_bytes().len() <= max_len {
        return String::from_str(s);
    }
    let chars = chars_of(s);
    let mut kept: usize = 0;
    let mut used: usize = 0;
    assert(chars@.skip(0) =~= chars@);
    while kept < chars.len() && width_of(chars[kept]) <= max_len - used
        invariant
            kept <= chars.len(),
            used <= max_len,
            kept_count(chars@, max_len as nat) == kept + kept_count(
                chars@.skip(kept as int),
                (max_len - used) as nat,
            ),
        decreases chars.len() - kept,
    {
        proof {
            assert(chars@.skip(kept as int).first() == chars@[kept as int]);
            assert(chars@.skip(kept as int).drop_first() =~= chars@.skip(kept + 1));
        }
        used += width_of(chars[kept]);
        kept += 1;
    }
    proof {
        if kept < chars.len() {
            assert(chars@.skip(kept as int).first() == chars@[kept as int]);
        }
        lemma_kept_count_bound(chars@, max_len as nat);
    }
    let mut out = take_chars(&chars, kept);
    push_str(&mut out, "...");
    text_of(&out)
}

/// Number of bytes that `c` takes in UTF-8.
pub fn width_of(c: char) -> (width: usize)
    ensures
        width == char_width(c),
{
    let v: u32 = c as u32;
    if v < 0x80 {
        1
    } else if v < 0x800 {
        2
    } else if v < 0x10000 {
        3
    } else {
        4
    }
}

/// Number of bytes that `chars` takes in UTF-8.
pub fn utf8_length(chars: &Vec<char>) -> (n: usize)
    ensures
        n == utf8_len(chars@),
{
    let s = text_of(chars);
    s.as_str().as_bytes().len()
}

} // verus!
