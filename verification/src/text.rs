//! Text as a sequence of characters: searching, splitting, trimming, ordering and decimal numbers.
use vstd::prelude::*;

verus! {

/// `String::push` of std: the character is added at the end.
pub assume_specification[ String::push ](s: &mut String, c: char)
    ensures
        final(s)@ == old(s)@.push(c),
;

/// The text that bytes encode in UTF-8, where they do.
pub open spec fn utf8_text(bytes: Seq<u8>) -> Option<Seq<char>> {
    if vstd::utf8::valid_utf8(bytes) {
        Some(vstd::utf8::decode_utf8(bytes))
    } else {
        None
    }
}

/// `String::from_utf8` of std: the text that the bytes encode, where they are valid UTF-8.
#[verifier::external_body]
pub(crate) fn text_of_utf8(bytes: Vec<u8>) -> (r: Option<String>)
    ensures
        r.deep_view() == utf8_text(bytes@),
{
    String::from_utf8(bytes).ok()
}

/// The characters of `s`, one by one.
pub fn chars_of(s: &str) -> (r: Vec<char>)
    ensures
        r@ == s@,
{
    let mut out: Vec<char> = Vec::new();
    for c in it: s.chars()
        invariant
            out@ == it.seq().take(it.index() as int),
            it.seq() == s@,
    {
        out.push(c);
        assert(it.seq().take(it.index() + 1) == it.seq().take(it.index() as int).push(c));
    }
    assert(out@ == s@);
    out
}

/// The text made of `chars`.
pub fn string_of(chars: &Vec<char>) -> (r: String)
    ensures
        r@ == chars@,
{
    let mut out = String::new();
    let mut i: usize = 0;
    while i < chars.len()
        invariant
            i <= chars.len(),
            out@ == chars@.take(i as int),
        decreases chars.len() - i,
    {
        out.push(chars[i]);
        i = i + 1;
        assert(chars@.take(i as int) == chars@.take(i - 1).push(chars@[i - 1]));
    }
    assert(out@ == chars@);
    out
}

/// The text of the characters from `from` up to but not including `to`.
pub fn piece(chars: &Vec<char>, from: usize, to: usize) -> (r: String)
    requires
        from <= to <= chars.len(),
    ensures
        r@ == chars@.subrange(from as int, to as int),
{
    let mut out = String::new();
    let mut i: usize = from;
    while i < to
        invariant
            from <= i <= to <= chars.len(),
            out@ == chars@.subrange(from as int, i as int),
        decreases to - i,
    {
        out.push(chars[i]);
        i = i + 1;
        assert(chars@.subrange(from as int, i as int) == chars@.subrange(from as int, i - 1).push(
            chars@[i - 1],
        ));
    }
    out
}

/// Whether two texts hold the same characters.
pub fn same(a: &str, b: &str) -> (r: bool)
    ensures
        r == (a@ == b@),
{
    a.to_owned() == b.to_owned()
}

/// `a` followed by `b`.
pub fn join2(a: &str, b: &str) -> (r: String)
    ensures
        r@ == a@ + b@,
{
    let mut out = a.to_owned();
    out.append(b);
    out
}

/// `a`, `b` and `c` one after the other.
pub fn join3(a: &str, b: &str, c: &str) -> (r: String)
    ensures
        r@ == a@ + b@ + c@,
{
    let mut out = a.to_owned();
    out.append(b);
    out.append(c);
    out
}

// ---------------------------------------------------------------------------------------------
// White space
// ---------------------------------------------------------------------------------------------
/// The characters of Unicode's White_Space property.
pub open spec fn is_space(c: char) -> bool {
    ||| '\u{9}' <= c <= '\u{d}'
    ||| c == ' '
    ||| c == '\u{85}'
    ||| c == '\u{a0}'
    ||| c == '\u{1680}'
    ||| '\u{2000}' <= c <= '\u{200a}'
    ||| c == '\u{2028}'
    ||| c == '\u{2029}'
    ||| c == '\u{202f}'
    ||| c == '\u{205f}'
    ||| c == '\u{3000}'
}

pub fn whitespace(c: char) -> (r: bool)
    ensures
        r == is_space(c),
{
    ('\u{9}' <= c && c <= '\u{d}') || c == ' ' || c == '\u{85}' || c == '\u{a0}' || c == '\u{1680}'
        || ('\u{2000}' <= c && c <= '\u{200a}') || c == '\u{2028}' || c == '\u{2029}' || c
        == '\u{202f}' || c == '\u{205f}' || c == '\u{3000}'
}

/// `s` without the white space at its start.
pub open spec fn trim_start_of(s: Seq<char>) -> Seq<char>
    decreases s.len(),
{
    if s.len() > 0 && is_space(s[0]) {
        trim_start_of(s.subrange(1, s.len() as int))
    } else {
        s
    }
}

/// `s` without the white space at its end.
pub open spec fn trim_end_of(s: Seq<char>) -> Seq<char>
    decreases s.len(),
{
    if s.len() > 0 && is_space(s.last()) {
        trim_end_of(s.drop_last())
    } else {
        s
    }
}

/// `s` without the white space at either end.
pub open spec fn trim_of(s: Seq<char>) -> Seq<char> {
    trim_end_of(trim_start_of(s))
}

/// `s` without the white space at either end.
pub fn trim(s: &str) -> (r: String)
    ensures
        r@ == trim_of(s@),
{
    let chars = chars_of(s);
    let mut from: usize = 0;
    let len = chars.len();
    assert(chars@.subrange(0, len as int) == chars@);
    while from < len && whitespace(chars[from])
        invariant
            from <= len,
            len == chars.len(),
            trim_start_of(chars@) == trim_start_of(chars@.subrange(from as int, len as int)),
        decreases len - from,
    {
        assert(chars@.subrange(from as int, len as int).subrange(1, len - from) == chars@.subrange(
            from + 1,
            len as int,
        ));
        from = from + 1;
    }
    assert(trim_start_of(chars@) == chars@.subrange(from as int, len as int));
    let mut to: usize = len;
    while to > from && whitespace(chars[to - 1])
        invariant
            from <= to <= len,
            len == chars.len(),
            trim_of(chars@) == trim_end_of(chars@.subrange(from as int, to as int)),
        decreases to - from,
    {
        assert(chars@.subrange(from as int, to as int).drop_last() == chars@.subrange(
            from as int,
            to - 1,
        ));
        to = to - 1;
    }
    piece(&chars, from, to)
}

/// `s` without the characters `c` at its start.
pub open spec fn strip_start_of(s: Seq<char>, c: char) -> Seq<char>
    decreases s.len(),
{
    if s.len() > 0 && s[0] == c {
        strip_start_of(s.subrange(1, s.len() as int), c)
    } else {
        s
    }
}

/// `s` without the characters `c` at its end.
pub open spec fn strip_end_of(s: Seq<char>, c: char) -> Seq<char>
    decreases s.len(),
{
    if s.len() > 0 && s.last() == c {
        strip_end_of(s.drop_last(), c)
    } else {
        s
    }
}

/// `s` without the characters `c` at either end.
pub fn trim_char(s: &str, c: char) -> (r: String)
    ensures
        r@ == strip_end_of(strip_start_of(s@, c), c),
{
    let chars = chars_of(s);
    let mut from: usize = 0;
    let len = chars.len();
    assert(chars@.subrange(0, len as int) == chars@);
    while from < len && chars[from] == c
        invariant
            from <= len,
            len == chars.len(),
            strip_start_of(chars@, c) == strip_start_of(chars@.subrange(from as int, len as int), c),
        decreases len - from,
    {
        assert(chars@.subrange(from as int, len as int).subrange(1, len - from) == chars@.subrange(
            from + 1,
            len as int,
        ));
        from = from + 1;
    }
    assert(strip_start_of(chars@, c) == chars@.subrange(from as int, len as int));
    let ghost front = strip_start_of(chars@, c);
    let mut to: usize = len;
    while to > from && chars[to - 1] == c
        invariant
            from <= to <= len,
            len == chars.len(),
            strip_end_of(front, c) == strip_end_of(chars@.subrange(from as int, to as int), c),
        decreases to - from,
    {
        assert(chars@.subrange(from as int, to as int).drop_last() == chars@.subrange(
            from as int,
            to - 1,
        ));
        to = to - 1;
    }
    piece(&chars, from, to)
}

// ---------------------------------------------------------------------------------------------
// Searching and splitting
// ---------------------------------------------------------------------------------------------
/// Whether `pat` stands in `s` at position `i`.
pub open spec fn occurs_at(s: Seq<char>, pat: Seq<char>, i: int) -> bool {
    0 <= i && i + pat.len() <= s.len() && s.subrange(i, i + pat.len()) == pat
}

/// The first position, from `i` on, at which `pat` stands in `s`.
pub open spec fn find_from(s: Seq<char>, pat: Seq<char>, i: int) -> Option<int>
    decreases s.len() + 1 - i,
{
    if i + pat.len() > s.len() {
        None
    } else if occurs_at(s, pat, i) {
        Some(i)
    } else {
        find_from(s, pat, i + 1)
    }
}

pub proof fn lemma_find_from(s: Seq<char>, pat: Seq<char>, i: int)
    requires
        0 <= i,
    ensures
        match find_from(s, pat, i) {
            Some(k) => {
                &&& i <= k
                &&& occurs_at(s, pat, k)
                &&& forall|j: int| i <= j < k ==> !#[trigger] occurs_at(s, pat, j)
            },
            None => forall|j: int| i <= j ==> !#[trigger] occurs_at(s, pat, j),
        },
    decreases s.len() + 1 - i,
{
    if i + pat.len() <= s.len() && !occurs_at(s, pat, i) {
        lemma_find_from(s, pat, i + 1);
    }
}

/// Whether `pat` stands in `chars` at `i`.
pub fn matches_at(chars: &Vec<char>, pat: &Vec<char>, i: usize) -> (r: bool)
    ensures
        r == occurs_at(chars@, pat@, i as int),
{
    if i > chars.len() || pat.len() > chars.len() - i {
        return false;
    }
    let mut k: usize = 0;
    while k < pat.len()
        invariant
            k <= pat.len(),
            i + pat.len() <= chars.len(),
            forall|j: int| 0 <= j < k ==> chars@[i + j] == pat@[j],
        decreases pat.len() - k,
    {
        if chars[i + k] != pat[k] {
            assert(chars@.subrange(i as int, i + pat.len())[k as int] != pat@[k as int]);
            return false;
        }
        k = k + 1;
    }
    assert(chars@.subrange(i as int, i + pat.len()) == pat@);
    true
}

/// The first position from `from` on at which `pat` stands in `chars`.
pub fn position(chars: &Vec<char>, pat: &Vec<char>, from: usize) -> (r: Option<usize>)
    ensures
        match r {
            Some(i) => find_from(chars@, pat@, from as int) == Some(i as int) && from <= i && i
                + pat.len() <= chars.len(),
            None => find_from(chars@, pat@, from as int) is None,
        },
{
    let mut i: usize = from;
    while i <= chars.len() && pat.len() <= chars.len() - i
        invariant
            from <= i,
            find_from(chars@, pat@, from as int) == find_from(chars@, pat@, i as int),
        decreases chars.len() + 1 - i,
    {
        if matches_at(chars, pat, i) {
            return Some(i);
        }
        if i == chars.len() {
            assert(find_from(chars@, pat@, i + 1) is None);
            return None;
        }
        i = i + 1;
    }
    None
}

/// The first position from `from` on that holds `c`.
pub fn position_char(chars: &Vec<char>, c: char, from: usize) -> (r: Option<usize>)
    ensures
        match r {
            Some(i) => find_from(chars@, seq![c], from as int) == Some(i as int) && from <= i
                < chars.len() && chars@[i as int] == c,
            None => find_from(chars@, seq![c], from as int) is None,
        },
{
    let mut pat: Vec<char> = Vec::new();
    pat.push(c);
    assert(pat@ == seq![c]);
    let r = position(chars, &pat, from);
    proof {
        if r is Some {
            lemma_find_from(chars@, seq![c], from as int);
            let i = r->0 as int;
            assert(chars@.subrange(i, i + 1)[0] == seq![c][0]);
        }
    }
    r
}

/// Whether `s` begins with `pat`.
pub open spec fn has_prefix(s: Seq<char>, pat: Seq<char>) -> bool {
    occurs_at(s, pat, 0)
}

/// Whether `s` ends with `pat`.
pub open spec fn has_suffix(s: Seq<char>, pat: Seq<char>) -> bool {
    occurs_at(s, pat, s.len() - pat.len())
}

/// Whether `pat` stands anywhere in `s`.
pub open spec fn has_part(s: Seq<char>, pat: Seq<char>) -> bool {
    find_from(s, pat, 0) is Some
}

pub fn starts_with(s: &str, pat: &str) -> (r: bool)
    ensures
        r == has_prefix(s@, pat@),
{
    matches_at(&chars_of(s), &chars_of(pat), 0)
}

pub fn ends_with(s: &str, pat: &str) -> (r: bool)
    ensures
        r == has_suffix(s@, pat@),
{
    let chars = chars_of(s);
    let tail = chars_of(pat);
    if tail.len() > chars.len() {
        return false;
    }
    matches_at(&chars, &tail, chars.len() - tail.len())
}

pub fn contains(s: &str, pat: &str) -> (r: bool)
    ensures
        r == has_part(s@, pat@),
{
    position(&chars_of(s), &chars_of(pat), 0).is_some()
}

/// `s` without `pat` at its start, where it begins with it.
pub open spec fn strip_prefix_of(s: Seq<char>, pat: Seq<char>) -> Option<Seq<char>> {
    if has_prefix(s, pat) {
        Some(s.subrange(pat.len() as int, s.len() as int))
    } else {
        None
    }
}

pub fn strip_prefix(s: &str, pat: &str) -> (r: Option<String>)
    ensures
        r.deep_view() == strip_prefix_of(s@, pat@),
{
    let chars = chars_of(s);
    let head = chars_of(pat);
    if matches_at(&chars, &head, 0) {
        Some(piece(&chars, head.len(), chars.len()))
    } else {
        None
    }
}

/// What stands before and what stands behind the first `pat` in `s`.
pub open spec fn split_once_of(s: Seq<char>, pat: Seq<char>) -> Option<(Seq<char>, Seq<char>)> {
    match find_from(s, pat, 0) {
        Some(i) => Some((s.subrange(0, i), s.subrange(i + pat.len(), s.len() as int))),
        None => None,
    }
}

pub fn split_once(s: &str, pat: &str) -> (r: Option<(String, String)>)
    ensures
        match r {
            Some((a, b)) => split_once_of(s@, pat@) == Some((a@, b@)),
            None => split_once_of(s@, pat@) is None,
        },
{
    let chars = chars_of(s);
    let p = chars_of(pat);
    match position(&chars, &p, 0) {
        Some(i) => Some((piece(&chars, 0, i), piece(&chars, i + p.len(), chars.len()))),
        None => None,
    }
}

/// The parts of `s` between the occurrences of `c`; one part where `c` does not occur.
pub open spec fn split_of(s: Seq<char>, c: char) -> Seq<Seq<char>>
    decreases s.len(),
{
    match find_from(s, seq![c], 0) {
        Some(i) => if 0 <= i < s.len() {
            seq![s.subrange(0, i)] + split_of(s.subrange(i + 1, s.len() as int), c)
        } else {
            seq![s]
        },
        None => seq![s],
    }
}

/// The parts of `s` between the occurrences of `c`.
pub fn split(s: &str, c: char) -> (r: Vec<String>)
    ensures
        r.deep_view() == split_of(s@, c),
        r.len() > 0,
{
    let mut rest = chars_of(s);
    let mut out: Vec<String> = Vec::new();
    loop
        invariant_except_break
            split_of(s@, c) == out.deep_view() + split_of(rest@, c),
        ensures
            split_of(s@, c) == out.deep_view(),
            out.len() > 0,
        decreases rest.len(),
    {
        match position_char(&rest, c, 0) {
            Some(i) => {
                let part = piece(&rest, 0, i);
                let ghost before = out.deep_view();
                out.push(part);
                let mut tail: Vec<char> = Vec::new();
                let mut k: usize = i + 1;
                while k < rest.len()
                    invariant
                        i < k <= rest.len(),
                        tail@ == rest@.subrange(i + 1, k as int),
                    decreases rest.len() - k,
                {
                    tail.push(rest[k]);
                    k = k + 1;
                }
                assert(out.deep_view() == before.push(part@));
                assert(before + (seq![part@] + split_of(tail@, c)) == out.deep_view() + split_of(
                    tail@,
                    c,
                ));
                rest = tail;
            },
            None => {
                let part = string_of(&rest);
                let ghost before = out.deep_view();
                out.push(part);
                assert(out.deep_view() == before + seq![part@]);
                break;
            },
        }
    }
    out
}

/// The parts one after the other with `sep` between them.
pub open spec fn join_of(parts: Seq<Seq<char>>, sep: Seq<char>) -> Seq<char>
    decreases parts.len(),
{
    if parts.len() == 0 {
        seq![]
    } else if parts.len() == 1 {
        parts[0]
    } else {
        join_of(parts.drop_last(), sep) + sep + parts.last()
    }
}

pub fn join(parts: &Vec<String>, sep: &str) -> (r: String)
    ensures
        r@ == join_of(parts.deep_view(), sep@),
{
    let mut out = String::new();
    let mut i: usize = 0;
    while i < parts.len()
        invariant
            i <= parts.len(),
            out@ == join_of(parts.deep_view().take(i as int), sep@),
        decreases parts.len() - i,
    {
        if i > 0 {
            out.append(sep);
        }
        out.append(parts[i].as_str());
        i = i + 1;
        assert(parts.deep_view().take(i as int).drop_last() == parts.deep_view().take(i - 1));
        if i == 1 {
            assert(out@ == parts.deep_view()[0]);
        }
    }
    assert(parts.deep_view().take(i as int) == parts.deep_view());
    out
}

// ---------------------------------------------------------------------------------------------
// Decimal numbers
// ---------------------------------------------------------------------------------------------
pub open spec fn is_digit(c: char) -> bool {
    '0' <= c <= '9'
}

pub open spec fn digit_value(c: char) -> nat {
    (c as int - '0' as int) as nat
}

pub open spec fn digit_char(d: nat) -> char {
    ('0' as int + d) as char
}

pub open spec fn all_digits(s: Seq<char>) -> bool {
    forall|i: int| 0 <= i < s.len() ==> is_digit(#[trigger] s[i])
}

/// The number that the digits of `s` write in base ten.
pub open spec fn decimal_value(s: Seq<char>) -> nat
    decreases s.len(),
{
    if s.len() == 0 {
        0
    } else {
        decimal_value(s.drop_last()) * 10 + digit_value(s.last())
    }
}

/// The base ten digits of `n`, without leading zeros.
pub open spec fn decimal_of(n: nat) -> Seq<char>
    decreases n,
{
    if n < 10 {
        seq![digit_char(n)]
    } else {
        decimal_of(n / 10).push(digit_char(n % 10))
    }
}

/// The number that `s` writes, an optional plus sign followed by one or more digits, where it is
/// at most `max`.
pub open spec fn unsigned_of(s: Seq<char>, max: nat) -> Option<nat> {
    let digits = if s.len() > 0 && s[0] == '+' {
        s.subrange(1, s.len() as int)
    } else {
        s
    };
    if digits.len() > 0 && all_digits(digits) && decimal_value(digits) <= max {
        Some(decimal_value(digits))
    } else {
        None
    }
}

proof fn lemma_decimal_prefix(s: Seq<char>, i: int)
    requires
        0 <= i <= s.len(),
    ensures
        decimal_value(s.take(i)) <= decimal_value(s),
    decreases s.len(),
{
    if i < s.len() {
        lemma_decimal_prefix(s.drop_last(), i);
        assert(s.drop_last().take(i) == s.take(i));
    } else {
        assert(s.take(i) == s);
    }
}

/// Writing a number and reading it back gives the number.
pub proof fn decimal_round_trip(n: nat)
    ensures
        all_digits(decimal_of(n)),
        decimal_of(n).len() > 0,
        decimal_value(decimal_of(n)) == n,
        forall|max: nat| n <= max ==> #[trigger] unsigned_of(decimal_of(n), max) == Some(n),
    decreases n,
{
    if n >= 10 {
        decimal_round_trip(n / 10);
        assert(decimal_of(n).drop_last() == decimal_of(n / 10));
        assert forall|i: int| 0 <= i < decimal_of(n).len() implies is_digit(
            #[trigger] decimal_of(n)[i],
        ) by {
            if i < decimal_of(n).len() - 1 {
                assert(decimal_of(n)[i] == decimal_of(n / 10)[i]);
            }
        }
    } else {
        assert(decimal_of(n).drop_last() == Seq::<char>::empty());
        assert(decimal_value(Seq::<char>::empty()) == 0);
    }
    assert(is_digit(decimal_of(n)[0]));
}

pub fn parse_u64(s: &str) -> (r: Option<u64>)
    ensures
        match r {
            Some(n) => unsigned_of(s@, u64::MAX as nat) == Some(n as nat),
            None => unsigned_of(s@, u64::MAX as nat) is None,
        },
{
    let chars = chars_of(s);
    let start: usize = if chars.len() > 0 && chars[0] == '+' {
        1
    } else {
        0
    };
    if start == chars.len() {
        return None;
    }
    let ghost digits = chars@.subrange(start as int, chars.len() as int);
    assert(start == 0 ==> digits == s@);
    let mut value: u64 = 0;
    let mut i: usize = start;
    assert(digits.take(0) == Seq::<char>::empty());
    while i < chars.len()
        invariant
            start <= i <= chars.len(),
            digits == chars@.subrange(start as int, chars.len() as int),
            forall|j: int| 0 <= j < i - start ==> is_digit(#[trigger] digits[j]),
            value == decimal_value(digits.take(i - start)),
            digits == (if s@.len() > 0 && s@[0] == '+' {
                s@.subrange(1, s@.len() as int)
            } else {
                s@
            }),
        decreases chars.len() - i,
    {
        let c = chars[i];
        if !('0' <= c && c <= '9') {
            assert(!is_digit(digits[i - start]));
            return None;
        }
        let d: u64 = (c as u32 - 48) as u64;
        proof {
            assert(digits.take(i - start + 1).drop_last() == digits.take(i - start));
            assert(digits.take(i - start + 1).last() == c);
            lemma_decimal_prefix(digits, i - start + 1);
        }
        if value > (u64::MAX - d) / 10 {
            return None;
        }
        value = value * 10 + d;
        i = i + 1;
    }
    assert(digits.take(i - start) == digits);
    Some(value)
}

pub fn parse_usize(s: &str) -> (r: Option<usize>)
    ensures
        match r {
            Some(n) => unsigned_of(s@, usize::MAX as nat) == Some(n as nat),
            None => unsigned_of(s@, usize::MAX as nat) is None,
        },
{
    match parse_u64(s) {
        Some(n) => if n <= usize::MAX as u64 {
            Some(n as usize)
        } else {
            None
        },
        None => None,
    }
}

/// The number that `s` writes: a plus or minus sign that may be left out, and one or more digits,
/// where it lies between `i64::MIN` and `i64::MAX`.
pub open spec fn signed_of(s: Seq<char>) -> Option<int> {
    if s.len() > 0 && s[0] == '-' {
        let digits = s.subrange(1, s.len() as int);
        if digits.len() > 0 && all_digits(digits) && decimal_value(digits) <= 0x8000_0000_0000_0000 {
            Some(-(decimal_value(digits) as int))
        } else {
            None
        }
    } else {
        match unsigned_of(s, i64::MAX as nat) {
            Some(n) => Some(n as int),
            None => None,
        }
    }
}

pub fn parse_i64(s: &str) -> (r: Option<i64>)
    ensures
        match r {
            Some(n) => signed_of(s@) == Some(n as int),
            None => signed_of(s@) is None,
        },
{
    let chars = chars_of(s);
    if chars.len() > 0 && chars[0] == '-' {
        let rest = piece(&chars, 1, chars.len());
        if chars.len() > 1 && chars[1] == '+' {
            assert(!is_digit(rest@[0]));
            return None;
        }
        return match parse_u64(rest.as_str()) {
            Some(n) => if n < 0x8000_0000_0000_0000 {
                Some(-(n as i64))
            } else if n == 0x8000_0000_0000_0000 {
                Some(i64::MIN)
            } else {
                None
            },
            None => None,
        };
    }
    match parse_u64(s) {
        Some(n) => if n <= i64::MAX as u64 {
            Some(n as i64)
        } else {
            None
        },
        None => None,
    }
}

fn digit(d: u64) -> (r: char)
    requires
        d < 10,
    ensures
        r == digit_char(d as nat),
{
    match d {
        0 => '0',
        1 => '1',
        2 => '2',
        3 => '3',
        4 => '4',
        5 => '5',
        6 => '6',
        7 => '7',
        8 => '8',
        _ => '9',
    }
}

/// The base ten digits of `n`.
pub fn decimal(n: u64) -> (r: String)
    ensures
        r@ == decimal_of(n as nat),
    decreases n,
{
    let mut out = if n < 10 {
        String::new()
    } else {
        decimal(n / 10)
    };
    out.push(digit(n % 10));
    assert(n < 10 ==> out@ == seq![digit_char(n as nat)]);
    out
}

fn digit_wide(d: u128) -> (r: char)
    requires
        d < 10,
    ensures
        r == digit_char(d as nat),
{
    digit(d as u64)
}

/// The base ten digits of a wide number.
pub fn decimal_wide(n: u128) -> (r: String)
    ensures
        r@ == decimal_of(n as nat),
    decreases n,
{
    let mut out = if n < 10 {
        String::new()
    } else {
        decimal_wide(n / 10)
    };
    out.push(digit_wide(n % 10));
    assert(n < 10 ==> out@ == seq![digit_char(n as nat)]);
    out
}

/// The base ten digits of `n`, behind a minus sign where it is negative.
pub open spec fn signed_decimal_of(n: int) -> Seq<char> {
    if n < 0 {
        "-"@ + decimal_of((-n) as nat)
    } else {
        decimal_of(n as nat)
    }
}

pub fn signed_decimal(n: i64) -> (r: String)
    ensures
        r@ == signed_decimal_of(n as int),
{
    if n < 0 {
        join2("-", decimal_wide((-(n as i128)) as u128).as_str())
    } else {
        decimal(n as u64)
    }
}

// ---------------------------------------------------------------------------------------------
// Order and case
// ---------------------------------------------------------------------------------------------
/// The order of texts: by the first character in which they differ, the shorter one first where
/// one begins with the other.
pub open spec fn text_lt(a: Seq<char>, b: Seq<char>) -> bool
    decreases a.len(),
{
    if b.len() == 0 {
        false
    } else if a.len() == 0 {
        true
    } else if a[0] != b[0] {
        a[0] < b[0]
    } else {
        text_lt(a.subrange(1, a.len() as int), b.subrange(1, b.len() as int))
    }
}

pub proof fn lemma_text_lt_irreflexive(a: Seq<char>)
    ensures
        !text_lt(a, a),
    decreases a.len(),
{
    if a.len() > 0 {
        lemma_text_lt_irreflexive(a.subrange(1, a.len() as int));
    }
}

pub proof fn lemma_text_lt_transitive(a: Seq<char>, b: Seq<char>, c: Seq<char>)
    requires
        text_lt(a, b),
        text_lt(b, c),
    ensures
        text_lt(a, c),
    decreases a.len(),
{
    if a.len() > 0 && a[0] == b[0] && b[0] == c[0] {
        lemma_text_lt_transitive(
            a.subrange(1, a.len() as int),
            b.subrange(1, b.len() as int),
            c.subrange(1, c.len() as int),
        );
    }
}

pub proof fn lemma_text_lt_total(a: Seq<char>, b: Seq<char>)
    ensures
        text_lt(a, b) || a == b || text_lt(b, a),
    decreases a.len(),
{
    if a.len() > 0 && b.len() > 0 && a[0] == b[0] {
        let a1 = a.subrange(1, a.len() as int);
        let b1 = b.subrange(1, b.len() as int);
        lemma_text_lt_total(a1, b1);
        if a1 == b1 {
            assert(a == seq![a[0]] + a1);
            assert(b == seq![b[0]] + b1);
        }
    } else if a.len() == 0 && b.len() == 0 {
        assert(a == b);
    }
}

/// How one text stands to another in the order of texts.
#[derive(Clone, Copy, PartialEq, Eq, Structural)]
pub enum Order {
    Before,
    Same,
    After,
}

/// How `a` stands to `b`.
pub fn order(a: &str, b: &str) -> (r: Order)
    ensures
        r == Order::Before <==> text_lt(a@, b@),
        r == Order::Same <==> a@ == b@,
        r == Order::After <==> text_lt(b@, a@),
{
    let x = chars_of(a);
    let y = chars_of(b);
    let mut i: usize = 0;
    assert(x@.subrange(0, x.len() as int) == x@);
    assert(y@.subrange(0, y.len() as int) == y@);
    proof {
        lemma_text_lt_irreflexive(x@);
    }
    while i < x.len() && i < y.len() && x[i] == y[i]
        invariant
            i <= x.len(),
            i <= y.len(),
            x@ == a@,
            y@ == b@,
            x@.take(i as int) == y@.take(i as int),
            text_lt(x@, y@) == text_lt(
                x@.subrange(i as int, x.len() as int),
                y@.subrange(i as int, y.len() as int),
            ),
            text_lt(y@, x@) == text_lt(
                y@.subrange(i as int, y.len() as int),
                x@.subrange(i as int, x.len() as int),
            ),
        decreases x.len() - i,
    {
        assert(x@.subrange(i as int, x.len() as int).subrange(1, x.len() - i) == x@.subrange(
            i + 1,
            x.len() as int,
        ));
        assert(y@.subrange(i as int, y.len() as int).subrange(1, y.len() - i) == y@.subrange(
            i + 1,
            y.len() as int,
        ));
        assert(x@.take(i + 1) == x@.take(i as int).push(x@[i as int]));
        assert(y@.take(i + 1) == y@.take(i as int).push(y@[i as int]));
        i = i + 1;
    }
    if i == x.len() {
        if i == y.len() {
            assert(x@.take(i as int) == x@ && y@.take(i as int) == y@);
            Order::Same
        } else {
            Order::Before
        }
    } else if i == y.len() {
        Order::After
    } else {
        assert(x@[i as int] != y@[i as int]);
        if x[i] < y[i] {
            Order::Before
        } else {
            Order::After
        }
    }
}

/// `c` in lower case, where it is one of the letters A to Z.
pub open spec fn lower_char(c: char) -> char {
    if 'A' <= c <= 'Z' {
        (c as int + 32) as char
    } else {
        c
    }
}

/// `s` with the letters A to Z in lower case.
pub open spec fn lower_of(s: Seq<char>) -> Seq<char> {
    s.map_values(|c: char| lower_char(c))
}

pub fn ascii_lower(s: &str) -> (r: String)
    ensures
        r@ == lower_of(s@),
{
    let chars = chars_of(s);
    let mut out = String::new();
    let mut i: usize = 0;
    while i < chars.len()
        invariant
            i <= chars.len(),
            out@ == lower_of(chars@.take(i as int)),
        decreases chars.len() - i,
    {
        let c = chars[i];
        let l: char = if 'A' <= c && c <= 'Z' {
            (c as u8 + 32) as char
        } else {
            c
        };
        out.push(l);
        i = i + 1;
        assert(lower_of(chars@.take(i as int)) == lower_of(chars@.take(i - 1)).push(l));
    }
    assert(chars@.take(i as int) == chars@);
    out
}

/// Whether two texts are the same but for the case of the letters A to Z.
pub fn same_ignoring_case(a: &str, b: &str) -> (r: bool)
    ensures
        r == (lower_of(a@) == lower_of(b@)),
{
    ascii_lower(a) == ascii_lower(b)
}

// ---------------------------------------------------------------------------------------------
// Optional texts
// ---------------------------------------------------------------------------------------------
/// A copy of an optional text.
pub fn copy_opt(s: &Option<String>) -> (r: Option<String>)
    ensures
        r == *s,
        r.deep_view() == s.deep_view(),
{
    match s {
        Some(t) => Some(t.clone()),
        None => None,
    }
}

/// A copy of a list of texts.
pub fn copy_all(v: &Vec<String>) -> (r: Vec<String>)
    ensures
        r@ == v@,
        r.deep_view() == v.deep_view(),
{
    let mut out: Vec<String> = Vec::new();
    let mut i: usize = 0;
    while i < v.len()
        invariant
            i <= v.len(),
            out@ == v@.take(i as int),
        decreases v.len() - i,
    {
        out.push(v[i].clone());
        i = i + 1;
        assert(v@.take(i as int) == v@.take(i - 1).push(v@[i - 1]));
    }
    assert(out@ == v@);
    assert(out.deep_view() == v.deep_view());
    out
}

/// The texts of `a` followed by those of `b`.
pub fn append_all(a: &mut Vec<String>, b: &Vec<String>)
    ensures
        final(a).deep_view() == old(a).deep_view() + b.deep_view(),
{
    let ghost before = a.deep_view();
    let mut i: usize = 0;
    while i < b.len()
        invariant
            i <= b.len(),
            a.deep_view() == before + b.deep_view().take(i as int),
        decreases b.len() - i,
    {
        let ghost prev = a.deep_view();
        a.push(b[i].clone());
        assert(a.deep_view() == prev.push(b.deep_view()[i as int]));
        i = i + 1;
        assert(b.deep_view().take(i as int) == b.deep_view().take(i - 1).push(
            b.deep_view()[i - 1],
        ));
    }
    assert(b.deep_view().take(i as int) == b.deep_view());
}

/// Whether `needle` is one of `v`.
pub fn is_in(v: &Vec<String>, needle: &str) -> (r: bool)
    ensures
        r == v.deep_view().contains(needle@),
{
    let mut i: usize = 0;
    while i < v.len()
        invariant
            i <= v.len(),
            forall|j: int| 0 <= j < i ==> #[trigger] v.deep_view()[j] != needle@,
        decreases v.len() - i,
    {
        if same(v[i].as_str(), needle) {
            assert(v.deep_view()[i as int] == needle@);
            return true;
        }
        i = i + 1;
    }
    false
}

// ---------------------------------------------------------------------------------------------
// Lines and columns
// ---------------------------------------------------------------------------------------------
/// Adds a line.
pub fn push_line(lines: &mut Vec<String>, line: String)
    ensures
        final(lines).deep_view() == old(lines).deep_view().push(line@),
{
    let ghost before = lines.deep_view();
    let ghost l = line@;
    lines.push(line);
    assert(lines.deep_view() == before.push(l));
}

/// A text with spaces behind it, up to a number of characters.
pub open spec fn padded(s: Seq<char>, width: nat) -> Seq<char> {
    if s.len() >= width {
        s
    } else {
        s + Seq::new((width - s.len()) as nat, |i: int| ' ')
    }
}

/// A text with spaces behind it, up to a number of characters.
pub fn pad_right(s: &str, width: usize) -> (r: String)
    ensures
        r@ == padded(s@, width as nat),
{
    let mut chars = chars_of(s);
    while chars.len() < width
        invariant
            chars@.len() >= s@.len(),
            s@.len() >= width ==> chars@ == s@,
            s@.len() < width ==> chars@.len() <= width && chars@ == s@ + Seq::new(
                (chars@.len() - s@.len()) as nat,
                |i: int| ' ',
            ),
        decreases width - chars@.len(),
    {
        let ghost before = chars@;
        chars.push(' ');
        assert(chars@ == s@ + Seq::new((chars@.len() - s@.len()) as nat, |i: int| ' '));
    }
    string_of(&chars)
}

/// The first `max` characters of a text; three dots stand in for the last ones that are left out,
/// where there is room for them.
pub open spec fn truncated(s: Seq<char>, max: nat) -> Seq<char> {
    if s.len() <= max {
        s
    } else if max <= 3 {
        s.take(max as int)
    } else {
        s.take(max - 3) + "..."@
    }
}

/// The first `max` characters of a text; three dots stand in for the last ones that are left out,
/// where there is room for them.
pub fn truncate_text(value: &str, max_chars: usize) -> (r: String)
    ensures
        r@ == truncated(value@, max_chars as nat),
        r@.len() <= max_chars,
{
    proof {
        reveal_strlit("...");
    }
    let chars = chars_of(value);
    if chars.len() <= max_chars {
        value.to_owned()
    } else if max_chars <= 3 {
        assert(chars@.subrange(0, max_chars as int) == chars@.take(max_chars as int));
        piece(&chars, 0, max_chars)
    } else {
        assert(chars@.subrange(0, max_chars - 3) == chars@.take(max_chars - 3));
        join2(piece(&chars, 0, max_chars - 3).as_str(), "...")
    }
}

} // verus!
