//! Texts: trimming, splitting, joining, ordering and shortening them.
use vstd::prelude::*;

use crate::text::{
    decimal_of, decimal_round_trip, find_from, is_digit, is_space, join_of, lemma_find_from,
    lower_of, occurs_at, padded, signed_decimal_of, signed_of, split_of, split_once_of,
    strip_end_of, strip_prefix_of, strip_start_of, text_lt, trim_end_of, trim_of, trim_start_of,
    truncated, unsigned_of,
};

verus! {

proof fn lemma_trim_start(s: Seq<char>) -> (i: int)
    ensures
        0 <= i <= s.len(),
        trim_start_of(s) == s.subrange(i, s.len() as int),
        forall|k: int| 0 <= k < i ==> is_space(#[trigger] s[k]),
        i < s.len() ==> !is_space(s[i]),
    decreases s.len(),
{
    if s.len() > 0 && is_space(s[0]) {
        let rest = s.subrange(1, s.len() as int);
        let j = lemma_trim_start(rest);
        assert(rest.subrange(j, rest.len() as int) == s.subrange(j + 1, s.len() as int));
        assert forall|k: int| 0 <= k < j + 1 implies is_space(#[trigger] s[k]) by {
            if k > 0 {
                assert(rest[k - 1] == s[k]);
            }
        }
        j + 1
    } else {
        assert(s == s.subrange(0, s.len() as int));
        0
    }
}

proof fn lemma_trim_end(s: Seq<char>) -> (j: int)
    ensures
        0 <= j <= s.len(),
        trim_end_of(s) == s.subrange(0, j),
        forall|k: int| j <= k < s.len() ==> is_space(#[trigger] s[k]),
        j > 0 ==> !is_space(s[j - 1]),
    decreases s.len(),
{
    if s.len() > 0 && is_space(s.last()) {
        let rest = s.drop_last();
        let j = lemma_trim_end(rest);
        assert(rest.subrange(0, j) == s.subrange(0, j));
        assert forall|k: int| j <= k < s.len() implies is_space(#[trigger] s[k]) by {
            if k < rest.len() {
                assert(rest[k] == s[k]);
            }
        }
        j
    } else {
        assert(s == s.subrange(0, s.len() as int));
        s.len() as int
    }
}

/// Trimming takes white space off both ends, all of it and nothing else.
pub proof fn trimming_takes_the_space_off_both_ends(s: Seq<char>) -> (ends: (int, int))
    ensures
        0 <= ends.0 <= ends.1 <= s.len(),
        trim_of(s) == s.subrange(ends.0, ends.1),
        forall|k: int| 0 <= k < ends.0 ==> is_space(#[trigger] s[k]),
        forall|k: int| ends.1 <= k < s.len() ==> is_space(#[trigger] s[k]),
        trim_of(s).len() > 0 ==> !is_space(trim_of(s)[0]) && !is_space(trim_of(s).last()),
{
    let i = lemma_trim_start(s);
    let t = trim_start_of(s);
    let j = lemma_trim_end(t);
    assert(t.subrange(0, j) == s.subrange(i, i + j));
    assert forall|k: int| i + j <= k < s.len() implies is_space(#[trigger] s[k]) by {
        assert(t[k - i] == s[k]);
    }
    (i, i + j)
}

/// Taking a character off both ends leaves a text that neither starts nor ends with it.
pub proof fn a_character_is_taken_off_both_ends(s: Seq<char>, c: char) -> (ends: (int, int))
    ensures
        0 <= ends.0 <= ends.1 <= s.len(),
        strip_end_of(strip_start_of(s, c), c) == s.subrange(ends.0, ends.1),
        forall|k: int| 0 <= k < ends.0 ==> #[trigger] s[k] == c,
        forall|k: int| ends.1 <= k < s.len() ==> #[trigger] s[k] == c,
        ends.0 < ends.1 ==> s[ends.0] != c && s[ends.1 - 1] != c,
    decreases s.len(),
{
    if s.len() > 0 && s[0] == c {
        let rest = s.subrange(1, s.len() as int);
        let (i, j) = a_character_is_taken_off_both_ends(rest, c);
        assert(rest.subrange(i, j) == s.subrange(i + 1, j + 1));
        assert forall|k: int| 0 <= k < i + 1 implies #[trigger] s[k] == c by {
            if k > 0 {
                assert(rest[k - 1] == s[k]);
            }
        }
        assert forall|k: int| j + 1 <= k < s.len() implies #[trigger] s[k] == c by {
            assert(rest[k - 1] == s[k]);
        }
        (i + 1, j + 1)
    } else {
        let j = lemma_strip_end(s, c);
        (0, j)
    }
}

proof fn lemma_strip_end(s: Seq<char>, c: char) -> (j: int)
    ensures
        0 <= j <= s.len(),
        strip_end_of(s, c) == s.subrange(0, j),
        forall|k: int| j <= k < s.len() ==> #[trigger] s[k] == c,
        j > 0 ==> s[j - 1] != c,
    decreases s.len(),
{
    if s.len() > 0 && s.last() == c {
        let rest = s.drop_last();
        let j = lemma_strip_end(rest, c);
        assert(rest.subrange(0, j) == s.subrange(0, j));
        assert forall|k: int| j <= k < s.len() implies #[trigger] s[k] == c by {
            if k < rest.len() {
                assert(rest[k] == s[k]);
            }
        }
        j
    } else {
        assert(s == s.subrange(0, s.len() as int));
        s.len() as int
    }
}

/// A pattern is found at its first place.
pub proof fn the_first_place_is_found(s: Seq<char>, pat: Seq<char>)
    ensures
        match find_from(s, pat, 0) {
            Some(i) => {
                &&& 0 <= i <= s.len() - pat.len()
                &&& s.subrange(i, i + pat.len()) == pat
                &&& forall|k: int|
                    0 <= k < i ==> #[trigger] s.subrange(k, k + pat.len()) != pat
            },
            None => forall|k: int|
                0 <= k <= s.len() - pat.len() ==> #[trigger] s.subrange(k, k + pat.len()) != pat,
        },
{
    lemma_find_from(s, pat, 0);
    match find_from(s, pat, 0) {
        Some(i) => {
            assert(occurs_at(s, pat, i));
            assert forall|k: int| 0 <= k < i implies #[trigger] s.subrange(k, k + pat.len())
                != pat by {
                assert(!occurs_at(s, pat, k));
            }
        },
        None => {
            assert forall|k: int| 0 <= k <= s.len() - pat.len() implies #[trigger] s.subrange(
                k,
                k + pat.len(),
            ) != pat by {
                assert(!occurs_at(s, pat, k));
            }
        },
    }
}

/// A beginning comes off a text where the text starts with it, and what is left follows it.
pub proof fn what_follows_a_beginning(pat: Seq<char>, rest: Seq<char>, s: Seq<char>)
    ensures
        strip_prefix_of(pat + rest, pat) == Some(rest),
        strip_prefix_of(s, pat) matches Some(left) ==> s == pat + left,
{
    assert((pat + rest).subrange(0, pat.len() as int) == pat);
    assert((pat + rest).subrange(pat.len() as int, (pat + rest).len() as int) == rest);
    if let Some(left) = strip_prefix_of(s, pat) {
        assert(s == s.subrange(0, pat.len() as int) + left);
    }
}

/// A text is cut in two at the first place of a separator, which is in neither of the halves.
pub proof fn halves_are_around_the_separator(s: Seq<char>, pat: Seq<char>)
    ensures
        split_once_of(s, pat) matches Some((a, b)) ==> s == a + pat + b && find_from(s, pat, 0)
            == Some(a.len() as int),
        split_once_of(s, pat) is None <==> find_from(s, pat, 0) is None,
{
    the_first_place_is_found(s, pat);
    if let Some((a, b)) = split_once_of(s, pat) {
        let i = find_from(s, pat, 0)->0;
        assert(s == s.subrange(0, i) + s.subrange(i, i + pat.len()) + s.subrange(
            i + pat.len(),
            s.len() as int,
        ));
    }
}

/// Whether a character is in none of the texts.
pub open spec fn free_of(parts: Seq<Seq<char>>, c: char) -> bool {
    forall|k: int| 0 <= k < parts.len() ==> !(#[trigger] parts[k]).contains(c)
}

/// Splitting a text at a character gives parts without that character, and joining the parts with the
/// character gives the text back.
pub proof fn what_is_split_is_joined_again(s: Seq<char>, c: char)
    ensures
        split_of(s, c).len() > 0,
        free_of(split_of(s, c), c),
        join_of(split_of(s, c), seq![c]) == s,
    decreases s.len(),
{
    the_first_place_is_found(s, seq![c]);
    let parts = split_of(s, c);
    match find_from(s, seq![c], 0) {
        Some(i) => {
            let a = s.subrange(0, i);
            let b = s.subrange(i + 1, s.len() as int);
            what_is_split_is_joined_again(b, c);
            assert(parts == seq![a] + split_of(b, c));
            assert(s.subrange(i, i + 1)[0] == c);
            assert forall|k: int| 0 <= k < parts.len() implies !(#[trigger] parts[k]).contains(
                c,
            ) by {
                if k == 0 {
                    if a.contains(c) {
                        let m = choose|m: int| 0 <= m < a.len() && a[m] == c;
                        assert(s.subrange(m, m + 1) == seq![c]);
                    }
                } else {
                    assert(parts[k] == split_of(b, c)[k - 1]);
                }
            }
            a_separator_stands_between_parts(a, split_of(b, c), seq![c]);
            assert(s == a + seq![c] + b);
        },
        None => {
            assert(parts == seq![s]);
            assert forall|k: int| 0 <= k < parts.len() implies !(#[trigger] parts[k]).contains(
                c,
            ) by {
                if s.contains(c) {
                    let m = choose|m: int| 0 <= m < s.len() && s[m] == c;
                    assert(s.subrange(m, m + 1) == seq![c]);
                }
            }
        },
    }
}

/// Joining puts the separator between the parts: once between each two, and nowhere else.
pub proof fn a_separator_stands_between_parts(a: Seq<char>, parts: Seq<Seq<char>>, sep: Seq<char>)
    requires
        parts.len() > 0,
    ensures
        join_of(seq![a] + parts, sep) == a + sep + join_of(parts, sep),
    decreases parts.len(),
{
    let all = seq![a] + parts;
    assert(all.len() == parts.len() + 1);
    if parts.len() == 1 {
        assert(all.drop_last() == seq![a]);
        assert(all.last() == parts[0]);
        assert(join_of(seq![a], sep) == a);
        assert(join_of(all, sep) == a + sep + parts[0]);
    } else {
        a_separator_stands_between_parts(a, parts.drop_last(), sep);
        assert(all.drop_last() == seq![a] + parts.drop_last());
        assert(all.last() == parts.last());
        assert(join_of(all, sep) == join_of(all.drop_last(), sep) + sep + parts.last());
        assert(a + sep + join_of(parts.drop_last(), sep) + sep + parts.last() == a + sep + (join_of(
            parts.drop_last(),
            sep,
        ) + sep + parts.last()));
    }
}

/// Parts without a character that are joined with it are the parts that splitting at it gives.
pub proof fn what_is_joined_is_split_again(parts: Seq<Seq<char>>, c: char)
    requires
        parts.len() > 0,
        free_of(parts, c),
    ensures
        split_of(join_of(parts, seq![c]), c) == parts,
    decreases parts.len(),
{
    let a = parts[0];
    let s = join_of(parts, seq![c]);
    if parts.len() == 1 {
        the_first_place_is_found(s, seq![c]);
        if let Some(i) = find_from(s, seq![c], 0) {
            assert(s.subrange(i, i + 1)[0] == c);
            assert(s[i] == c);
            assert(parts[0].contains(c));
        }
        assert(split_of(s, c) == seq![s]);
        assert(parts == seq![s]);
    } else {
        let rest = parts.subrange(1, parts.len() as int);
        assert(parts == seq![a] + rest);
        a_separator_stands_between_parts(a, rest, seq![c]);
        assert forall|k: int| 0 <= k < rest.len() implies !(#[trigger] rest[k]).contains(c) by {
            assert(rest[k] == parts[k + 1]);
        }
        what_is_joined_is_split_again(rest, c);
        let b = join_of(rest, seq![c]);
        assert(s == a + seq![c] + b);
        the_first_place_is_found(s, seq![c]);
        let n = a.len() as int;
        assert(s.subrange(n, n + 1) == seq![c]);
        let i = find_from(s, seq![c], 0)->0;
        if i < n {
            assert(s.subrange(i, i + 1)[0] == c);
            assert(a[i] == c);
            assert(parts[0].contains(c));
        }
        assert(i == n);
        assert(s.subrange(0, i) == a);
        assert(s.subrange(i + 1, s.len() as int) == b);
    }
}

/// One text comes before another where it is a proper beginning of it, or where it has the smaller
/// character at the first place at which they differ.
pub proof fn texts_are_ordered_by_their_first_difference(a: Seq<char>, b: Seq<char>)
    ensures
        text_lt(a, b) <==> exists|k: int| differs_first_at(a, b, k),
    decreases a.len(),
{
    if b.len() == 0 {
        assert forall|k: int| !differs_first_at(a, b, k) by {
        }
    } else if a.len() == 0 {
        assert(differs_first_at(a, b, 0));
    } else if a[0] != b[0] {
        if a[0] < b[0] {
            assert(differs_first_at(a, b, 0));
        } else {
            assert forall|k: int| !differs_first_at(a, b, k) by {
                if k > 0 {
                    assert(a[0] != b[0]);
                }
            }
        }
    } else {
        let x = a.subrange(1, a.len() as int);
        let y = b.subrange(1, b.len() as int);
        texts_are_ordered_by_their_first_difference(x, y);
        if text_lt(x, y) {
            let k = choose|k: int| differs_first_at(x, y, k);
            assert(differs_first_at(a, b, k + 1)) by {
                assert forall|i: int| 0 <= i < k + 1 implies a[i] == b[i] by {
                    if i > 0 {
                        assert(x[i - 1] == y[i - 1]);
                    }
                }
            }
        }
        if exists|k: int| differs_first_at(a, b, k) {
            let k = choose|k: int| differs_first_at(a, b, k);
            assert(k > 0);
            assert(differs_first_at(x, y, k - 1));
        }
    }
}

/// Whether two texts agree before a place, and the first one ends there or is smaller there.
pub open spec fn differs_first_at(a: Seq<char>, b: Seq<char>, k: int) -> bool {
    &&& 0 <= k <= a.len()
    &&& k < b.len()
    &&& forall|i: int| 0 <= i < k ==> a[i] == b[i]
    &&& k == a.len() || a[k] < b[k]
}

/// Lower case replaces the capital letters of the alphabet, one for one, and nothing else.
pub proof fn lower_case_replaces_capital_letters(s: Seq<char>)
    ensures
        lower_of(s).len() == s.len(),
        forall|i: int|
            0 <= i < s.len() ==> if 'A' <= s[i] <= 'Z' {
                (#[trigger] lower_of(s)[i]) as int == s[i] as int + 32
            } else {
                lower_of(s)[i] == s[i]
            },
        lower_of(lower_of(s)) == lower_of(s),
{
    let t = lower_of(s);
    assert forall|i: int| 0 <= i < s.len() implies lower_of(t)[i] == t[i] by {
    }
    assert(lower_of(t) == t);
}

/// Padding fills a text up with spaces at its end, to a width, and never shortens it.
pub proof fn padding_fills_up_to_the_width(s: Seq<char>, width: nat)
    ensures
        padded(s, width).len() == if s.len() < width {
            width
        } else {
            s.len()
        },
        padded(s, width).subrange(0, s.len() as int) == s,
        forall|i: int| s.len() <= i < padded(s, width).len() ==> #[trigger] padded(s, width)[i] == ' ',
{
}

/// Shortening leaves a text that fits; another is cut to the very width, and where there is room for
/// them three dots show the cut.
pub proof fn what_is_too_long_is_cut(s: Seq<char>, max: nat)
    ensures
        s.len() <= max ==> truncated(s, max) == s,
        s.len() > max ==> truncated(s, max).len() == max,
        s.len() > max && max <= 3 ==> truncated(s, max) == s.subrange(0, max as int),
        s.len() > max && max > 3 ==> truncated(s, max) == s.subrange(0, max - 3) + seq!['.', '.', '.'],
{
    reveal_strlit("...");
    assert("..."@ == seq!['.', '.', '.']);
    if s.len() > max {
        assert(s.take(max as int) == s.subrange(0, max as int));
        if max > 3 {
            assert(s.take(max - 3) == s.subrange(0, max - 3));
        }
    }
}

/// A number that is written out is read as that number, with its sign, up to the largest one asked for.
pub proof fn a_written_number_is_read_back(n: nat, max: nat, m: int)
    ensures
        unsigned_of(decimal_of(n), max) == if n <= max {
            Some(n)
        } else {
            None
        },
        -0x8000_0000_0000_0000 <= m <= 0x7fff_ffff_ffff_ffff ==> signed_of(signed_decimal_of(m))
            == Some(m),
{
    decimal_round_trip(n);
    lemma_first_digit(n);
    if -0x8000_0000_0000_0000 <= m <= 0x7fff_ffff_ffff_ffff {
        if m < 0 {
            let k = (-m) as nat;
            decimal_round_trip(k);
            lemma_first_digit(k);
            reveal_strlit("-");
            let t = "-"@ + decimal_of(k);
            assert(t[0] == '-');
            assert(t.subrange(1, t.len() as int) == decimal_of(k));
        } else {
            decimal_round_trip(m as nat);
            lemma_first_digit(m as nat);
        }
    }
}

proof fn lemma_first_digit(n: nat)
    ensures
        decimal_of(n).len() > 0,
        is_digit(decimal_of(n)[0]),
    decreases n,
{
    if n >= 10 {
        lemma_first_digit(n / 10);
    }
}

} // verus!
