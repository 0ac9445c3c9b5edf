//! Text helpers shared by the rest of the crate.
//!
//! Contracts speak of a text as its sequence of characters. The functions
//! here move between `String` and `Vec<char>` and do the scanning that the
//! shell needs: trimming, splitting into words, prefixes and ordering.

use vstd::arithmetic::div_mod::{lemma_add_mod_noop, lemma_mod_self_0, lemma_small_mod};
use vstd::prelude::*;
use vstd::std_specs::iter::IteratorSpec;
use vstd::string::StringExecFns;
use vstd::utf8::{
    decode_utf8, decode_utf8_encode_utf8, encode_utf8, encode_utf8_decode_utf8,
    encode_utf8_first_scalar, encode_utf8_valid_utf8, is_char_boundary, pop_first_scalar,
    valid_utf8_split,
};

verus! {

/// `String::push` appends one character to the end of the string.
pub assume_specification[ String::push ](s: &mut String, c: char)
    ensures
        final(s)@ == old(s)@.push(c),
;

/// Whether `c` has the Unicode property White_Space: the controls from tab
/// to carriage return, the space, next line, the no-break space, and the
/// spaces and separators of the general punctuation and ideographic blocks.
pub open spec fn is_whitespace(c: char) -> bool {
    let v = c as u32;
    ||| 0x09 <= v <= 0x0D
    ||| v == 0x20
    ||| v == 0x85
    ||| v == 0xA0
    ||| v == 0x1680
    ||| 0x2000 <= v <= 0x200A
    ||| v == 0x2028
    ||| v == 0x2029
    ||| v == 0x202F
    ||| v == 0x205F
    ||| v == 0x3000
}

/// `char::is_whitespace` tells whether a character has the Unicode property
/// White_Space, which is the set of code points that `is_whitespace` lists.
#[verifier::external_body]
pub(crate) fn char_is_whitespace(c: char) -> (b: bool)
    ensures
        b == is_whitespace(c),
{
    c.is_whitespace()
}

/// The characters of `s`, in order.
pub fn chars_of(s: &str) -> (v: Vec<char>)
    ensures
        v@ == s@,
{
    broadcast use vstd::string::group_string_axioms;

    let mut v: Vec<char> = Vec::new();
    let mut it = s.chars();
    loop
        invariant
            v@ + it.remaining() == s@,
        ensures
            v@ == s@,
        decreases s@.len() - v@.len(),
    {
        match it.next() {
            Some(c) => {
                v.push(c);
            },
            None => {
                break ;
            },
        }
    }
    v
}

/// The string made of the characters `v[from..to]`, in order.
pub fn string_of_range(v: &[char], from: usize, to: usize) -> (s: String)
    requires
        from <= to <= v.len(),
    ensures
        s@ == v@.subrange(from as int, to as int),
{
    let mut s = String::new();
    let mut i: usize = from;
    while i < to
        invariant
            from <= i <= to <= v.len(),
            s@ == v@.subrange(from as int, i as int),
        decreases to - i,
    {
        s.push(v[i]);
        i += 1;
    }
    s
}

/// The string made of the characters of `v`, in order.
pub fn string_of(v: &[char]) -> (s: String)
    ensures
        s@ == v@,
{
    string_of_range(v, 0, v.len())
}

/// How many white-space characters stand at the start of `s`.
pub open spec fn leading_whitespace(s: Seq<char>) -> int
    decreases s.len(),
{
    if s.len() > 0 && is_whitespace(s[0]) {
        1 + leading_whitespace(s.drop_first())
    } else {
        0
    }
}

/// How many white-space characters stand at the end of `s`.
pub open spec fn trailing_whitespace(s: Seq<char>) -> int
    decreases s.len(),
{
    if s.len() > 0 && is_whitespace(s.last()) {
        1 + trailing_whitespace(s.drop_last())
    } else {
        0
    }
}

/// `s` without the white space at its start and at its end.
pub open spec fn trimmed(s: Seq<char>) -> Seq<char> {
    let rest = s.skip(leading_whitespace(s));
    rest.take(rest.len() - trailing_whitespace(rest))
}

/// The characters `v[from..to]`, in order.
pub fn sub_chars(v: &[char], from: usize, to: usize) -> (out: Vec<char>)
    requires
        from <= to <= v.len(),
    ensures
        out@ == v@.subrange(from as int, to as int),
{
    let mut out: Vec<char> = Vec::new();
    let mut i: usize = from;
    while i < to
        invariant
            from <= i <= to <= v.len(),
            out@ == v@.subrange(from as int, i as int),
        decreases to - i,
    {
        out.push(v[i]);
        i += 1;
    }
    out
}

/// `chars` without the white space at its start and at its end.
pub fn trim_chars(chars: &[char]) -> (out: Vec<char>)
    ensures
        out@ == trimmed(chars@),
{
    let mut i: usize = 0;
    proof {
        assert(chars@.skip(0) =~= chars@);
    }
    while i < chars.len() && char_is_whitespace(chars[i])
        invariant
            i <= chars.len(),
            leading_whitespace(chars@) == i + leading_whitespace(chars@.skip(i as int)),
        decreases chars.len() - i,
    {
        proof {
            assert(chars@.skip(i as int).drop_first() =~= chars@.skip(i + 1));
        }
        i += 1;
    }
    let ghost rest = chars@.skip(i as int);
    let mut j: usize = chars.len();
    proof {
        assert(rest.take(rest.len() as int) =~= rest);
    }
    while j > i && char_is_whitespace(chars[j - 1])
        invariant
            i <= j <= chars.len(),
            rest == chars@.skip(i as int),
            trailing_whitespace(rest) == (chars.len() - j) + trailing_whitespace(
                rest.take(j - i),
            ),
        decreases j,
    {
        proof {
            assert(rest.take(j - i).drop_last() =~= rest.take(j - i - 1));
        }
        j -= 1;
    }
    sub_chars(chars, i, j)
}

/// `s` without the white space at its start and at its end.
pub fn trim(s: &str) -> (t: String)
    ensures
        t@ == trimmed(s@),
{
    let chars = chars_of(s);
    let kept = trim_chars(chars.as_slice());
    string_of(kept.as_slice())
}

/// The length of the run of characters at the start of `s` that are not
/// white space.
pub open spec fn word_end(s: Seq<char>) -> int
    decreases s.len(),
{
    if s.len() > 0 && !is_whitespace(s[0]) {
        1 + word_end(s.drop_first())
    } else {
        0
    }
}

/// The words of `s`: its longest runs of characters that are not white space,
/// in order.
pub open spec fn words_of(s: Seq<char>) -> Seq<Seq<char>>
    decreases s.len(),
{
    if s.len() == 0 {
        Seq::empty()
    } else if is_whitespace(s[0]) {
        words_of(s.drop_first())
    } else {
        let n = word_end(s);
        if 0 < n <= s.len() {
            seq![s.take(n)] + words_of(s.skip(n))
        } else {
            Seq::empty()
        }
    }
}

/// A word ends within the sequence, and is not empty where the sequence
/// starts with a character that is not white space.
pub proof fn lemma_word_end_bounds(s: Seq<char>)
    ensures
        0 <= word_end(s) <= s.len(),
        s.len() > 0 && !is_whitespace(s[0]) ==> word_end(s) > 0,
    decreases s.len(),
{
    if s.len() > 0 {
        lemma_word_end_bounds(s.drop_first());
    }
}

/// The texts that `words` hold, in order.
pub open spec fn char_views(words: Seq<Vec<char>>) -> Seq<Seq<char>> {
    words.map_values(|w: Vec<char>| w@)
}

/// The texts that `strings` hold, in order.
pub open spec fn string_views(strings: Seq<String>) -> Seq<Seq<char>> {
    strings.map_values(|s: String| s@)
}

/// The words of `s`, in order.
pub fn split_words(s: &[char]) -> (words: Vec<Vec<char>>)
    ensures
        char_views(words@) == words_of(s@),
{
    let mut words: Vec<Vec<char>> = Vec::new();
    let mut i: usize = 0;
    proof {
        assert(s@.skip(0) =~= s@);
    }
    while i < s.len()
        invariant
            i <= s.len(),
            char_views(words@) + words_of(s@.skip(i as int)) == words_of(s@),
        decreases s.len() - i,
    {
        let ghost tail = s@.skip(i as int);
        if char_is_whitespace(s[i]) {
            proof {
                assert(tail.drop_first() =~= s@.skip(i + 1));
            }
            i += 1;
        } else {
            let start = i;
            let mut word: Vec<char> = Vec::new();
            while i < s.len() && !char_is_whitespace(s[i])
                invariant
                    start <= i <= s.len(),
                    word@ == s@.subrange(start as int, i as int),
                    word_end(tail) == (i - start) + word_end(s@.skip(i as int)),
                    tail == s@.skip(start as int),
                decreases s.len() - i,
            {
                word.push(s[i]);
                proof {
                    assert(s@.skip(i as int).drop_first() =~= s@.skip(i + 1));
                }
                i += 1;
            }
            proof {
                let n = word_end(tail);
                lemma_word_end_bounds(tail);
                assert(tail.take(n) =~= word@);
                assert(tail.skip(n) =~= s@.skip(i as int));
            }
            words.push(word);
        }
    }
    words
}

/// `prefix` stands at the start of `s`.
pub open spec fn has_prefix(s: Seq<char>, prefix: Seq<char>) -> bool {
    prefix.len() <= s.len() && s.take(prefix.len() as int) == prefix
}

/// Whether `prefix` stands at the start of `s`.
pub fn starts_with(s: &[char], prefix: &[char]) -> (b: bool)
    ensures
        b == has_prefix(s@, prefix@),
{
    if prefix.len() > s.len() {
        return false;
    }
    let mut i: usize = 0;
    while i < prefix.len()
        invariant
            i <= prefix.len() <= s.len(),
            s@.take(i as int) == prefix@.take(i as int),
        decreases prefix.len() - i,
    {
        if s[i] != prefix[i] {
            return false;
        }
        i += 1;
    }
    proof {
        assert(prefix@.take(prefix.len() as int) =~= prefix@);
    }
    true
}

/// Whether two texts hold the same characters.
pub fn same_chars(a: &[char], b: &[char]) -> (eq: bool)
    ensures
        eq == (a@ == b@),
{
    if a.len() != b.len() {
        return false;
    }
    let same = starts_with(a, b);
    proof {
        assert(a@.take(a.len() as int) =~= a@);
    }
    same
}

/// `a` comes before `b` in the order of a dictionary whose alphabet is the
/// characters in the order of their code points: at the first place where the
/// two differ `a` has the smaller character, or `a` ends there and `b` does
/// not.
pub open spec fn lex_lt(a: Seq<char>, b: Seq<char>) -> bool
    decreases a.len(),
{
    if b.len() == 0 {
        false
    } else if a.len() == 0 {
        true
    } else if a[0] != b[0] {
        (a[0] as u32) < (b[0] as u32)
    } else {
        lex_lt(a.drop_first(), b.drop_first())
    }
}

/// Whether `a` comes before `b` in that order.
pub fn is_before(a: &[char], b: &[char]) -> (lt: bool)
    ensures
        lt == lex_lt(a@, b@),
{
    let mut i: usize = 0;
    proof {
        assert(a@.skip(0) =~= a@);
        assert(b@.skip(0) =~= b@);
    }
    while i < a.len() && i < b.len()
        invariant
            i <= a.len(),
            i <= b.len(),
            lex_lt(a@, b@) == lex_lt(a@.skip(i as int), b@.skip(i as int)),
        decreases a.len() - i,
    {
        let x = a[i];
        let y = b[i];
        if x != y {
            return (x as u32) < (y as u32);
        }
        proof {
            assert(a@.skip(i as int).drop_first() =~= a@.skip(i + 1));
            assert(b@.skip(i as int).drop_first() =~= b@.skip(i + 1));
        }
        i += 1;
    }
    i < b.len()
}

/// No text comes before itself.
pub proof fn lemma_lex_irreflexive(a: Seq<char>)
    ensures
        !lex_lt(a, a),
    decreases a.len(),
{
    if a.len() > 0 {
        lemma_lex_irreflexive(a.drop_first());
    }
}

/// The order is transitive.
pub proof fn lemma_lex_transitive(a: Seq<char>, b: Seq<char>, c: Seq<char>)
    requires
        lex_lt(a, b),
        lex_lt(b, c),
    ensures
        lex_lt(a, c),
    decreases a.len(),
{
    if a.len() > 0 && b.len() > 0 && c.len() > 0 {
        if a[0] == b[0] && b[0] == c[0] {
            lemma_lex_transitive(a.drop_first(), b.drop_first(), c.drop_first());
        }
    }
}

/// Of two different texts one comes before the other.
pub proof fn lemma_lex_total(a: Seq<char>, b: Seq<char>)
    ensures
        lex_lt(a, b) || lex_lt(b, a) || a == b,
    decreases a.len(),
{
    if a.len() > 0 && b.len() > 0 {
        if a[0] == b[0] {
            lemma_lex_total(a.drop_first(), b.drop_first());
            if a.drop_first() == b.drop_first() {
                assert(a =~= seq![a[0]] + a.drop_first());
            }
        } else {
            vstd::utf8::char_u32_cast(a[0], a[0] as u32);
            vstd::utf8::char_u32_cast(b[0], b[0] as u32);
        }
    }
}

/// The digit that `c` stands for in a number of base `radix`: `0` to `9`
/// are 0 to 9, and the letters `a` to `z`, small or capital, are 10 to 35.
/// There is none if that is not below `radix`.
pub open spec fn digit_value(c: char, radix: u32) -> Option<u32> {
    let v = c as u32;
    let d = if 48 <= v <= 57 {
        v - 48
    } else if 97 <= v <= 122 {
        v - 97 + 10
    } else if 65 <= v <= 90 {
        v - 65 + 10
    } else {
        radix as int
    };
    if d < radix {
        Some(d as u32)
    } else {
        None
    }
}

/// The number that the digits `s` spell in base `radix`, if all are digits.
pub open spec fn digits_value(s: Seq<char>, radix: u32) -> Option<nat>
    decreases s.len(),
{
    if s.len() == 0 {
        Some(0)
    } else {
        match (digits_value(s.drop_last(), radix), digit_value(s.last(), radix)) {
            (Some(high), Some(d)) => Some((high * radix + d) as nat),
            _ => None,
        }
    }
}

/// The number below 256 that `s` spells in base `radix`: an optional `+` and
/// then one digit or more, and nothing else.
pub open spec fn parsed_u8(s: Seq<char>, radix: u32) -> Option<u8> {
    let digits = if s.len() > 0 && s[0] == '+' {
        s.drop_first()
    } else {
        s
    };
    if digits.len() == 0 {
        None
    } else {
        match digits_value(digits, radix) {
            Some(v) => if v <= 255 {
                Some(v as u8)
            } else {
                None
            },
            None => None,
        }
    }
}

/// The digit that `c` stands for in base `radix`.
pub fn to_digit(c: char, radix: u32) -> (d: Option<u32>)
    requires
        1 <= radix <= 36,
    ensures
        d == digit_value(c, radix),
{
    let v = c as u32;
    let d = if 48 <= v && v <= 57 {
        v - 48
    } else if 97 <= v && v <= 122 {
        v - 97 + 10
    } else if 65 <= v && v <= 90 {
        v - 65 + 10
    } else {
        radix
    };
    if d < radix {
        Some(d)
    } else {
        None
    }
}

/// The number below 256 that `s` spells in base `radix`.
pub fn parse_u8(s: &[char], radix: u32) -> (r: Option<u8>)
    requires
        1 <= radix <= 36,
    ensures
        r == parsed_u8(s@, radix),
{
    let start: usize = if s.len() > 0 && s[0] == '+' {
        1
    } else {
        0
    };
    if start == s.len() {
        return None;
    }
    let ghost digits = s@.skip(start as int);
    // The value so far, or 256 for every value above 255.
    let mut acc: u32 = 0;
    let mut i: usize = start;
    while i < s.len()
        invariant
            start <= i <= s.len(),
            1 <= radix <= 36,
            digits == s@.skip(start as int),
            digits == (if s@.len() > 0 && s@[0] == '+' {
                s@.drop_first()
            } else {
                s@
            }),
            digits.len() > 0,
            acc <= 256,
            match digits_value(digits.take(i - start), radix) {
                Some(v) => if v <= 255 {
                    acc == v
                } else {
                    acc == 256
                },
                None => false,
            },
        decreases s.len() - i,
    {
        let ghost k = i - start;
        proof {
            assert(digits.take(k + 1).drop_last() =~= digits.take(k));
        }
        match to_digit(s[i], radix) {
            Some(d) => {
                let ghost high = digits_value(digits.take(k), radix)->Some_0;
                proof {
                    assert(high * radix + d >= high) by (nonlinear_arith)
                        requires
                            radix >= 1,
                            high >= 0,
                            d >= 0,
                    ;
                    if high <= 255 {
                        assert(high * radix <= 255 * 36) by (nonlinear_arith)
                            requires
                                0 <= high <= 255,
                                1 <= radix <= 36,
                        ;
                    }
                }
                if acc <= 255 {
                    let next = acc * radix + d;
                    acc = if next > 255 {
                        256
                    } else {
                        next
                    };
                }
            },
            None => {
                proof {
                    lemma_digits_value_prefix(digits, k + 1, radix);
                }
                return None;
            },
        }
        i += 1;
    }
    proof {
        assert(digits.take(digits.len() as int) =~= digits);
    }
    if acc <= 255 {
        Some(acc as u8)
    } else {
        None
    }
}

/// If the first `n` characters do not spell a number, neither does the
/// whole.
pub proof fn lemma_digits_value_prefix(s: Seq<char>, n: int, radix: u32)
    requires
        0 <= n <= s.len(),
        digits_value(s.take(n), radix) is None,
    ensures
        digits_value(s, radix) is None,
    decreases s.len(),
{
    if n < s.len() {
        assert(s.drop_last().take(n) =~= s.take(n));
        lemma_digits_value_prefix(s.drop_last(), n, radix);
    } else {
        assert(s.take(n) =~= s);
    }
}

/// The index of the first `sep` in `s`, or the length of `s` if it holds
/// none.
pub open spec fn field_end(s: Seq<char>, sep: char) -> int
    decreases s.len(),
{
    if s.len() == 0 || s[0] == sep {
        0
    } else {
        1 + field_end(s.drop_first(), sep)
    }
}

/// The pieces of `s` between the characters `sep`, in order: one more than
/// there are separators.
pub open spec fn fields_of(s: Seq<char>, sep: char) -> Seq<Seq<char>>
    decreases s.len(),
{
    let n = field_end(s, sep);
    if 0 <= n < s.len() {
        seq![s.take(n)] + fields_of(s.skip(n + 1), sep)
    } else {
        seq![s]
    }
}

/// The pieces of `s` between the characters `sep`, in order.
pub fn split_fields(s: &[char], sep: char) -> (out: Vec<Vec<char>>)
    ensures
        char_views(out@) == fields_of(s@, sep),
{
    let mut out: Vec<Vec<char>> = Vec::new();
    let mut field: Vec<char> = Vec::new();
    let mut start: usize = 0;
    let mut i: usize = 0;
    proof {
        assert(s@.skip(0) =~= s@);
    }
    while i < s.len()
        invariant
            start <= i <= s.len(),
            field@ == s@.subrange(start as int, i as int),
            char_views(out@) + fields_of(s@.skip(start as int), sep) == fields_of(s@, sep),
            field_end(s@.skip(start as int), sep) == (i - start) + field_end(
                s@.skip(i as int),
                sep,
            ),
        decreases s.len() - i,
    {
        let ghost tail = s@.skip(start as int);
        if s[i] == sep {
            proof {
                let n = field_end(tail, sep);
                assert(tail.take(n) =~= field@);
                assert(tail.skip(n + 1) =~= s@.skip(i + 1));
            }
            out.push(field);
            field = Vec::new();
            start = i + 1;
        } else {
            field.push(s[i]);
            proof {
                assert(s@.skip(i as int).drop_first() =~= s@.skip(i + 1));
            }
        }
        i += 1;
    }
    out.push(field);
    out
}

/// The small letter for a capital letter from `A` to `Z`, and any other
/// character as it is.
pub open spec fn ascii_lower(c: char) -> char {
    if 65 <= c as u32 <= 90 {
        ((c as u32) + 32) as char
    } else {
        c
    }
}

/// The small letter for a capital letter from `A` to `Z`, and any other
/// character as it is.
pub fn to_ascii_lower(c: char) -> (r: char)
    ensures
        r == ascii_lower(c),
{
    if 'A' <= c && c <= 'Z' {
        let code: u8 = c as u8;
        (code + 32) as char
    } else {
        c
    }
}

/// `s` with its capital letters from `A` to `Z` made small.
pub open spec fn lowered(s: Seq<char>) -> Seq<char> {
    s.map_values(|c: char| ascii_lower(c))
}

/// `s` with its capital letters from `A` to `Z` made small.
pub fn to_lower(s: &[char]) -> (out: Vec<char>)
    ensures
        out@ == lowered(s@),
{
    let mut out: Vec<char> = Vec::new();
    let mut i: usize = 0;
    while i < s.len()
        invariant
            i <= s.len(),
            out@ == lowered(s@).take(i as int),
        decreases s.len() - i,
    {
        out.push(to_ascii_lower(s[i]));
        i += 1;
    }
    out
}

/// Each text comes before all that follow it.
pub open spec fn strictly_sorted(list: Seq<Seq<char>>) -> bool {
    forall|i: int, j: int| 0 <= i < j < list.len() ==> lex_lt(#[trigger] list[i], #[trigger] list[j])
}

/// `list` holds the texts of `names`, each once, in ascending order.
pub open spec fn sorted_listing_of(list: Seq<Seq<char>>, names: Set<Seq<char>>) -> bool {
    strictly_sorted(list) && forall|n: Seq<char>| list.contains(n) <==> names.contains(n)
}

/// Two ascending lists without repetition that hold the same texts are the
/// same list.
pub proof fn lemma_sorted_listing_is_unique(a: Seq<Seq<char>>, b: Seq<Seq<char>>)
    requires
        strictly_sorted(a),
        strictly_sorted(b),
        forall|n: Seq<char>| a.contains(n) <==> b.contains(n),
    ensures
        a == b,
    decreases a.len(),
{
    if a.len() == 0 {
        if b.len() > 0 {
            assert(b.contains(b[0]));
        }
    } else if b.len() == 0 {
        assert(a.contains(a[0]));
    } else {
        // The first of each list is the least text of both.
        assert(a.contains(a[0]));
        assert(b.contains(b[0]));
        let i = choose|i: int| 0 <= i < b.len() && b[i] == a[0];
        let j = choose|j: int| 0 <= j < a.len() && a[j] == b[0];
        if i > 0 && j > 0 {
            lemma_lex_transitive(a[0], b[0], a[0]);
            lemma_lex_irreflexive(a[0]);
        }
        if i > 0 && j == 0 {
            lemma_lex_irreflexive(a[0]);
        }
        if i == 0 && j > 0 {
            lemma_lex_irreflexive(a[0]);
        }
        let ar = a.drop_first();
        let br = b.drop_first();
        assert forall|n: Seq<char>| ar.contains(n) <==> br.contains(n) by {
            if ar.contains(n) {
                assert(a.contains(n));
                let m = choose|m: int| 0 <= m < b.len() && b[m] == n;
                if m == 0 {
                    lemma_lex_irreflexive(n);
                }
                assert(br[m - 1] == n);
            }
            if br.contains(n) {
                assert(b.contains(n));
                let m = choose|m: int| 0 <= m < a.len() && a[m] == n;
                if m == 0 {
                    lemma_lex_irreflexive(n);
                }
                assert(ar[m - 1] == n);
            }
        }
        lemma_sorted_listing_is_unique(ar, br);
        assert(a =~= seq![a[0]] + ar);
    }
}

/// Puts `item` at its place in the ascending list, unless the list holds it
/// already.
pub fn insert_sorted(list: &mut Vec<Vec<char>>, item: Vec<char>)
    requires
        strictly_sorted(char_views(old(list)@)),
    ensures
        strictly_sorted(char_views(final(list)@)),
        forall|n: Seq<char>|
            char_views(final(list)@).contains(n) <==> (char_views(old(list)@).contains(n) || n
                == item@),
{
    let ghost before = char_views(list@);
    let mut p: usize = 0;
    while p < list.len() && is_before(list[p].as_slice(), item.as_slice())
        invariant
            p <= list.len(),
            before == char_views(list@),
            forall|i: int| 0 <= i < p ==> lex_lt(#[trigger] before[i], item@),
        decreases list.len() - p,
    {
        p += 1;
    }
    if p < list.len() && same_chars(list[p].as_slice(), item.as_slice()) {
        assert(before[p as int] == item@);
        return ;
    }
    proof {
        let after = before.insert(p as int, item@);
        assert(char_views(list@.insert(p as int, item)) =~= after);
        if p < before.len() {
            lemma_lex_total(before[p as int], item@);
        }
        assert forall|i: int, j: int| 0 <= i < j < after.len() implies lex_lt(
            #[trigger] after[i],
            #[trigger] after[j],
        ) by {
            if i < p && p < j {
                lemma_lex_transitive(before[i], item@, before[p as int]);
                if p < j - 1 {
                    lemma_lex_transitive(before[i], before[p as int], before[j - 1]);
                }
            } else if i == p && p < j - 1 {
                lemma_lex_transitive(item@, before[p as int], before[j - 1]);
            }
        }
        assert forall|n: Seq<char>| after.contains(n) <==> (before.contains(n) || n
            == item@) by {
            if before.contains(n) {
                let k = choose|k: int| 0 <= k < before.len() && before[k] == n;
                if k < p {
                    assert(after[k] == n);
                } else {
                    assert(after[k + 1] == n);
                }
            }
            if n == item@ {
                assert(after[p as int] == n);
            }
        }
    }
    list.insert(p, item);
}

/// The strings for the texts of `list`, in order.
pub fn strings_of(list: &Vec<Vec<char>>) -> (out: Vec<String>)
    ensures
        string_views(out@) == char_views(list@),
{
    let mut out: Vec<String> = Vec::new();
    let mut i: usize = 0;
    while i < list.len()
        invariant
            i <= list.len(),
            string_views(out@) == char_views(list@).take(i as int),
        decreases list.len() - i,
    {
        let s = string_of(list[i].as_slice());
        proof {
            assert(string_views(out@.push(s)) =~= string_views(out@).push(s@));
        }
        out.push(s);
        i += 1;
    }
    out
}

/// Whether two strings hold the same text.
pub fn same_text(a: &str, b: &str) -> (eq: bool)
    ensures
        eq == (a@ == b@),
{
    same_chars(chars_of(a).as_slice(), chars_of(b).as_slice())
}

/// `suffix` stands at the end of `s`.
pub open spec fn has_suffix(s: Seq<char>, suffix: Seq<char>) -> bool {
    suffix.len() <= s.len() && s.skip(s.len() - suffix.len()) == suffix
}

/// Whether `suffix` stands at the end of `s`.
pub fn ends_with(s: &[char], suffix: &[char]) -> (b: bool)
    ensures
        b == has_suffix(s@, suffix@),
{
    if suffix.len() > s.len() {
        return false;
    }
    let tail = sub_chars(s, s.len() - suffix.len(), s.len());
    same_chars(tail.as_slice(), suffix)
}

/// How many bytes the UTF-8 form of `s` has.
pub open spec fn byte_len(s: Seq<char>) -> nat {
    encode_utf8(s).len()
}

/// Byte offset `at` of the UTF-8 form of `s` is where a character starts,
/// or the end of the text.
pub open spec fn at_boundary(s: Seq<char>, at: int) -> bool {
    is_char_boundary(encode_utf8(s), at)
}

/// The characters of `s` whose bytes come before byte offset `at`.
pub open spec fn text_before(s: Seq<char>, at: int) -> Seq<char>
    recommends
        at_boundary(s, at),
{
    decode_utf8(encode_utf8(s).subrange(0, at))
}

/// The characters of `s` whose bytes start at byte offset `at` or later.
pub open spec fn text_from(s: Seq<char>, at: int) -> Seq<char>
    recommends
        at_boundary(s, at),
{
    decode_utf8(encode_utf8(s).subrange(at, encode_utf8(s).len() as int))
}

/// `s` with `c` put in at byte offset `at`.
pub open spec fn with_char_at(s: Seq<char>, at: int, c: char) -> Seq<char>
    recommends
        at_boundary(s, at),
{
    text_before(s, at).push(c) + text_from(s, at)
}

/// `s` without the character that starts at byte offset `at`.
pub open spec fn without_char_at(s: Seq<char>, at: int) -> Seq<char>
    recommends
        at_boundary(s, at),
        at < byte_len(s),
{
    text_before(s, at) + text_from(s, at).drop_first()
}

/// The bytes of two texts in a row are the bytes of the first and then the
/// bytes of the second.
pub proof fn lemma_bytes_of_concat(a: Seq<char>, b: Seq<char>)
    ensures
        encode_utf8(a + b) == encode_utf8(a) + encode_utf8(b),
    decreases a.len(),
{
    if a.len() > 0 {
        lemma_bytes_of_concat(a.drop_first(), b);
        assert((a + b).drop_first() =~= a.drop_first() + b);
    }
}

/// One character takes from one to four bytes, and one byte exactly where
/// it is a character of ASCII.
pub proof fn lemma_bytes_of_one(c: char)
    ensures
        1 <= byte_len(seq![c]) <= 4,
        byte_len(seq![c]) == 1 <==> c as u32 <= 0x7F,
{
    reveal_with_fuel(encode_utf8, 2);
}

/// Where the first of two texts in a row ends, a character starts or the
/// whole text ends.
pub proof fn lemma_boundary_between(a: Seq<char>, b: Seq<char>)
    ensures
        at_boundary(a + b, byte_len(a) as int),
    decreases a.len(),
{
    let bytes = encode_utf8(a + b);
    encode_utf8_valid_utf8(a + b);
    if a.len() > 0 {
        let rest = a.drop_first();
        lemma_boundary_between(rest, b);
        assert((a + b).drop_first() =~= rest + b);
        encode_utf8_first_scalar(a + b);
        assert(pop_first_scalar(bytes) =~= encode_utf8(rest + b));
        lemma_bytes_of_concat(a, b);
        lemma_bytes_of_one(a[0]);
    }
}

/// A boundary cuts the bytes of a text into the bytes of what stands before
/// it and the bytes of what stands after it.
pub proof fn lemma_boundary_splits(s: Seq<char>, at: int)
    requires
        at_boundary(s, at),
    ensures
        0 <= at <= byte_len(s),
        encode_utf8(text_before(s, at)) == encode_utf8(s).subrange(0, at),
        encode_utf8(text_from(s, at)) == encode_utf8(s).subrange(at, byte_len(s) as int),
        text_before(s, at) + text_from(s, at) == s,
{
    let bytes = encode_utf8(s);
    encode_utf8_valid_utf8(s);
    valid_utf8_split(bytes, at);
    decode_utf8_encode_utf8(bytes.subrange(0, at));
    decode_utf8_encode_utf8(bytes.subrange(at, bytes.len() as int));
    lemma_bytes_of_concat(text_before(s, at), text_from(s, at));
    assert(bytes.subrange(0, at) + bytes.subrange(at, bytes.len() as int) =~= bytes);
    encode_utf8_decode_utf8(text_before(s, at) + text_from(s, at));
    encode_utf8_decode_utf8(s);
}

/// Putting a character in at a boundary puts its bytes between the bytes
/// before the boundary and the bytes after it.
pub proof fn lemma_with_char_at_bytes(s: Seq<char>, at: int, c: char)
    requires
        at_boundary(s, at),
    ensures
        encode_utf8(with_char_at(s, at, c)) == encode_utf8(s).subrange(0, at) + encode_utf8(seq![c])
            + encode_utf8(s).subrange(at, byte_len(s) as int),
        byte_len(with_char_at(s, at, c)) == byte_len(s) + byte_len(seq![c]),
        byte_len(with_char_at(s, at, c)) > at,
{
    lemma_boundary_splits(s, at);
    lemma_bytes_of_one(c);
    let head = text_before(s, at);
    let tail = text_from(s, at);
    assert(head.push(c) =~= head + seq![c]);
    lemma_bytes_of_concat(head, seq![c]);
    lemma_bytes_of_concat(head.push(c), tail);
}

/// A character that was put in at a boundary starts at a boundary and ends
/// at one.
pub proof fn lemma_with_char_at_boundaries(s: Seq<char>, at: int, c: char)
    requires
        at_boundary(s, at),
    ensures
        at_boundary(with_char_at(s, at, c), at),
        at_boundary(with_char_at(s, at, c), at + byte_len(seq![c])),
{
    lemma_boundary_splits(s, at);
    let head = text_before(s, at);
    let tail = text_from(s, at);
    assert(with_char_at(s, at, c) =~= head + (seq![c] + tail));
    lemma_boundary_between(head, seq![c] + tail);
    assert(head.push(c) =~= head + seq![c]);
    lemma_bytes_of_concat(head, seq![c]);
    lemma_boundary_between(head.push(c), tail);
}

/// Where a character was taken out at a boundary, there is a boundary.
pub proof fn lemma_without_char_at_boundary(s: Seq<char>, at: int)
    requires
        at_boundary(s, at),
        at < byte_len(s),
    ensures
        at_boundary(without_char_at(s, at), at),
{
    lemma_boundary_splits(s, at);
    lemma_boundary_between(text_before(s, at), text_from(s, at).drop_first());
}

/// Taking out the character at a boundary leaves the bytes before the
/// boundary and the bytes of the characters after the one taken.
pub proof fn lemma_without_char_at_bytes(s: Seq<char>, at: int)
    requires
        at_boundary(s, at),
        at < byte_len(s),
    ensures
        text_from(s, at).len() > 0,
        encode_utf8(without_char_at(s, at)) == encode_utf8(s).subrange(0, at) + encode_utf8(
            text_from(s, at).drop_first(),
        ),
        byte_len(s) == byte_len(without_char_at(s, at)) + byte_len(seq![text_from(s, at)[0]]),
        at <= byte_len(without_char_at(s, at)) < byte_len(s),
{
    lemma_boundary_splits(s, at);
    let head = text_before(s, at);
    let tail = text_from(s, at);
    lemma_bytes_of_one(tail[0]);
    assert(tail =~= seq![tail[0]] + tail.drop_first());
    lemma_bytes_of_concat(seq![tail[0]], tail.drop_first());
    lemma_bytes_of_concat(head, tail.drop_first());
}

/// How many bytes the UTF-8 form of `s` has.
pub fn byte_count(s: &str) -> (n: usize)
    ensures
        n == byte_len(s@),
{
    s.as_bytes().len()
}

/// `s` with `c` put in at byte offset `at`.
pub fn insert_char_at(s: &str, at: usize, c: char) -> (r: String)
    requires
        at_boundary(s@, at as int),
    ensures
        r@ == with_char_at(s@, at as int, c),
{
    let (head, tail) = s.split_at(at);
    proof {
        encode_utf8_decode_utf8(head@);
        encode_utf8_decode_utf8(tail@);
    }
    let mut r = head.to_owned();
    r.push(c);
    r.append(tail);
    r
}

/// `s` without the character that starts at byte offset `at`.
pub fn remove_char_at(s: &str, at: usize) -> (r: String)
    requires
        at_boundary(s@, at as int),
        at < byte_len(s@),
    ensures
        r@ == without_char_at(s@, at as int),
{
    let (head, tail) = s.split_at(at);
    proof {
        encode_utf8_decode_utf8(head@);
        encode_utf8_decode_utf8(tail@);
        lemma_without_char_at_bytes(s@, at as int);
    }
    let rest = chars_of(tail);
    let mut r = head.to_owned();
    let kept = string_of_range(rest.as_slice(), 1, rest.len());
    r.append(kept.as_str());
    r
}

/// The next place after `index` among `len` places in a ring.
pub fn ring_next(index: usize, len: usize) -> (r: usize)
    requires
        len > 0,
    ensures
        r == (index + 1) % (len as int),
{
    let here = index % len;
    proof {
        lemma_add_mod_noop(index as int, 1, len as int);
        if len != 1 {
            lemma_small_mod(1, len as nat);
        }
        if here + 1 < len {
            lemma_small_mod((here + 1) as nat, len as nat);
        } else {
            lemma_mod_self_0(len as int);
        }
    }
    if here + 1 < len {
        here + 1
    } else {
        0
    }
}

/// The place before `index` among `len` places in a ring.
pub fn ring_previous(index: usize, len: usize) -> (r: usize)
    requires
        len > 0,
    ensures
        r == (index + len - 1) % (len as int),
{
    let here = index % len;
    proof {
        lemma_add_mod_noop(index as int, len - 1, len as int);
        lemma_small_mod((len - 1) as nat, len as nat);
        if here != 0 {
            lemma_add_mod_noop(here - 1, len as int, len as int);
            lemma_small_mod((here - 1) as nat, len as nat);
        }
    }
    if here == 0 {
        len - 1
    } else {
        here - 1
    }
}

} // verus!
