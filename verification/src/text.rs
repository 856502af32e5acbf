//! Character classes and slicing of `&str`, specified over `Seq<char>`.
//!
//! Every function here is verified against a spec function of the same
//! meaning on the string's view, so callers reason about text as sequences of
//! characters and never about bytes.

use vstd::prelude::*;
use vstd::std_specs::iter::IteratorSpec;
use vstd::string::*;
use vstd::utf8::{
    decode_utf8, encode_utf8, encode_utf8_decode_utf8, encode_utf8_first_scalar,
    encode_utf8_valid_utf8, is_char_boundary, is_char_boundary_iff_not_is_continuation_byte,
    length_of_first_scalar, pop_first_scalar, valid_utf8_split,
};

verus! {

/// True for the characters that carry the Unicode `White_Space` property.
pub open spec fn is_whitespace(c: char) -> bool {
    let n = c as u32;
    ||| 0x09 <= n <= 0x0D
    ||| n == 0x20
    ||| n == 0x85
    ||| n == 0xA0
    ||| n == 0x1680
    ||| 0x2000 <= n <= 0x200A
    ||| n == 0x2028
    ||| n == 0x2029
    ||| n == 0x202F
    ||| n == 0x205F
    ||| n == 0x3000
}

/// A set of characters that a scan can test for.
#[derive(Clone, Copy, Debug)]
pub enum CharClass {
    /// Characters with the `White_Space` property.
    Whitespace,
    /// Characters without the `White_Space` property.
    Visible,
    /// The one given character.
    Only(char),
    /// Every character but the given one.
    Except(char),
    /// Either of the two given characters.
    Either(char, char),
    /// Whitespace or the given character.
    WhitespaceOr(char),
    /// Any character that is neither whitespace nor the given one.
    VisibleExcept(char),
}

impl CharClass {
    pub open spec fn contains(self, c: char) -> bool {
        match self {
            CharClass::Whitespace => is_whitespace(c),
            CharClass::Visible => !is_whitespace(c),
            CharClass::Only(x) => c == x,
            CharClass::Except(x) => c != x,
            CharClass::Either(x, y) => c == x || c == y,
            CharClass::WhitespaceOr(x) => is_whitespace(c) || c == x,
            CharClass::VisibleExcept(x) => !is_whitespace(c) && c != x,
        }
    }

    /// Tests one character against the class.
    pub fn test(&self, c: char) -> (hit: bool)
        ensures
            hit == self.contains(c),
    {
        match self {
            CharClass::Whitespace => char_is_whitespace(c),
            CharClass::Visible => !char_is_whitespace(c),
            CharClass::Only(x) => c == *x,
            CharClass::Except(x) => c != *x,
            CharClass::Either(x, y) => c == *x || c == *y,
            CharClass::WhitespaceOr(x) => char_is_whitespace(c) || c == *x,
            CharClass::VisibleExcept(x) => !char_is_whitespace(c) && c != *x,
        }
    }
}

/// Tests one character for the `White_Space` property.
pub fn char_is_whitespace(c: char) -> (white: bool)
    ensures
        white == is_whitespace(c),
{
    let n: u32 = c as u32;
    (0x09 <= n && n <= 0x0D) || n == 0x20 || n == 0x85 || n == 0xA0 || n == 0x1680 || (0x2000 <= n
        && n <= 0x200A) || n == 0x2028 || n == 0x2029 || n == 0x202F || n == 0x205F || n == 0x3000
}

/// How many characters at the front of `s` belong to `class`.
pub open spec fn leading_count(s: Seq<char>, class: CharClass) -> nat
    decreases s.len(),
{
    if s.len() > 0 && class.contains(s[0]) {
        1 + leading_count(s.drop_first(), class)
    } else {
        0
    }
}

/// How many characters at the back of `s` belong to `class`.
pub open spec fn trailing_count(s: Seq<char>, class: CharClass) -> nat
    decreases s.len(),
{
    if s.len() > 0 && class.contains(s.last()) {
        1 + trailing_count(s.drop_last(), class)
    } else {
        0
    }
}

/// Every character of `s` belongs to `class`.
pub open spec fn all_in(s: Seq<char>, class: CharClass) -> bool {
    forall|i: int| 0 <= i < s.len() ==> class.contains(#[trigger] s[i])
}

/// How many characters of `s` belong to `class`.
pub open spec fn count_in(s: Seq<char>, class: CharClass) -> nat
    decreases s.len(),
{
    if s.len() == 0 {
        0
    } else {
        count_in(s.drop_last(), class) + if class.contains(s.last()) {
            1nat
        } else {
            0nat
        }
    }
}

/// `leading_count` is the length of the longest prefix inside the class.
pub proof fn lemma_leading_count(s: Seq<char>, class: CharClass)
    ensures
        leading_count(s, class) <= s.len(),
        forall|i: int| 0 <= i < leading_count(s, class) ==> class.contains(#[trigger] s[i]),
        leading_count(s, class) < s.len() ==> !class.contains(s[leading_count(s, class) as int]),
    decreases s.len(),
{
    if s.len() > 0 && class.contains(s[0]) {
        let rest = s.drop_first();
        lemma_leading_count(rest, class);
        assert forall|i: int| 0 <= i < leading_count(s, class) implies class.contains(
            #[trigger] s[i],
        ) by {
            if i > 0 {
                assert(s[i] == rest[i - 1]);
            }
        }
        if leading_count(s, class) < s.len() {
            assert(s[leading_count(s, class) as int] == rest[leading_count(rest, class) as int]);
        }
    }
}

/// A prefix inside the class that cannot be extended is the leading run.
pub proof fn lemma_leading_count_is(s: Seq<char>, class: CharClass, n: int)
    requires
        0 <= n <= s.len(),
        forall|i: int| 0 <= i < n ==> class.contains(#[trigger] s[i]),
        n < s.len() ==> !class.contains(s[n]),
    ensures
        leading_count(s, class) == n,
    decreases s.len(),
{
    if n > 0 {
        let rest = s.drop_first();
        assert(class.contains(s[0]));
        assert forall|i: int| 0 <= i < n - 1 implies class.contains(#[trigger] rest[i]) by {
            assert(rest[i] == s[i + 1]);
        }
        if n - 1 < rest.len() {
            assert(rest[n - 1] == s[n]);
        }
        lemma_leading_count_is(rest, class, n - 1);
    }
}

/// `trailing_count` is the length of the longest suffix inside the class.
pub proof fn lemma_trailing_count(s: Seq<char>, class: CharClass)
    ensures
        trailing_count(s, class) <= s.len(),
        forall|i: int|
            s.len() - trailing_count(s, class) <= i < s.len() ==> class.contains(#[trigger] s[i]),
        trailing_count(s, class) < s.len() ==> !class.contains(
            s[s.len() - trailing_count(s, class) - 1],
        ),
    decreases s.len(),
{
    if s.len() > 0 && class.contains(s.last()) {
        let rest = s.drop_last();
        lemma_trailing_count(rest, class);
        assert forall|i: int|
            s.len() - trailing_count(s, class) <= i < s.len() implies class.contains(
            #[trigger] s[i],
        ) by {
            if i < s.len() - 1 {
                assert(s[i] == rest[i]);
            }
        }
        if trailing_count(s, class) < s.len() {
            assert(s[s.len() - trailing_count(s, class) - 1] == rest[rest.len() - trailing_count(
                rest,
                class,
            ) - 1]);
        }
    }
}

/// `s` without its leading whitespace.
pub open spec fn trim_start_of(s: Seq<char>) -> Seq<char> {
    s.skip(leading_count(s, CharClass::Whitespace) as int)
}

/// `s` without its trailing whitespace.
pub open spec fn trim_end_of(s: Seq<char>) -> Seq<char> {
    s.take(s.len() - trailing_count(s, CharClass::Whitespace))
}

/// `s` without leading and trailing whitespace.
pub open spec fn trimmed(s: Seq<char>) -> Seq<char> {
    trim_end_of(trim_start_of(s))
}

/// `s` holds nothing but whitespace.
pub open spec fn is_blank(s: Seq<char>) -> bool {
    trimmed(s).len() == 0
}

/// `s` without one leading `c`, if it starts with one.
pub open spec fn strip_prefix_of(s: Seq<char>, c: char) -> Option<Seq<char>> {
    if s.len() > 0 && s[0] == c {
        Some(s.drop_first())
    } else {
        None
    }
}

/// `s` without one trailing `c`, if it ends with one.
pub open spec fn strip_suffix_of(s: Seq<char>, c: char) -> Option<Seq<char>> {
    if s.len() > 0 && s.last() == c {
        Some(s.drop_last())
    } else {
        None
    }
}

/// The pieces of `s` between occurrences of `sep`; always at least one piece.
pub open spec fn split(s: Seq<char>, sep: char) -> Seq<Seq<char>>
    decreases s.len(),
{
    let i = leading_count(s, CharClass::Except(sep)) as int;
    if 0 <= i < s.len() {
        seq![s.take(i)] + split(s.skip(i + 1), sep)
    } else {
        seq![s]
    }
}

/// The pieces of `s` that each end with `sep`, and a last piece without it
/// when `s` does not end with `sep`.
pub open spec fn split_inclusive(s: Seq<char>, sep: char) -> Seq<Seq<char>>
    decreases s.len(),
{
    let i = leading_count(s, CharClass::Except(sep)) as int;
    if s.len() == 0 {
        seq![]
    } else if 0 <= i < s.len() {
        seq![s.take(i + 1)] + split_inclusive(s.skip(i + 1), sep)
    } else {
        seq![s]
    }
}

/// `s` without its leading and trailing runs of `c`.
pub open spec fn trim_matches_of(s: Seq<char>, c: char) -> Seq<char> {
    let a = s.skip(leading_count(s, CharClass::Only(c)) as int);
    a.take(a.len() - trailing_count(a, CharClass::Only(c)))
}

/// `c` occurs in `s`.
pub open spec fn contains_char(s: Seq<char>, c: char) -> bool {
    exists|i: int| 0 <= i < s.len() && s[i] == c
}

/// The first `n` pieces joined.
pub open spec fn joined(pieces: Seq<Seq<char>>, n: int) -> Seq<char>
    decreases n,
{
    if n <= 0 {
        Seq::empty()
    } else {
        joined(pieces, n - 1) + pieces[n - 1]
    }
}

/// Joining behind a first piece is joining the rest behind it.
pub proof fn lemma_joined_front(first: Seq<char>, rest: Seq<Seq<char>>, n: int)
    requires
        0 <= n <= rest.len(),
    ensures
        joined(seq![first] + rest, n + 1) == first + joined(rest, n),
    decreases n,
{
    let all = seq![first] + rest;
    if n == 0 {
        assert(joined(all, 0) + all[0] =~= first + joined(rest, 0));
    } else {
        lemma_joined_front(first, rest, n - 1);
        assert(all[n] == rest[n - 1]);
        assert((first + joined(rest, n - 1)) + rest[n - 1] =~= first + (joined(rest, n - 1)
            + rest[n - 1]));
    }
}

/// The pieces of `split_inclusive`, joined, are the text that was split.
pub proof fn lemma_split_inclusive_joins(s: Seq<char>, sep: char)
    ensures
        joined(split_inclusive(s, sep), split_inclusive(s, sep).len() as int) == s,
    decreases s.len(),
{
    let i = leading_count(s, CharClass::Except(sep)) as int;
    lemma_leading_count(s, CharClass::Except(sep));
    if s.len() == 0 {
        assert(joined(split_inclusive(s, sep), 0) =~= s);
    } else if 0 <= i < s.len() {
        let rest = split_inclusive(s.skip(i + 1), sep);
        lemma_split_inclusive_joins(s.skip(i + 1), sep);
        lemma_joined_front(s.take(i + 1), rest, rest.len() as int);
        assert(s.take(i + 1) + s.skip(i + 1) =~= s);
    } else {
        assert(joined(seq![s], 0) + s =~= s);
    }
}

/// The first run of visible characters of `s`; empty when `s` is blank.
pub open spec fn first_token(s: Seq<char>) -> Seq<char> {
    let t = trim_start_of(s);
    t.take(leading_count(t, CharClass::Visible) as int)
}

/// The lower-case form of an ASCII upper-case letter; any other character unchanged.
pub open spec fn ascii_lower(c: char) -> char {
    if 'A' <= c <= 'Z' {
        ((c as u8) + 32) as char
    } else {
        c
    }
}

/// The upper-case form of an ASCII lower-case letter; any other character unchanged.
pub open spec fn ascii_upper(c: char) -> char {
    if 'a' <= c <= 'z' {
        ((c as u8) - 32) as char
    } else {
        c
    }
}

/// `s` with every ASCII upper-case letter in lower case.
pub open spec fn ascii_lowercase(s: Seq<char>) -> Seq<char> {
    Seq::new(s.len(), |i: int| ascii_lower(s[i]))
}

/// `a` and `b` are equal up to the case of ASCII letters.
pub open spec fn eq_ignoring_ascii_case(a: Seq<char>, b: Seq<char>) -> bool {
    ascii_lowercase(a) == ascii_lowercase(b)
}

/// The views of a sequence of string slices.
pub open spec fn views(pieces: Seq<&str>) -> Seq<Seq<char>> {
    Seq::new(pieces.len(), |i: int| pieces[i]@)
}

/// `s` starts with the characters of `prefix`.
pub open spec fn starts_with(s: Seq<char>, prefix: Seq<char>) -> bool {
    prefix.len() <= s.len() && s.take(prefix.len() as int) == prefix
}

/// `s` ends with the characters of `suffix`.
pub open spec fn ends_with(s: Seq<char>, suffix: Seq<char>) -> bool {
    suffix.len() <= s.len() && s.skip(s.len() - suffix.len()) == suffix
}

/// `needle` occurs in `s` as a run of consecutive characters.
pub open spec fn contains_text(s: Seq<char>, needle: Seq<char>) -> bool {
    exists|i: int| 0 <= i <= s.len() - needle.len() && #[trigger] s.subrange(i, i + needle.len()) == needle
}

/// True for `0`-`9`, `a`-`f` and `A`-`F`.
pub open spec fn is_hex_digit(c: char) -> bool {
    ('0' <= c <= '9') || ('a' <= c <= 'f') || ('A' <= c <= 'F')
}

/// The value of a hexadecimal digit.
pub open spec fn hex_value(c: char) -> int
    recommends
        is_hex_digit(c),
{
    if '0' <= c <= '9' {
        c as u32 - '0' as u32
    } else if 'a' <= c <= 'f' {
        c as u32 - 'a' as u32 + 10
    } else {
        c as u32 - 'A' as u32 + 10
    }
}

/// Reads one hexadecimal digit.
pub fn hex_digit(c: char) -> (value: Option<u8>)
    ensures
        match value {
            Some(v) => is_hex_digit(c) && v == hex_value(c),
            None => !is_hex_digit(c),
        },
{
    let n: u32 = c as u32;
    if '0' <= c && c <= '9' {
        Some((n - 0x30) as u8)
    } else if 'a' <= c && c <= 'f' {
        Some((n - 0x61 + 10) as u8)
    } else if 'A' <= c && c <= 'F' {
        Some((n - 0x41 + 10) as u8)
    } else {
        None
    }
}

/// Converts one ASCII upper-case letter to lower case.
pub fn to_ascii_lower(c: char) -> (lower: char)
    ensures
        lower == ascii_lower(c),
{
    if 'A' <= c && c <= 'Z' {
        ((c as u8) + 32) as char
    } else {
        c
    }
}

/// Converts one ASCII lower-case letter to upper case.
pub fn to_ascii_upper(c: char) -> (upper: char)
    ensures
        upper == ascii_upper(c),
{
    if 'a' <= c && c <= 'z' {
        ((c as u8) - 32) as char
    } else {
        c
    }
}

/// Counts the characters at the front of `s` that belong to `class`.
pub fn count_leading(s: &str, class: CharClass) -> (n: usize)
    ensures
        n == leading_count(s@, class),
        n <= s@.len(),
{
    let total = s.unicode_len();
    let mut it = s.chars();
    let mut i: usize = 0;
    loop
        invariant
            i <= total,
            total == s@.len(),
            it.obeys_prophetic_iter_laws(),
            it.remaining() == s@.skip(i as int),
            forall|j: int| 0 <= j < i ==> class.contains(#[trigger] s@[j]),
        decreases total - i,
    {
        match it.next() {
            Some(c) => {
                if !class.test(c) {
                    proof {
                        lemma_leading_count_is(s@, class, i as int);
                    }
                    return i;
                }
                i = i + 1;
            },
            None => {
                proof {
                    lemma_leading_count_is(s@, class, i as int);
                }
                return i;
            },
        }
    }
}

/// Finds the length of `s` once its trailing characters in `class` are dropped.
pub fn len_without_trailing(s: &str, class: CharClass) -> (n: usize)
    ensures
        n == s@.len() - trailing_count(s@, class),
{
    let total = s.unicode_len();
    let mut it = s.chars();
    let mut i: usize = 0;
    let mut keep: usize = 0;
    loop
        invariant
            i <= total,
            total == s@.len(),
            it.obeys_prophetic_iter_laws(),
            it.remaining() == s@.skip(i as int),
            keep == i - trailing_count(s@.take(i as int), class),
        decreases total - i,
    {
        match it.next() {
            Some(c) => {
                proof {
                    assert(s@.take(i + 1).drop_last() =~= s@.take(i as int));
                    assert(s@.take(i + 1).last() == c);
                }
                if !class.test(c) {
                    keep = i + 1;
                }
                i = i + 1;
            },
            None => {
                proof {
                    assert(s@.take(i as int) =~= s@);
                }
                return keep;
            },
        }
    }
}

/// Returns `s` without its leading whitespace.
pub fn trim_start<'a>(s: &'a str) -> (r: &'a str)
    ensures
        r@ == trim_start_of(s@),
{
    let from = count_leading(s, CharClass::Whitespace);
    s.substring_char(from, s.unicode_len())
}

/// Returns `s` without its trailing whitespace.
pub fn trim_end<'a>(s: &'a str) -> (r: &'a str)
    ensures
        r@ == trim_end_of(s@),
{
    let to = len_without_trailing(s, CharClass::Whitespace);
    s.substring_char(0, to)
}

/// Returns `s` without leading and trailing whitespace.
pub fn trim<'a>(s: &'a str) -> (r: &'a str)
    ensures
        r@ == trimmed(s@),
{
    trim_end(trim_start(s))
}

/// Returns `s` without one leading `c`, or `None` when `s` does not start with `c`.
pub fn strip_prefix<'a>(s: &'a str, c: char) -> (r: Option<&'a str>)
    ensures
        match r {
            Some(rest) => strip_prefix_of(s@, c) == Some(rest@),
            None => strip_prefix_of(s@, c) is None,
        },
{
    let n = s.unicode_len();
    if n > 0 && s.get_char(0) == c {
        Some(s.substring_char(1, n))
    } else {
        None
    }
}

/// Returns `s` without one trailing `c`, or `None` when `s` does not end with `c`.
pub fn strip_suffix<'a>(s: &'a str, c: char) -> (r: Option<&'a str>)
    ensures
        match r {
            Some(rest) => strip_suffix_of(s@, c) == Some(rest@),
            None => strip_suffix_of(s@, c) is None,
        },
{
    let n = s.unicode_len();
    if n > 0 && s.get_char(n - 1) == c {
        Some(s.substring_char(0, n - 1))
    } else {
        None
    }
}

/// Returns the first character of `s`, if it has one.
pub fn first_char(s: &str) -> (c: Option<char>)
    ensures
        c == if s@.len() > 0 {
            Some(s@[0])
        } else {
            None
        },
{
    let mut it = s.chars();
    let c = it.next();
    proof {
        assert(s@.skip(0) =~= s@);
    }
    c
}

/// Returns `s` from its `from`-th character on.
pub fn skip_chars<'a>(s: &'a str, from: usize) -> (r: &'a str)
    requires
        from <= s@.len(),
    ensures
        r@ == s@.skip(from as int),
{
    s.substring_char(from, s.unicode_len())
}

/// Returns the first `to` characters of `s`.
pub fn take_chars<'a>(s: &'a str, to: usize) -> (r: &'a str)
    requires
        to <= s@.len(),
    ensures
        r@ == s@.take(to as int),
{
    s.substring_char(0, to)
}

/// Splits `s` at every `sep`.
pub fn split_char<'a>(s: &'a str, sep: char) -> (pieces: Vec<&'a str>)
    ensures
        views(pieces@) == split(s@, sep),
        pieces@.len() >= 1,
{
    let mut pieces: Vec<&'a str> = Vec::new();
    let mut rest: &'a str = s;
    loop
        invariant
            views(pieces@) + split(rest@, sep) == split(s@, sep),
        decreases rest@.len(),
    {
        let i = count_leading(rest, CharClass::Except(sep));
        let n = rest.unicode_len();
        if i >= n {
            pieces.push(rest);
            proof {
                assert(views(pieces@) =~= views(pieces@.drop_last()) + seq![rest@]);
            }
            return pieces;
        }
        let piece = rest.substring_char(0, i);
        let ghost before = rest@;
        pieces.push(piece);
        rest = rest.substring_char(i + 1, n);
        proof {
            assert(views(pieces@) =~= views(pieces@.drop_last()) + seq![piece@]);
            assert(split(before, sep) == seq![before.take(i as int)] + split(
                before.skip(i + 1),
                sep,
            ));
            assert(views(pieces@) + split(rest@, sep) =~= views(pieces@.drop_last()) + split(
                before,
                sep,
            ));
        }
    }
}

/// Splits `s` after every `sep`.
pub fn split_inclusive_char<'a>(s: &'a str, sep: char) -> (pieces: Vec<&'a str>)
    ensures
        views(pieces@) == split_inclusive(s@, sep),
{
    let mut pieces: Vec<&'a str> = Vec::new();
    let mut rest: &'a str = s;
    loop
        invariant
            views(pieces@) + split_inclusive(rest@, sep) == split_inclusive(s@, sep),
        decreases rest@.len(),
    {
        let n = rest.unicode_len();
        if n == 0 {
            proof {
                assert(views(pieces@) + split_inclusive(rest@, sep) =~= views(pieces@));
            }
            return pieces;
        }
        let i = count_leading(rest, CharClass::Except(sep));
        if i >= n {
            pieces.push(rest);
            proof {
                assert(views(pieces@) =~= views(pieces@.drop_last()) + seq![rest@]);
            }
            return pieces;
        }
        let piece = rest.substring_char(0, i + 1);
        let ghost before = rest@;
        pieces.push(piece);
        rest = rest.substring_char(i + 1, n);
        proof {
            assert(views(pieces@) =~= views(pieces@.drop_last()) + seq![piece@]);
            assert(views(pieces@) + split_inclusive(rest@, sep) =~= views(pieces@.drop_last())
                + split_inclusive(before, sep));
        }
    }
}

/// Returns the first run of visible characters of `s`.
pub fn first_word<'a>(s: &'a str) -> (r: &'a str)
    ensures
        r@ == first_token(s@),
{
    let t = trim_start(s);
    let n = count_leading(t, CharClass::Visible);
    t.substring_char(0, n)
}

/// Returns `s` without its leading and trailing runs of `c`.
pub fn trim_matches<'a>(s: &'a str, c: char) -> (r: &'a str)
    ensures
        r@ == trim_matches_of(s@, c),
{
    let from = count_leading(s, CharClass::Only(c));
    let a = s.substring_char(from, s.unicode_len());
    let to = len_without_trailing(a, CharClass::Only(c));
    a.substring_char(0, to)
}

/// Tests whether `c` occurs in `s`.
pub fn has_char(s: &str, c: char) -> (found: bool)
    ensures
        found == contains_char(s@, c),
{
    let n = count_leading(s, CharClass::Except(c));
    proof {
        lemma_leading_count(s@, CharClass::Except(c));
        if n < s@.len() {
            assert(s@[n as int] == c);
        } else {
            assert forall|i: int| 0 <= i < s@.len() implies s@[i] != c by {
                assert(CharClass::Except(c).contains(s@[i]));
            }
        }
    }
    n < s.unicode_len()
}

/// Tests whether every character of `s` belongs to `class`.
pub fn all_chars_in(s: &str, class: CharClass) -> (all: bool)
    ensures
        all == all_in(s@, class),
{
    let n = count_leading(s, class);
    proof {
        lemma_leading_count(s@, class);
    }
    n == s.unicode_len()
}

/// Counts the characters of `s` that belong to `class`.
pub fn count_chars_in(s: &str, class: CharClass) -> (n: usize)
    ensures
        n == count_in(s@, class),
        n <= s@.len(),
{
    let total = s.unicode_len();
    let mut it = s.chars();
    let mut i: usize = 0;
    let mut n: usize = 0;
    loop
        invariant
            i <= total,
            n <= i,
            total == s@.len(),
            it.obeys_prophetic_iter_laws(),
            it.remaining() == s@.skip(i as int),
            n == count_in(s@.take(i as int), class),
        decreases total - i,
    {
        match it.next() {
            Some(c) => {
                proof {
                    assert(s@.take(i + 1).drop_last() =~= s@.take(i as int));
                    assert(s@.take(i + 1).last() == c);
                }
                if class.test(c) {
                    n = n + 1;
                }
                i = i + 1;
            },
            None => {
                proof {
                    assert(s@.take(i as int) =~= s@);
                }
                return n;
            },
        }
    }
}

/// Tests whether `a` and `b` hold the same characters.
pub fn str_eq(a: &str, b: &str) -> (same: bool)
    ensures
        same == (a@ == b@),
{
    let n = a.unicode_len();
    if n != b.unicode_len() {
        return false;
    }
    let mut ia = a.chars();
    let mut ib = b.chars();
    let mut i: usize = 0;
    loop
        invariant
            i <= n,
            n == a@.len(),
            n == b@.len(),
            ia.obeys_prophetic_iter_laws(),
            ib.obeys_prophetic_iter_laws(),
            ia.remaining() == a@.skip(i as int),
            ib.remaining() == b@.skip(i as int),
            a@.take(i as int) == b@.take(i as int),
        decreases n - i,
    {
        match (ia.next(), ib.next()) {
            (Some(x), Some(y)) => {
                if x != y {
                    return false;
                }
                proof {
                    assert(a@.take(i + 1) =~= a@.take(i as int).push(x));
                    assert(b@.take(i + 1) =~= b@.take(i as int).push(y));
                }
                i = i + 1;
            },
            _ => {
                proof {
                    assert(a@.take(i as int) =~= a@);
                    assert(b@.take(i as int) =~= b@);
                }
                return true;
            },
        }
    }
}

/// Tests whether `a` and `b` are equal up to the case of ASCII letters.
pub fn str_eq_ignore_ascii_case(a: &str, b: &str) -> (same: bool)
    ensures
        same == eq_ignoring_ascii_case(a@, b@),
{
    let n = a.unicode_len();
    if n != b.unicode_len() {
        proof {
            assert(ascii_lowercase(a@).len() != ascii_lowercase(b@).len());
        }
        return false;
    }
    let mut ia = a.chars();
    let mut ib = b.chars();
    let mut i: usize = 0;
    loop
        invariant
            i <= n,
            n == a@.len(),
            n == b@.len(),
            ia.obeys_prophetic_iter_laws(),
            ib.obeys_prophetic_iter_laws(),
            ia.remaining() == a@.skip(i as int),
            ib.remaining() == b@.skip(i as int),
            forall|j: int| 0 <= j < i ==> ascii_lower(a@[j]) == ascii_lower(b@[j]),
        decreases n - i,
    {
        match (ia.next(), ib.next()) {
            (Some(x), Some(y)) => {
                if to_ascii_lower(x) != to_ascii_lower(y) {
                    proof {
                        assert(ascii_lowercase(a@)[i as int] != ascii_lowercase(b@)[i as int]);
                    }
                    return false;
                }
                i = i + 1;
            },
            _ => {
                proof {
                    assert(ascii_lowercase(a@) =~= ascii_lowercase(b@));
                }
                return true;
            },
        }
    }
}

/// The number of bytes of the UTF-8 form of `s`.
pub open spec fn utf8_len(s: Seq<char>) -> nat {
    encode_utf8(s).len()
}

/// The UTF-8 form of a prefix of `s` is a prefix of the UTF-8 form of `s`,
/// and it ends where a character of `s` ends.
pub proof fn lemma_prefix_bytes(s: Seq<char>, k: int)
    requires
        0 <= k <= s.len(),
    ensures
        utf8_len(s.take(k)) <= utf8_len(s),
        is_char_boundary(encode_utf8(s), utf8_len(s.take(k)) as int),
        encode_utf8(s).subrange(0, utf8_len(s.take(k)) as int) == encode_utf8(s.take(k)),
    decreases k,
{
    encode_utf8_valid_utf8(s);
    if k == 0 {
        assert(s.take(0) =~= Seq::<char>::empty());
        assert(encode_utf8(s).subrange(0, 0) =~= encode_utf8(s.take(k)));
    } else {
        let bytes = encode_utf8(s);
        let rest = s.drop_first();
        let head = s.take(k);
        encode_utf8_first_scalar(s);
        encode_utf8_first_scalar(head);
        assert(pop_first_scalar(bytes) =~= encode_utf8(rest));
        assert(head.drop_first() =~= rest.take(k - 1));
        assert(head[0] == s[0]);
        lemma_prefix_bytes(rest, k - 1);
        let first = length_of_first_scalar(bytes);
        assert(utf8_len(head) == first + utf8_len(rest.take(k - 1)));
        assert(encode_utf8(s).subrange(0, utf8_len(head) as int) =~= encode_utf8(head));
    }
}

/// Returns the number of bytes of `s`.
pub fn byte_len(s: &str) -> (bytes: usize)
    ensures
        bytes == utf8_len(s@),
{
    s.as_bytes().len()
}

/// The positions in `s` just behind each of its newlines, in rising order.
pub open spec fn newline_ends(s: Seq<char>) -> Seq<int>
    decreases s.len(),
{
    if s.len() == 0 {
        Seq::empty()
    } else {
        let before = newline_ends(s.drop_last());
        if s.last() == '\n' {
            before.push(s.len() as int)
        } else {
            before
        }
    }
}

/// Every position of `newline_ends` lies in `s`, behind a newline.
pub proof fn lemma_newline_ends(s: Seq<char>)
    ensures
        forall|k: int|
            0 <= k < newline_ends(s).len() ==> 0 < #[trigger] newline_ends(s)[k] <= s.len()
                && s[newline_ends(s)[k] - 1] == '\n',
    decreases s.len(),
{
    if s.len() > 0 {
        lemma_newline_ends(s.drop_last());
        let before = newline_ends(s.drop_last());
        assert forall|k: int| 0 <= k < newline_ends(s).len() implies 0 < #[trigger] newline_ends(
            s,
        )[k] <= s.len() && s[newline_ends(s)[k] - 1] == '\n' by {
            if k < before.len() {
                assert(newline_ends(s)[k] == before[k]);
                assert(s.drop_last()[before[k] - 1] == s[before[k] - 1]);
            }
        }
    }
}

/// Finds the positions just behind each newline of `s`.
pub fn newline_end_offsets(s: &str) -> (ends: Vec<usize>)
    ensures
        ends@.len() == newline_ends(s@).len(),
        forall|k: int| 0 <= k < ends@.len() ==> (#[trigger] ends@[k]) as int == newline_ends(s@)[k],
{
    let total = s.unicode_len();
    let mut it = s.chars();
    let mut ends: Vec<usize> = Vec::new();
    let mut i: usize = 0;
    loop
        invariant
            i <= total,
            total == s@.len(),
            it.obeys_prophetic_iter_laws(),
            it.remaining() == s@.skip(i as int),
            ends@.len() == newline_ends(s@.take(i as int)).len(),
            forall|k: int|
                0 <= k < ends@.len() ==> (#[trigger] ends@[k]) as int == newline_ends(
                    s@.take(i as int),
                )[k],
        decreases total - i,
    {
        match it.next() {
            Some(c) => {
                proof {
                    assert(s@.take(i + 1).drop_last() =~= s@.take(i as int));
                    assert(s@.take(i + 1).last() == c);
                }
                if c == '\n' {
                    ends.push(i + 1);
                }
                i = i + 1;
            },
            None => {
                proof {
                    assert(s@.take(i as int) =~= s@);
                }
                return ends;
            },
        }
    }
}

/// Returns the first `bytes` bytes of `s`, for a count of bytes that is the
/// length of a prefix of `s`.
pub fn take_bytes<'a>(s: &'a str, bytes: usize, Ghost(chars): Ghost<int>) -> (r: &'a str)
    requires
        0 <= chars <= s@.len(),
        bytes == utf8_len(s@.take(chars)),
    ensures
        r@ == s@.take(chars),
{
    proof {
        lemma_prefix_bytes(s@, chars);
    }
    let (head, _) = s.split_at(bytes);
    proof {
        encode_utf8_decode_utf8(head@);
        encode_utf8_decode_utf8(s@.take(chars));
    }
    head
}

/// `String::push` of std: the character is appended to the string.
pub assume_specification[ String::push ](s: &mut String, c: char)
    ensures
        final(s)@ == old(s)@.push(c),
;

/// Returns the characters of `s`.
pub fn chars_of(s: &str) -> (chars: Vec<char>)
    ensures
        chars@ == s@,
{
    let total = s.unicode_len();
    let mut it = s.chars();
    let mut chars: Vec<char> = Vec::new();
    loop
        invariant
            chars@.len() <= total,
            total == s@.len(),
            it.obeys_prophetic_iter_laws(),
            it.remaining() == s@.skip(chars@.len() as int),
            chars@ == s@.take(chars@.len() as int),
        decreases total - chars@.len(),
    {
        let ghost seen = chars@.len() as int;
        match it.next() {
            Some(c) => {
                chars.push(c);
                proof {
                    assert(s@.take(seen + 1) =~= s@.take(seen).push(c));
                }
            },
            None => {
                proof {
                    assert(s@.take(seen) =~= s@);
                }
                return chars;
            },
        }
    }
}

/// Returns `s` with every ASCII upper-case letter in lower case.
pub fn to_ascii_lowercase(s: &str) -> (lower: String)
    ensures
        lower@ == ascii_lowercase(s@),
{
    let chars = chars_of(s);
    let mut lower = String::new();
    let mut i: usize = 0;
    while i < chars.len()
        invariant
            i <= chars@.len(),
            chars@ == s@,
            lower@ == ascii_lowercase(s@.take(i as int)),
        decreases chars@.len() - i,
    {
        lower.push(to_ascii_lower(chars[i]));
        proof {
            assert(ascii_lowercase(s@.take(i + 1)) =~= ascii_lowercase(s@.take(i as int)).push(
                ascii_lower(s@[i as int]),
            ));
        }
        i = i + 1;
    }
    proof {
        assert(s@.take(chars@.len() as int) =~= s@);
    }
    lower
}

/// `needle` stands in `s` at the position `at`.
pub open spec fn occurs_at(s: Seq<char>, needle: Seq<char>, at: int) -> bool {
    0 <= at && at + needle.len() <= s.len() && s.subrange(at, at + needle.len()) == needle
}

/// Tests whether `needle` stands in `hay` at the position `at`.
pub fn matches_at(hay: &Vec<char>, needle: &Vec<char>, at: usize) -> (found: bool)
    ensures
        found == occurs_at(hay@, needle@, at as int),
{
    if at > hay.len() || needle.len() > hay.len() - at {
        return false;
    }
    let mut j: usize = 0;
    while j < needle.len()
        invariant
            j <= needle@.len(),
            at + needle@.len() <= hay@.len(),
            hay@.len() <= usize::MAX,
            forall|k: int| 0 <= k < j ==> hay@[at + k] == needle@[k],
        decreases needle@.len() - j,
    {
        if hay[at + j] != needle[j] {
            proof {
                assert(hay@.subrange(at as int, at + needle@.len())[j as int] != needle@[j as int]);
            }
            return false;
        }
        j = j + 1;
    }
    proof {
        assert(hay@.subrange(at as int, at + needle@.len()) =~= needle@);
    }
    true
}

/// Tests whether `s` starts with `prefix`.
pub fn starts_with_str(s: &str, prefix: &str) -> (found: bool)
    ensures
        found == starts_with(s@, prefix@),
{
    let hay = chars_of(s);
    let needle = chars_of(prefix);
    let found = matches_at(&hay, &needle, 0);
    proof {
        if prefix@.len() <= s@.len() {
            assert(s@.take(prefix@.len() as int) =~= s@.subrange(0, 0 + prefix@.len() as int));
        }
    }
    found
}

/// Tests whether `s` ends with `suffix`.
pub fn ends_with_str(s: &str, suffix: &str) -> (found: bool)
    ensures
        found == ends_with(s@, suffix@),
{
    let hay = chars_of(s);
    let needle = chars_of(suffix);
    if needle.len() > hay.len() {
        return false;
    }
    let at = hay.len() - needle.len();
    let found = matches_at(&hay, &needle, at);
    proof {
        assert(s@.skip(s@.len() - suffix@.len()) =~= s@.subrange(at as int, at + suffix@.len()));
    }
    found
}

/// Tests whether `needle` occurs in `s`.
pub fn contains_str(s: &str, needle: &str) -> (found: bool)
    ensures
        found == contains_text(s@, needle@),
{
    let hay = chars_of(s);
    let pattern = chars_of(needle);
    if pattern.len() > hay.len() {
        return false;
    }
    let last = hay.len() - pattern.len();
    let mut at: usize = 0;
    loop
        invariant
            at <= last,
            last == hay@.len() - pattern@.len(),
            hay@ == s@,
            pattern@ == needle@,
            forall|i: int| 0 <= i < at ==> !occurs_at(s@, needle@, i),
        decreases last - at,
    {
        if matches_at(&hay, &pattern, at) {
            proof {
                assert(s@.subrange(at as int, at + needle@.len()) == needle@);
            }
            return true;
        }
        if at == last {
            proof {
                assert forall|i: int|
                    0 <= i <= s@.len() - needle@.len() implies #[trigger] s@.subrange(
                    i,
                    i + needle@.len(),
                ) != needle@ by {
                    assert(!occurs_at(s@, needle@, i));
                }
            }
            return false;
        }
        at = at + 1;
    }
}

/// The text that the bytes `start..end` of the UTF-8 form of `s` write.
pub open spec fn byte_range_text(s: Seq<char>, start: int, end: int) -> Seq<char> {
    decode_utf8(encode_utf8(s).subrange(start, end))
}

/// The bytes `start..end` of `s` begin and end where characters do.
pub open spec fn is_byte_range(s: Seq<char>, start: int, end: int) -> bool {
    &&& 0 <= start <= end <= utf8_len(s)
    &&& is_char_boundary(encode_utf8(s), start)
    &&& is_char_boundary(encode_utf8(s), end)
}

/// Returns the part of `s` that its bytes `start..end` write.
pub fn slice_bytes<'a>(s: &'a str, start: usize, end: usize) -> (r: &'a str)
    requires
        is_byte_range(s@, start as int, end as int),
    ensures
        r@ == byte_range_text(s@, start as int, end as int),
{
    let ghost bytes = encode_utf8(s@);
    proof {
        encode_utf8_valid_utf8(s@);
    }
    let (head, _) = s.split_at(end);
    proof {
        valid_utf8_split(bytes, end as int);
        assert(head.spec_bytes() == bytes.subrange(0, end as int));
        if start < end {
            is_char_boundary_iff_not_is_continuation_byte(bytes, start as int);
            is_char_boundary_iff_not_is_continuation_byte(head.spec_bytes(), start as int);
            assert(head.spec_bytes()[start as int] == bytes[start as int]);
        } else {
            valid_utf8_split(bytes, end as int);
            vstd::utf8::is_char_boundary_start_end_of_seq(head.spec_bytes());
        }
    }
    let (_, part) = head.split_at(start);
    proof {
        assert(part.spec_bytes() =~= bytes.subrange(start as int, end as int));
        encode_utf8_decode_utf8(part@);
    }
    part
}

/// `line` without the line ending that ends it: a newline, or a carriage
/// return and a newline.
pub open spec fn without_line_ending(line: Seq<char>) -> Seq<char> {
    match strip_suffix_of(line, '\n') {
        Some(rest) => match strip_suffix_of(rest, '\r') {
            Some(bare) => bare,
            None => rest,
        },
        None => line,
    }
}

/// The lines of `s`, without their line endings. A text that ends with a
/// line ending has no empty line behind it.
pub open spec fn lines_of(s: Seq<char>) -> Seq<Seq<char>> {
    Seq::new(
        split_inclusive(s, '\n').len(),
        |i: int| without_line_ending(split_inclusive(s, '\n')[i]),
    )
}

/// Splits `s` into its lines.
pub fn split_lines<'a>(s: &'a str) -> (lines: Vec<&'a str>)
    ensures
        views(lines@) == lines_of(s@),
{
    let pieces = split_inclusive_char(s, '\n');
    let mut lines: Vec<&'a str> = Vec::new();
    let mut i: usize = 0;
    while i < pieces.len()
        invariant
            i <= pieces@.len(),
            views(pieces@) == split_inclusive(s@, '\n'),
            lines@.len() == i,
            forall|k: int|
                0 <= k < i ==> (#[trigger] lines@[k])@ == without_line_ending(pieces@[k]@),
        decreases pieces@.len() - i,
    {
        let line = match strip_suffix(pieces[i], '\n') {
            Some(rest) => match strip_suffix(rest, '\r') {
                Some(bare) => bare,
                None => rest,
            },
            None => pieces[i],
        };
        lines.push(line);
        i = i + 1;
    }
    proof {
        assert(views(pieces@).len() == pieces@.len());
        assert forall|k: int| 0 <= k < lines@.len() implies views(lines@)[k] == lines_of(s@)[k] by {
            assert(views(pieces@)[k] == pieces@[k]@);
        }
        assert(views(lines@) =~= lines_of(s@));
    }
    lines
}

} // verus!
