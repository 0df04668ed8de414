//! Small verified text toolkit: prefix stripping, character search and
//! splitting, decimal and hexadecimal rendering, and percent-decoding.
//! Everything here is pure; the few places that must leave the verified
//! world (pushing a single character, lossy UTF-8 recovery) are narrow
//! wrappers over the standard library with their documented behaviour as
//! the contract.

use vstd::prelude::*;

verus! {

use vstd::string::StrSliceExecFns;
use vstd::string::StringExecFns;

/// Relies on `String::push`: appends exactly the given character.
#[verifier::external_body]
pub fn push_char(s: &mut String, c: char)
    ensures
        final(s)@ == old(s)@.push(c),
{
    s.push(c);
}

/// What `String::from_utf8_lossy` yields for a byte sequence; a pure
/// function of the bytes alone.
pub uninterp spec fn utf8_lossy(bytes: Seq<u8>) -> Seq<char>;

/// Relies on `String::from_utf8_lossy`: the result depends only on the
/// bytes, and bytes that are entirely ASCII (all below 128) are valid
/// UTF-8, so they come back unchanged, one character per byte.
#[verifier::external_body]
pub fn bytes_to_string_lossy(bytes: &Vec<u8>) -> (r: String)
    ensures
        r@ == utf8_lossy(bytes@),
        (forall|i: int| 0 <= i < bytes@.len() ==> bytes@[i] < 128) ==> (r@.len()
            == bytes@.len() && (forall|i: int|
            0 <= i < bytes@.len() ==> r@[i] == bytes@[i] as char)),
{
    String::from_utf8_lossy(bytes.as_slice()).into_owned()
}

/// True when `p` is a prefix of `s`.
pub open spec fn has_prefix(s: Seq<char>, p: Seq<char>) -> bool {
    p.len() <= s.len() && s.subrange(0, p.len() as int) == p
}

/// The remainder of `s` after a prefix `p`, or `None` when `p` is not a
/// prefix of `s`.
pub fn strip_prefix<'a>(s: &'a str, p: &str) -> (r: Option<&'a str>)
    ensures
        match r {
            Some(rest) => has_prefix(s@, p@) && rest@ == s@.subrange(
                p@.len() as int,
                s@.len() as int,
            ),
            None => !has_prefix(s@, p@),
        },
{
    let s_len = s.unicode_len();
    let p_len = p.unicode_len();
    if p_len > s_len {
        return None;
    }
    let mut i: usize = 0;
    while i < p_len
        invariant
            0 <= i <= p_len,
            p_len <= s_len,
            s_len == s@.len(),
            p_len == p@.len(),
            forall|j: int| 0 <= j < i ==> s@[j] == p@[j],
        decreases p_len - i,
    {
        if s.get_char(i) != p.get_char(i) {
            assert(s@.subrange(0, p@.len() as int) != p@) by {
                assert(s@.subrange(0, p@.len() as int)[i as int] != p@[i as int]);
            }
            return None;
        }
        i += 1;
    }
    let rest = s.substring_char(p_len, s_len);
    assert(s@.subrange(0, p@.len() as int) =~= p@);
    Some(rest)
}

/// Index of the first occurrence of `c` in `s`, if any.
pub fn find_char(s: &str, c: char) -> (r: Option<usize>)
    ensures
        match r {
            Some(i) => i < s@.len() && s@[i as int] == c && (forall|j: int|
                0 <= j < i ==> s@[j] != c),
            None => forall|j: int| 0 <= j < s@.len() ==> s@[j] != c,
        },
{
    let len = s.unicode_len();
    let mut i: usize = 0;
    while i < len
        invariant
            0 <= i <= len,
            len == s@.len(),
            forall|j: int| 0 <= j < i ==> s@[j] != c,
        decreases len - i,
    {
        if s.get_char(i) == c {
            return Some(i);
        }
        i += 1;
    }
    None
}

/// True when `c` occurs somewhere in `s`.
pub open spec fn contains_char(s: Seq<char>, c: char) -> bool {
    exists|i: int| 0 <= i < s.len() && s[i] == c
}

/// A concatenation holds a character exactly when one of its parts does.
pub proof fn lemma_concat_contains(a: Seq<char>, b: Seq<char>, c: char)
    ensures
        contains_char(a + b, c) == (contains_char(a, c) || contains_char(b, c)),
{
    if contains_char(a, c) {
        let i = choose|i: int| 0 <= i < a.len() && a[i] == c;
        assert((a + b)[i] == c);
    }
    if contains_char(b, c) {
        let i = choose|i: int| 0 <= i < b.len() && b[i] == c;
        assert((a + b)[a.len() + i] == c);
    }
    if contains_char(a + b, c) {
        let i = choose|i: int| 0 <= i < (a + b).len() && (a + b)[i] == c;
        if i < a.len() {
            assert(a[i] == c);
        } else {
            assert(b[i - a.len()] == c);
        }
    }
}

/// Joining with a separator that the right-hand parts avoid is
/// injective: equal joins have equal parts.
pub proof fn lemma_sep_join_injective(
    x1: Seq<char>,
    y1: Seq<char>,
    x2: Seq<char>,
    y2: Seq<char>,
    sep: char,
)
    requires
        x1 + seq![sep] + y1 == x2 + seq![sep] + y2,
        !contains_char(y1, sep),
        !contains_char(y2, sep),
    ensures
        x1 == x2,
        y1 == y2,
{
    let s = x1 + seq![sep] + y1;
    assert(s[x1.len() as int] == sep);
    assert(s[x2.len() as int] == sep);
    assert forall|j: int| x1.len() < j < s.len() implies s[j] != sep by {
        assert(s[j] == y1[j - x1.len() - 1]);
        assert(!(exists|i: int| 0 <= i < y1.len() && y1[i] == sep));
    }
    assert forall|j: int| x2.len() < j < s.len() implies s[j] != sep by {
        assert(s[j] == y2[j - x2.len() - 1]);
        assert(!(exists|i: int| 0 <= i < y2.len() && y2[i] == sep));
    }
    assert(x1.len() == x2.len());
    assert forall|i: int| 0 <= i < x1.len() implies x1[i] == x2[i] by {
        assert(s[i] == x1[i]);
        assert((x2 + seq![sep] + y2)[i] == x2[i]);
    }
    assert(x1 =~= x2);
    assert(y1.len() == y2.len());
    assert forall|i: int| 0 <= i < y1.len() implies y1[i] == y2[i] by {
        assert(s[x1.len() + 1 + i] == y1[i]);
        assert((x2 + seq![sep] + y2)[x2.len() + 1 + i] == y2[i]);
    }
    assert(y1 =~= y2);
}

/// The decimal digit `d % 10` as a character.
pub open spec fn digit_char(d: nat) -> char {
    ((48 + (d % 10)) as u8) as char
}

/// The decimal rendering of `n`, most significant digit first, with no
/// leading zeros (a lone zero for `n == 0`).
pub open spec fn dec_of(n: nat) -> Seq<char>
    decreases n,
{
    if n < 10 {
        seq![digit_char(n)]
    } else {
        dec_of(n / 10).push(digit_char(n % 10))
    }
}

fn digit_char_exec(d: u64) -> (c: char)
    requires
        d < 10,
    ensures
        c == digit_char(d as nat),
{
    (48 + d as u8) as char
}

/// Renders `n` in decimal.
pub fn u64_to_string(n: u64) -> (r: String)
    ensures
        r@ == dec_of(n as nat),
    decreases n,
{
    if n < 10 {
        let mut s = String::new();
        push_char(&mut s, digit_char_exec(n));
        assert(s@ =~= dec_of(n as nat));
        s
    } else {
        let mut s = u64_to_string(n / 10);
        push_char(&mut s, digit_char_exec(n % 10));
        s
    }
}

/// A decimal rendering is non-empty and all digits, and no two numbers
/// share one.
pub proof fn lemma_dec_of_value(n: nat)
    ensures
        dec_of(n).len() >= 1,
        all_digits(dec_of(n)),
        dec_val(dec_of(n)) == n,
    decreases n,
{
    if n < 10 {
        assert(dec_of(n) == seq![digit_char(n)]);
        assert(dec_of(n).drop_last() =~= Seq::<char>::empty());
        assert(digit_char(n) as int == 48 + n);
        assert(dec_val(dec_of(n)) == dec_val(Seq::<char>::empty()) * 10 + (digit_char(n) as int
            - 48));
    } else {
        lemma_dec_of_value(n / 10);
        let prefix = dec_of(n / 10);
        let whole = prefix.push(digit_char(n % 10));
        assert(whole.drop_last() =~= prefix);
        assert(whole.last() == digit_char(n % 10));
        assert(digit_char(n % 10) as int == 48 + n % 10);
        assert(dec_val(whole) == dec_val(prefix) * 10 + (digit_char(n % 10) as int - 48));
        assert(dec_val(whole) == n);
        assert forall|i: int| 0 <= i < whole.len() implies is_digit(whole[i]) by {
            if i < prefix.len() {
                assert(whole[i] == prefix[i]);
            }
        }
    }
}

/// True when `c` is a decimal digit.
pub open spec fn is_digit(c: char) -> bool {
    48 <= c as int && c as int <= 57
}

/// True when every character of `s` is a decimal digit.
pub open spec fn all_digits(s: Seq<char>) -> bool {
    forall|i: int| 0 <= i < s.len() ==> is_digit(s[i])
}

/// The numeric value of a digit string (most significant first).
pub open spec fn dec_val(s: Seq<char>) -> int
    decreases s.len(),
{
    if s.len() == 0 {
        0
    } else {
        dec_val(s.drop_last()) * 10 + (s.last() as int - 48)
    }
}

proof fn lemma_dec_val_take_step(s: Seq<char>, i: int)
    requires
        0 <= i < s.len(),
    ensures
        dec_val(s.take(i + 1)) == dec_val(s.take(i)) * 10 + (s[i] as int - 48),
{
    assert(s.take(i + 1).drop_last() =~= s.take(i));
    assert(s.take(i + 1).last() == s[i]);
}

proof fn lemma_dec_val_grows(s: Seq<char>, i: int)
    requires
        0 <= i <= s.len(),
        all_digits(s),
    ensures
        dec_val(s) >= dec_val(s.take(i)),
        dec_val(s.take(i)) >= 0,
    decreases s.len() - i,
{
    lemma_dec_val_grows_nonneg(s, i);
    if i == s.len() {
        assert(s.take(i) =~= s);
    } else {
        lemma_dec_val_grows(s, i + 1);
        lemma_dec_val_take_step(s, i);
    }
}

proof fn lemma_dec_val_grows_nonneg(s: Seq<char>, i: int)
    requires
        0 <= i <= s.len(),
        all_digits(s),
    ensures
        dec_val(s.take(i)) >= 0,
    decreases i,
{
    if i > 0 {
        lemma_dec_val_grows_nonneg(s, i - 1);
        lemma_dec_val_take_step(s, i - 1);
    }
}

/// Parses a non-empty, all-digit string as a `u64`; rejects anything else
/// and values that do not fit.
pub fn parse_u64(s: &str) -> (r: Option<u64>)
    ensures
        match r {
            Some(v) => s@.len() > 0 && all_digits(s@) && dec_val(s@) == v as int,
            None => s@.len() == 0 || !all_digits(s@) || dec_val(s@) > u64::MAX as int,
        },
{
    let len = s.unicode_len();
    if len == 0 {
        return None;
    }
    let mut val: u64 = 0;
    let mut i: usize = 0;
    while i < len
        invariant
            0 <= i <= len,
            len == s@.len(),
            forall|j: int| 0 <= j < i ==> is_digit(s@[j]),
            val as int == dec_val(s@.take(i as int)),
        decreases len - i,
    {
        let c = s.get_char(i);
        let cu = c as u32;
        if cu < 48 || cu > 57 {
            assert(!is_digit(s@[i as int]));
            return None;
        }
        let d: u64 = (cu - 48) as u64;
        if val > (u64::MAX - d) / 10 {
            proof {
                lemma_dec_val_take_step(s@, i as int);
                assert(dec_val(s@.take(i as int + 1)) > u64::MAX as int);
                if all_digits(s@) {
                    lemma_dec_val_grows(s@, i as int + 1);
                }
            }
            return None;
        }
        proof {
            lemma_dec_val_take_step(s@, i as int);
        }
        val = val * 10 + d;
        i += 1;
    }
    assert(s@.take(len as int) =~= s@);
    Some(val)
}

/// The hexadecimal digit `d % 16` as a lowercase character.
pub open spec fn hex_digit(d: nat) -> char {
    if d % 16 < 10 {
        ((48 + d % 16) as u8) as char
    } else {
        ((87 + d % 16) as u8) as char
    }
}

/// Lowercase hexadecimal rendering of a byte string, two digits per byte.
pub open spec fn hex_of(bytes: Seq<u8>) -> Seq<char>
    decreases bytes.len(),
{
    if bytes.len() == 0 {
        Seq::empty()
    } else {
        hex_of(bytes.drop_last()).push(hex_digit((bytes.last() / 16) as nat)).push(
            hex_digit((bytes.last() % 16) as nat),
        )
    }
}

fn hex_digit_exec(d: u8) -> (c: char)
    requires
        d < 16,
    ensures
        c == hex_digit(d as nat),
{
    if d < 10 {
        (48 + d) as char
    } else {
        (87 + d) as char
    }
}

/// Renders a byte string in lowercase hexadecimal.
pub fn to_hex(bytes: &Vec<u8>) -> (r: String)
    ensures
        r@ == hex_of(bytes@),
{
    let mut s = String::new();
    let mut i: usize = 0;
    while i < bytes.len()
        invariant
            0 <= i <= bytes@.len(),
            s@ == hex_of(bytes@.take(i as int)),
        decreases bytes@.len() - i,
    {
        let b = bytes[i];
        push_char(&mut s, hex_digit_exec(b / 16));
        push_char(&mut s, hex_digit_exec(b % 16));
        proof {
            assert(bytes@.take(i as int + 1).drop_last() =~= bytes@.take(i as int));
            assert(bytes@.take(i as int + 1).last() == bytes@[i as int]);
        }
        i += 1;
    }
    assert(bytes@.take(bytes@.len() as int) =~= bytes@);
    s
}

/// Replaces every occurrence of `from` with `to`.
pub fn replace_char(s: &str, from: char, to: char) -> (r: String)
    ensures
        r@.len() == s@.len(),
        forall|i: int|
            0 <= i < s@.len() ==> r@[i] == (if s@[i] == from {
                to
            } else {
                s@[i]
            }),
{
    let len = s.unicode_len();
    let mut out = String::new();
    let mut i: usize = 0;
    while i < len
        invariant
            0 <= i <= len,
            len == s@.len(),
            out@.len() == i,
            forall|j: int|
                0 <= j < i ==> out@[j] == (if s@[j] == from {
                    to
                } else {
                    s@[j]
                }),
        decreases len - i,
    {
        let c = s.get_char(i);
        if c == from {
            push_char(&mut out, to);
        } else {
            push_char(&mut out, c);
        }
        i += 1;
    }
    out
}

/// The pieces of `s` between occurrences of the separator `c`, in order,
/// as `str::split` yields them: `n` separators give `n + 1` pieces, and
/// empty pieces are kept.
pub open spec fn split_spec(s: Seq<char>, c: char) -> Seq<Seq<char>>
    decreases s.len(),
{
    if s.len() == 0 {
        seq![Seq::<char>::empty()]
    } else if s[0] == c {
        seq![Seq::<char>::empty()] + split_spec(s.skip(1), c)
    } else {
        seq![seq![s[0]] + split_spec(s.skip(1), c)[0]] + split_spec(s.skip(1), c).skip(1)
    }
}

proof fn lemma_split_nonempty(s: Seq<char>, c: char)
    ensures
        split_spec(s, c).len() >= 1,
    decreases s.len(),
{
    if s.len() > 0 {
        lemma_split_nonempty(s.skip(1), c);
    }
}

pub proof fn lemma_split_no_sep(s: Seq<char>, c: char)
    requires
        forall|j: int| 0 <= j < s.len() ==> s[j] != c,
    ensures
        split_spec(s, c) =~~= seq![s],
    decreases s.len(),
{
    if s.len() > 0 {
        lemma_split_no_sep(s.skip(1), c);
        assert(seq![s[0]] + s.skip(1) =~= s);
    }
}

proof fn lemma_split_first(s: Seq<char>, c: char, i: int)
    requires
        0 <= i < s.len(),
        s[i] == c,
        forall|j: int| 0 <= j < i ==> s[j] != c,
    ensures
        split_spec(s, c) =~~= seq![s.take(i)] + split_spec(s.skip(i + 1), c),
    decreases i,
{
    lemma_split_nonempty(s.skip(1), c);
    if i == 0 {
        assert(s.take(0) =~= Seq::<char>::empty());
        assert(s.skip(1) =~= s.skip(i + 1));
    } else {
        assert(s.skip(1)[i - 1] == c);
        lemma_split_first(s.skip(1), c, i - 1);
        assert(s.skip(1).take(i - 1) =~= s.take(i).skip(1));
        assert(seq![s[0]] + s.take(i).skip(1) =~= s.take(i));
        assert(s.skip(1).skip(i) =~= s.skip(i + 1));
    }
}

/// Splitting after a separator-free first piece yields that piece and
/// then the split of the rest.
pub proof fn lemma_split_prepend(x: Seq<char>, rest: Seq<char>, c: char)
    requires
        !contains_char(x, c),
    ensures
        split_spec(x + seq![c] + rest, c) =~~= seq![x] + split_spec(rest, c),
{
    let s = x + seq![c] + rest;
    assert(s[x.len() as int] == c);
    assert forall|j: int| 0 <= j < x.len() implies s[j] != c by {
        assert(s[j] == x[j]);
        assert(!(exists|i: int| 0 <= i < x.len() && x[i] == c));
    }
    lemma_split_first(s, c, x.len() as int);
    assert(s.take(x.len() as int) =~= x);
    assert(s.skip(x.len() as int + 1) =~= rest);
}

/// Splits `s` at every occurrence of `c`.
pub fn split_char(s: &str, c: char) -> (r: Vec<String>)
    ensures
        r.deep_view() == split_spec(s@, c),
    decreases s@.len(),
{
    let len = s.unicode_len();
    match find_char(s, c) {
        None => {
            let mut v: Vec<String> = Vec::new();
            v.push(s.to_owned());
            proof {
                lemma_split_no_sep(s@, c);
                assert(v.deep_view() =~~= split_spec(s@, c));
            }
            v
        },
        Some(i) => {
            let pre = s.substring_char(0, i);
            let rest = s.substring_char(i + 1, len);
            assert(rest@ =~= s@.skip(i + 1));
            let mut v = split_char(rest, c);
            v.insert(0, pre.to_owned());
            proof {
                lemma_split_first(s@, c, i as int);
                assert(pre@ =~= s@.take(i as int));
                assert(v.deep_view() =~~= split_spec(s@, c));
            }
            v
        },
    }
}

/// The index of the first occurrence of `c` in `s`, or the length of `s`
/// when it does not occur.
pub open spec fn first_index_or_len(s: Seq<char>, c: char) -> int
    decreases s.len(),
{
    if s.len() == 0 {
        0
    } else if s[0] == c {
        0
    } else {
        1 + first_index_or_len(s.skip(1), c)
    }
}

proof fn lemma_first_index_at(s: Seq<char>, c: char, i: int)
    requires
        0 <= i < s.len(),
        s[i] == c,
        forall|j: int| 0 <= j < i ==> s[j] != c,
    ensures
        first_index_or_len(s, c) == i,
    decreases i,
{
    if i > 0 {
        assert(s.skip(1)[i - 1] == s[i]);
        assert(forall|j: int| 0 <= j < i - 1 ==> s.skip(1)[j] == s[j + 1]);
        lemma_first_index_at(s.skip(1), c, i - 1);
    }
}

pub proof fn lemma_first_index_bounds(s: Seq<char>, c: char)
    ensures
        0 <= first_index_or_len(s, c) <= s.len(),
    decreases s.len(),
{
    if s.len() > 0 && s[0] != c {
        lemma_first_index_bounds(s.skip(1), c);
    }
}

proof fn lemma_first_index_none(s: Seq<char>, c: char)
    requires
        forall|j: int| 0 <= j < s.len() ==> s[j] != c,
    ensures
        first_index_or_len(s, c) == s.len(),
    decreases s.len(),
{
    if s.len() > 0 {
        assert(forall|j: int| 0 <= j < s.skip(1).len() ==> s.skip(1)[j] == s[j + 1]);
        lemma_first_index_none(s.skip(1), c);
    }
}

/// The prefix of `s` before the first occurrence of `c` (all of `s` when
/// `c` does not occur).
pub open spec fn take_till(s: Seq<char>, c: char) -> Seq<char> {
    s.take(first_index_or_len(s, c))
}

/// Splits `s` at the first occurrence of `c`: the part before it, and
/// the rest beginning with `c` itself (empty when `c` does not occur).
pub fn span_till<'a>(s: &'a str, c: char) -> (r: (&'a str, &'a str))
    ensures
        r.0@ == take_till(s@, c),
        r.1@ == s@.skip(first_index_or_len(s@, c)),
{
    let len = s.unicode_len();
    match find_char(s, c) {
        Some(i) => {
            proof {
                lemma_first_index_at(s@, c, i as int);
            }
            (s.substring_char(0, i), s.substring_char(i, len))
        },
        None => {
            proof {
                lemma_first_index_none(s@, c);
            }
            assert(s@.take(len as int) =~= s@);
            assert(s@.skip(len as int) =~= Seq::<char>::empty());
            (s, s.substring_char(len, len))
        },
    }
}

/// The length of the longest all-digit prefix of `s`.
pub open spec fn digit_len(s: Seq<char>) -> int
    decreases s.len(),
{
    if s.len() > 0 && is_digit(s[0]) {
        1 + digit_len(s.skip(1))
    } else {
        0
    }
}

pub proof fn lemma_digit_len_bounds(s: Seq<char>)
    ensures
        0 <= digit_len(s) <= s.len(),
    decreases s.len(),
{
    if s.len() > 0 && is_digit(s[0]) {
        lemma_digit_len_bounds(s.skip(1));
    }
}

proof fn lemma_digit_len_at(s: Seq<char>, i: int)
    requires
        0 <= i <= s.len(),
        forall|j: int| 0 <= j < i ==> is_digit(s[j]),
        i < s.len() ==> !is_digit(s[i]),
    ensures
        digit_len(s) == i,
    decreases i,
{
    if i > 0 {
        assert(is_digit(s[0]));
        assert(forall|j: int| 0 <= j < s.skip(1).len() ==> s.skip(1)[j] == s[j + 1]);
        lemma_digit_len_at(s.skip(1), i - 1);
    } else {
        if s.len() > 0 {
            assert(!is_digit(s[0]));
        }
    }
}

/// Splits `s` after its longest all-digit prefix.
pub fn span_digits<'a>(s: &'a str) -> (r: (&'a str, &'a str))
    ensures
        r.0@ == s@.take(digit_len(s@)),
        r.1@ == s@.skip(digit_len(s@)),
        all_digits(r.0@),
{
    let len = s.unicode_len();
    let mut i: usize = 0;
    while i < len
        invariant
            0 <= i <= len,
            len == s@.len(),
            forall|j: int| 0 <= j < i ==> is_digit(s@[j]),
        decreases len - i,
    {
        let c = s.get_char(i);
        let cu = c as u32;
        if cu < 48 || cu > 57 {
            proof {
                lemma_digit_len_at(s@, i as int);
            }
            return (s.substring_char(0, i), s.substring_char(i, len));
        }
        i += 1;
    }
    proof {
        lemma_digit_len_at(s@, len as int);
    }
    assert(s@.take(len as int) =~= s@);
    assert(s@.skip(len as int) =~= Seq::<char>::empty());
    (s, s.substring_char(len, len))
}

/// Whether two strings hold the same characters.
pub fn str_eq(a: &str, b: &str) -> (r: bool)
    ensures
        r == (a@ == b@),
{
    let a_len = a.unicode_len();
    let b_len = b.unicode_len();
    if a_len != b_len {
        return false;
    }
    let mut i: usize = 0;
    while i < a_len
        invariant
            0 <= i <= a_len,
            a_len == a@.len(),
            a_len == b@.len(),
            forall|j: int| 0 <= j < i ==> a@[j] == b@[j],
        decreases a_len - i,
    {
        if a.get_char(i) != b.get_char(i) {
            assert(a@ != b@) by {
                assert(a@[i as int] != b@[i as int]);
            }
            return false;
        }
        i += 1;
    }
    assert(a@ =~= b@);
    true
}

/// True when `c` is a hexadecimal digit (either case).
pub open spec fn is_hex(c: char) -> bool {
    (48 <= c as int && c as int <= 57) || (97 <= c as int && c as int <= 102) || (65 <= c as int
        && c as int <= 70)
}

/// The numeric value of a hexadecimal digit.
pub open spec fn hex_val(c: char) -> int {
    if 48 <= c as int && c as int <= 57 {
        c as int - 48
    } else if 97 <= c as int && c as int <= 102 {
        c as int - 87
    } else {
        c as int - 55
    }
}

/// The percent-decoding of an ASCII character sequence: each `%` followed
/// by two hexadecimal digits becomes one byte; everything else passes
/// through unchanged.
pub open spec fn pct_of(s: Seq<char>) -> Seq<u8>
    decreases s.len(),
{
    if s.len() == 0 {
        Seq::<u8>::empty()
    } else if s[0] == '%' && s.len() >= 3 && is_hex(s[1]) && is_hex(s[2]) {
        seq![(hex_val(s[1]) * 16 + hex_val(s[2])) as u8] + pct_of(s.skip(3))
    } else {
        seq![s[0] as u8] + pct_of(s.skip(1))
    }
}

fn hex_val_exec(c: char) -> (v: u8)
    requires
        is_hex(c),
    ensures
        v as int == hex_val(c),
{
    let cu = c as u32;
    if cu >= 48 && cu <= 57 {
        (cu - 48) as u8
    } else if cu >= 97 && cu <= 102 {
        (cu - 87) as u8
    } else {
        (cu - 55) as u8
    }
}

fn is_hex_exec(c: char) -> (r: bool)
    ensures
        r == is_hex(c),
{
    let cu = c as u32;
    (cu >= 48 && cu <= 57) || (cu >= 97 && cu <= 102) || (cu >= 65 && cu <= 70)
}

/// Percent-decodes an ASCII string to bytes.
pub fn percent_decode(s: &str) -> (r: Vec<u8>)
    requires
        forall|i: int| 0 <= i < s@.len() ==> (s@[i] as int) < 128,
    ensures
        r@ == pct_of(s@),
{
    let len = s.unicode_len();
    let mut out: Vec<u8> = Vec::new();
    let mut i: usize = 0;
    assert(s@.skip(0) =~= s@);
    assert(Seq::<u8>::empty() + pct_of(s@) =~= pct_of(s@));
    while i < len
        invariant
            0 <= i <= len,
            len == s@.len(),
            forall|k: int| 0 <= k < s@.len() ==> (s@[k] as int) < 128,
            pct_of(s@) == out@ + pct_of(s@.skip(i as int)),
        decreases len - i,
    {
        let c = s.get_char(i);
        let ghost tail = s@.skip(i as int);
        assert(tail[0] == s@[i as int]);
        if c == '%' && len - i > 2 {
            let h1 = s.get_char(i + 1);
            let h2 = s.get_char(i + 2);
            assert(tail[1] == s@[i as int + 1] && tail[2] == s@[i as int + 2]);
            if is_hex_exec(h1) && is_hex_exec(h2) {
                let b: u8 = hex_val_exec(h1) * 16 + hex_val_exec(h2);
                out.push(b);
                proof {
                    assert(tail.skip(3) =~= s@.skip(i as int + 3));
                    assert(pct_of(tail) == seq![b] + pct_of(s@.skip(i as int + 3)));
                }
                i += 3;
            } else {
                let b: u8 = c as u8;
                out.push(b);
                proof {
                    assert(tail.skip(1) =~= s@.skip(i as int + 1));
                    assert(pct_of(tail) == seq![b] + pct_of(s@.skip(i as int + 1)));
                }
                i += 1;
            }
        } else {
            let b: u8 = c as u8;
            out.push(b);
            proof {
                assert(tail.skip(1) =~= s@.skip(i as int + 1));
                if tail[0] == '%' && tail.len() >= 3 && is_hex(tail[1]) && is_hex(tail[2]) {
                    assert(i + 2 < len);
                }
                assert(pct_of(tail) == seq![b] + pct_of(s@.skip(i as int + 1)));
            }
            i += 1;
        }
    }
    assert(s@.skip(len as int) =~= Seq::<char>::empty());
    assert(out@ =~= pct_of(s@));
    out
}

} // verus!
