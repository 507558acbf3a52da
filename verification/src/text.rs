//! Small verified text utilities for the configuration loader: splitting on a
//! separator, trimming spaces, and parsing decimal numbers.

use vstd::prelude::*;
use vstd::string::StrSliceExecFns;

verus! {

/// Index of the first occurrence of `c` in `s`, or `s.len()` if there is
/// none.
pub open spec fn first_index_of(s: Seq<char>, c: char) -> int
    decreases s.len(),
{
    if s.len() == 0 {
        0
    } else if s[0] == c {
        0
    } else {
        1 + first_index_of(s.drop_first(), c)
    }
}

/// `first_index_of` is pinned by its characteristic properties.
pub proof fn lemma_first_index_of_is(s: Seq<char>, c: char, k: int)
    requires
        0 <= k <= s.len(),
        forall|j: int| 0 <= j < k ==> s[j] != c,
        k < s.len() ==> s[k] == c,
    ensures
        first_index_of(s, c) == k,
    decreases s.len(),
{
    if s.len() == 0 {
    } else if s[0] == c {
        assert(k == 0);
    } else {
        assert(k >= 1);
        lemma_first_index_of_is(s.drop_first(), c, k - 1);
    }
}

/// `s` split at every occurrence of `sep`: the pieces in order, without the
/// separators. An empty sequence gives one empty piece.
pub open spec fn spec_split(s: Seq<char>, sep: char) -> Seq<Seq<char>>
    decreases s.len(),
{
    let k = first_index_of(s, sep);
    if 0 <= k < s.len() {
        seq![s.take(k)] + spec_split(s.skip(k + 1), sep)
    } else {
        seq![s]
    }
}

/// `s` without its leading spaces.
pub open spec fn trim_front(s: Seq<char>) -> Seq<char>
    decreases s.len(),
{
    if s.len() > 0 && s[0] == ' ' {
        trim_front(s.drop_first())
    } else {
        s
    }
}

/// `s` without its trailing spaces.
pub open spec fn trim_back(s: Seq<char>) -> Seq<char>
    decreases s.len(),
{
    if s.len() > 0 && s[s.len() - 1] == ' ' {
        trim_back(s.drop_last())
    } else {
        s
    }
}

/// `s` without its leading and trailing spaces.
pub open spec fn spec_trim(s: Seq<char>) -> Seq<char> {
    trim_back(trim_front(s))
}

proof fn lemma_trim_front_skip(s: Seq<char>, a: int)
    requires
        0 <= a <= s.len(),
        forall|j: int| 0 <= j < a ==> s[j] == ' ',
        a < s.len() ==> s[a] != ' ',
    ensures
        trim_front(s) == s.skip(a),
    decreases s.len(),
{
    if a == 0 {
        assert(s.skip(0) =~= s);
    } else {
        assert(s[0] == ' ');
        lemma_trim_front_skip(s.drop_first(), a - 1);
        assert(s.drop_first().skip(a - 1) =~= s.skip(a));
    }
}

proof fn lemma_trim_back_take(s: Seq<char>, b: int)
    requires
        0 <= b <= s.len(),
        forall|j: int| b <= j < s.len() ==> s[j] == ' ',
        b > 0 ==> s[b - 1] != ' ',
    ensures
        trim_back(s) == s.take(b),
    decreases s.len(),
{
    if b == s.len() {
        assert(s.take(b) =~= s);
    } else {
        assert(s[s.len() - 1] == ' ');
        lemma_trim_back_take(s.drop_last(), b);
        assert(s.drop_last().take(b) =~= s.take(b));
    }
}

/// Whether `c` is a decimal digit.
pub open spec fn is_digit(c: char) -> bool {
    48 <= c as u32 <= 57
}

/// The value of a decimal digit, or 0 for any other character.
pub open spec fn digit_val(c: char) -> nat {
    if is_digit(c) {
        (c as u32 - 48) as nat
    } else {
        0
    }
}

/// Whether `s` is entirely decimal digits.
pub open spec fn all_digits(s: Seq<char>) -> bool {
    forall|i: int| 0 <= i < s.len() ==> is_digit(#[trigger] s[i])
}

/// The number that `s` spells in decimal, most significant digit first;
/// non-digit characters count as 0.
pub open spec fn dec_value(s: Seq<char>) -> nat
    decreases s.len(),
{
    if s.len() == 0 {
        0
    } else {
        dec_value(s.drop_last()) * 10 + digit_val(s.last())
    }
}

proof fn lemma_dec_value_step(s: Seq<char>, i: int)
    requires
        0 <= i < s.len(),
    ensures
        dec_value(s.take(i + 1)) == dec_value(s.take(i)) * 10 + digit_val(s[i]),
{
    assert(s.take(i + 1).drop_last() =~= s.take(i));
    assert(s.take(i + 1).last() == s[i]);
}

proof fn lemma_dec_value_prefix_le(s: Seq<char>, i: int)
    requires
        0 <= i <= s.len(),
    ensures
        dec_value(s.take(i)) <= dec_value(s),
    decreases s.len() - i,
{
    if i == s.len() {
        assert(s.take(i) =~= s);
    } else {
        lemma_dec_value_step(s, i);
        lemma_dec_value_prefix_le(s, i + 1);
    }
}

/// Index of the first occurrence of `sep` at or after `from`, or the length
/// if there is none.
pub(crate) fn find_from(s: &str, sep: char, from: usize) -> (i: usize)
    requires
        from <= s@.len(),
    ensures
        from <= i <= s@.len(),
        forall|j: int| from <= j < i ==> s@[j] != sep,
        i < s@.len() ==> s@[i as int] == sep,
{
    let n = s.unicode_len();
    for i in from..n
        invariant
            n == s@.len(),
            from <= i <= n,
            forall|j: int| from <= j < i ==> s@[j] != sep,
    {
        if s.get_char(i) == sep {
            return i;
        }
    }
    n
}

/// Splits `s` at every occurrence of `sep`; the pieces come back in order,
/// exactly as `spec_split` describes.
pub fn split_str(s: &str, sep: char) -> (parts: Vec<String>)
    ensures
        parts.deep_view() == spec_split(s@, sep),
{
    let parts = split_from(s, sep, 0);
    proof {
        assert(s@.skip(0) =~= s@);
    }
    parts
}

fn split_from(s: &str, sep: char, from: usize) -> (parts: Vec<String>)
    requires
        from <= s@.len(),
    ensures
        parts.deep_view() == spec_split(s@.skip(from as int), sep),
    decreases s@.len() - from,
{
    let n = s.unicode_len();
    let i = find_from(s, sep, from);
    let ghost tail = s@.skip(from as int);
    let piece: String = s.substring_char(from, i).to_owned();
    proof {
        lemma_first_index_of_is(tail, sep, i - from);
        assert(piece@ =~= tail.take(i - from));
    }
    if i == n {
        let mut parts: Vec<String> = Vec::new();
        parts.push(piece);
        proof {
            assert(tail.take(i - from) =~= tail);
            assert(parts.deep_view() =~= seq![tail]);
        }
        parts
    } else {
        let mut parts = split_from(s, sep, i + 1);
        proof {
            assert(tail.skip(i - from + 1) =~= s@.skip(i + 1));
        }
        parts.insert(0, piece);
        proof {
            assert(parts.deep_view() =~= seq![tail.take(i - from)] + spec_split(
                s@.skip(i + 1),
                sep,
            ));
        }
        parts
    }
}

/// First index whose character is not a space, or the length.
fn first_non_space(s: &str) -> (a: usize)
    ensures
        0 <= a <= s@.len(),
        forall|j: int| 0 <= j < a ==> s@[j] == ' ',
        a < s@.len() ==> s@[a as int] != ' ',
{
    let n = s.unicode_len();
    for a in 0..n
        invariant
            n == s@.len(),
            forall|j: int| 0 <= j < a ==> s@[j] == ' ',
    {
        if s.get_char(a) != ' ' {
            return a;
        }
    }
    n
}

/// One past the last non-space index at or after `a`, or `a` if there is
/// none.
fn last_non_space_after(s: &str, a: usize) -> (b: usize)
    requires
        a <= s@.len(),
    ensures
        a <= b <= s@.len(),
        forall|j: int| b <= j < s@.len() ==> s@[j] == ' ',
        b > a ==> s@[b - 1] != ' ',
{
    let n = s.unicode_len();
    let mut b = n;
    while b > a
        invariant
            a <= b <= n,
            n == s@.len(),
            forall|j: int| b <= j < s@.len() ==> s@[j] == ' ',
        decreases b,
    {
        if s.get_char(b - 1) != ' ' {
            return b;
        }
        b = b - 1;
    }
    b
}

/// `s` with leading and trailing spaces removed, exactly as `spec_trim`
/// describes.
pub fn trim_str(s: &str) -> (t: String)
    ensures
        t@ == spec_trim(s@),
{
    let a = first_non_space(s);
    let b = last_non_space_after(s, a);
    let t = s.substring_char(a, b).to_owned();
    proof {
        lemma_trim_front_skip(s@, a as int);
        let tail = s@.skip(a as int);
        lemma_trim_back_take(tail, b - a);
        assert(tail.take(b - a) =~= s@.subrange(a as int, b as int));
    }
    t
}

/// Parses `s` as an unsigned decimal number: every character must be a digit,
/// at least one, and the value must fit.
pub fn parse_u64_dec(s: &str) -> (r: Option<u64>)
    ensures
        match r {
            Some(v) => s@.len() > 0 && all_digits(s@) && v == dec_value(s@),
            None => s@.len() == 0 || !all_digits(s@) || dec_value(s@) > u64::MAX,
        },
{
    let n = s.unicode_len();
    if n == 0 {
        return None;
    }
    let mut acc: u64 = 0;
    for i in 0..n
        invariant
            n == s@.len(),
            forall|j: int| 0 <= j < i ==> is_digit(#[trigger] s@[j]),
            acc == dec_value(s@.take(i as int)),
    {
        let c = s.get_char(i);
        let code = c as u32;
        if code < 48 || code > 57 {
            return None;
        }
        let d = (code - 48) as u64;
        proof {
            lemma_dec_value_step(s@, i as int);
        }
        let shifted = match acc.checked_mul(10) {
            Some(p) => p,
            None => {
                proof {
                    lemma_dec_value_prefix_le(s@, i + 1);
                }
                return None;
            },
        };
        acc = match shifted.checked_add(d) {
            Some(v) => v,
            None => {
                proof {
                    lemma_dec_value_prefix_le(s@, i + 1);
                }
                return None;
            },
        };
    }
    proof {
        assert(s@.take(n as int) =~= s@);
    }
    Some(acc)
}

} // verus!
