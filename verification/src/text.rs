//! Character-level helpers shared by the parsing and path-scanning code.

use vstd::prelude::*;

verus! {

/// The characters of a string slice, in order.
pub fn str_chars(s: &str) -> (v: Vec<char>)
    ensures
        v@ == s@,
{
    let n = s.unicode_len();
    let mut v: Vec<char> = Vec::new();
    let mut i: usize = 0;
    while i < n
        invariant
            n == s@.len(),
            i <= n,
            v@ == s@.subrange(0, i as int),
        decreases n - i,
    {
        v.push(s.get_char(i));
        i += 1;
        proof {
            assert(v@ =~= s@.subrange(0, i as int));
        }
    }
    proof {
        assert(v@ =~= s@);
    }
    v
}

/// A decimal digit.
pub open spec fn digit_char(c: char) -> bool {
    48 <= c as u32 && c as u32 <= 57
}

/// The numeric value of a digit, zero for any other character.
pub open spec fn digit_val(c: char) -> nat {
    if digit_char(c) {
        (c as u32 - 48) as nat
    } else {
        0
    }
}

/// A character a release-track token may contain: a letter, a digit or an
/// underscore.
pub open spec fn token_char(c: char) -> bool {
    ||| (97 <= c as u32 && c as u32 <= 122)
    ||| (65 <= c as u32 && c as u32 <= 90)
    ||| digit_char(c)
    ||| c as u32 == 95
}

/// Length of the longest digit prefix.
pub open spec fn digit_run(s: Seq<char>) -> nat
    decreases s.len(),
{
    if s.len() == 0 || !digit_char(s[0]) {
        0
    } else {
        (digit_run(s.skip(1)) + 1) as nat
    }
}

/// Length of the longest token-character prefix.
pub open spec fn token_run(s: Seq<char>) -> nat
    decreases s.len(),
{
    if s.len() == 0 || !token_char(s[0]) {
        0
    } else {
        (token_run(s.skip(1)) + 1) as nat
    }
}

/// Length of the longest prefix free of digits.
pub open spec fn lead_run(s: Seq<char>) -> nat
    decreases s.len(),
{
    if s.len() == 0 || digit_char(s[0]) {
        0
    } else {
        (lead_run(s.skip(1)) + 1) as nat
    }
}

/// The numeric value of a digit sequence read most-significant first.
pub open spec fn digits_val(s: Seq<char>) -> nat
    decreases s.len(),
{
    if s.len() == 0 {
        0
    } else {
        digits_val(s.drop_last()) * 10 + digit_val(s.last())
    }
}

/// A prefix of all digits ending at a non-digit (or the end) is the longest
/// digit prefix.
pub proof fn lemma_digit_run_is(s: Seq<char>, n: int)
    requires
        0 <= n <= s.len(),
        forall|k: int| 0 <= k < n ==> digit_char(s[k]),
        n == s.len() || !digit_char(s[n]),
    ensures
        digit_run(s) == n,
    decreases n,
{
    if n == 0 {
    } else {
        lemma_digit_run_is(s.skip(1), n - 1);
    }
}

/// A prefix of all digits bounds the longest digit prefix from below.
pub proof fn lemma_digit_run_at_least(s: Seq<char>, n: int)
    requires
        0 <= n <= s.len(),
        forall|k: int| 0 <= k < n ==> digit_char(s[k]),
    ensures
        digit_run(s) >= n,
    decreases n,
{
    if n == 0 {
    } else {
        lemma_digit_run_at_least(s.skip(1), n - 1);
    }
}

/// A prefix of all token characters ending at a non-token character (or the
/// end) is the longest token prefix.
pub proof fn lemma_token_run_is(s: Seq<char>, n: int)
    requires
        0 <= n <= s.len(),
        forall|k: int| 0 <= k < n ==> token_char(s[k]),
        n == s.len() || !token_char(s[n]),
    ensures
        token_run(s) == n,
    decreases n,
{
    if n == 0 {
    } else {
        lemma_token_run_is(s.skip(1), n - 1);
    }
}

/// A digit-free prefix ending at a digit (or the end) is the longest
/// digit-free prefix.
pub proof fn lemma_lead_run_is(s: Seq<char>, n: int)
    requires
        0 <= n <= s.len(),
        forall|k: int| 0 <= k < n ==> !digit_char(s[k]),
        n == s.len() || digit_char(s[n]),
    ensures
        lead_run(s) == n,
    decreases n,
{
    if n == 0 {
    } else {
        lemma_lead_run_is(s.skip(1), n - 1);
    }
}

/// The longest digit prefix never exceeds the text.
pub proof fn lemma_digit_run_le_len(s: Seq<char>)
    ensures
        digit_run(s) <= s.len(),
    decreases s.len(),
{
    if s.len() > 0 && digit_char(s[0]) {
        lemma_digit_run_le_len(s.skip(1));
    }
}

/// Extending a digit sequence multiplies its value by ten and adds the new
/// digit, so the value never shrinks as the sequence grows.
pub proof fn lemma_digits_val_prefix_le(s: Seq<char>, j: int, k: int)
    requires
        0 <= j <= k <= s.len(),
    ensures
        digits_val(s.take(j)) <= digits_val(s.take(k)),
    decreases k - j,
{
    if j < k {
        lemma_digits_val_prefix_le(s, j, k - 1);
        assert(s.take(k).drop_last() =~= s.take(k - 1));
        assert(digits_val(s.take(k)) == digits_val(s.take(k - 1)) * 10 + digit_val(
            s.take(k).last(),
        ));
    }
}

} // verus!
