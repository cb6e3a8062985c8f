//! Small string helpers: appending a single character and whitespace
//! trimming, specified over `Seq<char>` views.

use vstd::prelude::*;
use vstd::string::StrSliceExecFns;

use crate::model::{is_marker, is_wspace, trim_back, trim_front, trimmed};

verus! {

/// Relies on String::push: appends exactly the given character to the string.
pub assume_specification[ String::push ](s: &mut String, c: char)
    ensures
        final(s)@ == old(s)@ + seq![c],
;

/// Appends one character to a string.
pub fn push_char(s: &mut String, c: char)
    ensures
        final(s)@ == old(s)@ + seq![c],
{
    s.push(c);
}

/// Whether a character counts as whitespace for trimming.
pub fn is_space_char(c: char) -> (r: bool)
    ensures
        r == is_wspace(c),
{
    c == ' ' || c == '\t' || c == '\n' || c == '\r'
}

/// Whether a character starts a normal event record.
pub fn is_marker_char(c: char) -> (r: bool)
    ensures
        r == is_marker(c),
{
    c == 'L' || c == 'D'
}

/// Whether the character of `s` at `i` starts a normal event record.
pub fn marker_at(s: &str, i: usize) -> (r: bool)
    requires
        i < s@.len(),
    ensures
        r == is_marker(s@[i as int]),
{
    is_marker_char(s.get_char(i))
}

/// The position of the first `%` of `s`, or its character length if it has
/// none.
pub fn find_percent(s: &str) -> (i: usize)
    ensures
        0 <= i <= s@.len(),
        forall|j: int| 0 <= j < i ==> s@[j] != '%',
        i < s@.len() ==> s@[i as int] == '%',
{
    let n: usize = s.unicode_len();
    let mut i: usize = 0;
    while i < n && s.get_char(i) != '%'
        invariant
            0 <= i <= n,
            n == s@.len(),
            forall|j: int| 0 <= j < i ==> s@[j] != '%',
        decreases n - i,
    {
        i = i + 1;
    }
    i
}

/// `s` with surrounding whitespace removed.
pub fn trim_chars(s: &str) -> (r: &str)
    ensures
        r@ == trimmed(s@),
{
    let n: usize = s.unicode_len();
    let mut a: usize = 0;
    proof {
        assert(s@.skip(0) =~= s@);
    }
    while a < n && is_space_char(s.get_char(a))
        invariant
            0 <= a <= n,
            n == s@.len(),
            trim_front(s@) == trim_front(s@.skip(a as int)),
        decreases n - a,
    {
        proof {
            assert(s@.skip(a as int).skip(1) =~= s@.skip(a as int + 1));
        }
        a = a + 1;
    }
    proof {
        assert(trim_front(s@) == s@.skip(a as int));
    }
    let ghost t: Seq<char> = s@.skip(a as int);
    let mut b: usize = n;
    proof {
        assert(t.take(n - a as int) =~= t);
    }
    while b > a && is_space_char(s.get_char(b - 1))
        invariant
            a <= b <= n,
            n == s@.len(),
            t == s@.skip(a as int),
            trim_back(t) == trim_back(t.take(b - a)),
        decreases b,
    {
        proof {
            assert(t.take(b - a as int)[b - a as int - 1] == s@[b as int - 1]);
            assert(t.take(b - a as int).take(b - a as int - 1) =~= t.take(b - a as int - 1));
        }
        b = b - 1;
    }
    proof {
        if b > a {
            assert(t.take(b - a as int)[b - a as int - 1] == s@[b as int - 1]);
        }
        assert(trim_back(t) == t.take(b - a as int));
        assert(t.take(b - a as int) =~= s@.subrange(a as int, b as int));
    }
    s.substring_char(a, b)
}

} // verus!
