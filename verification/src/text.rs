//! Text operations that the rules of the store are stated over.

use vstd::prelude::*;
use vstd::string::StrSliceExecFns;

verus! {

/// Whether `char::is_whitespace` holds of `c`: the Unicode property
/// `White_Space`.
pub uninterp spec fn char_is_whitespace(c: char) -> bool;

/// Whether `char::is_alphanumeric` holds of `c`: a Unicode letter or number.
pub uninterp spec fn char_is_alphanumeric(c: char) -> bool;

/// What `str::to_lowercase` makes of `s`: its Unicode lower-case form.
pub uninterp spec fn lowercase(s: Seq<char>) -> Seq<char>;

/// `s` without the whitespace at its start.
pub open spec fn trim_start(s: Seq<char>) -> Seq<char>
    decreases s.len(),
{
    if s.len() > 0 && char_is_whitespace(s.first()) {
        trim_start(s.drop_first())
    } else {
        s
    }
}

/// `s` without the whitespace at its end.
pub open spec fn trim_end(s: Seq<char>) -> Seq<char>
    decreases s.len(),
{
    if s.len() > 0 && char_is_whitespace(s.last()) {
        trim_end(s.drop_last())
    } else {
        s
    }
}

/// `s` without the whitespace at either end.
pub open spec fn trimmed(s: Seq<char>) -> Seq<char> {
    trim_end(trim_start(s))
}

/// Whether `s` holds nothing but whitespace.
pub open spec fn is_blank(s: Seq<char>) -> bool {
    forall|i: int| 0 <= i < s.len() ==> char_is_whitespace(#[trigger] s[i])
}

/// Whether `needle` stands somewhere in `hay` as a run of consecutive
/// characters.
pub open spec fn is_substring(needle: Seq<char>, hay: Seq<char>) -> bool {
    exists|i: int|
        0 <= i && i + needle.len() <= hay.len() && #[trigger] hay.subrange(i, i + needle.len())
            == needle
}

/// The character of a decimal digit.
pub open spec fn digit_char(d: nat) -> char
    recommends
        d < 10,
{
    if d == 0 {
        '0'
    } else if d == 1 {
        '1'
    } else if d == 2 {
        '2'
    } else if d == 3 {
        '3'
    } else if d == 4 {
        '4'
    } else if d == 5 {
        '5'
    } else if d == 6 {
        '6'
    } else if d == 7 {
        '7'
    } else if d == 8 {
        '8'
    } else {
        '9'
    }
}

/// The decimal digits of `n`, without leading zeros.
pub open spec fn decimal(n: nat) -> Seq<char>
    decreases n,
{
    if n < 10 {
        seq![digit_char(n)]
    } else {
        decimal(n / 10).push(digit_char(n % 10))
    }
}

/// The characters of an optional text.
pub open spec fn text_of(o: Option<String>) -> Option<Seq<char>> {
    match o {
        Some(s) => Some(s@),
        None => None,
    }
}

/// A copy of an optional text.
pub fn dup_text(o: &Option<String>) -> (r: Option<String>)
    ensures
        text_of(r) == text_of(*o),
{
    match o {
        Some(s) => Some(s.clone()),
        None => None,
    }
}

/// Calls `char::is_whitespace`. Trusted: the answer depends on the character
/// alone.
#[verifier::external_body]
pub(crate) fn is_whitespace(c: char) -> (b: bool)
    ensures
        b == char_is_whitespace(c),
{
    c.is_whitespace()
}

/// Calls `char::is_alphanumeric`. Trusted: the answer depends on the
/// character alone.
#[verifier::external_body]
pub(crate) fn is_alphanumeric(c: char) -> (b: bool)
    ensures
        b == char_is_alphanumeric(c),
{
    c.is_alphanumeric()
}

/// Calls `str::to_lowercase`. Trusted: the result depends on the characters
/// alone.
#[verifier::external_body]
pub(crate) fn to_lowercase(s: &str) -> (r: String)
    ensures
        r@ == lowercase(s@),
{
    s.to_lowercase()
}

/// Calls `str::contains` with a string pattern. Trusted: it tells whether the
/// pattern matches a part of the text.
#[verifier::external_body]
pub(crate) fn contains(hay: &str, needle: &str) -> (b: bool)
    ensures
        b == is_substring(needle@, hay@),
{
    hay.contains(needle)
}

/// Calls `u64::to_string`. Trusted: it prints the number in decimal.
#[verifier::external_body]
pub(crate) fn decimal_string(n: u64) -> (r: String)
    ensures
        r@ == decimal(n as nat),
{
    n.to_string()
}

/// Whether `s` holds nothing but whitespace.
pub fn blank(s: &str) -> (b: bool)
    ensures
        b == is_blank(s@),
{
    let mut all = true;
    for c in it: s.chars()
        invariant
            it.seq() == s@,
            all == (forall|i: int| 0 <= i < it.index() ==> char_is_whitespace(#[trigger] s@[i])),
    {
        if !is_whitespace(c) {
            all = false;
        }
    }
    all
}

/// Where the first `a` characters are whitespace and the next one is not,
/// trimming the start drops exactly those.
pub proof fn lemma_trim_start(s: Seq<char>, a: int)
    requires
        0 <= a <= s.len(),
        forall|i: int| 0 <= i < a ==> char_is_whitespace(#[trigger] s[i]),
        a < s.len() ==> !char_is_whitespace(s[a]),
    ensures
        trim_start(s) == s.skip(a),
    decreases a,
{
    if a == 0 {
        assert(s.skip(0) =~= s);
    } else {
        assert(char_is_whitespace(s[0]));
        let rest = s.drop_first();
        assert forall|i: int| 0 <= i < a - 1 implies char_is_whitespace(#[trigger] rest[i]) by {
            assert(rest[i] == s[i + 1]);
        }
        lemma_trim_start(rest, a - 1);
        assert(rest.skip(a - 1) =~= s.skip(a));
    }
}

/// Where all from position `b` on is whitespace and the character before is
/// not, trimming the end keeps exactly the first `b`.
pub proof fn lemma_trim_end(s: Seq<char>, b: int)
    requires
        0 <= b <= s.len(),
        forall|i: int| b <= i < s.len() ==> char_is_whitespace(#[trigger] s[i]),
        b > 0 ==> !char_is_whitespace(s[b - 1]),
    ensures
        trim_end(s) == s.take(b),
    decreases s.len() - b,
{
    if b == s.len() {
        assert(s.take(b) =~= s);
    } else {
        assert(char_is_whitespace(s[s.len() - 1]));
        let rest = s.drop_last();
        lemma_trim_end(rest, b);
        assert(rest.take(b) =~= s.take(b));
    }
}

/// How many characters of whitespace `s` starts with.
pub open spec fn leading_blanks(s: Seq<char>) -> int
    decreases s.len(),
{
    if s.len() > 0 && char_is_whitespace(s.first()) {
        1 + leading_blanks(s.drop_first())
    } else {
        0
    }
}

/// How many characters of whitespace `s` ends with.
pub open spec fn trailing_blanks(s: Seq<char>) -> int
    decreases s.len(),
{
    if s.len() > 0 && char_is_whitespace(s.last()) {
        1 + trailing_blanks(s.drop_last())
    } else {
        0
    }
}

/// Trimming drops the whitespace that a text starts and ends with, and
/// nothing else; what it leaves is empty exactly when the text is blank.
pub proof fn lemma_trimmed(s: Seq<char>)
    ensures
        0 <= leading_blanks(s) <= s.len(),
        trim_start(s) == s.skip(leading_blanks(s)),
        0 <= trailing_blanks(s) <= s.len(),
        trim_end(s) == s.take(s.len() - trailing_blanks(s)),
        is_blank(s) <==> trimmed(s).len() == 0,
        trimmed(s).len() > 0 ==> !char_is_whitespace(trimmed(s).first()) && !char_is_whitespace(
            trimmed(s).last(),
        ),
{
    lemma_leading(s);
    lemma_trailing(s);
    let a = leading_blanks(s);
    lemma_trim_start(s, a);
    let t = s.skip(a);
    lemma_trailing(t);
    let e = t.len() - trailing_blanks(t);
    lemma_trim_end(t, e);
    lemma_trim_end(s, s.len() - trailing_blanks(s));
    assert(trimmed(s) == t.take(e));
    if is_blank(s) {
        if a < s.len() {
            assert(char_is_whitespace(s[a]));
        }
    } else {
        let i = choose|i: int| 0 <= i < s.len() && !char_is_whitespace(s[i]);
        assert(a <= i);
        assert(t[0] == s[a]);
        if e == 0 {
            assert(char_is_whitespace(t[0]));
        }
    }
    if e > 0 {
        assert(t.take(e).last() == t[e - 1]);
        assert(t.take(e).first() == t[0]);
        assert(t[0] == s[a]);
    }
}

/// The whitespace that a text starts with ends before its first other
/// character.
proof fn lemma_leading(s: Seq<char>)
    ensures
        0 <= leading_blanks(s) <= s.len(),
        forall|i: int| 0 <= i < leading_blanks(s) ==> char_is_whitespace(#[trigger] s[i]),
        leading_blanks(s) < s.len() ==> !char_is_whitespace(s[leading_blanks(s)]),
    decreases s.len(),
{
    if s.len() > 0 && char_is_whitespace(s.first()) {
        let rest = s.drop_first();
        lemma_leading(rest);
        assert forall|i: int| 0 <= i < leading_blanks(s) implies char_is_whitespace(
            #[trigger] s[i],
        ) by {
            if i > 0 {
                assert(rest[i - 1] == s[i]);
            }
        }
        if leading_blanks(s) < s.len() {
            assert(rest[leading_blanks(rest)] == s[leading_blanks(s)]);
        }
    }
}

/// The whitespace that a text ends with starts behind its last other
/// character.
proof fn lemma_trailing(s: Seq<char>)
    ensures
        0 <= trailing_blanks(s) <= s.len(),
        forall|i: int|
            s.len() - trailing_blanks(s) <= i < s.len() ==> char_is_whitespace(#[trigger] s[i]),
        trailing_blanks(s) < s.len() ==> !char_is_whitespace(s[s.len() - trailing_blanks(s) - 1]),
    decreases s.len(),
{
    if s.len() > 0 && char_is_whitespace(s.last()) {
        let rest = s.drop_last();
        lemma_trailing(rest);
        assert forall|i: int| s.len() - trailing_blanks(s) <= i < s.len() implies char_is_whitespace(
            #[trigger] s[i],
        ) by {
            if i < s.len() - 1 {
                assert(rest[i] == s[i]);
            }
        }
        if trailing_blanks(s) < s.len() {
            assert(rest[rest.len() - trailing_blanks(rest) - 1] == s[s.len() - trailing_blanks(s)
                - 1]);
        }
    }
}

/// `s` without the whitespace at either end.
pub fn trim(s: &str) -> (r: &str)
    ensures
        r@ == trimmed(s@),
{
    let n = s.unicode_len();
    let mut i: usize = 0;
    let mut start: usize = n;
    let mut end: usize = 0;
    for c in it: s.chars()
        invariant
            it.seq() == s@,
            n == s@.len(),
            i == it.index(),
            i <= n,
            start == n || start < i,
            forall|j: int| 0 <= j < i && j < start ==> char_is_whitespace(#[trigger] s@[j]),
            start < n ==> !char_is_whitespace(s@[start as int]),
            end <= i,
            forall|j: int| end <= j < i ==> char_is_whitespace(#[trigger] s@[j]),
            end > 0 ==> !char_is_whitespace(s@[end - 1]),
            (start == n) == (end == 0),
            end > 0 ==> start < end,
    {
        if !is_whitespace(c) {
            if start == n {
                start = i;
            }
            end = i + 1;
        }
        i += 1;
    }
    let stop = if end == 0 {
        n
    } else {
        end
    };
    proof {
        lemma_trim_start(s@, start as int);
        let rest = s@.skip(start as int);
        assert forall|j: int| stop - start <= j < rest.len() implies char_is_whitespace(
            #[trigger] rest[j],
        ) by {
            assert(rest[j] == s@[j + start]);
        }
        if stop - start > 0 {
            assert(rest[stop - start - 1] == s@[stop - 1]);
        }
        lemma_trim_end(rest, stop - start);
        assert(rest.take(stop - start) =~= s@.subrange(start as int, stop as int));
    }
    s.substring_char(start, stop)
}

} // verus!
