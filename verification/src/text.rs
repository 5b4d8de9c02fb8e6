//! Operations on the text of paths and mount prefixes.

use vstd::prelude::*;

verus! {

/// White space: the characters with Unicode's property `White_Space`. They
/// are the tab, the line feed, the vertical tab, the form feed and the
/// carriage return (U+0009 to U+000D), the space (U+0020), the next line
/// (U+0085), the no-break space (U+00A0), the Ogham space mark (U+1680), the
/// spaces of fixed width (U+2000 to U+200A), the line and the paragraph
/// separator (U+2028, U+2029), the narrow no-break space (U+202F), the
/// medium mathematical space (U+205F) and the ideographic space (U+3000).
pub open spec fn is_space(c: char) -> bool {
    let n = c as u32;
    ||| 0x09 <= n <= 0x0D
    ||| n == 0x20
    ||| n == 0x85
    ||| n == 0xA0
    ||| n == 0x1680
    ||| 0x2000 <= n <= 0x200A
    ||| n == 0x2028
    ||| n == 0x2029
    ||| n == 0x202F
    ||| n == 0x205F
    ||| n == 0x3000
}

/// The characters that are cut from both ends of a mount prefix: the slash
/// and white space.
pub open spec fn is_pad(c: char) -> bool {
    c == '/' || is_space(c)
}

/// The lower-case letter for an upper-case letter of ASCII; any other
/// character as it is.
pub open spec fn lower_char(c: char) -> char {
    if 0x41 <= c as u32 <= 0x5A {
        ((c as u32 + 32) as u8) as char
    } else {
        c
    }
}

/// `s` with its ASCII letters in lower case.
pub open spec fn lowered(s: Seq<char>) -> Seq<char> {
    Seq::new(s.len(), |i: int| lower_char(s[i]))
}

/// `str::to_ascii_lowercase`: a copy of the string in which the ASCII
/// letters `A` to `Z` are `a` to `z` and every other character is unchanged.
pub assume_specification[ str::to_ascii_lowercase ](s: &str) -> (r: String)
    ensures
        r@ == lowered(s@),
;

/// A text without upper-case ASCII letters is its own lower case.
pub proof fn lemma_lowered_same(s: Seq<char>)
    requires
        forall|i: int| 0 <= i < s.len() ==> !(0x41 <= (#[trigger] s[i]) as u32 <= 0x5A),
    ensures
        lowered(s) == s,
{
    assert(lowered(s) =~= s);
}

/// How many characters at the start of `s` satisfy [`is_pad`].
pub open spec fn leading_pad(s: Seq<char>) -> nat
    decreases s.len(),
{
    if s.len() > 0 && is_pad(s[0]) {
        1 + leading_pad(s.skip(1))
    } else {
        0
    }
}

/// How many characters at the end of `s` satisfy [`is_pad`].
pub open spec fn trailing_pad(s: Seq<char>) -> nat
    decreases s.len(),
{
    if s.len() > 0 && is_pad(s.last()) {
        1 + trailing_pad(s.drop_last())
    } else {
        0
    }
}

/// `s` without the slashes and white space at its two ends.
pub open spec fn trimmed(s: Seq<char>) -> Seq<char> {
    let rest = s.skip(leading_pad(s) as int);
    rest.take(rest.len() - trailing_pad(rest))
}

/// How many slashes `s` begins with.
pub open spec fn leading_slashes(s: Seq<char>) -> nat
    decreases s.len(),
{
    if s.len() > 0 && s[0] == '/' {
        1 + leading_slashes(s.skip(1))
    } else {
        0
    }
}

/// `s` without the slashes at its start.
pub open spec fn without_leading_slashes(s: Seq<char>) -> Seq<char> {
    s.skip(leading_slashes(s) as int)
}

/// Where the first `i` characters are slashes and white space and the next one,
/// if there is one, is not, `i` of them lead the text.
pub proof fn lemma_leading_pad(s: Seq<char>, i: int)
    requires
        0 <= i <= s.len(),
        forall|k: int| 0 <= k < i ==> is_pad(#[trigger] s[k]),
        i == s.len() || !is_pad(s[i]),
    ensures
        leading_pad(s) == i,
    decreases i,
{
    if i > 0 {
        let t = s.skip(1);
        assert forall|k: int| 0 <= k < i - 1 implies is_pad(#[trigger] t[k]) by {
            assert(t[k] == s[k + 1]);
        }
        lemma_leading_pad(t, i - 1);
    }
}

/// Where the last `n` characters are slashes and white space and the one before
/// them, if there is one, is not, `n` of them trail the text.
pub proof fn lemma_trailing_pad(s: Seq<char>, n: int)
    requires
        0 <= n <= s.len(),
        forall|k: int| s.len() - n <= k < s.len() ==> is_pad(#[trigger] s[k]),
        n == s.len() || !is_pad(s[s.len() - n - 1]),
    ensures
        trailing_pad(s) == n,
    decreases n,
{
    if n > 0 {
        let t = s.drop_last();
        assert forall|k: int| t.len() - (n - 1) <= k < t.len() implies is_pad(#[trigger] t[k]) by {
            assert(t[k] == s[k]);
        }
        lemma_trailing_pad(t, n - 1);
    }
}

/// Where the first `i` characters are slashes and the next one, if there
/// is one, is not, the text begins with `i` slashes.
pub proof fn lemma_leading_slashes(s: Seq<char>, i: int)
    requires
        0 <= i <= s.len(),
        forall|k: int| 0 <= k < i ==> #[trigger] s[k] == '/',
        i == s.len() || s[i] != '/',
    ensures
        leading_slashes(s) == i,
    decreases i,
{
    if i > 0 {
        let t = s.skip(1);
        assert forall|k: int| 0 <= k < i - 1 implies #[trigger] t[k] == '/' by {
            assert(t[k] == s[k + 1]);
        }
        lemma_leading_slashes(t, i - 1);
    }
}

/// The character that follows the leading slashes and white space, if there is
/// one, is neither.
pub proof fn lemma_after_leading_pad(s: Seq<char>)
    ensures
        leading_pad(s) <= s.len(),
        leading_pad(s) < s.len() ==> !is_pad(s[leading_pad(s) as int]),
    decreases s.len(),
{
    if s.len() > 0 && is_pad(s[0]) {
        lemma_after_leading_pad(s.skip(1));
        assert(leading_pad(s) < s.len() ==> s[leading_pad(s) as int] == s.skip(1)[leading_pad(
            s.skip(1),
        ) as int]);
    }
}

/// The character before the trailing slashes and white space, if there is one,
/// is neither.
pub proof fn lemma_before_trailing_pad(s: Seq<char>)
    ensures
        trailing_pad(s) <= s.len(),
        trailing_pad(s) < s.len() ==> !is_pad(s[s.len() - trailing_pad(s) - 1]),
    decreases s.len(),
{
    if s.len() > 0 && is_pad(s.last()) {
        lemma_before_trailing_pad(s.drop_last());
    }
}

/// What is left of a text after trimming neither begins nor ends with a
/// slash or white space.
pub proof fn lemma_trimmed_ends(s: Seq<char>)
    ensures
        trimmed(s).len() > 0 ==> !is_pad(trimmed(s)[0]) && !is_pad(trimmed(s).last()),
{
    lemma_after_leading_pad(s);
    let rest = s.skip(leading_pad(s) as int);
    lemma_before_trailing_pad(rest);
}

/// A path made of one slash, a text that does not begin with a slash, and
/// more, is that text and the rest once its leading slashes are cut.
pub proof fn lemma_one_leading_slash(p: Seq<char>, rest: Seq<char>)
    requires
        p.len() > 0,
        p[0] != '/',
    ensures
        without_leading_slashes(seq!['/'] + p + rest) == p + rest,
{
    let path = seq!['/'] + p + rest;
    assert(path[0] == '/');
    assert(path[1] == p[0]);
    assert forall|k: int| 0 <= k < 1 implies #[trigger] path[k] == '/' by {}
    lemma_leading_slashes(path, 1);
    assert(path.skip(1) =~= p + rest);
}

/// Whether `c` is white space.
pub fn space_char(c: char) -> (r: bool)
    ensures
        r == is_space(c),
{
    let n: u32 = c as u32;
    (0x09 <= n && n <= 0x0D) || n == 0x20 || n == 0x85 || n == 0xA0 || n == 0x1680 || (0x2000 <= n
        && n <= 0x200A) || n == 0x2028 || n == 0x2029 || n == 0x202F || n == 0x205F || n == 0x3000
}

/// Whether `c` is a slash or white space.
pub fn pad_char(c: char) -> (r: bool)
    ensures
        r == is_pad(c),
{
    c == '/' || space_char(c)
}

/// Cuts the slashes and white space from both ends of `s`.
pub fn trim(s: &str) -> (r: &str)
    ensures
        r@ == trimmed(s@),
{
    let n: usize = s.unicode_len();
    let mut i: usize = 0;
    while i < n && pad_char(s.get_char(i))
        invariant
            n == s@.len(),
            i <= n,
            forall|k: int| 0 <= k < i ==> is_pad(#[trigger] s@[k]),
        decreases n - i,
    {
        i = i + 1;
    }
    let mut j: usize = n;
    while j > i && pad_char(s.get_char(j - 1))
        invariant
            n == s@.len(),
            i <= j <= n,
            forall|k: int| j <= k < n ==> is_pad(#[trigger] s@[k]),
        decreases j,
    {
        j = j - 1;
    }
    proof {
        lemma_leading_pad(s@, i as int);
        let rest = s@.skip(i as int);
        assert forall|k: int| rest.len() - (n - j) <= k < rest.len() implies is_pad(
            #[trigger] rest[k],
        ) by {
            assert(rest[k] == s@[k + i]);
        }
        if j > i {
            assert(rest[rest.len() - (n - j) - 1] == s@[j - 1]);
        }
        lemma_trailing_pad(rest, (n - j) as int);
        assert(rest.take(rest.len() - (n - j)) =~= s@.subrange(i as int, j as int));
    }
    s.substring_char(i, j)
}

/// Whether `a` and `b` hold the same characters.
pub fn same_text(a: &str, b: &str) -> (r: bool)
    ensures
        r == (a@ == b@),
{
    String::from_str(a) == String::from_str(b)
}

/// Cuts the slashes from the start of `s`.
pub fn trim_leading_slashes(s: &str) -> (r: &str)
    ensures
        r@ == without_leading_slashes(s@),
{
    let n: usize = s.unicode_len();
    let mut i: usize = 0;
    while i < n && s.get_char(i) == '/'
        invariant
            n == s@.len(),
            i <= n,
            forall|k: int| 0 <= k < i ==> #[trigger] s@[k] == '/',
        decreases n - i,
    {
        i = i + 1;
    }
    proof {
        lemma_leading_slashes(s@, i as int);
        assert(s@.skip(i as int) =~= s@.subrange(i as int, n as int));
    }
    s.substring_char(i, n)
}

} // verus!
