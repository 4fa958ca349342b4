//! Byte-level facts about UTF-8 strings that the text handling relies on.

use vstd::prelude::*;
use vstd::utf8::*;
use vstd::string::StringSliceAdditionalSpecFns;

verus! {

/// The bytes of a string are valid UTF-8.
pub proof fn lemma_str_bytes_valid(s: &str)
    ensures
        valid_utf8(s.spec_bytes()),
{
    encode_utf8_valid_utf8(s@);
}

/// A byte that is not a UTF-8 continuation byte starts a character.
pub proof fn lemma_boundary_at_non_continuation(bytes: Seq<u8>, k: int)
    requires
        valid_utf8(bytes),
        0 <= k < bytes.len(),
        !is_continuation_byte(bytes[k]),
    ensures
        is_char_boundary(bytes, k),
{
    is_char_boundary_iff_not_is_continuation_byte(bytes, k);
}

/// The position right after an ASCII byte that starts a character is a
/// character boundary too.
pub proof fn lemma_boundary_after_ascii(bytes: Seq<u8>, k: int)
    requires
        valid_utf8(bytes),
        0 <= k < bytes.len(),
        is_char_boundary(bytes, k),
        bytes[k] <= 0x7f,
    ensures
        is_char_boundary(bytes, k + 1),
    decreases k,
{
    reveal_with_fuel(is_char_boundary, 2);
    let l = length_of_first_scalar(bytes);
    let tail = pop_first_scalar(bytes);
    if k == 0 {
        assert(l == 1);
    } else {
        assert(valid_utf8(tail));
        assert(is_char_boundary(tail, k - l));
        assert(tail.len() == bytes.len() - l);
        assert(tail[k - l] == bytes[k]);
        lemma_boundary_after_ascii(tail, k - l);
    }
}

/// Two strings are equal exactly when their UTF-8 bytes are.
pub proof fn lemma_bytes_eq_iff_chars_eq(a: &str, b: &str)
    ensures
        (a.spec_bytes() == b.spec_bytes()) <==> (a@ == b@),
{
    encode_utf8_decode_utf8(a@);
    encode_utf8_decode_utf8(b@);
}

/// Whether two strings hold the same characters.
pub fn str_eq(a: &str, b: &str) -> (r: bool)
    ensures
        r <==> a@ == b@,
{
    let x = a.as_bytes();
    let y = b.as_bytes();
    proof {
        lemma_bytes_eq_iff_chars_eq(a, b);
    }
    if x.len() != y.len() {
        return false;
    }
    let mut i: usize = 0;
    while i < x.len()
        invariant
            x@ == a.spec_bytes(),
            y@ == b.spec_bytes(),
            x@.len() == y@.len(),
            i <= x@.len(),
            forall|k: int| 0 <= k < i ==> x@[k] == y@[k],
        decreases x@.len() - i,
    {
        if x[i] != y[i] {
            return false;
        }
        i = i + 1;
    }
    assert(x@ =~= y@);
    true
}

/// Unicode's White_Space property, which `char::is_whitespace` follows.
pub open spec fn is_white_space(c: char) -> bool {
    let u = c as u32;
    ||| 0x09 <= u <= 0x0d
    ||| u == 0x20
    ||| u == 0x85
    ||| u == 0xa0
    ||| u == 0x1680
    ||| 0x2000 <= u <= 0x200a
    ||| u == 0x2028
    ||| u == 0x2029
    ||| u == 0x202f
    ||| u == 0x205f
    ||| u == 0x3000
}

/// Whether `c` has the White_Space property.
pub fn is_whitespace(c: char) -> (r: bool)
    ensures
        r == is_white_space(c),
{
    let u = c as u32;
    (0x09 <= u && u <= 0x0d) || u == 0x20 || u == 0x85 || u == 0xa0 || u == 0x1680 || (0x2000
        <= u && u <= 0x200a) || u == 0x2028 || u == 0x2029 || u == 0x202f || u == 0x205f || u
        == 0x3000
}

/// Number of leading white-space characters of `s`.
pub open spec fn leading_white_space(s: Seq<char>) -> nat
    decreases s.len(),
{
    if s.len() > 0 && is_white_space(s[0]) {
        1 + leading_white_space(s.drop_first())
    } else {
        0
    }
}

/// Number of trailing white-space characters of `s`.
pub open spec fn trailing_white_space(s: Seq<char>) -> nat
    decreases s.len(),
{
    if s.len() > 0 && is_white_space(s.last()) {
        1 + trailing_white_space(s.drop_last())
    } else {
        0
    }
}

/// `s` without its leading white space, as `str::trim_start` gives it.
pub open spec fn trim_start_spec(s: Seq<char>) -> Seq<char> {
    s.skip(leading_white_space(s) as int)
}

/// `s` without its trailing white space, as `str::trim_end` gives it.
pub open spec fn trim_end_spec(s: Seq<char>) -> Seq<char> {
    s.take(s.len() - trailing_white_space(s))
}

/// `s` without leading and trailing white space, as `str::trim` gives it.
pub open spec fn trim_spec(s: Seq<char>) -> Seq<char> {
    trim_end_spec(trim_start_spec(s))
}

/// Every character of `s` is white space (so that trimming leaves nothing).
pub open spec fn is_blank_spec(s: Seq<char>) -> bool {
    forall|i: int| 0 <= i < s.len() ==> is_white_space(#[trigger] s[i])
}

proof fn lemma_leading_white_space(s: Seq<char>, k: int)
    requires
        0 <= k <= s.len(),
        forall|i: int| 0 <= i < k ==> is_white_space(#[trigger] s[i]),
        k == s.len() || !is_white_space(s[k]),
    ensures
        leading_white_space(s) == k,
    decreases k,
{
    if k > 0 {
        assert forall|i: int| 0 <= i < k - 1 implies is_white_space(#[trigger] s.drop_first()[i]) by {
            assert(s.drop_first()[i] == s[i + 1]);
        }
        if k < s.len() {
            assert(s.drop_first()[k - 1] == s[k]);
        }
        lemma_leading_white_space(s.drop_first(), k - 1);
    }
}

proof fn lemma_trailing_white_space(s: Seq<char>, k: int)
    requires
        0 <= k <= s.len(),
        forall|i: int| s.len() - k <= i < s.len() ==> is_white_space(#[trigger] s[i]),
        k == s.len() || !is_white_space(s[s.len() - k - 1]),
    ensures
        trailing_white_space(s) == k,
    decreases k,
{
    if k > 0 {
        let d = s.drop_last();
        assert forall|i: int| d.len() - (k - 1) <= i < d.len() implies is_white_space(#[trigger] d[i]) by {
            assert(d[i] == s[i]);
        }
        if k < s.len() {
            assert(d[d.len() - (k - 1) - 1] == s[s.len() - k - 1]);
        }
        lemma_trailing_white_space(d, k - 1);
    }
}

/// `s` without its leading white space.
pub fn trim_start(s: &str) -> (r: &str)
    ensures
        r@ == trim_start_spec(s@),
{
    let n = s.unicode_len();
    let mut i: usize = 0;
    while i < n && is_whitespace(s.get_char(i))
        invariant
            n == s@.len(),
            i <= n,
            forall|k: int| 0 <= k < i ==> is_white_space(#[trigger] s@[k]),
        decreases n - i,
    {
        i = i + 1;
    }
    proof {
        lemma_leading_white_space(s@, i as int);
    }
    s.substring_char(i, n)
}

/// `s` without its trailing white space.
pub fn trim_end(s: &str) -> (r: &str)
    ensures
        r@ == trim_end_spec(s@),
{
    let n = s.unicode_len();
    let mut k: usize = 0;
    while k < n && is_whitespace(s.get_char(n - 1 - k))
        invariant
            n == s@.len(),
            k <= n,
            forall|i: int| n - k <= i < n ==> is_white_space(#[trigger] s@[i]),
        decreases n - k,
    {
        k = k + 1;
    }
    proof {
        lemma_trailing_white_space(s@, k as int);
    }
    s.substring_char(0, n - k)
}

/// `s` without leading and trailing white space.
pub fn trim(s: &str) -> (r: &str)
    ensures
        r@ == trim_spec(s@),
{
    trim_end(trim_start(s))
}

/// Whether `s` is empty or holds only white space.
pub fn is_blank(s: &str) -> (r: bool)
    ensures
        r == is_blank_spec(s@),
{
    let t = trim_start(s);
    proof {
        let k = leading_white_space(s@);
        lemma_leading_prefix(s@);
        if k < s@.len() {
            assert(!is_white_space(s@[k as int]));
        }
    }
    t.is_empty()
}

proof fn lemma_leading_prefix(s: Seq<char>)
    ensures
        leading_white_space(s) <= s.len(),
        forall|i: int| 0 <= i < leading_white_space(s) ==> is_white_space(#[trigger] s[i]),
        leading_white_space(s) < s.len() ==> !is_white_space(s[leading_white_space(s) as int]),
    decreases s.len(),
{
    if s.len() > 0 && is_white_space(s[0]) {
        lemma_leading_prefix(s.drop_first());
        assert forall|i: int| 0 <= i < leading_white_space(s) implies is_white_space(#[trigger] s[i]) by {
            if i > 0 {
                assert(s[i] == s.drop_first()[i - 1]);
            }
        }
        if leading_white_space(s) < s.len() {
            assert(s[leading_white_space(s) as int] == s.drop_first()[leading_white_space(s) - 1]);
        }
    }
}

/// Whether `s` begins with `prefix`.
pub fn starts_with(s: &str, prefix: &str) -> (r: bool)
    ensures
        r == prefix@.is_prefix_of(s@),
{
    let n = s.unicode_len();
    let m = prefix.unicode_len();
    if m > n {
        return false;
    }
    let mut i: usize = 0;
    while i < m
        invariant
            n == s@.len(),
            m == prefix@.len(),
            m <= n,
            i <= m,
            forall|k: int| 0 <= k < i ==> prefix@[k] == s@[k],
        decreases m - i,
    {
        if prefix.get_char(i) != s.get_char(i) {
            return false;
        }
        i = i + 1;
    }
    true
}

} // verus!
