//! Text helpers: comparisons and the conversions of bytes to text.
use vstd::prelude::*;
use vstd::string::StrSliceExecFns;
use vstd::string::StringExecFns;

verus! {

broadcast use vstd::utf8::encode_utf8_decode_utf8;

/// Whether two strings hold the same characters.
pub fn str_eq(a: &str, b: &str) -> (r: bool)
    ensures
        r == (a@ == b@),
{
    let x = a.as_bytes();
    let y = b.as_bytes();
    let eq = bytes_eq(x, y);
    proof {
        if x@ == y@ {
            assert(vstd::utf8::decode_utf8(vstd::utf8::encode_utf8(a@)) == a@);
            assert(vstd::utf8::decode_utf8(vstd::utf8::encode_utf8(b@)) == b@);
        }
    }
    eq
}

/// Whether two byte strings are equal.
pub fn bytes_eq(x: &[u8], y: &[u8]) -> (r: bool)
    ensures
        r == (x@ == y@),
{
    if x.len() != y.len() {
        return false;
    }
    let mut i: usize = 0;
    while i < x.len()
        invariant
            0 <= i <= x.len(),
            x.len() == y.len(),
            forall|j: int| 0 <= j < i ==> x@[j] == y@[j],
        decreases x.len() - i,
    {
        if x[i] != y[i] {
            return false;
        }
        i = i + 1;
    }
    assert(x@ =~= y@);
    true
}

/// What `String::from_utf8_lossy` makes of a byte string: its UTF-8 decoding,
/// each invalid sequence replaced by U+FFFD.
pub uninterp spec fn spec_utf8_lossy(bytes: Seq<u8>) -> Seq<char>;

/// What `str::to_uppercase` makes of a text (Unicode full case mapping).
pub uninterp spec fn spec_to_uppercase(chars: Seq<char>) -> Seq<char>;

/// Calls `String::from_utf8_lossy`. Its documentation: invalid UTF-8
/// sequences become U+FFFD; valid input is decoded unchanged. The result is
/// named by `spec_utf8_lossy`; only the valid case is stated beyond that.
#[verifier::external_body]
pub(crate) fn utf8_lossy(bytes: &[u8]) -> (s: String)
    ensures
        s@ == spec_utf8_lossy(bytes@),
        vstd::utf8::valid_utf8(bytes@) ==> s@ == vstd::utf8::decode_utf8(bytes@),
{
    String::from_utf8_lossy(bytes).into_owned()
}

/// Calls `str::to_uppercase`; the result is named by `spec_to_uppercase`.
#[verifier::external_body]
pub(crate) fn to_uppercase_string(s: &str) -> (r: String)
    ensures
        r@ == spec_to_uppercase(s@),
{
    s.to_uppercase()
}

/// The characters of a text.
pub fn chars_of(s: &str) -> (v: Vec<char>)
    ensures
        v@ == s@,
{
    let n = s.unicode_len();
    let mut v: Vec<char> = Vec::new();
    let mut i: usize = 0;
    while i < n
        invariant
            0 <= i <= n,
            n == s@.len(),
            v@ == s@.take(i as int),
        decreases n - i,
    {
        let c = s.get_char(i);
        v.push(c);
        i = i + 1;
        assert(v@ =~= s@.take(i as int));
    }
    assert(s@.take(n as int) =~= s@);
    v
}

/// Unicode `White_Space` characters (what `char::is_whitespace` tests).
pub open spec fn spec_is_whitespace(c: char) -> bool {
    let u = c as u32;
    (0x09 <= u <= 0x0D) || u == 0x20 || u == 0x85 || u == 0xA0 || u == 0x1680 || (0x2000 <= u
        <= 0x200A) || u == 0x2028 || u == 0x2029 || u == 0x202F || u == 0x205F || u == 0x3000
}

/// Whether `c` is a Unicode white-space character.
pub fn is_whitespace(c: char) -> (b: bool)
    ensures
        b == spec_is_whitespace(c),
{
    let u = c as u32;
    (0x09 <= u && u <= 0x0D) || u == 0x20 || u == 0x85 || u == 0xA0 || u == 0x1680 || (0x2000 <= u
        && u <= 0x200A) || u == 0x2028 || u == 0x2029 || u == 0x202F || u == 0x205F || u == 0x3000
}

/// Number of leading white-space characters.
pub open spec fn leading_ws(s: Seq<char>) -> nat
    decreases s.len(),
{
    if s.len() == 0 || !spec_is_whitespace(s[0]) {
        0
    } else {
        1 + leading_ws(s.drop_first())
    }
}

/// Number of trailing white-space characters.
pub open spec fn trailing_ws(s: Seq<char>) -> nat
    decreases s.len(),
{
    if s.len() == 0 || !spec_is_whitespace(s.last()) {
        0
    } else {
        1 + trailing_ws(s.drop_last())
    }
}

/// The text without leading and trailing white space (`str::trim`).
pub open spec fn spec_trim(s: Seq<char>) -> Seq<char> {
    if leading_ws(s) >= s.len() {
        Seq::empty()
    } else {
        s.subrange(leading_ws(s) as int, s.len() - trailing_ws(s))
    }
}

proof fn lemma_leading_ws(s: Seq<char>, i: int)
    requires
        0 <= i <= s.len(),
        forall|j: int| 0 <= j < i ==> spec_is_whitespace(s[j]),
        i == s.len() || !spec_is_whitespace(s[i]),
    ensures
        leading_ws(s) == i,
    decreases i,
{
    if i > 0 {
        lemma_leading_ws(s.drop_first(), i - 1);
    }
}

proof fn lemma_trailing_ws(s: Seq<char>, i: int)
    requires
        0 <= i <= s.len(),
        forall|j: int| s.len() - i <= j < s.len() ==> spec_is_whitespace(s[j]),
        i == s.len() || !spec_is_whitespace(s[s.len() - 1 - i]),
    ensures
        trailing_ws(s) == i,
    decreases i,
{
    if i > 0 {
        lemma_trailing_ws(s.drop_last(), i - 1);
    }
}

/// The characters of `s` without leading and trailing white space.
pub fn trim_chars(s: &Vec<char>) -> (r: Vec<char>)
    ensures
        r@ == spec_trim(s@),
{
    let n = s.len();
    let mut a: usize = 0;
    while a < n && is_whitespace(s[a])
        invariant
            0 <= a <= n,
            n == s@.len(),
            forall|j: int| 0 <= j < a ==> spec_is_whitespace(s@[j]),
        decreases n - a,
    {
        a = a + 1;
    }
    proof {
        lemma_leading_ws(s@, a as int);
    }
    let mut r: Vec<char> = Vec::new();
    if a == n {
        return r;
    }
    let mut b: usize = n;
    while b > a && is_whitespace(s[b - 1])
        invariant
            a < n,
            a <= b <= n,
            n == s@.len(),
            !spec_is_whitespace(s@[a as int]),
            forall|j: int| b <= j < n ==> spec_is_whitespace(s@[j]),
        decreases b,
    {
        b = b - 1;
    }
    proof {
        lemma_trailing_ws(s@, (n - b) as int);
    }
    let mut i = a;
    while i < b
        invariant
            a <= i <= b <= n,
            n == s@.len(),
            r@ == s@.subrange(a as int, i as int),
        decreases b - i,
    {
        r.push(s[i]);
        i = i + 1;
        assert(r@ =~= s@.subrange(a as int, i as int));
    }
    r
}


/// The text without trailing white space (`str::trim_end`).
pub open spec fn spec_trim_end(s: Seq<char>) -> Seq<char> {
    s.take(s.len() - trailing_ws(s))
}

/// The text without trailing characters of the Unicode `White_Space`
/// property (as `str::trim_end`).
pub(crate) fn trim_end_string(s: &str) -> (r: String)
    ensures
        r@ == spec_trim_end(s@),
{
    let c = chars_of(s);
    let n = c.len();
    let mut b: usize = n;
    while b > 0 && is_whitespace(c[b - 1])
        invariant
            b <= n,
            n == c@.len(),
            c@ == s@,
            forall|j: int| b <= j < n ==> spec_is_whitespace(c@[j]),
        decreases b,
    {
        b = b - 1;
    }
    proof {
        lemma_trailing_ws(c@, (n - b) as int);
    }
    assert(c@.subrange(0, b as int) =~= spec_trim_end(s@));
    string_from_chars(&c.as_slice()[0..b])
}

/// Calls `std::str::from_utf8`: by its documentation it succeeds exactly on
/// valid UTF-8, and the text is the decoding of the bytes.
#[verifier::external_body]
pub(crate) fn utf8_strict(bytes: &[u8]) -> (r: Option<String>)
    ensures
        match r {
            Some(s) => vstd::utf8::valid_utf8(bytes@) && s@ == vstd::utf8::decode_utf8(bytes@),
            None => !vstd::utf8::valid_utf8(bytes@),
        },
{
    match std::str::from_utf8(bytes) {
        Ok(s) => Some(s.to_string()),
        Err(_) => None,
    }
}


/// The text without leading and trailing characters of the Unicode
/// `White_Space` property (as `str::trim`).
pub(crate) fn trim_string(s: &str) -> (r: String)
    ensures
        r@ == spec_trim(s@),
{
    let c = chars_of(s);
    let t = trim_chars(&c);
    string_from_chars(t.as_slice())
}

/// The message `Expected <what>, got: <got>`.
pub(crate) fn expected_got(what: &str, got: &str) -> (r: String)
    ensures
        r@ == "Expected "@ + what@ + ", got: "@ + got@,
{
    let r = String::from_str("Expected ");
    let r = r.concat(what);
    let r = r.concat(", got: ");
    r.concat(got)
}

/// Collects characters into a `String` (`FromIterator<char>`): the string
/// holds exactly those characters.
#[verifier::external_body]
pub(crate) fn string_from_chars(chars: &[char]) -> (r: String)
    ensures
        r@ == chars@,
{
    chars.iter().collect()
}

} // verus!
