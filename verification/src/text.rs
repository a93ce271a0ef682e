//! Text handling on `str` and `String`: prefixes, trimming, equality and
//! decimal numbers, each stated over the characters of the text.
use vstd::prelude::*;
use vstd::utf8::{
    decode_utf8, decode_utf8_split, encode_utf8, encode_utf8_decode_utf8, encode_utf8_valid_utf8,
    is_char_boundary, length_of_first_scalar, pop_first_scalar, valid_utf8,
};

verus! {

/// A character with the Unicode `White_Space` property, the set that
/// `str::trim` removes.
pub open spec fn is_white_space(c: char) -> bool {
    ||| '\u{9}' <= c <= '\u{d}'
    ||| c == ' '
    ||| c == '\u{85}'
    ||| c == '\u{a0}'
    ||| c == '\u{1680}'
    ||| '\u{2000}' <= c <= '\u{200a}'
    ||| c == '\u{2028}'
    ||| c == '\u{2029}'
    ||| c == '\u{202f}'
    ||| c == '\u{205f}'
    ||| c == '\u{3000}'
}

/// `s` without its leading white space.
pub open spec fn trim_start_chars(s: Seq<char>) -> Seq<char>
    decreases s.len(),
{
    if s.len() > 0 && is_white_space(s[0]) {
        trim_start_chars(s.drop_first())
    } else {
        s
    }
}

/// `s` without its trailing white space.
pub open spec fn trim_end_chars(s: Seq<char>) -> Seq<char>
    decreases s.len(),
{
    if s.len() > 0 && is_white_space(s.last()) {
        trim_end_chars(s.drop_last())
    } else {
        s
    }
}

/// `s` without leading and trailing white space.
pub open spec fn trim_chars(s: Seq<char>) -> Seq<char> {
    trim_end_chars(trim_start_chars(s))
}

/// The decimal digit for `d < 10`.
pub open spec fn digit_char(d: nat) -> char {
    ('0' as nat + d) as char
}

/// The decimal text of `n`, without leading zeros.
pub open spec fn decimal(n: nat) -> Seq<char>
    decreases n,
{
    if n < 10 {
        seq![digit_char(n)]
    } else {
        decimal(n / 10).push(digit_char(n % 10))
    }
}

/// `str::trim`: the text without leading and trailing Unicode white space.
#[verifier::external_body]
pub(crate) fn trim(s: &str) -> (t: &str)
    ensures
        t@ == trim_chars(s@),
{
    s.trim()
}

/// The UTF-8 encoding of two texts one after the other is the encoding of
/// the first followed by that of the second.
pub proof fn lemma_encode_utf8_concat(a: Seq<char>, b: Seq<char>)
    ensures
        encode_utf8(a + b) == encode_utf8(a) + encode_utf8(b),
    decreases a.len(),
{
    if a.len() > 0 {
        assert((a + b).drop_first() =~= a.drop_first() + b);
        lemma_encode_utf8_concat(a.drop_first(), b);
        assert(encode_utf8(a + b) =~= encode_utf8(a) + encode_utf8(b));
    } else {
        assert(a + b =~= b);
        assert(encode_utf8(a) + encode_utf8(b) =~= encode_utf8(b));
    }
}

/// Where valid UTF-8 `p` is followed by more bytes and the whole is valid
/// UTF-8, the end of `p` is a character boundary of the whole.
proof fn lemma_boundary_after_valid(p: Seq<u8>, r: Seq<u8>)
    requires
        valid_utf8(p),
        valid_utf8(p + r),
    ensures
        is_char_boundary(p + r, p.len() as int),
    decreases p.len(),
{
    if p.len() > 0 {
        let l = length_of_first_scalar(p);
        assert((p + r)[0] == p[0]);
        assert(length_of_first_scalar(p + r) == l);
        assert(pop_first_scalar(p + r) =~= pop_first_scalar(p) + r);
        lemma_boundary_after_valid(pop_first_scalar(p), r);
    }
}

/// A text starts with `p` exactly when its UTF-8 encoding starts with that of
/// `p`; the bytes after that encoding are then the encoding of the rest.
pub proof fn lemma_prefix_in_bytes(p: Seq<char>, s: Seq<char>)
    ensures
        encode_utf8(p).is_prefix_of(encode_utf8(s)) <==> p.is_prefix_of(s),
        p.is_prefix_of(s) ==> is_char_boundary(encode_utf8(s), encode_utf8(p).len() as int),
        p.is_prefix_of(s) ==> encode_utf8(s).skip(encode_utf8(p).len() as int) == encode_utf8(
            s.skip(p.len() as int),
        ),
{
    let pb = encode_utf8(p);
    let sb = encode_utf8(s);
    encode_utf8_valid_utf8(p);
    encode_utf8_valid_utf8(s);
    if p.is_prefix_of(s) {
        let t = s.skip(p.len() as int);
        assert(s =~= p + t);
        lemma_encode_utf8_concat(p, t);
        assert(sb =~= pb + encode_utf8(t));
        assert(pb.is_prefix_of(sb));
        encode_utf8_valid_utf8(t);
        lemma_boundary_after_valid(pb, encode_utf8(t));
        assert(sb.skip(pb.len() as int) =~= encode_utf8(t));
    }
    if pb.is_prefix_of(sb) {
        let r = sb.skip(pb.len() as int);
        assert(sb =~= pb + r);
        lemma_boundary_after_valid(pb, r);
        decode_utf8_split(sb, pb.len() as int);
        assert(sb.subrange(0, pb.len() as int) =~= pb);
        assert(sb.subrange(pb.len() as int, sb.len() as int) =~= r);
        encode_utf8_decode_utf8(p);
        encode_utf8_decode_utf8(s);
        assert(s =~= p + decode_utf8(r));
        assert(p.is_prefix_of(s));
    }
}

/// Whether `b` starts with `a`, byte by byte.
fn bytes_start_with(b: &[u8], a: &[u8]) -> (r: bool)
    ensures
        r == a@.is_prefix_of(b@),
{
    if a.len() > b.len() {
        return false;
    }
    let mut i: usize = 0;
    while i < a.len()
        invariant
            a.len() <= b.len(),
            0 <= i <= a.len(),
            forall|j: int| 0 <= j < i ==> a@[j] == b@[j],
        decreases a.len() - i,
    {
        if a[i] != b[i] {
            return false;
        }
        i = i + 1;
    }
    assert(a@ =~= b@.subrange(0, a@.len() as int));
    true
}

/// Whether `s` starts with `prefix` (as `str::starts_with` with a `&str`
/// pattern).
pub(crate) fn starts_with(s: &str, prefix: &str) -> (b: bool)
    ensures
        b == prefix@.is_prefix_of(s@),
{
    proof {
        lemma_prefix_in_bytes(prefix@, s@);
    }
    bytes_start_with(s.as_bytes(), prefix.as_bytes())
}

/// The text after `prefix`, where `s` starts with it (as `str::strip_prefix`).
pub(crate) fn strip_prefix<'a>(s: &'a str, prefix: &str) -> (rest: Option<&'a str>)
    ensures
        rest is Some <==> prefix@.is_prefix_of(s@),
        rest matches Some(r) ==> r@ == s@.skip(prefix@.len() as int),
{
    proof {
        lemma_prefix_in_bytes(prefix@, s@);
    }
    let pb = prefix.as_bytes();
    if bytes_start_with(s.as_bytes(), pb) {
        let (_, rest) = s.split_at(pb.len());
        proof {
            let sb = encode_utf8(s@);
            assert(sb.subrange(pb@.len() as int, sb.len() as int) =~= sb.skip(pb@.len() as int));
            encode_utf8_decode_utf8(rest@);
            encode_utf8_decode_utf8(s@.skip(prefix@.len() as int));
        }
        Some(rest)
    } else {
        None
    }
}

/// Whether `a` and `b` hold the same characters (`==` on `&str`).
pub(crate) fn str_eq(a: &str, b: &str) -> (eq: bool)
    ensures
        eq == (a@ == b@),
{
    let ab = a.as_bytes();
    let bb = b.as_bytes();
    proof {
        encode_utf8_decode_utf8(a@);
        encode_utf8_decode_utf8(b@);
    }
    if ab.len() != bb.len() {
        return false;
    }
    let r = bytes_start_with(bb, ab);
    proof {
        if r {
            assert(ab@ =~= bb@);
        }
    }
    r
}

/// The text of one decimal digit.
fn digit_text(d: usize) -> (t: &'static str)
    requires
        d < 10,
    ensures
        t@ == seq![digit_char(d as nat)],
{
    proof {
        reveal_strlit("0");
        reveal_strlit("1");
        reveal_strlit("2");
        reveal_strlit("3");
        reveal_strlit("4");
        reveal_strlit("5");
        reveal_strlit("6");
        reveal_strlit("7");
        reveal_strlit("8");
        reveal_strlit("9");
    }
    if d == 0 {
        "0"
    } else if d == 1 {
        "1"
    } else if d == 2 {
        "2"
    } else if d == 3 {
        "3"
    } else if d == 4 {
        "4"
    } else if d == 5 {
        "5"
    } else if d == 6 {
        "6"
    } else if d == 7 {
        "7"
    } else if d == 8 {
        "8"
    } else {
        "9"
    }
}

/// The decimal text of `n` (as `usize::to_string`).
pub(crate) fn decimal_string(n: usize) -> (text: String)
    ensures
        text@ == decimal(n as nat),
    decreases n,
{
    if n < 10 {
        digit_text(n).to_owned()
    } else {
        let mut text = decimal_string(n / 10);
        text.append(digit_text(n % 10));
        text
    }
}

} // verus!
