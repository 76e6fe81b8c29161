//! Verified helpers on strings: character-level equality, suffix stripping,
//! splitting at spaces, and parsing unsigned integers — together with a
//! trusted wrapper for trimming, whose result is a pure function of the
//! characters.

use vstd::prelude::*;

verus! {

/// Decide equality of two string slices by their characters.
pub fn str_eq(a: &str, b: &str) -> (r: bool)
    ensures
        r == (a@ == b@),
{
    let alen = a.unicode_len();
    let blen = b.unicode_len();
    if alen != blen {
        return false;
    }
    let mut i: usize = 0;
    while i < alen
        invariant
            alen == a@.len(),
            blen == b@.len(),
            alen == blen,
            i <= alen,
            forall|k: int| 0 <= k < i ==> a@[k] == b@[k],
        decreases alen - i,
    {
        if a.get_char(i) != b.get_char(i) {
            return false;
        }
        i += 1;
    }
    proof {
        assert(a@ =~= b@);
    }
    true
}

/// Whether `s` ends with `suffix`.
pub open spec fn spec_ends_with(s: Seq<char>, suffix: Seq<char>) -> bool {
    s.len() >= suffix.len() && s.subrange(s.len() - suffix.len(), s.len() as int) == suffix
}

/// `s` without a trailing `suffix`; `s` unchanged when the suffix is absent.
pub open spec fn spec_strip_suffix(s: Seq<char>, suffix: Seq<char>) -> Seq<char> {
    if spec_ends_with(s, suffix) {
        s.subrange(0, s.len() - suffix.len())
    } else {
        s
    }
}

/// Decide whether `s` ends with `suffix`.
pub fn ends_with_str(s: &str, suffix: &str) -> (r: bool)
    ensures
        r == spec_ends_with(s@, suffix@),
{
    let slen = s.unicode_len();
    let tlen = suffix.unicode_len();
    if slen < tlen {
        return false;
    }
    let tail = s.substring_char(slen - tlen, slen);
    str_eq(tail, suffix)
}

/// Remove a trailing `suffix` from `s`, or return `s` unchanged when it does
/// not end with it.
pub fn strip_suffix_str(s: &str, suffix: &str) -> (r: String)
    ensures
        r@ == spec_strip_suffix(s@, suffix@),
{
    let slen = s.unicode_len();
    let tlen = suffix.unicode_len();
    if ends_with_str(s, suffix) {
        let head = s.substring_char(0, slen - tlen);
        head.to_owned()
    } else {
        s.to_owned()
    }
}

/// The position of the first space in `s`, or its length when `s` has none.
pub open spec fn spec_first_space(s: Seq<char>) -> int
    decreases s.len(),
{
    if s.len() == 0 {
        0
    } else if s[0] == ' ' {
        0
    } else {
        1 + spec_first_space(s.subrange(1, s.len() as int))
    }
}

/// The token of `s` before its first space: the whole of `s` when it has
/// no space.
pub open spec fn spec_first_token(s: Seq<char>) -> Seq<char> {
    s.subrange(0, spec_first_space(s))
}

/// `spec_first_space` is the unique position with no space before it and a
/// space (or the end) at it.
proof fn lemma_first_space_character(s: Seq<char>)
    ensures
        0 <= spec_first_space(s) <= s.len(),
        forall|k: int| 0 <= k < spec_first_space(s) ==> s[k] != ' ',
        spec_first_space(s) < s.len() ==> s[spec_first_space(s)] == ' ',
    decreases s.len(),
{
    if s.len() == 0 {
    } else if s[0] == ' ' {
    } else {
        let rest = s.subrange(1, s.len() as int);
        lemma_first_space_character(rest);
        assert forall|k: int| 0 <= k < spec_first_space(s) implies s[k] != ' ' by {
            if k > 0 {
                assert(rest[k - 1] != ' ');
            }
        }
    }
}

/// The token of `s` before its first space.
pub fn first_space_token(s: &str) -> (r: String)
    ensures
        r@ == spec_first_token(s@),
{
    let len = s.unicode_len();
    let mut i: usize = 0;
    while i < len
        invariant
            len == s@.len(),
            i <= len,
            forall|k: int| 0 <= k < i ==> s@[k] != ' ',
        decreases len - i,
    {
        if s.get_char(i) == ' ' {
            proof {
                lemma_first_space_character(s@);
                assert(spec_first_space(s@) == i);
            }
            return s.substring_char(0, i).to_owned();
        }
        i += 1;
    }
    proof {
        lemma_first_space_character(s@);
        assert(spec_first_space(s@) == len);
    }
    s.substring_char(0, len).to_owned()
}

/// The token of `s` after its last space: the whole of `s` when it has no
/// space, empty when `s` ends with one.
pub open spec fn spec_last_token(s: Seq<char>) -> Seq<char>
    decreases s.len(),
{
    if s.len() == 0 {
        s
    } else if s.last() == ' ' {
        Seq::<char>::empty()
    } else {
        spec_last_token(s.drop_last()).push(s.last())
    }
}

/// When no character from position `j` on is a space, the last token is the
/// suffix from `j`.
proof fn lemma_last_token_suffix(s: Seq<char>, j: int)
    requires
        0 <= j <= s.len(),
        forall|k: int| j <= k < s.len() ==> s[k] != ' ',
        j > 0 ==> s[j - 1] == ' ',
    ensures
        spec_last_token(s) == s.subrange(j, s.len() as int),
    decreases s.len(),
{
    if s.len() == 0 {
        assert(spec_last_token(s) =~= s.subrange(j, s.len() as int));
    } else if j == s.len() {
        assert(s.last() == ' ');
        assert(spec_last_token(s) =~= s.subrange(j, s.len() as int));
    } else {
        assert(s.last() != ' ');
        lemma_last_token_suffix(s.drop_last(), j);
        assert(s.drop_last().subrange(j, s.len() - 1) =~= s.subrange(j, s.len() - 1));
        assert(spec_last_token(s) =~= s.subrange(j, s.len() as int));
    }
}

/// The token of `s` after its last space.
pub fn last_space_token(s: &str) -> (r: String)
    ensures
        r@ == spec_last_token(s@),
{
    let len = s.unicode_len();
    let mut i: usize = len;
    while i > 0
        invariant
            len == s@.len(),
            i <= len,
            forall|k: int| i <= k < len ==> s@[k] != ' ',
        decreases i,
    {
        if s.get_char(i - 1) == ' ' {
            proof {
                lemma_last_token_suffix(s@, i as int);
            }
            return s.substring_char(i, len).to_owned();
        }
        i -= 1;
    }
    proof {
        lemma_last_token_suffix(s@, 0);
        assert(s@.subrange(0, len as int) =~= s@);
    }
    s.to_owned()
}

/// Whether `c` is a decimal digit.
pub open spec fn spec_is_digit(c: char) -> bool {
    '0' <= c && c <= '9'
}

/// Whether every character of `s` is a decimal digit.
pub open spec fn spec_all_digits(s: Seq<char>) -> bool {
    forall|k: int| 0 <= k < s.len() ==> spec_is_digit(#[trigger] s[k])
}

/// The number the digit string `s` denotes, most significant digit first.
pub open spec fn spec_digits_value(s: Seq<char>) -> int
    decreases s.len(),
{
    if s.len() == 0 {
        0
    } else {
        spec_digits_value(s.drop_last()) * 10 + (s.last() as int - '0' as int)
    }
}

/// A digit string denotes a nonnegative number.
proof fn lemma_digits_value_nonneg(s: Seq<char>)
    requires
        spec_all_digits(s),
    ensures
        spec_digits_value(s) >= 0,
    decreases s.len(),
{
    if s.len() > 0 {
        assert(spec_all_digits(s.drop_last()));
        lemma_digits_value_nonneg(s.drop_last());
    }
}

/// Extending a digit string never shrinks its value.
proof fn lemma_digits_value_prefix_le(s: Seq<char>, i: int)
    requires
        spec_all_digits(s),
        0 <= i <= s.len(),
    ensures
        spec_digits_value(s.subrange(0, i)) <= spec_digits_value(s),
    decreases s.len() - i,
{
    if i == s.len() {
        assert(s.subrange(0, i) =~= s);
    } else {
        lemma_digits_value_prefix_le(s, i + 1);
        let p = s.subrange(0, i);
        let q = s.subrange(0, i + 1);
        assert(q.drop_last() =~= p);
        assert(spec_all_digits(p)) by {
            assert(forall|k: int| 0 <= k < p.len() ==> p[k] == s[k]);
        }
        lemma_digits_value_nonneg(p);
        assert(spec_digits_value(q) == spec_digits_value(p) * 10 + (q.last() as int - '0' as int));
        assert(spec_digits_value(p) * 10 >= spec_digits_value(p)) by (nonlinear_arith)
            requires
                spec_digits_value(p) >= 0,
        ;
    }
}

/// The digit string of `s`: `s` without one leading plus sign, when it has
/// one.
pub open spec fn spec_number_body(s: Seq<char>) -> Seq<char> {
    if s.len() > 0 && s[0] == '+' {
        s.subrange(1, s.len() as int)
    } else {
        s
    }
}

/// The number `s` denotes in decimal: an optional plus sign, then one or
/// more digits, valued at most `u32::MAX`. Anything else denotes nothing.
pub open spec fn spec_parse_u32(s: Seq<char>) -> Option<u32> {
    let body = spec_number_body(s);
    if body.len() > 0 && spec_all_digits(body) && spec_digits_value(body) <= u32::MAX {
        Some(spec_digits_value(body) as u32)
    } else {
        None
    }
}

/// Parse a decimal `u32` with an optional leading plus sign. Too large a
/// value, an empty or sign-only string, and any non-digit all yield `None`.
pub fn parse_u32(s: &str) -> (r: Option<u32>)
    ensures
        r == spec_parse_u32(s@),
{
    let len = s.unicode_len();
    let start: usize = if len > 0 && s.get_char(0) == '+' {
        1
    } else {
        0
    };
    let ghost body = spec_number_body(s@);
    proof {
        assert(body =~= s@.subrange(start as int, len as int));
    }
    if start == len {
        return None;
    }
    let mut acc: u32 = 0;
    let mut i: usize = start;
    while i < len
        invariant
            len == s@.len(),
            start <= i <= len,
            start < len,
            body == spec_number_body(s@),
            body == s@.subrange(start as int, len as int),
            spec_all_digits(body.subrange(0, i - start)),
            acc == spec_digits_value(body.subrange(0, i - start)),
        decreases len - i,
    {
        let c = s.get_char(i);
        if !('0' <= c && c <= '9') {
            proof {
                assert(!spec_is_digit(c));
                assert(body[i - start] == c);
                assert(!spec_all_digits(body));
            }
            return None;
        }
        let d: u32 = (c as u32) - 48;
        proof {
            assert('0' as int == 48 && '9' as int == 57);
            assert(d == c as int - '0' as int);
        }
        if acc > (u32::MAX - d) / 10 {
            proof {
                let p = body.subrange(0, i - start);
                let q = body.subrange(0, i + 1 - start);
                assert(q.drop_last() =~= p);
                assert(q.last() == c);
                assert(spec_digits_value(q) == acc * 10 + d);
                assert(acc * 10 + d > u32::MAX) by (nonlinear_arith)
                    requires
                        acc > (u32::MAX - d) / 10,
                        0 <= d <= 9,
                ;
                assert(spec_all_digits(q)) by {
                    assert(forall|k: int| 0 <= k < q.len() - 1 ==> q[k] == p[k]);
                }
                if spec_all_digits(body) {
                    lemma_digits_value_prefix_le(body, i + 1 - start);
                    assert(body.subrange(0, body.len() as int) =~= body);
                    assert(spec_digits_value(body) > u32::MAX);
                }
            }
            return None;
        }
        proof {
            let p = body.subrange(0, i - start);
            let q = body.subrange(0, i + 1 - start);
            assert(q.drop_last() =~= p);
            assert(q.last() == c);
            assert(acc * 10 + d <= u32::MAX) by (nonlinear_arith)
                requires
                    acc <= (u32::MAX - d) / 10,
                    0 <= d <= 9,
            ;
        }
        acc = acc * 10 + d;
        i += 1;
        proof {
            assert(spec_all_digits(body.subrange(0, i - start)));
        }
    }
    proof {
        assert(body.subrange(0, len - start) =~= body);
        assert(spec_parse_u32(s@) == Some(acc));
    }
    Some(acc)
}

/// What `str::trim` returns on the given characters. Trimming is a pure
/// function of the characters alone.
pub uninterp spec fn trim_of(s: Seq<char>) -> Seq<char>;

/// Relies on str::trim: removes leading and trailing whitespace, so the
/// result is a substring of the input and the empty string stays empty.
#[verifier::external_body]
pub fn trim_str(s: &str) -> (r: String)
    ensures
        r@ == trim_of(s@),
        r@.len() <= s@.len(),
        s@.len() == 0 ==> r@.len() == 0,
{
    s.trim().to_owned()
}

} // verus!
