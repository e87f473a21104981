//! Character-level helpers for header values: case-insensitive ASCII
//! comparison, decimal parsing, and the media-type grammar (essence before
//! the first `;`, then `name=value` parameters, of which only `charset` is
//! read; its value may be quoted).

use vstd::prelude::*;

verus! {

/// The code point of `c`, with ASCII capitals folded to lower case.
pub open spec fn lower_code(c: char) -> u32 {
    if 65 <= c as u32 && c as u32 <= 90 {
        (c as u32 + 32) as u32
    } else {
        c as u32
    }
}

/// Equality of two character sequences up to ASCII case.
pub open spec fn eq_ascii_ci(a: Seq<char>, b: Seq<char>) -> bool {
    a.len() == b.len() && forall|i: int| 0 <= i < a.len() ==> lower_code(a[i]) == lower_code(b[i])
}

/// Whether `c` counts as padding inside a header value.
pub open spec fn is_ws(c: char) -> bool {
    c == ' ' || c == '\t'
}

/// Number of padding characters at the front of `s`.
pub open spec fn lead_ws(s: Seq<char>) -> nat
    decreases s.len(),
{
    if s.len() == 0 {
        0nat
    } else if is_ws(s[0]) {
        1 + lead_ws(s.drop_first())
    } else {
        0nat
    }
}

/// Number of padding characters at the back of `s`.
pub open spec fn trail_ws(s: Seq<char>) -> nat
    decreases s.len(),
{
    if s.len() == 0 {
        0nat
    } else if is_ws(s.last()) {
        1 + trail_ws(s.drop_last())
    } else {
        0nat
    }
}

pub proof fn lemma_lead_ws_bound(s: Seq<char>)
    ensures
        lead_ws(s) <= s.len(),
    decreases s.len(),
{
    if s.len() > 0 && is_ws(s[0]) {
        lemma_lead_ws_bound(s.drop_first());
    }
}

pub proof fn lemma_trail_ws_bound(s: Seq<char>)
    ensures
        trail_ws(s) <= s.len(),
    decreases s.len(),
{
    if s.len() > 0 && is_ws(s.last()) {
        lemma_trail_ws_bound(s.drop_last());
    }
}

/// `s` without leading padding.
pub open spec fn ltrim(s: Seq<char>) -> Seq<char> {
    s.skip(lead_ws(s) as int)
}

/// `s` without trailing padding.
pub open spec fn rtrim(s: Seq<char>) -> Seq<char> {
    s.take(s.len() - trail_ws(s))
}

/// `s` without leading and trailing padding.
pub open spec fn trimmed(s: Seq<char>) -> Seq<char> {
    rtrim(ltrim(s))
}

/// Index of the first occurrence of `c` in `s`, or `s.len()` when absent.
pub open spec fn idx_of(s: Seq<char>, c: char) -> nat
    decreases s.len(),
{
    if s.len() == 0 {
        0nat
    } else if s[0] == c {
        0nat
    } else {
        1 + idx_of(s.drop_first(), c)
    }
}

pub proof fn lemma_idx_of(s: Seq<char>, c: char)
    ensures
        idx_of(s, c) <= s.len(),
        idx_of(s, c) < s.len() ==> s[idx_of(s, c) as int] == c,
        forall|j: int| 0 <= j < idx_of(s, c) ==> s[j] != c,
    decreases s.len(),
{
    if s.len() > 0 && s[0] != c {
        lemma_idx_of(s.drop_first(), c);
        assert forall|j: int| 0 <= j < idx_of(s, c) implies s[j] != c by {
            if j > 0 {
                assert(s[j] == s.drop_first()[j - 1]);
            }
        }
    }
}

/// `s` without one layer of surrounding double quotes, when it has them.
pub open spec fn unquote(s: Seq<char>) -> Seq<char> {
    if s.len() >= 2 && s[0] == '"' && s.last() == '"' {
        s.subrange(1, s.len() - 1)
    } else {
        s
    }
}

/// The essence of a media type: everything before the first `;`, trimmed.
pub open spec fn essence_of(ct: Seq<char>) -> Seq<char> {
    trimmed(ct.take(idx_of(ct, ';') as int))
}

/// The charset parameter inside one `name=value` segment, if the segment
/// declares one.
pub open spec fn charset_in_segment(seg: Seq<char>) -> Option<Seq<char>> {
    let eq = idx_of(seg, '=');
    if eq >= seg.len() {
        None::<Seq<char>>
    } else if eq_ascii_ci(trimmed(seg.take(eq as int)), "charset"@) {
        Some(unquote(trimmed(seg.skip(eq + 1 as int))))
    } else {
        None::<Seq<char>>
    }
}

/// The first charset parameter among `;`-separated segments.
pub open spec fn charset_in_params(p: Seq<char>) -> Option<Seq<char>>
    decreases p.len(),
{
    let semi = idx_of(p, ';');
    let here = charset_in_segment(p.take(semi as int));
    if here is Some {
        here
    } else if semi >= p.len() {
        None::<Seq<char>>
    } else {
        charset_in_params(p.skip(semi + 1 as int))
    }
}

/// The declared charset label of a full Content-Type value, if any.
pub open spec fn charset_of(ct: Seq<char>) -> Option<Seq<char>> {
    let semi = idx_of(ct, ';');
    if semi >= ct.len() {
        None::<Seq<char>>
    } else {
        charset_in_params(ct.skip(semi + 1 as int))
    }
}

/// Whether every character of `s` is a decimal digit.
pub open spec fn all_digits(s: Seq<char>) -> bool {
    forall|i: int| 0 <= i < s.len() ==> 48 <= s[i] as u32 && s[i] as u32 <= 57
}

/// The number written by the digits of `s`.
pub open spec fn digits_val(s: Seq<char>) -> nat
    decreases s.len(),
{
    if s.len() == 0 {
        0nat
    } else {
        (digits_val(s.drop_last()) * 10 + (s.last() as u32 - 48)) as nat
    }
}

/// What a strict decimal parse of `s` yields: the written number, provided
/// `s` is non-empty, all digits, and the number fits in `usize`.
pub open spec fn parsed_usize(s: Seq<char>) -> Option<usize> {
    if s.len() > 0 && all_digits(s) && digits_val(s) <= usize::MAX {
        Some(digits_val(s) as usize)
    } else {
        None::<usize>
    }
}

proof fn lemma_digits_val_grows(s: Seq<char>, i: int)
    requires
        0 <= i <= s.len(),
        all_digits(s),
    ensures
        digits_val(s.take(i)) <= digits_val(s),
    decreases s.len() - i,
{
    if i < s.len() {
        assert(s.take(i + 1).drop_last() =~= s.take(i));
        assert(s.take(i + 1).last() == s[i]);
        assert(digits_val(s.take(i + 1)) == digits_val(s.take(i)) * 10 + (s[i] as u32 - 48));
        assert(digits_val(s.take(i)) * 10 >= digits_val(s.take(i))) by (nonlinear_arith);
        lemma_digits_val_grows(s, i + 1);
    } else {
        assert(s.take(i) =~= s);
    }
}

/// The digit character for `d`.
pub open spec fn digit_char(d: nat) -> char {
    if d == 0 {
        '0'
    } else if d == 1 {
        '1'
    } else if d == 2 {
        '2'
    } else if d == 3 {
        '3'
    } else if d == 4 {
        '4'
    } else if d == 5 {
        '5'
    } else if d == 6 {
        '6'
    } else if d == 7 {
        '7'
    } else if d == 8 {
        '8'
    } else {
        '9'
    }
}

/// The decimal rendering of `n`.
pub open spec fn dec_str(n: nat) -> Seq<char>
    decreases n,
{
    if n < 10 {
        seq![digit_char(n)]
    } else {
        dec_str(n / 10).push(digit_char(n % 10))
    }
}

/// The one-character string for the decimal digit `d`.
fn digit_str(d: u64) -> (r: &'static str)
    requires
        d < 10,
    ensures
        r@ =~= seq![digit_char(d as nat)],
{
    proof {
        reveal_strlit("0");
        reveal_strlit("1");
        reveal_strlit("2");
        reveal_strlit("3");
        reveal_strlit("4");
        reveal_strlit("5");
        reveal_strlit("6");
        reveal_strlit("7");
        reveal_strlit("8");
        reveal_strlit("9");
    }
    if d == 0 {
        "0"
    } else if d == 1 {
        "1"
    } else if d == 2 {
        "2"
    } else if d == 3 {
        "3"
    } else if d == 4 {
        "4"
    } else if d == 5 {
        "5"
    } else if d == 6 {
        "6"
    } else if d == 7 {
        "7"
    } else if d == 8 {
        "8"
    } else {
        "9"
    }
}

/// The decimal rendering of `n`.
pub fn dec_string(n: u64) -> (r: String)
    ensures
        r@ =~= dec_str(n as nat),
    decreases n,
{
    if n < 10 {
        String::from_str(digit_str(n))
    } else {
        let mut s = dec_string(n / 10);
        s.append(digit_str(n % 10));
        s
    }
}

/// Case-insensitive ASCII equality of two strings.
pub fn eq_ignore_ascii_case(a: &str, b: &str) -> (r: bool)
    ensures
        r == eq_ascii_ci(a@, b@),
{
    let alen = a.unicode_len();
    let blen = b.unicode_len();
    if alen != blen {
        return false;
    }
    let mut i: usize = 0;
    while i < alen
        invariant
            alen == a@.len(),
            blen == b@.len(),
            alen == blen,
            i <= alen,
            forall|j: int| 0 <= j < i ==> lower_code(a@[j]) == lower_code(b@[j]),
        decreases alen - i,
    {
        let ca = a.get_char(i) as u32;
        let cb = b.get_char(i) as u32;
        let la = if 65 <= ca && ca <= 90 { ca + 32 } else { ca };
        let lb = if 65 <= cb && cb <= 90 { cb + 32 } else { cb };
        if la != lb {
            assert(lower_code(a@[i as int]) != lower_code(b@[i as int]));
            return false;
        }
        i = i + 1;
    }
    true
}

/// Index of the first `c` in `s`, or the length of `s` when absent.
pub fn find_char(s: &str, c: char) -> (r: usize)
    ensures
        r == idx_of(s@, c),
        r <= s@.len(),
    decreases s@.len(),
{
    proof {
        lemma_idx_of(s@, c);
    }
    let len = s.unicode_len();
    if len == 0 {
        0
    } else if s.get_char(0) == c {
        0
    } else {
        let rest = s.substring_char(1, len);
        proof {
            assert(rest@ =~= s@.drop_first());
        }
        1 + find_char(rest, c)
    }
}

/// `s` without leading spaces and tabs.
pub fn trim_left(s: &str) -> (r: &str)
    ensures
        r@ == ltrim(s@),
    decreases s@.len(),
{
    let len = s.unicode_len();
    if len == 0 {
        proof {
            assert(ltrim(s@) =~= s@);
        }
        s
    } else {
        let c = s.get_char(0);
        if c == ' ' || c == '\t' {
            let rest = s.substring_char(1, len);
            proof {
                assert(rest@ =~= s@.drop_first());
                lemma_lead_ws_bound(s@.drop_first());
                assert(ltrim(s@) =~= ltrim(s@.drop_first()));
            }
            trim_left(rest)
        } else {
            proof {
                assert(ltrim(s@) =~= s@);
            }
            s
        }
    }
}

/// `s` without trailing spaces and tabs.
pub fn trim_right(s: &str) -> (r: &str)
    ensures
        r@ == rtrim(s@),
    decreases s@.len(),
{
    let len = s.unicode_len();
    if len == 0 {
        proof {
            assert(rtrim(s@) =~= s@);
        }
        s
    } else {
        let c = s.get_char(len - 1);
        if c == ' ' || c == '\t' {
            let rest = s.substring_char(0, len - 1);
            proof {
                assert(rest@ =~= s@.drop_last());
                lemma_trail_ws_bound(s@.drop_last());
                assert(rtrim(s@) =~= rtrim(s@.drop_last()));
            }
            trim_right(rest)
        } else {
            proof {
                assert(rtrim(s@) =~= s@);
            }
            s
        }
    }
}

/// `s` without leading and trailing spaces and tabs.
pub fn trim(s: &str) -> (r: &str)
    ensures
        r@ == trimmed(s@),
{
    trim_right(trim_left(s))
}

/// `s` without one layer of surrounding double quotes, when it has them.
pub fn unquote_str(s: &str) -> (r: &str)
    ensures
        r@ == unquote(s@),
{
    let len = s.unicode_len();
    if len >= 2 && s.get_char(0) == '"' && s.get_char(len - 1) == '"' {
        s.substring_char(1, len - 1)
    } else {
        s
    }
}

/// The charset value of one `name=value` segment, when it declares one.
fn charset_in_segment_str(seg: &str) -> (r: Option<String>)
    ensures
        match r {
            Some(s) => charset_in_segment(seg@) == Some(s@),
            None => charset_in_segment(seg@) is None,
        },
{
    let len = seg.unicode_len();
    let eq = find_char(seg, '=');
    if eq >= len {
        None
    } else {
        let name = trim(seg.substring_char(0, eq));
        proof {
            assert(seg@.take(idx_of(seg@, '=') as int) =~= seg@.subrange(0, eq as int));
        }
        if eq_ignore_ascii_case(name, "charset") {
            let raw = trim(seg.substring_char(eq + 1, len));
            proof {
                assert(seg@.skip(idx_of(seg@, '=') + 1 as int) =~= seg@.subrange(
                    eq + 1,
                    len as int,
                ));
            }
            Some(String::from_str(unquote_str(raw)))
        } else {
            None
        }
    }
}

/// The first charset parameter among `;`-separated segments.
fn charset_in_params_str(p: &str) -> (r: Option<String>)
    ensures
        match r {
            Some(s) => charset_in_params(p@) == Some(s@),
            None => charset_in_params(p@) is None,
        },
    decreases p@.len(),
{
    let len = p.unicode_len();
    let semi = find_char(p, ';');
    let seg = p.substring_char(0, semi);
    proof {
        assert(seg@ =~= p@.take(idx_of(p@, ';') as int));
    }
    let here = charset_in_segment_str(seg);
    if here.is_some() {
        here
    } else if semi >= len {
        None
    } else {
        let rest = p.substring_char(semi + 1, len);
        proof {
            assert(rest@ =~= p@.skip(idx_of(p@, ';') + 1 as int));
        }
        charset_in_params_str(rest)
    }
}

/// The declared charset label of a full Content-Type value, if any.
pub fn charset_param(ct: &str) -> (r: Option<String>)
    ensures
        match r {
            Some(s) => charset_of(ct@) == Some(s@),
            None => charset_of(ct@) is None,
        },
{
    let len = ct.unicode_len();
    let semi = find_char(ct, ';');
    if semi >= len {
        None
    } else {
        let rest = ct.substring_char(semi + 1, len);
        proof {
            assert(rest@ =~= ct@.skip(idx_of(ct@, ';') + 1 as int));
        }
        charset_in_params_str(rest)
    }
}

/// Strict decimal parse: the written number, or `None` when `s` is empty,
/// holds a non-digit, or the number does not fit in `usize`.
pub fn parse_usize(s: &str) -> (r: Option<usize>)
    ensures
        r == parsed_usize(s@),
{
    let len = s.unicode_len();
    if len == 0 {
        return None;
    }
    let mut acc: usize = 0;
    let mut i: usize = 0;
    while i < len
        invariant
            len == s@.len(),
            i <= len,
            all_digits(s@.take(i as int)),
            acc == digits_val(s@.take(i as int)),
        decreases len - i,
    {
        let code = s.get_char(i) as u32;
        if code < 48 || code > 57 {
            assert(!all_digits(s@));
            return None;
        }
        let d = (code - 48) as usize;
        proof {
            assert(s@.take(i + 1).drop_last() =~= s@.take(i as int));
            assert(s@.take(i + 1).last() == s@[i as int]);
        }
        if acc > (usize::MAX - d) / 10 {
            proof {
                assert(acc * 10 + d > usize::MAX) by (nonlinear_arith)
                    requires
                        acc > (usize::MAX - d) / 10 && d <= 9,
                ;
                if all_digits(s@) && digits_val(s@) <= usize::MAX {
                    lemma_digits_val_grows(s@, i + 1);
                }
            }
            return None;
        }
        assert(acc * 10 + d <= usize::MAX) by (nonlinear_arith)
            requires
                acc <= (usize::MAX - d) / 10 && d <= 9,
        ;
        acc = acc * 10 + d;
        i = i + 1;
    }
    proof {
        assert(s@.take(len as int) =~= s@);
    }
    Some(acc)
}

} // verus!
