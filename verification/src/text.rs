//! Verified text utilities: substring search over character sequences,
//! character filters, trimming, quote escaping and digit parsing.
//!
//! Every executable function here is total and proved against a spec
//! function of the same name, so the payload repair and the counter
//! extraction can state their contracts over these specs directly.

use vstd::prelude::*;
use vstd::string::*;

verus! {

/// The pattern `pat` occurs in `s` at position `i`.
pub open spec fn match_at(s: Seq<char>, pat: Seq<char>, i: int) -> bool {
    0 <= i && i + pat.len() <= s.len() && s.subrange(i, i + pat.len() as int) == pat
}

/// The least position `>= i` where `pat` occurs in `s`, or `-1` if none.
pub open spec fn find_from(s: Seq<char>, pat: Seq<char>, i: int) -> int
    decreases s.len() + 1 - i,
{
    if i < 0 || i + pat.len() > s.len() {
        -1
    } else if match_at(s, pat, i) {
        i
    } else {
        find_from(s, pat, i + 1)
    }
}

/// The greatest position `<= i` where `pat` occurs in `s`, or `-1` if none.
pub open spec fn rfind_from(s: Seq<char>, pat: Seq<char>, i: int) -> int
    decreases i + 1,
{
    if i < 0 {
        -1
    } else if match_at(s, pat, i) {
        i
    } else {
        rfind_from(s, pat, i - 1)
    }
}

pub proof fn lemma_find_from_match(s: Seq<char>, pat: Seq<char>, lo: int)
    requires
        0 <= lo,
    ensures
        find_from(s, pat, lo) >= 0 ==> match_at(s, pat, find_from(s, pat, lo)),
    decreases s.len() + 1 - lo,
{
    if !(lo + pat.len() > s.len()) && !match_at(s, pat, lo) {
        lemma_find_from_match(s, pat, lo + 1);
    }
}

pub proof fn lemma_find_from_found(s: Seq<char>, pat: Seq<char>, lo: int, r: int)
    requires
        0 <= lo <= r,
        match_at(s, pat, r),
        forall|j: int| lo <= j < r ==> !match_at(s, pat, j),
    ensures
        find_from(s, pat, lo) == r,
    decreases r - lo,
{
    if lo < r {
        lemma_find_from_found(s, pat, lo + 1, r);
    }
}

pub proof fn lemma_find_from_none(s: Seq<char>, pat: Seq<char>, lo: int)
    requires
        0 <= lo,
        forall|j: int| lo <= j ==> !match_at(s, pat, j),
    ensures
        find_from(s, pat, lo) == -1,
    decreases s.len() + 1 - lo,
{
    if lo + pat.len() <= s.len() {
        lemma_find_from_none(s, pat, lo + 1);
    }
}

pub proof fn lemma_rfind_from_match(s: Seq<char>, pat: Seq<char>, hi: int)
    ensures
        rfind_from(s, pat, hi) >= 0 ==> match_at(s, pat, rfind_from(s, pat, hi)),
    decreases hi + 1,
{
    if hi >= 0 && !match_at(s, pat, hi) {
        lemma_rfind_from_match(s, pat, hi - 1);
    }
}

pub proof fn lemma_rfind_from_found(s: Seq<char>, pat: Seq<char>, hi: int, r: int)
    requires
        0 <= r <= hi,
        match_at(s, pat, r),
        forall|j: int| r < j <= hi ==> !match_at(s, pat, j),
    ensures
        rfind_from(s, pat, hi) == r,
    decreases hi - r,
{
    if r < hi {
        lemma_rfind_from_found(s, pat, hi - 1, r);
    }
}

pub proof fn lemma_rfind_from_none(s: Seq<char>, pat: Seq<char>, hi: int)
    requires
        forall|j: int| 0 <= j <= hi ==> !match_at(s, pat, j),
    ensures
        rfind_from(s, pat, hi) == -1,
    decreases hi + 1,
{
    if hi >= 0 {
        lemma_rfind_from_none(s, pat, hi - 1);
    }
}

/// Whether `pat` occurs at position `i` of `s`, decided by comparing characters.
pub fn match_at_exec(s: &Vec<char>, pat: &Vec<char>, i: usize) -> (r: bool)
    requires
        i + pat@.len() <= s@.len(),
    ensures
        r == match_at(s@, pat@, i as int),
{
    let n: usize = s.len();
    let mut j: usize = 0;
    while j < pat.len()
        invariant
            n == s@.len(),
            i + pat@.len() <= s@.len(),
            j <= pat@.len(),
            forall|k: int| 0 <= k < j ==> s@[i + k] == pat@[k],
        decreases pat@.len() - j,
    {
        if s[i + j] != pat[j] {
            proof {
                assert(s@.subrange(i as int, i + pat@.len() as int)[j as int] == s@[i + j]);
            }
            return false;
        }
        j += 1;
    }
    proof {
        assert(s@.subrange(i as int, i + pat@.len() as int) =~= pat@);
    }
    true
}

/// The least position where `pat` occurs in `s`, as `find_from` gives it.
pub fn find(s: &Vec<char>, pat: &Vec<char>) -> (r: Option<usize>)
    ensures
        r matches Some(k) ==> find_from(s@, pat@, 0) == k as int,
        r is None ==> find_from(s@, pat@, 0) == -1,
{
    if pat.len() > s.len() {
        proof {
            lemma_find_from_none(s@, pat@, 0);
        }
        return None;
    }
    if pat.len() == 0 {
        proof {
            assert(s@.subrange(0, 0) =~= pat@);
        }
        return Some(0);
    }
    let bound: usize = s.len() - pat.len();
    let mut i: usize = 0;
    while i <= bound
        invariant
            1 <= pat@.len() <= s@.len(),
            s@.len() <= usize::MAX,
            bound == s@.len() - pat@.len(),
            i <= bound + 1,
            forall|j: int| 0 <= j < i ==> !match_at(s@, pat@, j),
        decreases bound + 1 - i,
    {
        if match_at_exec(s, pat, i) {
            proof {
                lemma_find_from_found(s@, pat@, 0, i as int);
            }
            return Some(i);
        }
        i += 1;
    }
    proof {
        lemma_find_from_none(s@, pat@, 0);
    }
    None
}

/// The greatest position where `pat` occurs in `s`, as `rfind_from` gives it
/// when started at the last position where a match could begin.
pub fn rfind(s: &Vec<char>, pat: &Vec<char>) -> (r: Option<usize>)
    ensures
        r matches Some(k) ==> rfind_from(s@, pat@, s@.len() - pat@.len()) == k as int,
        r is None ==> rfind_from(s@, pat@, s@.len() - pat@.len()) == -1,
{
    if pat.len() > s.len() {
        return None;
    }
    let mut i: usize = s.len() - pat.len();
    loop
        invariant
            pat@.len() <= s@.len(),
            i <= s@.len() - pat@.len(),
            forall|j: int| i < j <= s@.len() - pat@.len() ==> !match_at(s@, pat@, j),
        decreases i + 1,
    {
        if match_at_exec(s, pat, i) {
            proof {
                lemma_rfind_from_found(s@, pat@, s@.len() - pat@.len(), i as int);
            }
            return Some(i);
        }
        if i == 0 {
            proof {
                assert(forall|j: int|
                    0 <= j <= s@.len() - pat@.len() ==> !match_at(s@, pat@, j));
                lemma_rfind_from_none(s@, pat@, s@.len() - pat@.len());
            }
            return None;
        }
        i -= 1;
    }
}

/// The characters of `s`, one by one.
pub fn str_to_chars(s: &str) -> (r: Vec<char>)
    ensures
        r@ == s@,
{
    let n: usize = s.unicode_len();
    let mut out: Vec<char> = Vec::new();
    let mut i: usize = 0;
    while i < n
        invariant
            n == s@.len(),
            i <= n,
            out@ == s@.subrange(0, i as int),
        decreases n - i,
    {
        out.push(s.get_char(i));
        proof {
            assert(out@ =~= s@.subrange(0, i + 1));
        }
        i += 1;
    }
    proof {
        assert(out@ =~= s@);
    }
    out
}

/// `s` with the first occurrence of `pat` removed, or `s` unchanged when
/// `pat` does not occur in it.
pub open spec fn strip_once(s: Seq<char>, pat: Seq<char>) -> Seq<char> {
    let i = find_from(s, pat, 0);
    if i < 0 {
        s
    } else {
        s.subrange(0, i) + s.subrange(i + pat.len() as int, s.len() as int)
    }
}

/// Exec counterpart of `strip_once`.
pub fn strip_once_exec(s: &Vec<char>, pat: &Vec<char>) -> (r: Vec<char>)
    ensures
        r@ == strip_once(s@, pat@),
{
    match find(s, pat) {
        None => {
            let mut out: Vec<char> = Vec::new();
            append_range(&mut out, s, 0, s.len());
            proof {
                assert(out@ =~= s@);
            }
            out
        },
        Some(i) => {
            proof {
                lemma_find_from_match(s@, pat@, 0);
            }
            let sl: usize = s.len();
            assert(i + pat@.len() <= sl);
            let mut out = subvec(s, 0, i);
            append_range(&mut out, s, i + pat.len(), sl);
            out
        },
    }
}

/// A character the control strip removes: backslash, newline or tab.
pub open spec fn is_stripped_char(c: char) -> bool {
    c == '\\' || c == '\n' || c == '\t'
}

/// `s` without its backslash, newline and tab characters.
pub open spec fn strip_ctl(s: Seq<char>) -> Seq<char>
    decreases s.len(),
{
    if s.len() == 0 {
        Seq::empty()
    } else if is_stripped_char(s.last()) {
        strip_ctl(s.drop_last())
    } else {
        strip_ctl(s.drop_last()).push(s.last())
    }
}

/// Exec counterpart of `strip_ctl`.
pub fn strip_ctl_exec(s: &Vec<char>) -> (r: Vec<char>)
    ensures
        r@ == strip_ctl(s@),
{
    let mut out: Vec<char> = Vec::new();
    let mut i: usize = 0;
    while i < s.len()
        invariant
            i <= s@.len(),
            out@ == strip_ctl(s@.subrange(0, i as int)),
        decreases s@.len() - i,
    {
        let c = s[i];
        if !(c == '\\' || c == '\n' || c == '\t') {
            out.push(c);
        }
        proof {
            assert(s@.subrange(0, i + 1).drop_last() =~= s@.subrange(0, i as int));
            assert(s@.subrange(0, i + 1).last() == s@[i as int]);
        }
        i += 1;
    }
    proof {
        assert(s@.subrange(0, s@.len() as int) =~= s@);
    }
    out
}

/// An ASCII decimal digit.
pub open spec fn is_digit_char(c: char) -> bool {
    '0' <= c && c <= '9'
}

/// The ASCII digits of `s`, in order, with every other character dropped.
pub open spec fn filter_digits(s: Seq<char>) -> Seq<char>
    decreases s.len(),
{
    if s.len() == 0 {
        Seq::empty()
    } else if is_digit_char(s.last()) {
        filter_digits(s.drop_last()).push(s.last())
    } else {
        filter_digits(s.drop_last())
    }
}

/// Exec counterpart of `filter_digits`.
pub fn filter_digits_exec(s: &Vec<char>) -> (r: Vec<char>)
    ensures
        r@ == filter_digits(s@),
{
    let mut out: Vec<char> = Vec::new();
    let mut i: usize = 0;
    while i < s.len()
        invariant
            i <= s@.len(),
            out@ == filter_digits(s@.subrange(0, i as int)),
        decreases s@.len() - i,
    {
        let c = s[i];
        if '0' <= c && c <= '9' {
            out.push(c);
        }
        proof {
            assert(s@.subrange(0, i + 1).drop_last() =~= s@.subrange(0, i as int));
            assert(s@.subrange(0, i + 1).last() == s@[i as int]);
        }
        i += 1;
    }
    proof {
        assert(s@.subrange(0, s@.len() as int) =~= s@);
    }
    out
}

/// A whitespace character, as the repair step's delimiter pattern skips it.
pub open spec fn is_space_char(c: char) -> bool {
    c == ' ' || c == '\t' || c == '\n' || c == '\r' || c == '\u{000b}' || c == '\u{000c}'
}

/// `s` without its trailing whitespace characters.
pub open spec fn trim_end(s: Seq<char>) -> Seq<char>
    decreases s.len(),
{
    if s.len() > 0 && is_space_char(s.last()) {
        trim_end(s.drop_last())
    } else {
        s
    }
}

/// The end of `trim_end(s[from..to])` within `s`: the least index `r` such
/// that `s[from..r]` is that trimmed range.
pub fn trim_end_index(s: &Vec<char>, from: usize, to: usize) -> (r: usize)
    requires
        from <= to <= s@.len(),
    ensures
        from <= r <= to,
        s@.subrange(from as int, r as int) == trim_end(s@.subrange(from as int, to as int)),
{
    let mut e: usize = to;
    loop
        invariant
            from <= e <= to <= s@.len(),
            trim_end(s@.subrange(from as int, to as int)) == trim_end(
                s@.subrange(from as int, e as int),
            ),
        decreases e,
    {
        if e == from {
            proof {
                assert(s@.subrange(from as int, e as int).len() == 0);
            }
            return e;
        }
        let c = s[e - 1];
        if !(c == ' ' || c == '\t' || c == '\n' || c == '\r' || c == '\u{000b}' || c
            == '\u{000c}') {
            proof {
                let sub = s@.subrange(from as int, e as int);
                assert(sub.last() == s@[e - 1]);
                assert(trim_end(sub) == sub);
            }
            return e;
        }
        proof {
            assert(s@.subrange(from as int, e as int).drop_last() =~= s@.subrange(
                from as int,
                e - 1,
            ));
            assert(s@.subrange(from as int, e as int).last() == s@[e - 1]);
        }
        e -= 1;
    }
}

/// `s` with a backslash prepended to every double quote.
pub open spec fn escape_quotes(s: Seq<char>) -> Seq<char>
    decreases s.len(),
{
    if s.len() == 0 {
        Seq::empty()
    } else if s.last() == '"' {
        escape_quotes(s.drop_last()) + seq!['\\', '"']
    } else {
        escape_quotes(s.drop_last()).push(s.last())
    }
}

/// Exec counterpart of `escape_quotes`.
pub fn escape_quotes_exec(s: &Vec<char>) -> (r: Vec<char>)
    ensures
        r@ == escape_quotes(s@),
{
    let mut out: Vec<char> = Vec::new();
    let mut i: usize = 0;
    while i < s.len()
        invariant
            i <= s@.len(),
            out@ == escape_quotes(s@.subrange(0, i as int)),
        decreases s@.len() - i,
    {
        let c = s[i];
        if c == '"' {
            out.push('\\');
            out.push('"');
            proof {
                assert(out@ =~= escape_quotes(s@.subrange(0, i as int)) + seq!['\\', '"']);
            }
        } else {
            out.push(c);
        }
        proof {
            assert(s@.subrange(0, i + 1).drop_last() =~= s@.subrange(0, i as int));
            assert(s@.subrange(0, i + 1).last() == s@[i as int]);
        }
        i += 1;
    }
    proof {
        assert(s@.subrange(0, s@.len() as int) =~= s@);
    }
    out
}

/// Every character of `s` is an ASCII digit.
pub open spec fn all_digits(s: Seq<char>) -> bool {
    forall|i: int| 0 <= i < s.len() ==> is_digit_char(s[i])
}

/// The value of an all-digit string, most significant digit first.
pub open spec fn digits_val(s: Seq<char>) -> int
    decreases s.len(),
{
    if s.len() == 0 {
        0
    } else {
        digits_val(s.drop_last()) * 10 + (s.last() as int - '0' as int)
    }
}

/// The value of a digit string, with 0 for anything that is not a
/// nonempty all-digit string whose value fits in a `u32`.
pub open spec fn parse_digits_spec(s: Seq<char>) -> u32 {
    if s.len() > 0 && all_digits(s) && digits_val(s) <= u32::MAX as int {
        digits_val(s) as u32
    } else {
        0
    }
}

/// The unsigned integer `s` denotes under std's `u32` grammar — an
/// optional leading `+` followed by one or more ASCII digits — with 0 on
/// any parse failure or overflow.
pub open spec fn parse_u32_spec(s: Seq<char>) -> u32 {
    if s.len() > 0 && s[0] == '+' {
        parse_digits_spec(s.subrange(1, s.len() as int))
    } else {
        parse_digits_spec(s)
    }
}

/// Exec counterpart of `parse_u32_spec`.
pub fn parse_u32(s: &Vec<char>) -> (r: u32)
    ensures
        r == parse_u32_spec(s@),
{
    if s.len() > 0 && s[0] == '+' {
        let rest = subvec(s, 1, s.len());
        parse_digits(&rest)
    } else {
        parse_digits(s)
    }
}

/// Exec counterpart of `parse_digits_spec`.
fn parse_digits(s: &Vec<char>) -> (r: u32)
    ensures
        r == parse_digits_spec(s@),
{
    if s.len() == 0 {
        return 0;
    }
    let mut acc: u64 = 0;
    let mut over: bool = false;
    let mut i: usize = 0;
    while i < s.len()
        invariant
            0 < s@.len(),
            i <= s@.len(),
            all_digits(s@.subrange(0, i as int)),
            !over ==> acc == digits_val(s@.subrange(0, i as int)) && acc <= u32::MAX,
            over ==> digits_val(s@.subrange(0, i as int)) > u32::MAX,
        decreases s@.len() - i,
    {
        let c = s[i];
        if !('0' <= c && c <= '9') {
            assert(!all_digits(s@));
            return 0;
        }
        let d: u64 = (c as u32 as u64) - ('0' as u32 as u64);
        proof {
            assert(s@.subrange(0, i + 1).drop_last() =~= s@.subrange(0, i as int));
            assert(s@.subrange(0, i + 1).last() == s@[i as int]);
        }
        if over {
            proof {
                assert(digits_val(s@.subrange(0, i + 1)) > u32::MAX);
            }
        } else {
            let next: u64 = acc * 10 + d;
            if next > u32::MAX as u64 {
                over = true;
            } else {
                acc = next;
            }
        }
        i += 1;
    }
    proof {
        assert(s@.subrange(0, s@.len() as int) =~= s@);
    }
    if over {
        0
    } else {
        acc as u32
    }
}

/// The range `s[from..to]` as a fresh vector.
pub fn subvec(s: &Vec<char>, from: usize, to: usize) -> (r: Vec<char>)
    requires
        from <= to <= s@.len(),
    ensures
        r@ == s@.subrange(from as int, to as int),
{
    let mut out: Vec<char> = Vec::new();
    append_range(&mut out, s, from, to);
    proof {
        assert(out@ =~= s@.subrange(from as int, to as int));
    }
    out
}

/// Appends the range `s[from..to]` to `out`.
pub fn append_range(out: &mut Vec<char>, s: &Vec<char>, from: usize, to: usize)
    requires
        from <= to <= s@.len(),
    ensures
        final(out)@ == old(out)@ + s@.subrange(from as int, to as int),
{
    let mut i: usize = from;
    while i < to
        invariant
            from <= i <= to <= s@.len(),
            out@ == old(out)@ + s@.subrange(from as int, i as int),
        decreases to - i,
    {
        out.push(s[i]);
        proof {
            assert(out@ =~= old(out)@ + s@.subrange(from as int, i + 1));
        }
        i += 1;
    }
    proof {
        assert(out@ =~= old(out)@ + s@.subrange(from as int, to as int));
    }
}

/// Appends the characters of the string `s` to `out`.
pub fn append_str(out: &mut Vec<char>, s: &str)
    ensures
        final(out)@ == old(out)@ + s@,
{
    let chars = str_to_chars(s);
    append_range(out, &chars, 0, chars.len());
    proof {
        assert(chars@.subrange(0, chars@.len() as int) =~= s@);
    }
}

/// Whether two strings hold the same characters.
pub fn str_eq(a: &str, b: &str) -> (r: bool)
    ensures
        r == (a@ == b@),
{
    let n: usize = a.unicode_len();
    if n != b.unicode_len() {
        return false;
    }
    let mut i: usize = 0;
    while i < n
        invariant
            n == a@.len() == b@.len(),
            i <= n,
            forall|j: int| 0 <= j < i ==> a@[j] == b@[j],
        decreases n - i,
    {
        if a.get_char(i) != b.get_char(i) {
            return false;
        }
        i += 1;
    }
    proof {
        assert(a@ =~= b@);
    }
    true
}

/// Relies on std's `String::push`: appends one character at the end.
#[verifier::external_body]
fn push_char(s: &mut String, c: char)
    ensures
        final(s)@ == old(s)@.push(c),
{
    s.push(c);
}

/// A `String` holding exactly the characters of `v`.
pub fn chars_to_string(v: &Vec<char>) -> (r: String)
    ensures
        r@ == v@,
{
    let mut out = String::new();
    let mut i: usize = 0;
    while i < v.len()
        invariant
            i <= v@.len(),
            out@ == v@.subrange(0, i as int),
        decreases v@.len() - i,
    {
        push_char(&mut out, v[i]);
        proof {
            assert(out@ =~= v@.subrange(0, i + 1));
        }
        i += 1;
    }
    proof {
        assert(out@ =~= v@);
    }
    out
}

} // verus!
