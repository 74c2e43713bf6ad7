//! Text primitives over character sequences: the trimming, splitting and
//! number parsing the parsers and helpers of this crate are built from.
//! Each is stated over `Seq<char>` the way Rust's `str` documents it.

use vstd::prelude::*;

verus! {

/// Unicode `White_Space` — what `char::is_whitespace` tests.
pub open spec fn is_white_space(c: char) -> bool {
    ||| ('\u{9}' <= c && c <= '\u{d}')
    ||| c == ' '
    ||| c == '\u{85}'
    ||| c == '\u{a0}'
    ||| c == '\u{1680}'
    ||| ('\u{2000}' <= c && c <= '\u{200a}')
    ||| c == '\u{2028}'
    ||| c == '\u{2029}'
    ||| c == '\u{202f}'
    ||| c == '\u{205f}'
    ||| c == '\u{3000}'
}

pub open spec fn is_ascii_digit(c: char) -> bool {
    '0' <= c && c <= '9'
}

pub open spec fn is_ascii_lower(c: char) -> bool {
    'a' <= c && c <= 'z'
}

pub open spec fn is_ascii_upper(c: char) -> bool {
    'A' <= c && c <= 'Z'
}

pub open spec fn is_ascii_alphanumeric(c: char) -> bool {
    is_ascii_digit(c) || is_ascii_lower(c) || is_ascii_upper(c)
}

/// `char::to_ascii_lowercase`.
pub open spec fn ascii_lower(c: char) -> char {
    if is_ascii_upper(c) {
        ((c as u32) + 32) as char
    } else {
        c
    }
}

pub open spec fn ascii_lower_seq(s: Seq<char>) -> Seq<char> {
    s.map_values(|c: char| ascii_lower(c))
}

/// `str::trim_start`.
pub open spec fn trim_start(s: Seq<char>) -> Seq<char>
    decreases s.len(),
{
    if s.len() > 0 && is_white_space(s[0]) {
        trim_start(s.drop_first())
    } else {
        s
    }
}

/// `str::trim_end`.
pub open spec fn trim_end(s: Seq<char>) -> Seq<char>
    decreases s.len(),
{
    if s.len() > 0 && is_white_space(s.last()) {
        trim_end(s.drop_last())
    } else {
        s
    }
}

/// `str::trim`.
pub open spec fn trim(s: Seq<char>) -> Seq<char> {
    trim_end(trim_start(s))
}

/// Whether `p` occurs in `s` starting at index `i`.
pub open spec fn occurs_at(s: Seq<char>, p: Seq<char>, i: int) -> bool {
    0 <= i && i + p.len() <= s.len() && s.subrange(i, i + p.len()) == p
}

/// The first index at or after `i` where `p` occurs in `s`.
pub open spec fn find_from(s: Seq<char>, p: Seq<char>, i: int) -> Option<int>
    decreases s.len() + 1 - i,
{
    if i < 0 || i + p.len() > s.len() {
        None
    } else if occurs_at(s, p, i) {
        Some(i)
    } else {
        find_from(s, p, i + 1)
    }
}

/// `str::split_once`: the text before and after the first occurrence
/// of `p`.
pub open spec fn split_once(s: Seq<char>, p: Seq<char>) -> Option<(Seq<char>, Seq<char>)> {
    match find_from(s, p, 0) {
        Some(i) => Some((s.take(i), s.skip(i + p.len()))),
        None => None,
    }
}

/// `str::strip_prefix`.
pub open spec fn strip_prefix(s: Seq<char>, p: Seq<char>) -> Option<Seq<char>> {
    if p.len() <= s.len() && s.take(p.len() as int) == p {
        Some(s.skip(p.len() as int))
    } else {
        None
    }
}

/// `str::strip_suffix`.
pub open spec fn strip_suffix(s: Seq<char>, p: Seq<char>) -> Option<Seq<char>> {
    if p.len() <= s.len() && s.skip(s.len() - p.len()) == p {
        Some(s.take(s.len() - p.len()))
    } else {
        None
    }
}

/// Index of the first `'\n'` in `s`, or `s.len()` if there is none.
pub open spec fn first_newline(s: Seq<char>) -> int
    decreases s.len(),
{
    if s.len() == 0 {
        0
    } else if s[0] == '\n' {
        0
    } else {
        1 + first_newline(s.drop_first())
    }
}

pub proof fn lemma_first_newline(s: Seq<char>)
    ensures
        0 <= first_newline(s) <= s.len(),
        forall|j: int| 0 <= j < first_newline(s) ==> s[j] != '\n',
        first_newline(s) < s.len() ==> s[first_newline(s)] == '\n',
    decreases s.len(),
{
    if s.len() > 0 && s[0] != '\n' {
        lemma_first_newline(s.drop_first());
        assert forall|j: int| 0 <= j < first_newline(s) implies s[j] != '\n' by {
            if j > 0 {
                assert(s[j] == s.drop_first()[j - 1]);
            }
        }
    }
}

/// A line ending is `"\n"` or `"\r\n"`.
pub open spec fn strip_cr(l: Seq<char>) -> Seq<char> {
    if l.len() > 0 && l.last() == '\r' {
        l.drop_last()
    } else {
        l
    }
}

/// `str::lines`: split at line endings; the final line ending is
/// optional, and a trailing one yields no empty last line.
pub open spec fn lines(s: Seq<char>) -> Seq<Seq<char>>
    decreases s.len(),
{
    if s.len() == 0 {
        Seq::empty()
    } else {
        let k = first_newline(s);
        proof {
            lemma_first_newline(s);
        }
        if k >= s.len() {
            seq![s]
        } else {
            seq![strip_cr(s.take(k))] + lines(s.skip(k + 1))
        }
    }
}

pub open spec fn digit_value(c: char) -> int {
    c as int - '0' as int
}

/// Decimal value of a run of digits.
pub open spec fn digits_value(s: Seq<char>) -> int
    decreases s.len(),
{
    if s.len() == 0 {
        0
    } else {
        digits_value(s.drop_last()) * 10 + digit_value(s.last())
    }
}

pub open spec fn all_digits(s: Seq<char>) -> bool {
    forall|i: int| 0 <= i < s.len() ==> is_ascii_digit(#[trigger] s[i])
}

/// Integer text as `i64::from_str` reads it: an optional `+` or `-`,
/// then one or more ASCII digits and nothing else.
pub open spec fn parse_int(s: Seq<char>) -> Option<int> {
    let neg = s.len() > 0 && s[0] == '-';
    let signed = s.len() > 0 && (s[0] == '-' || s[0] == '+');
    let body = if signed {
        s.drop_first()
    } else {
        s
    };
    if body.len() > 0 && all_digits(body) {
        Some(
            if neg {
                -digits_value(body)
            } else {
                digits_value(body)
            },
        )
    } else {
        None
    }
}

/// `i64::from_str(..).ok()`.
pub open spec fn parse_i64(s: Seq<char>) -> Option<i64> {
    match parse_int(s) {
        Some(v) => if i64::MIN <= v && v <= i64::MAX {
            Some(v as i64)
        } else {
            None
        },
        None => None,
    }
}

pub open spec fn views(v: Seq<Vec<char>>) -> Seq<Seq<char>> {
    v.map_values(|x: Vec<char>| x@)
}

/// Calls `String::push`: appends `c`.
#[verifier::external_body]
pub(crate) fn push_char(s: &mut String, c: char)
    ensures
        final(s)@ == old(s)@.push(c),
{
    s.push(c);
}

/// The characters of `s`.
pub fn chars_of(s: &str) -> (v: Vec<char>)
    ensures
        v@ == s@,
{
    let mut v: Vec<char> = Vec::new();
    for c in it: s.chars()
        invariant
            v@ == it.seq().take(it.index() as int),
            it.seq() == s@,
    {
        v.push(c);
    }
    v
}

/// A `String` holding exactly `v`.
pub fn string_of(v: &Vec<char>) -> (s: String)
    ensures
        s@ == v@,
{
    let mut s = String::new();
    let n = v.len();
    let mut i: usize = 0;
    while i < n
        invariant
            n == v.len(),
            0 <= i <= n,
            s@ == v@.take(i as int),
        decreases n - i,
    {
        push_char(&mut s, v[i]);
        assert(v@.take(i as int + 1) =~= v@.take(i as int).push(v@[i as int]));
        i += 1;
    }
    assert(v@.take(n as int) =~= v@);
    s
}

/// Append all of `b` to `a`.
pub fn append_chars(a: &mut Vec<char>, b: &Vec<char>)
    ensures
        final(a)@ == old(a)@ + b@,
{
    let n = b.len();
    let mut i: usize = 0;
    while i < n
        invariant
            n == b.len(),
            0 <= i <= n,
            a@ == old(a)@ + b@.take(i as int),
        decreases n - i,
    {
        a.push(b[i]);
        assert(b@.take(i as int + 1) =~= b@.take(i as int).push(b@[i as int]));
        i += 1;
    }
    assert(b@.take(n as int) =~= b@);
}

/// Append the characters of `b` to `a`.
pub fn append_str(a: &mut Vec<char>, b: &str)
    ensures
        final(a)@ == old(a)@ + b@,
{
    let v = chars_of(b);
    append_chars(a, &v);
}

/// `v[lo..hi]`.
pub fn slice_chars(v: &Vec<char>, lo: usize, hi: usize) -> (r: Vec<char>)
    requires
        lo <= hi <= v.len(),
    ensures
        r@ == v@.subrange(lo as int, hi as int),
{
    let mut r: Vec<char> = Vec::new();
    let mut i: usize = lo;
    while i < hi
        invariant
            lo <= i <= hi <= v.len(),
            r@ == v@.subrange(lo as int, i as int),
        decreases hi - i,
    {
        r.push(v[i]);
        assert(v@.subrange(lo as int, i as int + 1) =~= v@.subrange(lo as int, i as int).push(v@[i as int]));
        i += 1;
    }
    r
}

pub fn is_whitespace(c: char) -> (r: bool)
    ensures
        r == is_white_space(c),
{
    ('\u{9}' <= c && c <= '\u{d}') || c == ' ' || c == '\u{85}' || c == '\u{a0}' || c == '\u{1680}'
        || ('\u{2000}' <= c && c <= '\u{200a}') || c == '\u{2028}' || c == '\u{2029}' || c
        == '\u{202f}' || c == '\u{205f}' || c == '\u{3000}'
}

pub fn is_alphanumeric_ascii(c: char) -> (r: bool)
    ensures
        r == is_ascii_alphanumeric(c),
{
    ('0' <= c && c <= '9') || ('a' <= c && c <= 'z') || ('A' <= c && c <= 'Z')
}

pub fn to_lower_ascii(c: char) -> (r: char)
    ensures
        r == ascii_lower(c),
{
    if 'A' <= c && c <= 'Z' {
        let code: u8 = (c as u8) + 32;
        code as char
    } else {
        c
    }
}

pub proof fn lemma_trim_start_suffix(s: Seq<char>, k: int)
    requires
        0 <= k <= s.len(),
        forall|j: int| 0 <= j < k ==> is_white_space(#[trigger] s[j]),
    ensures
        trim_start(s) == trim_start(s.skip(k)),
    decreases k,
{
    if k > 0 {
        assert(s.drop_first().skip(k - 1) =~= s.skip(k));
        assert forall|j: int| 0 <= j < k - 1 implies is_white_space(#[trigger] s.drop_first()[j]) by {
            assert(s.drop_first()[j] == s[j + 1]);
        }
        lemma_trim_start_suffix(s.drop_first(), k - 1);
    } else {
        assert(s.skip(0) =~= s);
    }
}

pub proof fn lemma_trim_end_prefix(s: Seq<char>, k: int)
    requires
        0 <= k <= s.len(),
        forall|j: int| k <= j < s.len() ==> is_white_space(#[trigger] s[j]),
    ensures
        trim_end(s) == trim_end(s.take(k)),
    decreases s.len() - k,
{
    if k < s.len() {
        assert(s.drop_last().take(k) =~= s.take(k));
        assert forall|j: int| k <= j < s.drop_last().len() implies is_white_space(#[trigger] s.drop_last()[j]) by {
            assert(s.drop_last()[j] == s[j]);
        }
        lemma_trim_end_prefix(s.drop_last(), k);
    } else {
        assert(s.take(k) =~= s);
    }
}

/// `str::trim_start`.
pub fn trim_start_chars(v: &Vec<char>) -> (r: Vec<char>)
    ensures
        r@ == trim_start(v@),
{
    let n = v.len();
    let mut k: usize = 0;
    while k < n && is_whitespace(v[k])
        invariant
            n == v.len(),
            0 <= k <= n,
            forall|j: int| 0 <= j < k ==> is_white_space(#[trigger] v@[j]),
        decreases n - k,
    {
        k += 1;
    }
    proof {
        lemma_trim_start_suffix(v@, k as int);
        let t = v@.skip(k as int);
        if t.len() > 0 {
            assert(t[0] == v@[k as int]);
        }
    }
    slice_chars(v, k, n)
}

/// `str::trim_end`.
pub fn trim_end_chars(v: &Vec<char>) -> (r: Vec<char>)
    ensures
        r@ == trim_end(v@),
{
    let n = v.len();
    let mut k: usize = n;
    while k > 0 && is_whitespace(v[k - 1])
        invariant
            n == v.len(),
            0 <= k <= n,
            forall|j: int| k <= j < n ==> is_white_space(#[trigger] v@[j]),
        decreases k,
    {
        k -= 1;
    }
    proof {
        lemma_trim_end_prefix(v@, k as int);
        let t = v@.take(k as int);
        if t.len() > 0 {
            assert(t.last() == v@[k as int - 1]);
        }
    }
    assert(v@.subrange(0, k as int) =~= v@.take(k as int));
    slice_chars(v, 0, k)
}

/// `str::trim`.
pub fn trim_chars(v: &Vec<char>) -> (r: Vec<char>)
    ensures
        r@ == trim(v@),
{
    let t = trim_start_chars(v);
    trim_end_chars(&t)
}

pub fn starts_with_at(v: &Vec<char>, p: &Vec<char>, i: usize) -> (r: bool)
    requires
        i <= v.len(),
    ensures
        r == occurs_at(v@, p@, i as int),
{
    if p.len() > v.len() - i {
        return false;
    }
    let m = p.len();
    let mut j: usize = 0;
    while j < m
        invariant
            m == p.len(),
            i + m <= v.len(),
            0 <= j <= m,
            forall|t: int| 0 <= t < j ==> v@[i + t] == p@[t],
        decreases m - j,
    {
        if v[i + j] != p[j] {
            assert(v@.subrange(i as int, i + m)[j as int] != p@[j as int]);
            return false;
        }
        j += 1;
    }
    assert(v@.subrange(i as int, i + m) =~= p@);
    true
}

/// `str::strip_prefix`.
pub fn strip_prefix_chars(v: &Vec<char>, p: &Vec<char>) -> (r: Option<Vec<char>>)
    ensures
        match r {
            Some(x) => strip_prefix(v@, p@) == Some(x@),
            None => strip_prefix(v@, p@) is None,
        },
{
    if starts_with_at(v, p, 0) {
        assert(v@.subrange(0, p@.len() as int) =~= v@.take(p@.len() as int));
        let r = slice_chars(v, p.len(), v.len());
        assert(r@ =~= v@.skip(p@.len() as int));
        Some(r)
    } else {
        assert(!(p@.len() <= v@.len() && v@.take(p@.len() as int) == p@)) by {
            if p@.len() <= v@.len() && v@.take(p@.len() as int) == p@ {
                assert(v@.subrange(0, p@.len() as int) =~= v@.take(p@.len() as int));
            }
        }
        None
    }
}

/// `str::strip_suffix`.
pub fn strip_suffix_chars(v: &Vec<char>, p: &Vec<char>) -> (r: Option<Vec<char>>)
    ensures
        match r {
            Some(x) => strip_suffix(v@, p@) == Some(x@),
            None => strip_suffix(v@, p@) is None,
        },
{
    if p.len() > v.len() {
        return None;
    }
    let k = v.len() - p.len();
    if starts_with_at(v, p, k) {
        assert(v@.subrange(k as int, v@.len() as int) =~= v@.skip(k as int));
        let r = slice_chars(v, 0, k);
        assert(r@ =~= v@.take(k as int));
        Some(r)
    } else {
        assert(v@.subrange(k as int, v@.len() as int) =~= v@.skip(k as int));
        None
    }
}

/// First occurrence of `p` in `v` at or after `from`.
pub fn find_chars(v: &Vec<char>, p: &Vec<char>, from: usize) -> (r: Option<usize>)
    requires
        from <= v.len(),
    ensures
        match r {
            Some(i) => find_from(v@, p@, from as int) == Some(i as int),
            None => find_from(v@, p@, from as int) is None,
        },
{
    let n = v.len();
    let mut i: usize = from;
    while i < n
        invariant
            n == v.len(),
            from <= i <= n,
            find_from(v@, p@, from as int) == find_from(v@, p@, i as int),
        decreases n - i,
    {
        if p.len() > n - i {
            return None;
        }
        if starts_with_at(v, p, i) {
            return Some(i);
        }
        i += 1;
    }
    if starts_with_at(v, p, n) {
        Some(n)
    } else {
        assert(find_from(v@, p@, n as int + 1) is None);
        None
    }
}

/// `str::split_once`.
pub fn split_once_chars(v: &Vec<char>, p: &Vec<char>) -> (r: Option<(Vec<char>, Vec<char>)>)
    ensures
        match r {
            Some((a, b)) => split_once(v@, p@) == Some((a@, b@)),
            None => split_once(v@, p@) is None,
        },
{
    match find_chars(v, p, 0) {
        Some(i) => {
            proof {
                let s = v@;
                assert(occurs_at(s, p@, i as int)) by {
                    lemma_find_from_found(s, p@, 0, i as int);
                }
            }
            let a = slice_chars(v, 0, i);
            let b = slice_chars(v, i + p.len(), v.len());
            assert(a@ =~= v@.take(i as int));
            assert(b@ =~= v@.skip(i + p@.len()));
            Some((a, b))
        },
        None => None,
    }
}

pub proof fn lemma_find_from_found(s: Seq<char>, p: Seq<char>, i: int, k: int)
    requires
        find_from(s, p, i) == Some(k),
    ensures
        occurs_at(s, p, k),
        i <= k,
    decreases s.len() + 1 - i,
{
    if !(i < 0 || i + p.len() > s.len()) && !occurs_at(s, p, i) {
        lemma_find_from_found(s, p, i + 1, k);
    }
}

/// `str::lines`.
pub fn lines_of(v: &Vec<char>) -> (r: Vec<Vec<char>>)
    ensures
        views(r@) == lines(v@),
{
    let n = v.len();
    let mut out: Vec<Vec<char>> = Vec::new();
    let mut start: usize = 0;
    assert(v@.skip(0) =~= v@);
    assert(views(out@) =~= Seq::<Seq<char>>::empty());
    assert(views(out@) + lines(v@.skip(0)) =~= lines(v@));
    while start < n
        invariant
            n == v.len(),
            0 <= start <= n,
            lines(v@) == views(out@) + lines(v@.skip(start as int)),
        decreases n - start,
    {
        let ghost rest = v@.skip(start as int);
        let mut k: usize = start;
        while k < n && v[k] != '\n'
            invariant
                n == v.len(),
                start <= k <= n,
                forall|j: int| start <= j < k ==> v@[j] != '\n',
            decreases n - k,
        {
            k += 1;
        }
        proof {
            lemma_first_newline(rest);
            lemma_first_newline_is(rest, k - start);
        }
        let mut line = slice_chars(v, start, k);
        if k < n && line.len() > 0 && line[line.len() - 1] == '\r' {
            line.pop();
        }
        let ghost before = views(out@);
        out.push(line);
        assert(views(out@) =~= before.push(line@));
        if k >= n {
            assert(rest.take(k - start) =~= rest);
            assert(lines(rest) == seq![rest]);
            assert(v@.skip(n as int) =~= Seq::<char>::empty());
            assert(lines(v@.skip(n as int)) == Seq::<Seq<char>>::empty());
            assert(views(out@) =~= before + lines(rest));
            start = n;
        } else {
            assert(rest.take(k - start) =~= v@.subrange(start as int, k as int));
            assert(rest.skip(k - start + 1) =~= v@.skip(k + 1));
            assert(lines(rest) == seq![strip_cr(rest.take(k - start))] + lines(rest.skip(k - start + 1)));
            assert(line@ == strip_cr(rest.take(k - start)));
            assert(before + lines(rest) =~= views(out@) + lines(v@.skip(k + 1)));
            start = k + 1;
        }
    }
    assert(v@.skip(start as int) =~= Seq::<char>::empty());
    assert(views(out@) + Seq::<Seq<char>>::empty() =~= views(out@));
    out
}

pub proof fn lemma_first_newline_is(s: Seq<char>, k: int)
    requires
        0 <= k <= s.len(),
        forall|j: int| 0 <= j < k ==> s[j] != '\n',
        k < s.len() ==> s[k] == '\n',
    ensures
        first_newline(s) == k,
    decreases s.len(),
{
    if s.len() > 0 && s[0] != '\n' {
        assert forall|j: int| 0 <= j < k - 1 implies s.drop_first()[j] != '\n' by {
            assert(s.drop_first()[j] == s[j + 1]);
        }
        if k - 1 < s.drop_first().len() {
            assert(s.drop_first()[k - 1] == s[k]);
        }
        lemma_first_newline_is(s.drop_first(), k - 1);
    }
}

pub proof fn lemma_digits_value_nonneg(s: Seq<char>)
    requires
        all_digits(s),
    ensures
        digits_value(s) >= 0,
    decreases s.len(),
{
    if s.len() > 0 {
        assert(all_digits(s.drop_last())) by {
            assert forall|i: int| 0 <= i < s.drop_last().len() implies is_ascii_digit(#[trigger] s.drop_last()[i]) by {
                assert(s.drop_last()[i] == s[i]);
            }
        }
        lemma_digits_value_nonneg(s.drop_last());
        assert(is_ascii_digit(s[s.len() - 1]));
    }
}

/// Cap for the running value while parsing: anything at or past it is
/// out of `i64` range whatever follows.
pub const PARSE_CAP: i128 = 0x1_0000_0000_0000_0000;

/// `i64::from_str(..).ok()`.
pub fn parse_i64_chars(v: &Vec<char>) -> (r: Option<i64>)
    ensures
        r == parse_i64(v@),
{
    let n = v.len();
    let neg = n > 0 && v[0] == '-';
    let signed = n > 0 && (v[0] == '-' || v[0] == '+');
    let start: usize = if signed { 1 } else { 0 };
    let ghost body = if signed { v@.drop_first() } else { v@ };
    assert(body =~= v@.skip(start as int));
    assert(signed == (v@.len() > 0 && (v@[0] == '-' || v@[0] == '+')));
    assert(neg == (v@.len() > 0 && v@[0] == '-'));
    if start >= n {
        assert(body.len() == 0);
        return None;
    }
    let mut acc: i128 = 0;
    let mut i: usize = start;
    while i < n
        invariant
            n == v.len(),
            start <= i <= n,
            start < n,
            body =~= v@.skip(start as int),
            body == (if v@.len() > 0 && (v@[0] == '-' || v@[0] == '+') {
                v@.drop_first()
            } else {
                v@
            }),
            all_digits(v@.subrange(start as int, i as int)),
            acc as int == if digits_value(v@.subrange(start as int, i as int)) >= PARSE_CAP {
                PARSE_CAP as int
            } else {
                digits_value(v@.subrange(start as int, i as int))
            },
        decreases n - i,
    {
        let c = v[i];
        if !('0' <= c && c <= '9') {
            assert(!all_digits(body)) by {
                assert(body[i - start] == c);
                assert(!is_ascii_digit(body[i - start]));
            }
            assert(parse_int(v@) is None);
            return None;
        }
        let d = (c as u32 - '0' as u32) as i128;
        let ghost pre = v@.subrange(start as int, i as int);
        let ghost nxt = v@.subrange(start as int, i as int + 1);
        assert(nxt.drop_last() =~= pre);
        assert(nxt.last() == c);
        proof {
            lemma_digits_value_nonneg(pre);
            assert(all_digits(nxt)) by {
                assert forall|t: int| 0 <= t < nxt.len() implies is_ascii_digit(#[trigger] nxt[t]) by {
                    if t < pre.len() {
                        assert(nxt[t] == pre[t]);
                    }
                }
            }
        }
        if acc >= PARSE_CAP {
            acc = PARSE_CAP;
            assert(digits_value(nxt) >= PARSE_CAP) by (nonlinear_arith)
                requires
                    digits_value(nxt) == digits_value(pre) * 10 + (c as int - '0' as int),
                    digits_value(pre) >= PARSE_CAP,
                    '0' <= c <= '9',
            ;
        } else {
            let next = acc * 10 + d;
            if next >= PARSE_CAP {
                acc = PARSE_CAP;
            } else {
                acc = next;
            }
        }
        i += 1;
    }
    assert(v@.subrange(start as int, n as int) =~= body);
    proof {
        lemma_digits_value_nonneg(body);
    }
    if neg {
        if acc > 0x8000_0000_0000_0000i128 {
            None
        } else {
            Some((-acc) as i64)
        }
    } else {
        if acc > 0x7fff_ffff_ffff_ffffi128 {
            None
        } else {
            Some(acc as i64)
        }
    }
}

/// Index of the first `c` in `s`, or `s.len()` if there is none.
pub open spec fn first_index_of(s: Seq<char>, c: char) -> int
    decreases s.len(),
{
    if s.len() == 0 {
        0
    } else if s[0] == c {
        0
    } else {
        1 + first_index_of(s.drop_first(), c)
    }
}

pub proof fn lemma_first_index_of(s: Seq<char>, c: char)
    ensures
        0 <= first_index_of(s, c) <= s.len(),
        forall|j: int| 0 <= j < first_index_of(s, c) ==> s[j] != c,
        first_index_of(s, c) < s.len() ==> s[first_index_of(s, c)] == c,
    decreases s.len(),
{
    if s.len() > 0 && s[0] != c {
        lemma_first_index_of(s.drop_first(), c);
        assert forall|j: int| 0 <= j < first_index_of(s, c) implies s[j] != c by {
            if j > 0 {
                assert(s[j] == s.drop_first()[j - 1]);
            }
        }
    }
}

pub proof fn lemma_first_index_of_is(s: Seq<char>, c: char, k: int)
    requires
        0 <= k <= s.len(),
        forall|j: int| 0 <= j < k ==> s[j] != c,
        k < s.len() ==> s[k] == c,
    ensures
        first_index_of(s, c) == k,
    decreases s.len(),
{
    if s.len() > 0 && s[0] != c {
        assert forall|j: int| 0 <= j < k - 1 implies s.drop_first()[j] != c by {
            assert(s.drop_first()[j] == s[j + 1]);
        }
        if k - 1 < s.drop_first().len() {
            assert(s.drop_first()[k - 1] == s[k]);
        }
        lemma_first_index_of_is(s.drop_first(), c, k - 1);
    }
}

/// `str::split` at every `c`: always at least one piece, empty pieces
/// kept.
pub open spec fn split_on(s: Seq<char>, c: char) -> Seq<Seq<char>>
    decreases s.len(),
{
    let k = first_index_of(s, c);
    proof {
        lemma_first_index_of(s, c);
    }
    if k >= s.len() {
        seq![s]
    } else {
        seq![s.take(k)] + split_on(s.skip(k + 1), c)
    }
}

/// `str::split(c)`, each piece as its own vector.
pub fn split_chars(v: &Vec<char>, c: char) -> (r: Vec<Vec<char>>)
    ensures
        views(r@) == split_on(v@, c),
{
    let n = v.len();
    let mut out: Vec<Vec<char>> = Vec::new();
    let mut start: usize = 0;
    assert(v@.skip(0) =~= v@);
    assert(views(out@) + split_on(v@.skip(0), c) =~= split_on(v@, c));
    loop
        invariant
            n == v.len(),
            0 <= start <= n,
            split_on(v@, c) == views(out@) + split_on(v@.skip(start as int), c),
        decreases n - start,
    {
        let ghost rest = v@.skip(start as int);
        let mut k: usize = start;
        while k < n && v[k] != c
            invariant
                n == v.len(),
                start <= k <= n,
                forall|j: int| start <= j < k ==> v@[j] != c,
            decreases n - k,
        {
            k += 1;
        }
        proof {
            lemma_first_index_of_is(rest, c, k - start);
        }
        let piece = slice_chars(v, start, k);
        let ghost before = views(out@);
        out.push(piece);
        assert(views(out@) =~= before.push(piece@));
        if k >= n {
            assert(rest.take(k - start) =~= rest);
            assert(split_on(rest, c) == seq![rest]);
            assert(views(out@) =~= before + split_on(rest, c));
            return out;
        }
        assert(rest.take(k - start) =~= v@.subrange(start as int, k as int));
        assert(rest.skip(k - start + 1) =~= v@.skip(k + 1));
        assert(before + split_on(rest, c) =~= views(out@) + split_on(v@.skip(k + 1), c));
        start = k + 1;
    }
}

/// Whether two character vectors are equal.
pub fn eq_chars(a: &Vec<char>, b: &Vec<char>) -> (r: bool)
    ensures
        r == (a@ == b@),
{
    if a.len() != b.len() {
        return false;
    }
    let n = a.len();
    let mut i: usize = 0;
    while i < n
        invariant
            n == a.len(),
            n == b.len(),
            0 <= i <= n,
            forall|j: int| 0 <= j < i ==> a@[j] == b@[j],
        decreases n - i,
    {
        if a[i] != b[i] {
            return false;
        }
        i += 1;
    }
    assert(a@ =~= b@);
    true
}

/// Whether the characters of `a` spell `w`.
pub fn is_word(a: &Vec<char>, w: &str) -> (r: bool)
    ensures
        r == (a@ == w@),
{
    let wc = chars_of(w);
    eq_chars(a, &wc)
}

/// `char::to_ascii_lowercase` over a whole vector.
pub fn ascii_lower_chars(v: &Vec<char>) -> (r: Vec<char>)
    ensures
        r@ == ascii_lower_seq(v@),
{
    let n = v.len();
    let mut out: Vec<char> = Vec::new();
    let mut i: usize = 0;
    while i < n
        invariant
            n == v.len(),
            0 <= i <= n,
            out@ =~= ascii_lower_seq(v@.take(i as int)),
        decreases n - i,
    {
        out.push(to_lower_ascii(v[i]));
        assert(ascii_lower_seq(v@.take(i as int + 1)) =~= ascii_lower_seq(v@.take(i as int)).push(
            ascii_lower(v@[i as int]),
        ));
        i += 1;
    }
    assert(v@.take(n as int) =~= v@);
    out
}

/// `str::to_lowercase`: Unicode lowercase mapping.
pub uninterp spec fn lowercase(s: Seq<char>) -> Seq<char>;

/// `str::to_uppercase`: Unicode uppercase mapping.
pub uninterp spec fn uppercase(s: Seq<char>) -> Seq<char>;

/// Calls `str::to_lowercase`. The Unicode case tables are the standard
/// library's; the contract names the result rather than restating them.
#[verifier::external_body]
pub(crate) fn str_to_lowercase(s: &str) -> (r: String)
    ensures
        r@ == lowercase(s@),
{
    s.to_lowercase()
}

/// Calls `str::to_uppercase`, named like [`str_to_lowercase`].
#[verifier::external_body]
pub(crate) fn str_to_uppercase(s: &str) -> (r: String)
    ensures
        r@ == uppercase(s@),
{
    s.to_uppercase()
}

/// `pieces` joined with `sep` between neighbours.
pub open spec fn join_with(pieces: Seq<Seq<char>>, sep: Seq<char>) -> Seq<char>
    decreases pieces.len(),
{
    if pieces.len() == 0 {
        Seq::empty()
    } else if pieces.len() == 1 {
        pieces[0]
    } else {
        join_with(pieces.drop_last(), sep) + sep + pieces.last()
    }
}

/// `pieces.join(sep)`.
pub fn join_chars(pieces: &Vec<Vec<char>>, sep: &Vec<char>) -> (r: Vec<char>)
    ensures
        r@ == join_with(views(pieces@), sep@),
{
    let n = pieces.len();
    let mut out: Vec<char> = Vec::new();
    let mut i: usize = 0;
    while i < n
        invariant
            n == pieces.len(),
            0 <= i <= n,
            out@ == join_with(views(pieces@).take(i as int), sep@),
        decreases n - i,
    {
        let ghost ts = views(pieces@).take(i as int + 1);
        assert(ts.drop_last() =~= views(pieces@).take(i as int));
        assert(ts.last() == pieces@[i as int]@);
        if i > 0 {
            append_chars(&mut out, sep);
        }
        append_chars(&mut out, &pieces[i]);
        proof {
            if i == 0 {
                assert(ts.len() == 1);
                assert(out@ =~= ts[0]);
            }
        }
        i += 1;
    }
    assert(views(pieces@).take(n as int) =~= views(pieces@));
    out
}

/// The non-empty pieces, in order.
pub open spec fn non_empty(pieces: Seq<Seq<char>>) -> Seq<Seq<char>> {
    pieces.filter(|p: Seq<char>| p.len() > 0)
}

pub fn keep_non_empty(pieces: Vec<Vec<char>>) -> (r: Vec<Vec<char>>)
    ensures
        views(r@) == non_empty(views(pieces@)),
{
    let ghost pred = |p: Seq<char>| p.len() > 0;
    let n = pieces.len();
    let mut out: Vec<Vec<char>> = Vec::new();
    let mut i: usize = 0;
    proof {
        reveal_with_fuel(Seq::filter, 1);
    }
    assert(views(pieces@).take(0) =~= Seq::<Seq<char>>::empty());
    while i < n
        invariant
            n == pieces.len(),
            0 <= i <= n,
            pred == (|p: Seq<char>| p.len() > 0),
            views(out@) == views(pieces@).take(i as int).filter(pred),
        decreases n - i,
    {
        let ghost sa = views(pieces@);
        let ghost before = views(out@);
        proof {
            assert(sa.take(i as int + 1) =~= sa.take(i as int).push(sa[i as int]));
            sa.take(i as int).lemma_filter_push(sa[i as int], pred);
        }
        if pieces[i].len() > 0 {
            out.push(pieces[i].clone());
            assert(views(out@) =~= before.push(sa[i as int]));
        } else {
            assert(views(out@) =~= before);
        }
        i += 1;
    }
    assert(views(pieces@).take(n as int) =~= views(pieces@));
    out
}

/// The trimmed pieces.
pub open spec fn trim_all(pieces: Seq<Seq<char>>) -> Seq<Seq<char>> {
    pieces.map_values(|p: Seq<char>| trim(p))
}

pub fn trim_each(pieces: &Vec<Vec<char>>) -> (r: Vec<Vec<char>>)
    ensures
        views(r@) == trim_all(views(pieces@)),
{
    let n = pieces.len();
    let mut out: Vec<Vec<char>> = Vec::new();
    let mut i: usize = 0;
    while i < n
        invariant
            n == pieces.len(),
            0 <= i <= n,
            views(out@) =~= trim_all(views(pieces@).take(i as int)),
        decreases n - i,
    {
        out.push(trim_chars(&pieces[i]));
        assert(trim_all(views(pieces@).take(i as int + 1)) =~= trim_all(views(pieces@).take(i as int)).push(
            trim(pieces@[i as int]@),
        ));
        i += 1;
    }
    assert(views(pieces@).take(n as int) =~= views(pieces@));
    out
}

pub fn strings_of(pieces: &Vec<Vec<char>>) -> (r: Vec<String>)
    ensures
        r@.map_values(|s: String| s@) == views(pieces@),
{
    let n = pieces.len();
    let mut out: Vec<String> = Vec::new();
    let mut i: usize = 0;
    while i < n
        invariant
            n == pieces.len(),
            0 <= i <= n,
            out.len() == i,
            out@.map_values(|s: String| s@) =~= views(pieces@).take(i as int),
        decreases n - i,
    {
        let ghost before = out@;
        let st = string_of(&pieces[i]);
        out.push(st);
        assert(out@ == before.push(st));
        assert forall|j: int| 0 <= j < i + 1 implies (#[trigger] out@[j])@ == views(pieces@)[j] by {
            if j < i {
                assert(out@[j] == before[j]);
                assert(before.map_values(|s: String| s@)[j] == views(pieces@).take(i as int)[j]);
            }
        }
        assert(out@.map_values(|s: String| s@) =~= views(pieces@).take(i as int + 1));
        i += 1;
    }
    assert(views(pieces@).take(n as int) =~= views(pieces@));
    out
}

/// `str::split` always yields at least one piece.
pub proof fn lemma_split_on_non_empty(s: Seq<char>, c: char)
    ensures
        split_on(s, c).len() >= 1,
{
    lemma_first_index_of(s, c);
}

} // verus!
