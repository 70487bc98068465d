//! Framing of the node's HTTP/1.1 responses: when a response is complete,
//! and where its body starts.
use vstd::prelude::*;
use vstd::utf8::{decode_utf8, valid_utf8};
use crate::chars::{chars_of, string_from_range, trim, trim_bounds};
use crate::decimal::{parse_unsigned, parse_unsigned_range};
use crate::names::ascii_lower;

verus! {

#[verifier::external_type_specification]
#[verifier::external_body]
pub struct ExUtf8Error(std::str::Utf8Error);

/// The text of `bytes` when they are UTF-8 (std's `std::str::from_utf8`).
#[verifier::external_body]
pub fn utf8_text(bytes: &[u8]) -> (r: Result<&str, std::str::Utf8Error>)
    ensures
        r is Ok <==> valid_utf8(bytes@),
        r matches Ok(s) ==> s@ == decode_utf8(bytes@),
{
    std::str::from_utf8(bytes)
}

/// The index of the first place where `p` (of length 4) occurs in `s`, or `-1`.
pub open spec fn find_four<A>(s: Seq<A>, p: Seq<A>) -> int
    decreases s.len(),
{
    if s.len() < 4 {
        -1
    } else if s.take(4) == p {
        0
    } else {
        let r = find_four(s.drop_first(), p);
        if r < 0 {
            -1
        } else {
            r + 1
        }
    }
}

/// The four items of `s` from index `k` on.
pub open spec fn window4<A>(s: Seq<A>, k: int) -> Seq<A> {
    s.subrange(k, k + 4)
}

/// The blank line that ends the HTTP headers, as bytes.
pub open spec fn crlfcrlf_bytes() -> Seq<u8> {
    seq![13u8, 10u8, 13u8, 10u8]
}

/// The blank line that ends the HTTP headers, as characters.
pub open spec fn crlfcrlf_chars() -> Seq<char> {
    seq!['\r', '\n', '\r', '\n']
}

/// `s` without one trailing `'\r'`.
pub open spec fn strip_cr(s: Seq<char>) -> Seq<char> {
    if s.len() > 0 && s.last() == '\r' {
        s.drop_last()
    } else {
        s
    }
}

/// Whether `name` is `content-length` in any ASCII case (std's `eq_ignore_ascii_case`).
pub open spec fn is_content_length_name(name: Seq<char>) -> bool {
    name.len() == 14 && (forall|i: int|
        0 <= i < 14 ==> #[trigger] ascii_lower(name[i]) == "content-length"@[i])
}

/// The value of a `Content-Length: n` header line: the name before the first
/// `:` in any ASCII case, the value after it a `usize` once trimmed.
pub open spec fn content_length_of(line: Seq<char>) -> Option<nat> {
    let i = crate::amount::find_char(line, ':');
    if i >= line.len() {
        None
    } else if !is_content_length_name(line.take(i)) {
        None
    } else {
        match parse_unsigned(trim(line.skip(i + 1)), usize::MAX as nat) {
            Ok(n) => Some(n),
            Err(_) => None,
        }
    }
}

/// The content length of the first header line (std's `str::lines`) that gives one.
pub open spec fn first_content_length(s: Seq<char>) -> Option<nat>
    decreases s.len(),
{
    if s.len() == 0 {
        None
    } else {
        let i = crate::amount::find_char(s, '\n');
        let line = if i < s.len() { strip_cr(s.take(i)) } else { s };
        match content_length_of(line) {
            Some(n) => Some(n),
            None => if i < s.len() {
                proof {
                    crate::amount::lemma_find_char(s, '\n');
                }
                first_content_length(s.skip(i + 1))
            } else {
                None
            },
        }
    }
}

/// Whether the response bytes received so far hold the whole response: the
/// headers have ended and as many body bytes as their `Content-Length` says
/// have arrived. Headers that are not UTF-8 are an error.
pub open spec fn response_complete(response: Seq<u8>) -> Option<bool> {
    let h = find_four(response, crlfcrlf_bytes());
    if h < 0 {
        Some(false)
    } else if !valid_utf8(response.take(h)) {
        None
    } else {
        match first_content_length(decode_utf8(response.take(h))) {
            None => Some(false),
            Some(n) => Some(response.len() >= h + 4 + n),
        }
    }
}

pub proof fn lemma_find_four<A>(s: Seq<A>, p: Seq<A>)
    ensures
        -1 <= find_four(s, p) <= s.len() - 4 || find_four(s, p) == -1,
        find_four(s, p) >= 0 ==> s.subrange(find_four(s, p), find_four(s, p) + 4) == p,
        forall|k: int|
            0 <= k < (if find_four(s, p) < 0 { s.len() - 3 } else { find_four(s, p) }) ==> #[trigger] window4(s, k) != p,
    decreases s.len(),
{
    if s.len() >= 4 && s.take(4) != p {
        lemma_find_four(s.drop_first(), p);
        let r = find_four(s.drop_first(), p);
        if r >= 0 {
            assert(s.drop_first().subrange(r, r + 4) =~= s.subrange(r + 1, r + 5));
        }
        assert forall|k: int|
            0 <= k < (if find_four(s, p) < 0 { s.len() - 3 } else { find_four(s, p) }) implies #[trigger] window4(s, k) != p by {
            if k == 0 {
                assert(s.subrange(0, 4) =~= s.take(4));
            } else {
                assert(window4(s.drop_first(), k - 1) =~= window4(s, k));
            }
        }
    } else if s.len() >= 4 {
        assert(s.subrange(0, 4) =~= s.take(4));
    }
}

/// The index of the first `"\r\n\r\n"` in `v`.
fn find_blank_line_bytes(v: &[u8]) -> (r: Option<usize>)
    ensures
        match r {
            Some(h) => find_four(v@, crlfcrlf_bytes()) == h,
            None => find_four(v@, crlfcrlf_bytes()) < 0,
        },
{
    let ghost p = crlfcrlf_bytes();
    proof {
        lemma_find_four(v@, p);
    }
    if v.len() < 4 {
        return None;
    }
    let mut i: usize = 0;
    while i < v.len() - 3
        invariant
            v@.len() >= 4,
            i <= v@.len() - 3,
            forall|k: int| 0 <= k < i ==> #[trigger] window4(v@, k) != p,
            p == crlfcrlf_bytes(),
        decreases v.len() - i,
    {
        if v[i] == 13 && v[i + 1] == 10 && v[i + 2] == 13 && v[i + 3] == 10 {
            assert(v@.subrange(i as int, i + 4) =~= p);
            proof {
                lemma_find_four_at(v@, p, i as int);
            }
            return Some(i);
        }
        assert(window4(v@, i as int) != p) by {
            if v@.subrange(i as int, i + 4) == p {
                assert(v@.subrange(i as int, i + 4)[0] == v@[i as int]);
                assert(v@.subrange(i as int, i + 4)[1] == v@[i + 1]);
                assert(v@.subrange(i as int, i + 4)[2] == v@[i + 2]);
                assert(v@.subrange(i as int, i + 4)[3] == v@[i + 3]);
            }
        }
        i = i + 1;
    }
    proof {
        lemma_find_four_none(v@, p);
    }
    None
}

pub proof fn lemma_find_four_at<A>(s: Seq<A>, p: Seq<A>, i: int)
    requires
        0 <= i,
        i + 4 <= s.len(),
        s.subrange(i, i + 4) == p,
        forall|k: int| 0 <= k < i ==> #[trigger] window4(s, k) != p,
    ensures
        find_four(s, p) == i,
    decreases s.len(),
{
    if i == 0 {
        assert(s.take(4) =~= s.subrange(0, 4));
    } else {
        assert(s.take(4) =~= s.subrange(0, 4));
        assert(window4(s, 0) != p);
        assert forall|k: int| 0 <= k < i - 1 implies #[trigger] window4(s.drop_first(), k) != p by {
            assert(window4(s.drop_first(), k) =~= window4(s, k + 1));
        }
        assert(s.drop_first().subrange(i - 1, i + 3) =~= s.subrange(i, i + 4));
        lemma_find_four_at(s.drop_first(), p, i - 1);
    }
}

proof fn lemma_find_four_none<A>(s: Seq<A>, p: Seq<A>)
    requires
        forall|k: int| 0 <= k && k + 4 <= s.len() ==> #[trigger] window4(s, k) != p,
    ensures
        find_four(s, p) < 0,
    decreases s.len(),
{
    if s.len() >= 4 {
        assert(s.take(4) =~= s.subrange(0, 4));
        assert(window4(s, 0) != p);
        assert forall|k: int| 0 <= k && k + 4 <= s.drop_first().len() implies #[trigger] window4(
            s.drop_first(),
            k,
        ) != p by {
            assert(window4(s.drop_first(), k) =~= window4(s, k + 1));
        }
        lemma_find_four_none(s.drop_first(), p);
    }
}

/// `ascii_lower(c)`.
pub fn ascii_lower_char(c: char) -> (r: char)
    ensures
        r == ascii_lower(c),
{
    if 'A' <= c && c <= 'Z' {
        let r = ((c as u8) + 32) as char;
        r
    } else {
        c
    }
}

/// The characters of `content-length`.
fn content_length_word() -> (w: Vec<char>)
    ensures
        w@ == "content-length"@,
{
    let w = vec!['c', 'o', 'n', 't', 'e', 'n', 't', '-', 'l', 'e', 'n', 'g', 't', 'h'];
    proof {
        reveal_strlit("content-length");
    }
    assert(w@ =~= "content-length"@);
    w
}

/// `content_length_of(v[from..to])`.
#[verifier::loop_isolation(false)]
fn content_length_range(v: &[char], from: usize, to: usize) -> (r: Option<usize>)
    requires
        from <= to <= v@.len(),
    ensures
        match content_length_of(v@.subrange(from as int, to as int)) {
            Some(n) => r == Some(n as usize),
            None => r is None,
        },
{
    let ghost line = v@.subrange(from as int, to as int);
    let colon = crate::amount::find_char_range(v, from, to, ':');
    if colon == to {
        return None;
    }
    let ghost i = colon - from;
    assert(line.take(i) =~= v@.subrange(from as int, colon as int));
    assert(line.skip(i + 1) =~= v@.subrange(colon + 1, to as int));
    let word = content_length_word();
    proof {
        reveal_strlit("content-length");
    }
    if colon - from != 14 {
        return None;
    }
    let mut k: usize = 0;
    while k < 14
        invariant
            k <= 14,
            colon - from == 14,
            from <= colon < to <= v@.len(),
            word@ == "content-length"@,
            word@.len() == 14,
            forall|m: int| 0 <= m < k ==> #[trigger] ascii_lower(v@[from + m]) == "content-length"@[m],
        decreases 14 - k,
    {
        if ascii_lower_char(v[from + k]) != word[k] {
            assert(line.take(i)[k as int] == v@[from + k]);
            assert(ascii_lower(line.take(i)[k as int]) != "content-length"@[k as int]);
            return None;
        }
        k = k + 1;
    }
    assert(is_content_length_name(line.take(i))) by {
        assert forall|m: int| 0 <= m < 14 implies #[trigger] ascii_lower(line.take(i)[m])
            == "content-length"@[m] by {
            assert(line.take(i)[m] == v@[from + m]);
        }
    }
    let (start, end) = trim_bounds(v, colon + 1, to);
    match parse_unsigned_range(v, start, end, usize::MAX as u64) {
        Ok(n) => Some(n as usize),
        Err(_) => None,
    }
}

/// `first_content_length(v[from..])`.
fn first_content_length_range(v: &[char], from: usize) -> (r: Option<usize>)
    requires
        from <= v@.len(),
    ensures
        match first_content_length(v@.subrange(from as int, v@.len() as int)) {
            Some(n) => r == Some(n as usize),
            None => r is None,
        },
{
    let n = v.len();
    let mut pos = from;
    loop
        invariant
            from <= pos <= n == v@.len(),
            first_content_length(v@.subrange(from as int, n as int)) == first_content_length(
                v@.subrange(pos as int, n as int),
            ),
        decreases n - pos,
    {
        let ghost s = v@.subrange(pos as int, n as int);
        if pos == n {
            return None;
        }
        let nl = crate::amount::find_char_range(v, pos, n, '\n');
        let ghost i = nl - pos;
        let line_end = if nl < n && nl > pos && v[nl - 1] == '\r' { nl - 1 } else { nl };
        proof {
            if nl < n {
                assert(s.take(i) =~= v@.subrange(pos as int, nl as int));
                if nl > pos {
                    assert(s.take(i).last() == v@[nl - 1]);
                    assert(s.take(i).drop_last() =~= v@.subrange(pos as int, nl - 1));
                }
            } else {
                assert(s =~= v@.subrange(pos as int, nl as int));
            }
            assert(v@.subrange(pos as int, line_end as int) == (if i < s.len() {
                strip_cr(s.take(i))
            } else {
                s
            }));
        }
        match content_length_range(v, pos, line_end) {
            Some(cl) => {
                return Some(cl);
            },
            None => {
                if nl == n {
                    return None;
                }
                assert(s.skip(i + 1) =~= v@.subrange(nl + 1, n as int));
                pos = nl + 1;
            },
        }
    }
}

/// The length that a `Content-Length` header line announces; see `content_length_of`.
pub fn content_length(line: &str) -> (r: Option<usize>)
    ensures
        match content_length_of(line@) {
            Some(n) => r == Some(n as usize),
            None => r is None,
        },
{
    let v = chars_of(line);
    assert(v@.subrange(0, v@.len() as int) =~= line@);
    content_length_range(&v, 0, v.len())
}

/// Why the response framing could not be read.
pub enum FramingError {
    /// The header bytes are not UTF-8.
    HeadersNotUtf8(std::str::Utf8Error),
}

/// A content length read from the headers fits a `usize`.
pub proof fn lemma_first_content_length_bound(s: Seq<char>)
    ensures
        first_content_length(s) matches Some(n) ==> n <= usize::MAX,
    decreases s.len(),
{
    if s.len() > 0 {
        let i = crate::amount::find_char(s, '\n');
        crate::amount::lemma_find_char(s, '\n');
        let line = if i < s.len() { strip_cr(s.take(i)) } else { s };
        let j = crate::amount::find_char(line, ':');
        if j < line.len() {
            crate::decimal::lemma_parse_unsigned_bound(trim(line.skip(j + 1)), usize::MAX as nat);
        }
        if i < s.len() {
            lemma_first_content_length_bound(s.skip(i + 1));
        }
    }
}

/// Whether `response` holds a whole HTTP response; see `response_complete`.
pub fn response_body_complete(response: &[u8]) -> (r: Result<bool, FramingError>)
    ensures
        match response_complete(response@) {
            Some(b) => r == Ok::<bool, FramingError>(b),
            None => r is Err,
        },
{
    let total = response.len();
    let h = match find_blank_line_bytes(response) {
        None => {
            return Ok(false);
        },
        Some(h) => h,
    };
    proof {
        lemma_find_four(response@, crlfcrlf_bytes());
    }
    let head = slice_prefix(response, h);
    let headers = match utf8_text(head) {
        Ok(t) => t,
        Err(e) => {
            return Err(FramingError::HeadersNotUtf8(e));
        },
    };
    let v = chars_of(headers);
    assert(v@.subrange(0, v@.len() as int) =~= v@);
    proof {
        lemma_first_content_length_bound(v@);
    }
    assert(v@ == decode_utf8(response@.take(h as int)));
    assert(find_four(response@, crlfcrlf_bytes()) == h);
    match first_content_length_range(&v, 0) {
        None => Ok(false),
        Some(cl) => {
            assert(first_content_length(v@) == Some(cl as nat));
            // The whole response cannot be longer than `usize::MAX` bytes.
            match h.checked_add(4) {
                None => Ok(false),
                Some(hh) => match hh.checked_add(cl) {
                    None => Ok(false),
                    Some(need) => Ok(total >= need),
                },
            }
        },
    }
}

/// The first `n` items of `s` (std's `&s[..n]`).
fn slice_prefix<'a>(s: &'a [u8], n: usize) -> (r: &'a [u8])
    requires
        n <= s@.len(),
    ensures
        r@ == s@.take(n as int),
{
    let (a, _b) = s.split_at(n);
    assert(a@ =~= s@.take(n as int));
    a
}

/// The text of a whole HTTP response: everything after the first blank line,
/// or all of it when there is none.
pub open spec fn response_body(text: Seq<char>) -> Seq<char> {
    let h = find_four(text, crlfcrlf_chars());
    if h < 0 {
        text
    } else {
        text.skip(h + 4)
    }
}

/// The body of a whole HTTP response, which must be UTF-8; see `response_body`.
#[verifier::loop_isolation(false)]
pub fn http_response_body(response: &[u8]) -> (r: Result<String, std::str::Utf8Error>)
    ensures
        r is Ok <==> valid_utf8(response@),
        r matches Ok(b) ==> b@ == response_body(decode_utf8(response@)),
{
    let text = match utf8_text(response) {
        Ok(t) => t,
        Err(e) => {
            return Err(e);
        },
    };
    let v = chars_of(text);
    let ghost p = crlfcrlf_chars();
    proof {
        lemma_find_four(v@, p);
    }
    let mut i: usize = 0;
    if v.len() >= 4 {
        while i < v.len() - 3
            invariant
                v@.len() >= 4,
                i <= v@.len() - 3,
                forall|k: int| 0 <= k < i ==> #[trigger] window4(v@, k) != p,
                p == crlfcrlf_chars(),
            decreases v.len() - i,
        {
            if v[i] == '\r' && v[i + 1] == '\n' && v[i + 2] == '\r' && v[i + 3] == '\n' {
                assert(v@.subrange(i as int, i + 4) =~= p);
                proof {
                    lemma_find_four_at(v@, p, i as int);
                }
                return Ok(string_from_range(&v, i + 4, v.len()));
            }
            assert(window4(v@, i as int) != p) by {
                if window4(v@, i as int) == p {
                    assert(window4(v@, i as int)[0] == v@[i as int]);
                    assert(window4(v@, i as int)[1] == v@[i + 1]);
                    assert(window4(v@, i as int)[2] == v@[i + 2]);
                    assert(window4(v@, i as int)[3] == v@[i + 3]);
                }
            }
            i = i + 1;
        }
    }
    proof {
        lemma_find_four_none(v@, p);
    }
    Ok(string_from_range(&v, 0, v.len()))
}

} // verus!
