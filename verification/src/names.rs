//! QCash file names and short menu answers.
use vstd::prelude::*;
use crate::chars::{chars_of, string_from_range, trim, trim_bounds};

verus! {

/// The index of the last `/` in `s`, or `-1`.
pub open spec fn last_slash(s: Seq<char>) -> int
    decreases s.len(),
{
    if s.len() == 0 {
        -1
    } else if s.last() == '/' {
        s.len() - 1
    } else {
        last_slash(s.drop_last())
    }
}

/// The last normal component of the Unix path `s` (std's `Path::file_name`):
/// empty and `.` components are skipped; a final `..`, or no component at
/// all, gives `None`.
pub open spec fn file_name(s: Seq<char>) -> Option<Seq<char>>
    decreases s.len(),
{
    let j = last_slash(s);
    let seg = s.skip(j + 1);
    if seg.len() == 0 || seg == seq!['.'] {
        if j < 0 {
            None
        } else {
            proof {
                lemma_last_slash(s);
            }
            file_name(s.take(j))
        }
    } else if seg == seq!['.', '.'] {
        None
    } else {
        Some(seg)
    }
}

pub proof fn lemma_last_slash(s: Seq<char>)
    ensures
        -1 <= last_slash(s) < s.len(),
        last_slash(s) >= 0 ==> s[last_slash(s)] == '/',
        forall|k: int| last_slash(s) < k < s.len() ==> s[k] != '/',
    decreases s.len(),
{
    if s.len() > 0 && s.last() != '/' {
        lemma_last_slash(s.drop_last());
        assert forall|k: int| last_slash(s) < k < s.len() implies s[k] != '/' by {
            if k < s.len() - 1 {
                assert(s[k] == s.drop_last()[k]);
            }
        }
    }
}

proof fn lemma_last_slash_at(s: Seq<char>, j: int)
    requires
        -1 <= j < s.len(),
        j >= 0 ==> s[j] == '/',
        forall|k: int| j < k < s.len() ==> s[k] != '/',
    ensures
        last_slash(s) == j,
    decreases s.len(),
{
    if s.len() > 0 && j < s.len() - 1 {
        assert forall|k: int| j < k < s.drop_last().len() implies s.drop_last()[k] != '/' by {
            assert(s.drop_last()[k] == s[k]);
        }
        lemma_last_slash_at(s.drop_last(), j);
    }
}

/// The bounds in `v` of `file_name(v)`, if there is one.
pub fn file_name_bounds(v: &[char]) -> (r: Option<(usize, usize)>)
    ensures
        match file_name(v@) {
            Some(n) => r is Some && r->Some_0.0 <= r->Some_0.1 <= v@.len() && v@.subrange(
                r->Some_0.0 as int,
                r->Some_0.1 as int,
            ) == n,
            None => r is None,
        },
{
    let mut e = v.len();
    assert(v@.take(e as int) =~= v@);
    loop
        invariant
            e <= v@.len(),
            file_name(v@) == file_name(v@.take(e as int)),
        decreases e,
    {
        let ghost s = v@.take(e as int);
        // find the last '/' before e
        let mut k = e;
        while k > 0 && v[k - 1] != '/'
            invariant
                k <= e <= v@.len(),
                forall|m: int| k <= m < e ==> v@[m] != '/',
            decreases k,
        {
            k = k - 1;
        }
        let ghost j: int = k - 1;
        proof {
            assert forall|m: int| j < m < s.len() implies s[m] != '/' by {
                assert(s[m] == v@[m]);
            }
            lemma_last_slash_at(s, j);
        }
        let seg_len = e - k;
        assert(s.skip(j + 1) =~= v@.subrange(k as int, e as int));
        let is_dot = seg_len == 1 && v[k] == '.';
        let is_dotdot = seg_len == 2 && v[k] == '.' && v[k + 1] == '.';
        proof {
            let seg = v@.subrange(k as int, e as int);
            if seg == seq!['.'] {
                assert(seg[0] == '.');
            }
            if seg == seq!['.', '.'] {
                assert(seg[0] == '.' && seg[1] == '.');
            }
            if is_dot {
                assert(seg =~= seq!['.']);
            }
            if is_dotdot {
                assert(seg =~= seq!['.', '.']);
            }
        }
        if seg_len == 0 || is_dot {
            if k == 0 {
                return None;
            }
            assert(s.take(j) =~= v@.take(j));
            e = k - 1;
        } else if is_dotdot {
            return None;
        } else {
            return Some((k, e));
        }
    }
}

/// Whether `c` may stand in a QCash lookup name: ASCII letters and digits, `_`, `.`, `-`.
pub open spec fn lookup_char(c: char) -> bool {
    ||| ('a' <= c && c <= 'z')
    ||| ('A' <= c && c <= 'Z')
    ||| ('0' <= c && c <= '9')
    ||| c == '_'
    ||| c == '.'
    ||| c == '-'
}

/// Whether every character of `s` satisfies `lookup_char`.
pub open spec fn all_lookup_chars(s: Seq<char>) -> bool {
    forall|i: int| 0 <= i < s.len() ==> #[trigger] lookup_char(s[i])
}

/// Why a QCash lookup name is refused.
#[derive(Clone, Copy, Debug, PartialEq, Eq, Structural)]
pub enum LookupError {
    /// Nothing is left once the directories and white space are removed.
    Required,
    /// The name holds a character other than those of `lookup_char`.
    UnsupportedCharacters,
    /// The name is `.` or `..`, a path segment rather than a file name.
    DotSegment,
}

/// Whether `name` is the path segment `.` or `..`.
pub open spec fn is_dot_segment(name: Seq<char>) -> bool {
    name == seq!['.'] || name == seq!['.', '.']
}

/// The name under which the explorer is asked about a QCash file: the file
/// name of `value` (or `value` itself when it has none), without surrounding
/// white space, made only of `lookup_char` characters, and not `.` or `..`
/// (the name goes into the explorer's URL path).
pub open spec fn lookup_name(value: Seq<char>) -> Result<Seq<char>, LookupError> {
    let base = match file_name(value) {
        Some(n) => n,
        None => value,
    };
    let name = trim(base);
    if name.len() == 0 {
        Err(LookupError::Required)
    } else if !all_lookup_chars(name) {
        Err(LookupError::UnsupportedCharacters)
    } else if is_dot_segment(name) {
        Err(LookupError::DotSegment)
    } else {
        Ok(name)
    }
}

/// The QCash lookup name for a file path or short coin id; see `lookup_name`.
pub fn qcash_lookup_name(value: &str) -> (r: Result<String, LookupError>)
    ensures
        match lookup_name(value@) {
            Ok(n) => r is Ok && r->Ok_0@ == n,
            Err(e) => r == Err::<String, LookupError>(e),
        },
{
    let v = chars_of(value);
    let (from, to) = match file_name_bounds(&v) {
        Some(b) => b,
        None => {
            assert(v@.subrange(0, v@.len() as int) =~= v@);
            (0, v.len())
        },
    };
    let (start, end) = trim_bounds(&v, from, to);
    if start == end {
        return Err(LookupError::Required);
    }
    let ghost name = v@.subrange(start as int, end as int);
    assert(name == trim(
        match file_name(value@) {
            Some(n) => n,
            None => value@,
        },
    ));
    let mut i = start;
    while i < end
        invariant
            start <= i <= end <= v@.len(),
            name.len() > 0,
            name == trim(
                match file_name(value@) {
                    Some(n) => n,
                    None => value@,
                },
            ),
            name == v@.subrange(start as int, end as int),
            forall|k: int| 0 <= k < i - start ==> #[trigger] lookup_char(name[k]),
        decreases end - i,
    {
        let c = v[i];
        let ok = ('a' <= c && c <= 'z') || ('A' <= c && c <= 'Z') || ('0' <= c && c <= '9') || c
            == '_' || c == '.' || c == '-';
        assert(name[i - start] == c);
        if !ok {
            assert(!lookup_char(name[i - start]));
            return Err(LookupError::UnsupportedCharacters);
        }
        i = i + 1;
    }
    let n = end - start;
    if (n == 1 && v[start] == '.') || (n == 2 && v[start] == '.' && v[start + 1] == '.') {
        assert(is_dot_segment(name)) by {
            if n == 1 {
                assert(name =~= seq!['.']);
            } else {
                assert(name =~= seq!['.', '.']);
            }
        }
        return Err(LookupError::DotSegment);
    }
    assert(!is_dot_segment(name)) by {
        if name == seq!['.'] {
            assert(name[0] == v@[start as int]);
        }
        if name == seq!['.', '.'] {
            assert(name[0] == v@[start as int]);
            assert(name[1] == v@[start + 1]);
        }
    }
    Ok(string_from_range(&v, start, end))
}

/// Whether `name` ends with `.XPQ`.
pub open spec fn has_cash_suffix(name: Seq<char>) -> bool {
    name.len() >= 4 && name.skip(name.len() - 4) == seq!['.', 'X', 'P', 'Q']
}

/// The lifecycle that a file in a cash directory has on disk: `"ready"` for
/// a file named `*.XPQ`, none for anything else.
pub fn cash_lifecycle(path: &str) -> (r: Option<&'static str>)
    ensures
        r is Some <==> (file_name(path@) matches Some(n) && has_cash_suffix(n)),
        r matches Some(l) ==> l@ == "ready"@,
{
    let v = chars_of(path);
    match file_name_bounds(&v) {
        None => None,
        Some((from, to)) => {
            let ghost n = v@.subrange(from as int, to as int);
            if to - from >= 4 && v[to - 4] == '.' && v[to - 3] == 'X' && v[to - 2] == 'P' && v[to
                - 1] == 'Q' {
                assert(n.skip(n.len() - 4) =~= seq!['.', 'X', 'P', 'Q']);
                Some("ready")
            } else {
                proof {
                    if has_cash_suffix(n) {
                        assert(n.skip(n.len() - 4)[0] == '.');
                        assert(n.skip(n.len() - 4)[1] == 'X');
                        assert(n.skip(n.len() - 4)[2] == 'P');
                        assert(n.skip(n.len() - 4)[3] == 'Q');
                    }
                }
                None
            }
        },
    }
}

/// `c` with ASCII capitals made small (std's `to_ascii_lowercase`).
pub open spec fn ascii_lower(c: char) -> char {
    if 'A' <= c && c <= 'Z' {
        ((c as u32) + 32) as char
    } else {
        c
    }
}

/// Whether a prompt answer asks to go back: `b` or `back`, in any ASCII case,
/// with white space around it allowed.
pub open spec fn back_answer(value: Seq<char>) -> bool {
    let t = trim(value);
    ||| (t.len() == 1 && ascii_lower(t[0]) == 'b')
    ||| (t.len() == 4 && ascii_lower(t[0]) == 'b' && ascii_lower(t[1]) == 'a' && ascii_lower(t[2])
        == 'c' && ascii_lower(t[3]) == 'k')
}

/// Whether `value` asks to go back to the menu; see `back_answer`.
pub fn is_back(value: &str) -> (r: bool)
    ensures
        r == back_answer(value@),
{
    let v = chars_of(value);
    let (start, end) = trim_bounds(&v, 0, v.len());
    assert(v@.subrange(0, v@.len() as int) =~= value@);
    let ghost t = v@.subrange(start as int, end as int);
    let n = end - start;
    if n == 1 {
        assert(t[0] == v@[start as int]);
        is_lower(v[start], 'b')
    } else if n == 4 {
        assert(t[0] == v@[start as int]);
        assert(t[1] == v@[start + 1]);
        assert(t[2] == v@[start + 2]);
        assert(t[3] == v@[start + 3]);
        is_lower(v[start], 'b') && is_lower(v[start + 1], 'a') && is_lower(v[start + 2], 'c')
            && is_lower(v[start + 3], 'k')
    } else {
        false
    }
}

/// Whether `ascii_lower(c) == lower` for a small ASCII letter `lower`.
fn is_lower(c: char, lower: char) -> (r: bool)
    requires
        'a' <= lower && lower <= 'z',
    ensures
        r == (ascii_lower(c) == lower),
{
    if 'A' <= c && c <= 'Z' {
        let u = c as u32 + 32;
        assert(u == ascii_lower(c) as u32);
        u == lower as u32
    } else {
        c == lower
    }
}

} // verus!
