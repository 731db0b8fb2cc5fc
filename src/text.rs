//! Character-level helpers: searching, whitespace trimming and `Set-Cookie` parsing.
use vstd::prelude::*;
use vstd::string::*;

verus! {

/// Whether a character has the Unicode White_Space property.
pub open spec fn white_space(c: char) -> bool {
    let u = c as u32;
    (0x09 <= u && u <= 0x0D) || u == 0x20 || u == 0x85 || u == 0xA0 || u == 0x1680
        || (0x2000 <= u && u <= 0x200A) || u == 0x2028 || u == 0x2029 || u == 0x202F
        || u == 0x205F || u == 0x3000
}

/// Relies on char::is_whitespace: the Unicode White_Space property.
#[verifier::external_body]
fn is_white_space(c: char) -> (r: bool)
    ensures
        r == white_space(c),
{
    c.is_whitespace()
}

/// `s` without its leading whitespace.
pub open spec fn trim_start(s: Seq<char>) -> Seq<char>
    decreases s.len(),
{
    if s.len() > 0 && white_space(s[0]) {
        trim_start(s.drop_first())
    } else {
        s
    }
}

/// `s` without its trailing whitespace.
pub open spec fn trim_end(s: Seq<char>) -> Seq<char>
    decreases s.len(),
{
    if s.len() > 0 && white_space(s.last()) {
        trim_end(s.drop_last())
    } else {
        s
    }
}

/// `s` without leading and trailing whitespace.
pub open spec fn trim(s: Seq<char>) -> Seq<char> {
    trim_end(trim_start(s))
}

/// Position of the first `c` in `s`, or the length of `s` where there is none.
pub open spec fn index_of(s: Seq<char>, c: char) -> int
    decreases s.len(),
{
    if s.len() == 0 {
        0
    } else if s[0] == c {
        0
    } else {
        1 + index_of(s.drop_first(), c)
    }
}

pub proof fn lemma_index_of_bounds(s: Seq<char>, c: char)
    ensures
        0 <= index_of(s, c) <= s.len(),
        index_of(s, c) < s.len() ==> s[index_of(s, c)] == c,
    decreases s.len(),
{
    if s.len() > 0 && s[0] != c {
        lemma_index_of_bounds(s.drop_first(), c);
    }
}

/// Position of the first `c` in `s`, or the length of `s` where there is none.
pub fn find_char(s: &str, c: char) -> (r: usize)
    ensures
        r as int == index_of(s@, c),
{
    let n = s.unicode_len();
    let mut k: usize = 0;
    assert(s@.subrange(0, s@.len() as int) =~= s@);
    while k < n
        invariant
            n == s@.len(),
            k <= n,
            index_of(s@, c) == k + index_of(s@.subrange(k as int, n as int), c),
        decreases n - k,
    {
        if s.get_char(k) == c {
            return k;
        }
        assert(s@.subrange(k as int, n as int).drop_first() =~= s@.subrange(k as int + 1, n as int));
        k = k + 1;
    }
    k
}

/// Removes leading and trailing whitespace.
pub fn trim_ws(s: &str) -> (r: String)
    ensures
        r@ == trim(s@),
{
    let n = s.unicode_len();
    let mut a: usize = 0;
    assert(s@.subrange(0, n as int) =~= s@);
    while a < n && is_white_space(s.get_char(a))
        invariant
            n == s@.len(),
            a <= n,
            trim_start(s@) == trim_start(s@.subrange(a as int, n as int)),
        decreases n - a,
    {
        assert(s@.subrange(a as int, n as int).drop_first() =~= s@.subrange(a as int + 1, n as int));
        a = a + 1;
    }
    let mut b: usize = n;
    assert(s@.subrange(a as int, n as int).subrange(0, (n - a) as int) =~= s@.subrange(a as int, n as int));
    while b > a && is_white_space(s.get_char(b - 1))
        invariant
            n == s@.len(),
            a <= b <= n,
            trim_start(s@) == s@.subrange(a as int, n as int),
            trim(s@) == trim_end(s@.subrange(a as int, b as int)),
        decreases b - a,
    {
        assert(s@.subrange(a as int, b as int).drop_last() =~= s@.subrange(a as int, b as int - 1));
        b = b - 1;
    }
    s.substring_char(a, b).to_string()
}

/// The cookie that one `Set-Cookie` value sets: the name is what stands before
/// the first `=`, the value what follows it up to the first `;`, both trimmed.
/// A value without `=` sets none.
pub open spec fn set_cookie_pair(v: Seq<char>) -> Option<(Seq<char>, Seq<char>)> {
    let i = index_of(v, '=');
    if i >= v.len() {
        None
    } else {
        let rest = v.subrange(i + 1, v.len() as int);
        Some((trim(v.subrange(0, i)), trim(rest.subrange(0, index_of(rest, ';')))))
    }
}

/// Reads the cookie name and value out of one `Set-Cookie` header value.
pub fn parse_set_cookie(v: &str) -> (r: Option<(String, String)>)
    ensures
        r matches Some(p) ==> set_cookie_pair(v@) == Some((p.0@, p.1@)),
        r is None ==> set_cookie_pair(v@) is None,
{
    let n = v.unicode_len();
    let i = find_char(v, '=');
    proof {
        lemma_index_of_bounds(v@, '=');
    }
    if i >= n {
        return None;
    }
    let name = trim_ws(v.substring_char(0, i));
    let rest = v.substring_char(i + 1, n);
    let j = find_char(rest, ';');
    proof {
        lemma_index_of_bounds(rest@, ';');
    }
    let value = trim_ws(rest.substring_char(0, j));
    Some((name, value))
}

} // verus!
