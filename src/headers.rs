//! Header name and value validation, and name→value lists with last-write-wins lookup.
use vstd::prelude::*;

verus! {

/// A token character of an HTTP header name.
pub open spec fn is_token_char(c: char) -> bool {
    ('a' <= c && c <= 'z') || ('A' <= c && c <= 'Z') || ('0' <= c && c <= '9') || c == '!'
        || c == '#' || c == '$' || c == '%' || c == '&' || c == '\'' || c == '*' || c == '+'
        || c == '-' || c == '.' || c == '^' || c == '_' || c == '`' || c == '|' || c == '~'
}

/// Longest header name that is accepted.
pub const MAX_HEADER_NAME_LEN: usize = 65535;

/// A header name is a non-empty run of token characters of bounded length.
pub open spec fn header_name_valid(s: Seq<char>) -> bool {
    0 < s.len() <= MAX_HEADER_NAME_LEN && forall|i: int| 0 <= i < s.len() ==> is_token_char(#[trigger] s[i])
}

pub open spec fn lower_char(c: char) -> char {
    if 'A' <= c && c <= 'Z' {
        ((c as u32) + 32) as char
    } else {
        c
    }
}

/// Header names compare case-insensitively: they are kept in lower case.
pub open spec fn lower_name(s: Seq<char>) -> Seq<char> {
    s.map_values(|c: char| lower_char(c))
}

/// A character that may stand in a header value: any but the ASCII controls, tab excepted.
pub open spec fn is_value_char(c: char) -> bool {
    c == '\t' || (32 <= (c as u32) && (c as u32) != 127)
}

pub open spec fn header_value_valid(s: Seq<char>) -> bool {
    forall|i: int| 0 <= i < s.len() ==> is_value_char(#[trigger] s[i])
}

/// Relies on http::HeaderName::from_bytes, which accepts exactly the non-empty
/// token strings of at most 65535 bytes and normalises them to lower case.
#[verifier::external_body]
fn header_name_from(k: &str) -> (r: Option<String>)
    ensures
        header_name_valid(k@) ==> r is Some && r->0@ == lower_name(k@),
        !header_name_valid(k@) ==> r is None,
{
    http::header::HeaderName::from_bytes(k.as_bytes()).ok().map(|n| n.as_str().to_string())
}

/// Relies on http::HeaderValue::from_str, which refuses a value exactly when one
/// of its bytes is an ASCII control other than tab.
#[verifier::external_body]
pub(crate) fn header_value_accepts(v: &str) -> (r: bool)
    ensures
        r == header_value_valid(v@),
{
    http::header::HeaderValue::from_str(v).is_ok()
}

/// The entries of `h` that survive validation, names in lower case, in order.
pub open spec fn valid_headers(h: Seq<(String, String)>) -> Seq<(Seq<char>, Seq<char>)>
    decreases h.len(),
{
    if h.len() == 0 {
        Seq::empty()
    } else {
        let rest = valid_headers(h.drop_last());
        let (k, v) = h.last();
        if header_name_valid(k@) && header_value_valid(v@) {
            rest.push((lower_name(k@), v@))
        } else {
            rest
        }
    }
}

/// A malformed entry, wherever it stands in a header list, contributes nothing:
/// the validated list is the same as if it had never been given.
pub proof fn lemma_malformed_header_dropped(a: Seq<(String, String)>, e: (String, String), b: Seq<(String, String)>)
    requires
        !(header_name_valid(e.0@) && header_value_valid(e.1@)),
    ensures
        valid_headers(a.push(e) + b) == valid_headers(a + b),
    decreases b.len(),
{
    if b.len() == 0 {
        assert(a.push(e) + b =~= a.push(e));
        assert(a + b =~= a);
        assert(a.push(e).drop_last() =~= a);
    } else {
        lemma_malformed_header_dropped(a, e, b.drop_last());
        assert((a.push(e) + b).drop_last() =~= a.push(e) + b.drop_last());
        assert((a + b).drop_last() =~= a + b.drop_last());
        assert((a.push(e) + b).last() == b.last());
        assert((a + b).last() == b.last());
    }
}

/// The view of a list of string pairs as a sequence of character-sequence pairs.
pub open spec fn pairs_view(p: Seq<(String, String)>) -> Seq<(Seq<char>, Seq<char>)> {
    p.map_values(|e: (String, String)| (e.0@, e.1@))
}

/// Keeps the entries whose name and value are valid, the name normalised to lower
/// case; a malformed entry is dropped silently.
pub fn filter_headers(h: &Vec<(String, String)>) -> (r: Vec<(String, String)>)
    ensures
        pairs_view(r@) == valid_headers(h@),
{
    let mut out: Vec<(String, String)> = Vec::new();
    let mut i: usize = 0;
    while i < h.len()
        invariant
            i <= h@.len(),
            pairs_view(out@) == valid_headers(h@.subrange(0, i as int)),
        decreases h@.len() - i,
    {
        let k = &h[i].0;
        let v = &h[i].1;
        let name = header_name_from(k.as_str());
        let ok_value = header_value_accepts(v.as_str());
        proof {
            let s = h@.subrange(0, i as int + 1);
            assert(s.drop_last() =~= h@.subrange(0, i as int));
        }
        match name {
            Some(n) => {
                if ok_value {
                    out.push((n, v.clone()));
                    assert(pairs_view(out@) =~= valid_headers(h@.subrange(0, i as int + 1)));
                }
            },
            None => {},
        }
        i = i + 1;
    }
    assert(h@.subrange(0, h@.len() as int) =~= h@);
    out
}

/// Copies a list of string pairs entry by entry.
pub fn copy_pairs(p: &Vec<(String, String)>) -> (r: Vec<(String, String)>)
    ensures
        pairs_view(r@) == pairs_view(p@),
{
    let mut out: Vec<(String, String)> = Vec::new();
    let mut i: usize = 0;
    while i < p.len()
        invariant
            i <= p@.len(),
            out@.len() == i,
            pairs_view(out@) == pairs_view(p@.subrange(0, i as int)),
        decreases p@.len() - i,
    {
        let k = p[i].0.clone();
        let v = p[i].1.clone();
        assert(k@ == p@[i as int].0@ && v@ == p@[i as int].1@);
        let ghost prev = out@;
        out.push((k, v));
        assert forall|j: int| 0 <= j < i implies #[trigger] pairs_view(out@)[j] == pairs_view(p@.subrange(0, i as int + 1))[j] by {
            assert(pairs_view(prev)[j] == pairs_view(p@.subrange(0, i as int))[j]);
            assert(out@[j] == prev[j]);
        }
        assert(pairs_view(out@) =~= pairs_view(p@.subrange(0, i as int + 1)));
        i = i + 1;
    }
    assert(p@.subrange(0, p@.len() as int) =~= p@);
    out
}

/// The value that a list of entries gives a name: that of its last entry with it.
pub open spec fn lookup(s: Seq<(Seq<char>, Seq<char>)>, k: Seq<char>) -> Option<Seq<char>>
    decreases s.len(),
{
    if s.len() == 0 {
        None
    } else if s.last().0 == k {
        Some(s.last().1)
    } else {
        lookup(s.drop_last(), k)
    }
}

/// Looks `k` up in `s`: the last entry with that name wins.
pub fn find_last(s: &Vec<(String, String)>, k: &str) -> (r: Option<String>)
    ensures
        r matches Some(v) ==> lookup(pairs_view(s@), k@) == Some(v@),
        r is None ==> lookup(pairs_view(s@), k@) is None,
{
    let key = k.to_string();
    let mut i: usize = s.len();
    assert(s@.subrange(0, s@.len() as int) =~= s@);
    while i > 0
        invariant
            i <= s@.len(),
            lookup(pairs_view(s@), k@) == lookup(pairs_view(s@.subrange(0, i as int)), k@),
            key@ == k@,
        decreases i,
    {
        proof {
            assert(pairs_view(s@.subrange(0, i as int)).drop_last() =~= pairs_view(s@.subrange(0, i as int - 1)));
        }
        if s[i - 1].0 == key {
            return Some(s[i - 1].1.clone());
        }
        i = i - 1;
    }
    None
}

/// No two entries share a name.
pub open spec fn unique_names(s: Seq<(Seq<char>, Seq<char>)>) -> bool {
    forall|a: int, b: int| 0 <= a < b < s.len() ==> s[a].0 != s[b].0
}

proof fn lemma_lookup_none(s: Seq<(Seq<char>, Seq<char>)>, k: Seq<char>)
    ensures
        lookup(s, k) is None <==> forall|j: int| 0 <= j < s.len() ==> s[j].0 != k,
    decreases s.len(),
{
    if s.len() > 0 {
        lemma_lookup_none(s.drop_last(), k);
        assert forall|j: int| 0 <= j < s.len() - 1 implies s.drop_last()[j] == s[j] by {}
    }
}

/// Entries put after others take precedence over them.
proof fn lemma_lookup_concat(a: Seq<(Seq<char>, Seq<char>)>, b: Seq<(Seq<char>, Seq<char>)>, k: Seq<char>)
    ensures
        lookup(a + b, k) == match lookup(b, k) {
            Some(v) => Some(v),
            None => lookup(a, k),
        },
    decreases b.len(),
{
    if b.len() == 0 {
        assert(a + b =~= a);
    } else {
        lemma_lookup_concat(a, b.drop_last(), k);
        assert((a + b).drop_last() =~= a + b.drop_last());
        assert((a + b).last() == b.last());
    }
}

/// One entry per name, the last one given for it.
pub fn last_per_name(s: &Vec<(String, String)>) -> (r: Vec<(String, String)>)
    ensures
        unique_names(pairs_view(r@)),
        forall|k: Seq<char>| #[trigger] lookup(pairs_view(r@), k) == lookup(pairs_view(s@), k),
{
    let ghost sv = pairs_view(s@);
    let mut out: Vec<(String, String)> = Vec::new();
    let mut i: usize = s.len();
    assert(pairs_view(out@) =~= Seq::<(Seq<char>, Seq<char>)>::empty());
    while i > 0
        invariant
            sv == pairs_view(s@),
            i <= s@.len(),
            unique_names(pairs_view(out@)),
            forall|k: Seq<char>| #[trigger] lookup(pairs_view(out@), k) is Some
                ==> lookup(pairs_view(out@), k) == lookup(sv, k),
            forall|k: Seq<char>| (#[trigger] lookup(pairs_view(out@), k) is Some)
                <==> lookup(sv.subrange(i as int, sv.len() as int), k) is Some,
        decreases i,
    {
        let ghost before = pairs_view(out@);
        let ghost e = sv[i - 1];
        let ghost suffix = sv.subrange(i as int, sv.len() as int);
        proof {
            assert(sv.subrange(i as int - 1, sv.len() as int) =~= seq![e] + suffix);
            assert(sv =~= sv.subrange(0, i as int) + suffix);
            assert(sv.subrange(0, i as int) =~= sv.subrange(0, i as int - 1).push(e));
            assert forall|k: Seq<char>| #[trigger] lookup(sv.subrange(i as int - 1, sv.len() as int), k) == match lookup(suffix, k) {
                Some(v) => Some(v),
                None => lookup(seq![e], k),
            } by {
                lemma_lookup_concat(seq![e], suffix, k);
            }
            assert forall|k: Seq<char>| #[trigger] lookup(sv, k) == match lookup(suffix, k) {
                Some(v) => Some(v),
                None => lookup(sv.subrange(0, i as int), k),
            } by {
                lemma_lookup_concat(sv.subrange(0, i as int), suffix, k);
            }
            assert(seq![e].drop_last() =~= Seq::<(Seq<char>, Seq<char>)>::empty());
            assert(seq![e].last() == e);
            assert(sv.subrange(0, i as int).drop_last() =~= sv.subrange(0, i as int - 1));
            assert(sv.subrange(0, i as int).last() == e);
            assert forall|k: Seq<char>| #[trigger] lookup(seq![e], k) == if e.0 == k { Some(e.1) } else { None::<Seq<char>> } by {
                assert(lookup(seq![e].drop_last(), k) is None);
            }
            assert(e == (s@[i - 1].0@, s@[i - 1].1@));
        }
        let found = find_last(&out, s[i - 1].0.as_str());
        if found.is_none() {
            let k = s[i - 1].0.clone();
            let v = s[i - 1].1.clone();
            out.push((k, v));
            proof {
                let now = pairs_view(out@);
                assert(now =~= before.push(e));
                assert(now.drop_last() =~= before);
                lemma_lookup_none(before, e.0);
                assert forall|k: Seq<char>| #[trigger] lookup(now, k) == if e.0 == k { Some(e.1) } else { lookup(before, k) } by {}
                assert forall|k: Seq<char>| #[trigger] lookup(now, k) is Some implies lookup(now, k) == lookup(sv, k) by {
                    if e.0 == k {
                        assert(lookup(suffix, k) is None);
                    }
                }
                assert forall|k: Seq<char>| (#[trigger] lookup(now, k) is Some)
                    <==> lookup(sv.subrange(i as int - 1, sv.len() as int), k) is Some by {}
                assert forall|a: int, b: int| 0 <= a < b < now.len() implies now[a].0 != now[b].0 by {
                    if b == now.len() - 1 {
                        assert(before[a].0 != e.0);
                    } else {
                        assert(before[a].0 != before[b].0);
                    }
                }
            }
        } else {
            proof {
                assert forall|k: Seq<char>| (#[trigger] lookup(before, k) is Some)
                    <==> lookup(sv.subrange(i as int - 1, sv.len() as int), k) is Some by {}
            }
        }
        i = i - 1;
    }
    proof {
        assert(sv.subrange(0, sv.len() as int) =~= sv);
        assert forall|k: Seq<char>| #[trigger] lookup(pairs_view(out@), k) == lookup(pairs_view(s@), k) by {
            if lookup(pairs_view(out@), k) is None {
                assert(lookup(sv, k) is None);
            }
        }
    }
    out
}

} // verus!
