use vstd::prelude::*;

use crate::paths::{chars_of, opt_view};

verus! {

/// The address parts a reverse-geocoding lookup reports for a position.
#[derive(Clone, Debug)]
pub struct Address {
    pub city: Option<String>,
    pub town: Option<String>,
    pub village: Option<String>,
    pub municipality: Option<String>,
    pub county: Option<String>,
    pub state: Option<String>,
    pub country: Option<String>,
    pub country_code: Option<String>,
}

pub open spec fn or_else(a: Option<Seq<char>>, b: Option<Seq<char>>) -> Option<Seq<char>> {
    if a is Some {
        a
    } else {
        b
    }
}

/// `a` and `b` joined by a hyphen when both are there, else whichever is.
pub open spec fn hyphen_join(a: Option<Seq<char>>, b: Option<Seq<char>>) -> Option<Seq<char>> {
    match (a, b) {
        (Some(x), Some(y)) => Some(x + seq!['-'] + y),
        (Some(x), None) => Some(x),
        (None, y) => y,
    }
}

/// The settlement: city, else town, else village, else municipality.
pub open spec fn city_of(a: Address) -> Option<Seq<char>> {
    or_else(
        or_else(or_else(opt_view(a.city), opt_view(a.town)), opt_view(a.village)),
        opt_view(a.municipality),
    )
}

/// The region: state, else county.
pub open spec fn region_of(a: Address) -> Option<Seq<char>> {
    or_else(opt_view(a.state), opt_view(a.county))
}

/// City, region and country joined by hyphens in that order, skipping the
/// absent ones, and the region left out where all three are there and it
/// repeats the city; empty
/// when none is there.
pub open spec fn address_label(a: Address) -> Seq<char> {
    let city = city_of(a);
    let region = if city is Some && opt_view(a.country) is Some && region_of(a) == city {
        None
    } else {
        region_of(a)
    };
    match hyphen_join(hyphen_join(city, region), opt_view(a.country)) {
        Some(l) => l,
        None => Seq::empty(),
    }
}

fn first_of(a: &Option<String>, b: &Option<String>) -> (r: Option<String>)
    ensures
        opt_view(r) == or_else(opt_view(*a), opt_view(*b)),
{
    match a {
        Some(x) => Some(x.clone()),
        None => match b {
            Some(y) => Some(y.clone()),
            None => None,
        },
    }
}

fn join_hyphen(a: Option<String>, b: Option<String>) -> (r: Option<String>)
    ensures
        opt_view(r) == hyphen_join(opt_view(a), opt_view(b)),
{
    proof {
        reveal_strlit("-");
    }
    match (a, b) {
        (Some(x), Some(y)) => {
            let joined = x.concat("-").concat(y.as_str());
            assert(joined@ =~= x@ + seq!['-'] + y@);
            Some(joined)
        },
        (Some(x), None) => Some(x),
        (None, y) => y,
    }
}

/// The human-readable place name for an address: see `address_label`.
pub fn extract_location_from_address(address: &Address) -> (r: String)
    ensures
        r@ == address_label(*address),
{
    let city = first_of(&address.city, &address.town);
    let city = first_of(&city, &address.village);
    let city = first_of(&city, &address.municipality);
    let region = first_of(&address.state, &address.county);
    let region = match (&city, region) {
        (Some(c), Some(r)) => {
            if *c == r && address.country.is_some() {
                None
            } else {
                Some(r)
            }
        },
        (_, r) => r,
    };
    match join_hyphen(join_hyphen(city, region), address.country.clone()) {
        Some(l) => l,
        None => {
            let l = String::new();
            assert(l@ =~= Seq::<char>::empty());
            l
        },
    }
}

/// The characters that may not stand in a file name.
pub open spec fn is_reserved(c: char) -> bool {
    c == ' ' || c == '/' || c == '\\' || c == ':' || c == '*' || c == '?' || c == '"' || c == '<'
        || c == '>' || c == '|'
}

pub open spec fn replace_reserved(s: Seq<char>) -> Seq<char> {
    s.map_values(|c: char| if is_reserved(c) { '-' } else { c })
}

/// `s` with each run of hyphens shortened to one.
pub open spec fn collapse(s: Seq<char>) -> Seq<char>
    decreases s.len(),
{
    if s.len() == 0 {
        s
    } else {
        let p = collapse(s.drop_last());
        if s.last() == '-' && p.len() > 0 && p.last() == '-' {
            p
        } else {
            p.push(s.last())
        }
    }
}

pub open spec fn trim_end(s: Seq<char>) -> Seq<char>
    decreases s.len(),
{
    if s.len() > 0 && s.last() == '-' {
        trim_end(s.drop_last())
    } else {
        s
    }
}

pub open spec fn trim_start(s: Seq<char>) -> Seq<char>
    decreases s.len(),
{
    if s.len() > 0 && s[0] == '-' {
        trim_start(s.drop_first())
    } else {
        s
    }
}

/// A name made safe for a file: reserved characters become hyphens, runs of
/// hyphens become one, and hyphens at either end are dropped.
pub open spec fn sanitized(s: Seq<char>) -> Seq<char> {
    trim_start(trim_end(collapse(replace_reserved(s))))
}

/// See `sanitized`.
pub fn sanitize_filename(name: &str) -> (r: String)
    ensures
        r@ == sanitized(name@),
{
    proof {
        reveal_strlit("-");
    }
    let cs = chars_of(name);
    let n = cs.len();
    let mut out = String::new();
    let mut last_hyphen = false;
    let mut i: usize = 0;
    while i < n
        invariant
            n == cs@.len(),
            cs@ == name@,
            i <= n,
            out@ == collapse(replace_reserved(cs@.subrange(0, i as int))),
            out@.len() > 0 ==> (last_hyphen == (out@.last() == '-')),
            out@.len() == 0 ==> !last_hyphen,
        decreases n - i,
    {
        let c = cs[i];
        let ghost before = out@;
        let ghost prev = replace_reserved(cs@.subrange(0, i as int));
        let ghost next = replace_reserved(cs@.subrange(0, i + 1));
        assert(next.drop_last() =~= prev);
        assert(next.len() > 0);
        assert(collapse(next) == (if next.last() == '-' && collapse(prev).len() > 0 && collapse(
            prev,
        ).last() == '-' {
            collapse(prev)
        } else {
            collapse(prev).push(next.last())
        }));
        let hyphen = c == ' ' || c == '/' || c == '\\' || c == ':' || c == '*' || c == '?' || c
            == '"' || c == '<' || c == '>' || c == '|' || c == '-';
        if hyphen {
            assert(next.last() == '-');
            if !last_hyphen {
                proof {
                    reveal_strlit("-");
                }
                out.append("-");
                assert(out@ =~= before.push('-'));
                last_hyphen = true;
            }
            assert(out@ =~= collapse(next));
        } else {
            assert(next.last() == c);
            out.append(name.substring_char(i, i + 1));
            assert(out@ =~= before.push(c));
            assert(name@.subrange(i as int, i + 1) =~= seq![c]);
            last_hyphen = false;
            assert(out@ =~= collapse(next));
        }
        i = i + 1;
        assert(out@ =~= collapse(next));
    }
    assert(cs@.subrange(0, n as int) =~= cs@);
    let t = chars_of(out.as_str());
    let mut end: usize = t.len();
    assert(t@.subrange(0, end as int) =~= t@);
    while end > 0 && t[end - 1] == '-'
        invariant
            end <= t@.len(),
            trim_end(t@) == trim_end(t@.subrange(0, end as int)),
        decreases end,
    {
        assert(t@.subrange(0, end as int).drop_last() =~= t@.subrange(0, end - 1));
        end = end - 1;
    }
    assert(trim_end(t@) == t@.subrange(0, end as int));
    let mut start: usize = 0;
    while start < end && t[start] == '-'
        invariant
            start <= end <= t@.len(),
            trim_start(trim_end(t@)) == trim_start(t@.subrange(start as int, end as int)),
        decreases end - start,
    {
        assert(t@.subrange(start as int, end as int).drop_first() =~= t@.subrange(
            start + 1,
            end as int,
        ));
        start = start + 1;
    }
    String::from_str(out.as_str().substring_char(start, end))
}

/// The place name for a position: the address's label made safe for a file
/// name, or, where no address came back or its label comes out empty, the
/// coordinate text `fallback`.
pub open spec fn place_label(address: Option<Address>, fallback: Seq<char>) -> Seq<char> {
    match address {
        Some(a) => if sanitized(address_label(a)).len() > 0 {
            sanitized(address_label(a))
        } else {
            fallback
        },
        None => fallback,
    }
}

/// See `place_label`.
pub fn location_label(address: &Option<Address>, fallback: String) -> (r: String)
    ensures
        r@ == place_label(*address, fallback@),
        no_reserved(fallback@) ==> no_reserved(r@),
        fallback@.len() > 0 ==> r@.len() > 0,
{
    match address {
        Some(a) => {
            let label = extract_location_from_address(a);
            let clean = sanitize_filename(label.as_str());
            proof {
                lemma_sanitized_clean(label@);
            }
            if clean.unicode_len() > 0 {
                clean
            } else {
                fallback
            }
        },
        None => fallback,
    }
}

} // verus!

verus! {

pub open spec fn no_reserved(t: Seq<char>) -> bool {
    forall|i: int| 0 <= i < t.len() ==> !is_reserved(#[trigger] t[i])
}

pub open spec fn no_double_hyphen(t: Seq<char>) -> bool {
    forall|i: int| 0 <= i < t.len() - 1 ==> !(#[trigger] t[i] == '-' && t[i + 1] == '-')
}

proof fn lemma_collapse(s: Seq<char>)
    ensures
        no_double_hyphen(collapse(s)),
        no_reserved(s) ==> no_reserved(collapse(s)),
        collapse(s).len() > 0 ==> collapse(s).last() == s.last(),
        s.len() > 0 ==> collapse(s).len() > 0,
    decreases s.len(),
{
    if s.len() > 0 {
        let p = s.drop_last();
        lemma_collapse(p);
        if no_reserved(s) {
            assert(no_reserved(p)) by {
                assert forall|i: int| 0 <= i < p.len() implies !is_reserved(#[trigger] p[i]) by {
                    assert(p[i] == s[i]);
                }
            }
        }
        if s.len() > 1 && no_reserved(s) {
            assert(!is_reserved(s[s.len() - 1]));
        }
    }
}

proof fn lemma_collapse_keeps(t: Seq<char>)
    requires
        no_double_hyphen(t),
    ensures
        collapse(t) == t,
    decreases t.len(),
{
    if t.len() > 0 {
        let p = t.drop_last();
        assert(no_double_hyphen(p)) by {
            assert forall|i: int| 0 <= i < p.len() - 1 implies !(#[trigger] p[i] == '-' && p[i + 1]
                == '-') by {
                assert(p[i] == t[i] && p[i + 1] == t[i + 1]);
            }
        }
        lemma_collapse_keeps(p);
        if p.len() > 0 {
            assert(!(t[t.len() - 2] == '-' && t[t.len() - 1] == '-'));
        }
        assert(p.push(t.last()) =~= t);
    }
}

proof fn lemma_trim_end(t: Seq<char>)
    ensures
        trim_end(t) == t.subrange(0, trim_end(t).len() as int),
        trim_end(t).len() <= t.len(),
        trim_end(t).len() > 0 ==> trim_end(t).last() != '-',
    decreases t.len(),
{
    if t.len() > 0 && t.last() == '-' {
        lemma_trim_end(t.drop_last());
        assert(t.drop_last().subrange(0, trim_end(t).len() as int) =~= t.subrange(
            0,
            trim_end(t).len() as int,
        ));
    } else {
        assert(t.subrange(0, t.len() as int) =~= t);
    }
}

proof fn lemma_trim_start(t: Seq<char>)
    ensures
        trim_start(t) == t.subrange(t.len() - trim_start(t).len(), t.len() as int),
        trim_start(t).len() <= t.len(),
        trim_start(t).len() > 0 ==> trim_start(t)[0] != '-',
    decreases t.len(),
{
    if t.len() > 0 && t[0] == '-' {
        lemma_trim_start(t.drop_first());
        let k = trim_start(t).len();
        assert(t.drop_first().subrange(t.len() - 1 - k, t.len() - 1) =~= t.subrange(
            t.len() - k,
            t.len() as int,
        ));
    } else {
        assert(t.subrange(0, t.len() as int) =~= t);
    }
}

/// What the sanitizer produces holds no reserved character, no two hyphens in
/// a row, and no hyphen at either end.
pub proof fn lemma_sanitized_clean(s: Seq<char>)
    ensures
        no_reserved(sanitized(s)),
        no_double_hyphen(sanitized(s)),
        sanitized(s).len() > 0 ==> sanitized(s)[0] != '-' && sanitized(s).last() != '-',
{
    let m = replace_reserved(s);
    assert(no_reserved(m)) by {
        assert forall|i: int| 0 <= i < m.len() implies !is_reserved(#[trigger] m[i]) by {}
    }
    let c = collapse(m);
    lemma_collapse(m);
    let e = trim_end(c);
    lemma_trim_end(c);
    let u = trim_start(e);
    lemma_trim_start(e);
    let off = e.len() - u.len();
    assert forall|i: int| 0 <= i < u.len() implies #[trigger] u[i] == c[i + off] by {
        assert(u[i] == e[i + off]);
        assert(e[i + off] == c[i + off]);
    }
    assert forall|i: int| 0 <= i < u.len() implies !is_reserved(#[trigger] u[i]) by {
        assert(u[i] == c[i + off]);
    }
    assert forall|i: int| 0 <= i < u.len() - 1 implies !(#[trigger] u[i] == '-' && u[i + 1]
        == '-') by {
        assert(u[i] == c[i + off]);
        assert(u[i + 1] == c[i + 1 + off]);
    }
    if u.len() > 0 {
        assert(u.last() == e.last());
    }
}

/// Sanitizing a second time changes nothing.
pub proof fn lemma_sanitize_idempotent(s: Seq<char>)
    ensures
        sanitized(sanitized(s)) == sanitized(s),
{
    let u = sanitized(s);
    lemma_sanitized_clean(s);
    assert(replace_reserved(u) =~= u);
    lemma_collapse_keeps(u);
    assert(trim_end(u) == u);
    assert(trim_start(u) == u);
}

} // verus!
