//! The host named in a URL's text: after the scheme's `://`, past any
//! `user@`, up to the port, path, query or fragment. Host permissions are
//! decided by it, so that a look-alike such as `https://site.com.evil.io`
//! is not taken for `https://site.com`.
use vstd::prelude::*;
use crate::text::chars_of;

verus! {

/// `://` starts at index `k` of `s`.
pub open spec fn sep_at(s: Seq<char>, k: int) -> bool {
    0 <= k && k + 3 <= s.len() && s[k] == ':' && s[k + 1] == '/' && s[k + 2] == '/'
}

/// The first index at or after `i` where `://` starts.
pub open spec fn first_sep_from(s: Seq<char>, i: int) -> Option<int>
    decreases s.len() - i,
{
    if i < 0 || i + 3 > s.len() {
        None
    } else if sep_at(s, i) {
        Some(i)
    } else {
        first_sep_from(s, i + 1)
    }
}

/// A character that ends the authority part of a URL.
pub open spec fn ends_authority(c: char) -> bool {
    c == '/' || c == '?' || c == '#'
}

/// The first index at or after `i` that ends the authority (or the length).
pub open spec fn authority_end(s: Seq<char>, i: int) -> int
    decreases s.len() - i,
{
    if i < 0 || i >= s.len() {
        s.len() as int
    } else if ends_authority(s[i]) {
        i
    } else {
        authority_end(s, i + 1)
    }
}

/// The index just after the last `@` in `s[a..e]`, or `a` where there is none.
pub open spec fn host_start(s: Seq<char>, a: int, e: int) -> int
    decreases e - a,
{
    if e <= a {
        a
    } else if s[e - 1] == '@' {
        e
    } else {
        host_start(s, a, e - 1)
    }
}

/// The first index in `[i, e)` holding `c`, or `e`.
pub open spec fn first_char(s: Seq<char>, c: char, i: int, e: int) -> int
    decreases e - i,
{
    if e <= i {
        e
    } else if s[i] == c {
        i
    } else {
        first_char(s, c, i + 1, e)
    }
}

/// Where the host that starts at `h` ends, before `e`: a bracketed address
/// ends after its `]`, any other host at its port's `:`.
pub open spec fn host_end(s: Seq<char>, h: int, e: int) -> int {
    if h < e && s[h] == '[' {
        let b = first_char(s, ']', h, e);
        if b < e {
            b + 1
        } else {
            e
        }
    } else {
        first_char(s, ':', h, e)
    }
}

/// The host of the URL text `s`; `None` where `s` has no `://`.
pub open spec fn url_host(s: Seq<char>) -> Option<Seq<char>> {
    match first_sep_from(s, 0) {
        None => None,
        Some(k) => {
            let e = authority_end(s, k + 3);
            let h = host_start(s, k + 3, e);
            Some(s.subrange(h, host_end(s, h, e)))
        },
    }
}

/// A character of a plain host name: none of those that end the authority,
/// separate the user, start the port or open a bracketed address.
pub open spec fn plain_host_char(c: char) -> bool {
    c != '/' && c != '?' && c != '#' && c != '@' && c != ':' && c != '['
}

proof fn lemma_sep_scan(s: Seq<char>, i: int, k: int)
    requires
        0 <= i <= k,
        forall|j: int| i <= j < k ==> !sep_at(s, j),
    ensures
        first_sep_from(s, i) == first_sep_from(s, k),
    decreases k - i,
{
    if i < k && i + 3 <= s.len() {
        assert(!sep_at(s, i));
        lemma_sep_scan(s, i + 1, k);
    }
}

proof fn lemma_authority_scan(s: Seq<char>, i: int, k: int)
    requires
        0 <= i <= k <= s.len(),
        forall|j: int| i <= j < k ==> !ends_authority(#[trigger] s[j]),
    ensures
        authority_end(s, i) == authority_end(s, k),
    decreases k - i,
{
    if i < k {
        lemma_authority_scan(s, i + 1, k);
    }
}

proof fn lemma_no_user(s: Seq<char>, a: int, e: int)
    requires
        a <= e,
        forall|j: int| a <= j < e ==> #[trigger] s[j] != '@',
    ensures
        host_start(s, a, e) == a,
    decreases e - a,
{
    if a < e {
        lemma_no_user(s, a, e - 1);
    }
}

proof fn lemma_no_char(s: Seq<char>, c: char, i: int, e: int)
    requires
        i <= e,
        forall|j: int| i <= j < e ==> #[trigger] s[j] != c,
    ensures
        first_char(s, c, i, e) == e,
    decreases e - i,
{
    if i < e {
        lemma_no_char(s, c, i + 1, e);
    }
}

/// The host of `scheme://host` followed by nothing or a path is `host`,
/// whatever the scheme (one without `:`), for any plain host name.
pub proof fn law_url_names_its_host(scheme: Seq<char>, host: Seq<char>, rest: Seq<char>)
    requires
        forall|i: int| 0 <= i < scheme.len() ==> #[trigger] scheme[i] != ':',
        forall|i: int| 0 <= i < host.len() ==> plain_host_char(#[trigger] host[i]),
        rest.len() == 0 || rest[0] == '/',
    ensures
        url_host(scheme + "://"@ + host + rest) == Some(host),
{
    reveal_strlit("://");
    let u = scheme + "://"@ + host + rest;
    let n = scheme.len() as int;
    let a = n + 3;
    let e = a + host.len();
    assert forall|j: int| 0 <= j < n implies !sep_at(u, j) by {
        assert(u[j] == scheme[j]);
    }
    lemma_sep_scan(u, 0, n);
    assert(u[n] == ':' && u[n + 1] == '/' && u[n + 2] == '/');
    assert(sep_at(u, n));
    assert(first_sep_from(u, 0) == Some(n));
    assert forall|j: int| a <= j < e implies !ends_authority(#[trigger] u[j]) by {
        assert(u[j] == host[j - a]);
        assert(plain_host_char(host[j - a]));
    }
    lemma_authority_scan(u, a, e);
    if rest.len() > 0 {
        assert(u[e] == rest[0]);
    }
    assert(authority_end(u, e) == e);
    assert forall|j: int| a <= j < e implies #[trigger] u[j] != '@' by {
        assert(u[j] == host[j - a]);
        assert(plain_host_char(host[j - a]));
    }
    lemma_no_user(u, a, e);
    assert forall|j: int| a <= j < e implies #[trigger] u[j] != ':' by {
        assert(u[j] == host[j - a]);
        assert(plain_host_char(host[j - a]));
    }
    lemma_no_char(u, ':', a, e);
    if a < e {
        assert(u[a] == host[0]);
        assert(plain_host_char(host[0]));
    }
    assert(host_end(u, a, e) == e);
    assert(u.subrange(a, e) =~= host);
}

/// The first index at or after `i` holding `c`, before `e`, or `e`.
fn find_char(cs: &Vec<char>, c: char, i: usize, e: usize) -> (r: usize)
    requires
        i <= e <= cs.len(),
    ensures
        r == first_char(cs@, c, i as int, e as int),
        i <= r <= e,
{
    let mut j = i;
    while j < e
        invariant
            i <= j <= e <= cs.len(),
            first_char(cs@, c, i as int, e as int) == first_char(cs@, c, j as int, e as int),
        decreases e - j,
    {
        if cs[j] == c {
            return j;
        }
        j = j + 1;
    }
    j
}

/// The bounds of the host of `cs`, where it has one.
fn host_bounds(cs: &Vec<char>) -> (r: Option<(usize, usize)>)
    ensures
        match r {
            Some((h, t)) => h <= t <= cs.len() && url_host(cs@) == Some(cs@.subrange(h as int, t as int)),
            None => url_host(cs@) is None,
        },
{
    let n = cs.len();
    let mut k: usize = 0;
    let mut found = false;
    while n - k >= 3
        invariant_except_break
            !found,
        invariant
            k <= n,
            n == cs.len(),
            first_sep_from(cs@, 0) == first_sep_from(cs@, k as int),
        ensures
            found ==> k + 3 <= n && sep_at(cs@, k as int),
            !found ==> n - k < 3,
        decreases n - k,
    {
        if cs[k] == ':' && cs[k + 1] == '/' && cs[k + 2] == '/' {
            found = true;
            break;
        }
        k = k + 1;
    }
    if !found {
        return None;
    }
    assert(first_sep_from(cs@, 0) == Some(k as int));
    let a = k + 3;
    let mut e = a;
    while e < n
        invariant
            a <= e <= n == cs.len(),
            authority_end(cs@, a as int) == authority_end(cs@, e as int),
        ensures
            e == n || ends_authority(cs@[e as int]),
        decreases n - e,
    {
        let c = cs[e];
        if c == '/' || c == '?' || c == '#' {
            break;
        }
        e = e + 1;
    }
    assert(authority_end(cs@, a as int) == e as int);
    let mut h = e;
    while h > a
        invariant
            a <= h <= e,
            e <= cs.len(),
            host_start(cs@, a as int, e as int) == host_start(cs@, a as int, h as int),
        ensures
            h == a || cs@[h - 1] == '@',
        decreases h - a,
    {
        if cs[h - 1] == '@' {
            break;
        }
        h = h - 1;
    }
    assert(host_start(cs@, a as int, e as int) == h as int);
    let t = if h < e && cs[h] == '[' {
        let b = find_char(cs, ']', h, e);
        if b < e {
            b + 1
        } else {
            e
        }
    } else {
        find_char(cs, ':', h, e)
    };
    assert(t == host_end(cs@, h as int, e as int));
    Some((h, t))
}

/// Whether the URL texts `entry` and `url` both name a host, and the same one.
pub fn same_url_host(entry: &str, url: &str) -> (r: bool)
    ensures
        r == (url_host(entry@) is Some && url_host(entry@) == url_host(url@)),
{
    let x = chars_of(entry);
    let y = chars_of(url);
    let hx = host_bounds(&x);
    let hy = host_bounds(&y);
    match (hx, hy) {
        (Some((a, b)), Some((c, d))) => {
            if b - a != d - c {
                assert(x@.subrange(a as int, b as int).len() != y@.subrange(c as int, d as int).len());
                return false;
            }
            let mut i: usize = 0;
            while i < b - a
                invariant
                    a <= b <= x.len(),
                    c <= d <= y.len(),
                    b - a == d - c,
                    i <= b - a,
                    url_host(entry@) == Some(x@.subrange(a as int, b as int)),
                    url_host(url@) == Some(y@.subrange(c as int, d as int)),
                    forall|j: int| 0 <= j < i ==> x@.subrange(a as int, b as int)[j] == #[trigger] y@.subrange(c as int, d as int)[j],
                decreases b - a - i,
            {
                if x[a + i] != y[c + i] {
                    assert(x@.subrange(a as int, b as int)[i as int] != y@.subrange(c as int, d as int)[i as int]);
                    assert(x@.subrange(a as int, b as int) != y@.subrange(c as int, d as int));
                    return false;
                }
                i = i + 1;
            }
            assert(x@.subrange(a as int, b as int) =~= y@.subrange(c as int, d as int));
            true
        },
        _ => false,
    }
}

} // verus!
