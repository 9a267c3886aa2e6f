//! Character-level text operations used throughout the library, each
//! stated over `Seq<char>`.
use vstd::prelude::*;

verus! {

/// The Unicode `White_Space` property, which `char::is_whitespace`,
/// `str::trim` and friends use.
pub open spec fn is_white_space(c: char) -> bool {
    let u = c as u32;
    ||| 0x9 <= u <= 0xd
    ||| u == 0x20
    ||| u == 0x85
    ||| u == 0xa0
    ||| u == 0x1680
    ||| 0x2000 <= u <= 0x200a
    ||| u == 0x2028
    ||| u == 0x2029
    ||| u == 0x202f
    ||| u == 0x205f
    ||| u == 0x3000
}

/// `s` with leading white space removed (`str::trim_start`).
pub open spec fn trim_start_spec(s: Seq<char>) -> Seq<char>
    decreases s.len(),
{
    if s.len() > 0 && is_white_space(s[0]) {
        trim_start_spec(s.drop_first())
    } else {
        s
    }
}

/// `s` with trailing white space removed (`str::trim_end`).
pub open spec fn trim_end_spec(s: Seq<char>) -> Seq<char>
    decreases s.len(),
{
    if s.len() > 0 && is_white_space(s.last()) {
        trim_end_spec(s.drop_last())
    } else {
        s
    }
}

/// What `str::trim` returns.
pub open spec fn trim_spec(s: Seq<char>) -> Seq<char> {
    trim_end_spec(trim_start_spec(s))
}

/// `s` with leading copies of `c` removed.
pub open spec fn trim_char_start_spec(s: Seq<char>, c: char) -> Seq<char>
    decreases s.len(),
{
    if s.len() > 0 && s[0] == c {
        trim_char_start_spec(s.drop_first(), c)
    } else {
        s
    }
}

/// `s` with trailing copies of `c` removed.
pub open spec fn trim_char_end_spec(s: Seq<char>, c: char) -> Seq<char>
    decreases s.len(),
{
    if s.len() > 0 && s.last() == c {
        trim_char_end_spec(s.drop_last(), c)
    } else {
        s
    }
}

/// What `str::trim_matches(c)` returns for a single character `c`.
pub open spec fn trim_char_spec(s: Seq<char>, c: char) -> Seq<char> {
    trim_char_end_spec(trim_char_start_spec(s, c), c)
}

/// `p` is a prefix of `s` (`str::starts_with`).
pub open spec fn is_prefix(p: Seq<char>, s: Seq<char>) -> bool {
    p.len() <= s.len() && s.take(p.len() as int) == p
}

/// The pieces of `s` between occurrences of `sep`, built left to right:
/// `done` holds the finished pieces and `cur` the piece being read.
pub open spec fn split_from(s: Seq<char>, sep: char, cur: Seq<char>, done: Seq<Seq<char>>) -> Seq<Seq<char>>
    decreases s.len(),
{
    if s.len() == 0 {
        done.push(cur)
    } else if s[0] == sep {
        split_from(s.drop_first(), sep, Seq::empty(), done.push(cur))
    } else {
        split_from(s.drop_first(), sep, cur.push(s[0]), done)
    }
}

/// What `str::split(sep)` yields for a single character `sep`.
pub open spec fn split_spec(s: Seq<char>, sep: char) -> Seq<Seq<char>> {
    split_from(s, sep, Seq::empty(), Seq::empty())
}

/// Splitting keeps the finished pieces and adds at least one more.
pub proof fn lemma_split_from_grows(s: Seq<char>, sep: char, cur: Seq<char>, done: Seq<Seq<char>>)
    ensures
        split_from(s, sep, cur, done).len() > done.len(),
        forall|i: int| 0 <= i < done.len() ==> #[trigger] split_from(s, sep, cur, done)[i] == done[i],
    decreases s.len(),
{
    if s.len() > 0 {
        if s[0] == sep {
            lemma_split_from_grows(s.drop_first(), sep, Seq::empty(), done.push(cur));
            assert forall|i: int| 0 <= i < done.len() implies #[trigger] split_from(s, sep, cur, done)[i]
                == done[i] by {
                assert(done.push(cur)[i] == done[i]);
            }
        } else {
            lemma_split_from_grows(s.drop_first(), sep, cur.push(s[0]), done);
        }
    }
}

/// A stretch without the separator joins the piece being read.
pub proof fn lemma_split_from_plain(a: Seq<char>, b: Seq<char>, sep: char, cur: Seq<char>, done: Seq<Seq<char>>)
    requires
        !a.contains(sep),
    ensures
        split_from(a + b, sep, cur, done) == split_from(b, sep, cur + a, done),
    decreases a.len(),
{
    if a.len() == 0 {
        assert(a + b =~= b);
        assert(cur + a =~= cur);
    } else {
        assert(a[0] != sep);
        assert((a + b)[0] == a[0]);
        assert((a + b).drop_first() =~= a.drop_first() + b);
        assert(!a.drop_first().contains(sep)) by {
            if a.drop_first().contains(sep) {
                let k = choose|k: int| 0 <= k < a.drop_first().len() && a.drop_first()[k] == sep;
                assert(a[k + 1] == sep);
            }
        }
        lemma_split_from_plain(a.drop_first(), b, sep, cur.push(a[0]), done);
        assert(cur.push(a[0]) + a.drop_first() =~= cur + a);
    }
}

/// The pieces joined with `sep` between consecutive pieces (`[String]::join`).
pub open spec fn join_spec(parts: Seq<Seq<char>>, sep: Seq<char>) -> Seq<char>
    decreases parts.len(),
{
    if parts.len() == 0 {
        Seq::empty()
    } else if parts.len() == 1 {
        parts[0]
    } else {
        join_spec(parts.drop_last(), sep) + sep + parts.last()
    }
}

/// Every occurrence of `from` replaced by `to`.
pub open spec fn replace_char_spec(s: Seq<char>, from: char, to: char) -> Seq<char> {
    s.map_values(|c: char| if c == from { to } else { c })
}

/// The views of a sequence of strings.
pub open spec fn views(v: Seq<String>) -> Seq<Seq<char>> {
    v.map_values(|x: String| x@)
}

pub fn is_white_space_char(c: char) -> (b: bool)
    ensures
        b == is_white_space(c),
{
    let u = c as u32;
    (0x9 <= u && u <= 0xd) || u == 0x20 || u == 0x85 || u == 0xa0 || u == 0x1680 || (0x2000
        <= u && u <= 0x200a) || u == 0x2028 || u == 0x2029 || u == 0x202f || u == 0x205f || u
        == 0x3000
}

/// The characters of `s`.
pub fn chars_of(s: &str) -> (v: Vec<char>)
    ensures
        v@ == s@,
{
    let n = s.unicode_len();
    let mut v: Vec<char> = Vec::new();
    let mut i: usize = 0;
    while i < n
        invariant
            n == s@.len(),
            i <= n,
            v@ == s@.take(i as int),
        decreases n - i,
    {
        v.push(s.get_char(i));
        i = i + 1;
        assert(v@ =~= s@.take(i as int));
    }
    assert(v@ =~= s@);
    v
}

/// A string holding exactly the characters of `cs` (`String::from_iter`).
#[verifier::external_body]
pub fn string_of(cs: &[char]) -> (s: String)
    ensures
        s@ == cs@,
{
    String::from_iter(cs.iter())
}

/// A new string holding the characters of `s`.
pub fn owned(s: &str) -> (r: String)
    ensures
        r@ == s@,
{
    String::from_str(s)
}

/// `a` followed by `b`.
pub fn cat(a: &str, b: &str) -> (r: String)
    ensures
        r@ == a@ + b@,
{
    let mut r = String::from_str(a);
    r.append(b);
    r
}

/// `a`, `b` and `c` one after another.
pub fn cat3(a: &str, b: &str, c: &str) -> (r: String)
    ensures
        r@ == a@ + b@ + c@,
{
    let mut r = String::from_str(a);
    r.append(b);
    r.append(c);
    r
}

/// `a`, `b`, `c` and `d` one after another.
pub fn cat4(a: &str, b: &str, c: &str, d: &str) -> (r: String)
    ensures
        r@ == a@ + b@ + c@ + d@,
{
    let mut r = String::from_str(a);
    r.append(b);
    r.append(c);
    r.append(d);
    r
}

/// Whether two texts hold the same characters.
pub fn same_text(a: &str, b: &str) -> (r: bool)
    ensures
        r == (a@ == b@),
{
    let x = chars_of(a);
    let y = chars_of(b);
    if x.len() != y.len() {
        return false;
    }
    let mut i: usize = 0;
    while i < x.len()
        invariant
            x@ == a@,
            y@ == b@,
            x.len() == y.len(),
            i <= x.len(),
            forall|j: int| 0 <= j < i ==> x@[j] == y@[j],
        decreases x.len() - i,
    {
        if x[i] != y[i] {
            return false;
        }
        i = i + 1;
    }
    assert(x@ =~= y@);
    true
}

/// `str::starts_with` for a text prefix.
pub fn starts_with(s: &str, prefix: &str) -> (r: bool)
    ensures
        r == is_prefix(prefix@, s@),
{
    let x = chars_of(s);
    let p = chars_of(prefix);
    if p.len() > x.len() {
        return false;
    }
    let mut i: usize = 0;
    while i < p.len()
        invariant
            x@ == s@,
            p@ == prefix@,
            p.len() <= x.len(),
            i <= p.len(),
            forall|j: int| 0 <= j < i ==> x@[j] == p@[j],
        decreases p.len() - i,
    {
        if x[i] != p[i] {
            assert(s@.take(prefix@.len() as int)[i as int] != prefix@[i as int]);
            return false;
        }
        i = i + 1;
    }
    assert(s@.take(prefix@.len() as int) =~= prefix@);
    true
}

/// The characters of `cs` from index `i` up to (not including) `j`.
pub fn copy_range(cs: &Vec<char>, i: usize, j: usize) -> (r: Vec<char>)
    requires
        i <= j <= cs.len(),
    ensures
        r@ == cs@.subrange(i as int, j as int),
{
    let mut r: Vec<char> = Vec::new();
    let mut k: usize = i;
    while k < j
        invariant
            i <= k <= j <= cs.len(),
            r@ == cs@.subrange(i as int, k as int),
        decreases j - k,
    {
        r.push(cs[k]);
        k = k + 1;
        assert(r@ =~= cs@.subrange(i as int, k as int));
    }
    r
}

/// `str::trim`.
pub fn trim(s: &str) -> (r: String)
    ensures
        r@ == trim_spec(s@),
{
    let cs = chars_of(s);
    let mut i: usize = 0;
    assert(s@.skip(0) =~= s@);
    while i < cs.len() && is_white_space_char(cs[i])
        invariant
            cs@ == s@,
            i <= cs.len(),
            trim_start_spec(s@) == trim_start_spec(s@.skip(i as int)),
        decreases cs.len() - i,
    {
        assert(s@.skip(i as int).drop_first() =~= s@.skip(i + 1));
        i = i + 1;
    }
    let mut j: usize = cs.len();
    assert(s@.skip(i as int) =~= s@.subrange(i as int, j as int));
    while j > i && is_white_space_char(cs[j - 1])
        invariant
            cs@ == s@,
            i <= j <= cs.len(),
            trim_start_spec(s@) == s@.skip(i as int),
            trim_end_spec(s@.skip(i as int)) == trim_end_spec(s@.subrange(i as int, j as int)),
        decreases j,
    {
        assert(s@.subrange(i as int, j as int).drop_last() =~= s@.subrange(i as int, j - 1));
        j = j - 1;
    }
    let out = copy_range(&cs, i, j);
    string_of(out.as_slice())
}

/// `str::trim_matches(c)` for a single character `c`.
pub fn trim_char(s: &str, c: char) -> (r: String)
    ensures
        r@ == trim_char_spec(s@, c),
{
    let cs = chars_of(s);
    let mut i: usize = 0;
    assert(s@.skip(0) =~= s@);
    while i < cs.len() && cs[i] == c
        invariant
            cs@ == s@,
            i <= cs.len(),
            trim_char_start_spec(s@, c) == trim_char_start_spec(s@.skip(i as int), c),
        decreases cs.len() - i,
    {
        assert(s@.skip(i as int).drop_first() =~= s@.skip(i + 1));
        i = i + 1;
    }
    let mut j: usize = cs.len();
    assert(s@.skip(i as int) =~= s@.subrange(i as int, j as int));
    while j > i && cs[j - 1] == c
        invariant
            cs@ == s@,
            i <= j <= cs.len(),
            trim_char_start_spec(s@, c) == s@.skip(i as int),
            trim_char_end_spec(s@.skip(i as int), c) == trim_char_end_spec(
                s@.subrange(i as int, j as int),
                c,
            ),
        decreases j,
    {
        assert(s@.subrange(i as int, j as int).drop_last() =~= s@.subrange(i as int, j - 1));
        j = j - 1;
    }
    let out = copy_range(&cs, i, j);
    string_of(out.as_slice())
}

/// `str::split(sep)` for a single character `sep`, each piece as a new string.
pub fn split_char(s: &str, sep: char) -> (r: Vec<String>)
    ensures
        views(r@) == split_spec(s@, sep),
{
    let cs = chars_of(s);
    let mut done: Vec<String> = Vec::new();
    let mut cur: Vec<char> = Vec::new();
    let mut i: usize = 0;
    assert(s@.skip(0) =~= s@);
    assert(views(done@) =~= Seq::<Seq<char>>::empty());
    assert(cur@ =~= Seq::<char>::empty());
    while i < cs.len()
        invariant
            cs@ == s@,
            i <= cs.len(),
            split_from(s@.skip(i as int), sep, cur@, views(done@)) == split_spec(s@, sep),
        decreases cs.len() - i,
    {
        assert(s@.skip(i as int).drop_first() =~= s@.skip(i + 1));
        if cs[i] == sep {
            let piece = string_of(cur.as_slice());
            let ghost before = done@;
            done.push(piece);
            assert(views(done@) =~= views(before).push(cur@));
            cur = Vec::new();
            assert(cur@ =~= Seq::<char>::empty());
        } else {
            cur.push(cs[i]);
        }
        i = i + 1;
    }
    let piece = string_of(cur.as_slice());
    let ghost before = done@;
    done.push(piece);
    assert(views(done@) =~= views(before).push(cur@));
    assert(s@.skip(i as int) =~= Seq::<char>::empty());
    done
}

/// `[String]::join(sep)`.
pub fn join(parts: &Vec<String>, sep: &str) -> (r: String)
    ensures
        r@ == join_spec(views(parts@), sep@),
{
    let mut r = String::new();
    let mut i: usize = 0;
    while i < parts.len()
        invariant
            i <= parts.len(),
            r@ == join_spec(views(parts@.take(i as int)), sep@),
        decreases parts.len() - i,
    {
        let ghost prev = views(parts@.take(i as int));
        if i > 0 {
            r.append(sep);
        }
        r.append(parts[i].as_str());
        i = i + 1;
        assert(views(parts@.take(i as int)).drop_last() =~= prev);
        assert(views(parts@.take(i as int)).last() == parts@[i - 1]@);
    }
    assert(parts@.take(parts.len() as int) =~= parts@);
    r
}

/// `s` with each occurrence of the non-empty `pat`, found left to right
/// without overlap, replaced by `to` (`str::replace`).
pub open spec fn replace_spec(s: Seq<char>, pat: Seq<char>, to: Seq<char>) -> Seq<char>
    decreases s.len(),
{
    if s.len() == 0 {
        Seq::empty()
    } else if pat.len() > 0 && is_prefix(pat, s) {
        to + replace_spec(s.skip(pat.len() as int), pat, to)
    } else {
        seq![s[0]] + replace_spec(s.drop_first(), pat, to)
    }
}

/// Whether `p` occurs in `cs` at index `i`.
fn occurs_at(cs: &Vec<char>, p: &Vec<char>, i: usize) -> (r: bool)
    requires
        i <= cs.len(),
    ensures
        r == is_prefix(p@, cs@.skip(i as int)),
{
    if p.len() > cs.len() - i {
        return false;
    }
    let mut j: usize = 0;
    while j < p.len()
        invariant
            i + p.len() <= cs.len(),
            j <= p.len(),
            forall|k: int| 0 <= k < j ==> cs@[i + k] == p@[k],
        decreases p.len() - j,
    {
        if cs[i + j] != p[j] {
            assert(cs@.skip(i as int).take(p@.len() as int)[j as int] != p@[j as int]);
            return false;
        }
        j = j + 1;
    }
    assert(cs@.skip(i as int).take(p@.len() as int) =~= p@);
    true
}

/// Every occurrence of the non-empty `pat` in `s`, left to right, replaced
/// by `to`.
pub(crate) fn replace_text(s: &str, pat: &str, to: &str) -> (r: String)
    requires
        pat@.len() > 0,
    ensures
        r@ == replace_spec(s@, pat@, to@),
{
    let cs = chars_of(s);
    let p = chars_of(pat);
    let t = chars_of(to);
    let mut out: Vec<char> = Vec::new();
    let mut i: usize = 0;
    assert(cs@.skip(0) =~= cs@);
    assert(out@ + replace_spec(cs@, p@, t@) =~= replace_spec(cs@, p@, t@));
    while i < cs.len()
        invariant
            cs@ == s@,
            p@ == pat@,
            t@ == to@,
            p@.len() > 0,
            i <= cs.len(),
            out@ + replace_spec(cs@.skip(i as int), p@, t@) == replace_spec(s@, pat@, to@),
        decreases cs.len() - i,
    {
        let ghost rest = cs@.skip(i as int);
        if occurs_at(&cs, &p, i) {
            let ghost before = out@;
            let mut k: usize = 0;
            while k < t.len()
                invariant
                    k <= t.len(),
                    out@ == before + t@.take(k as int),
                decreases t.len() - k,
            {
                out.push(t[k]);
                k = k + 1;
                assert(out@ =~= before + t@.take(k as int));
            }
            assert(t@.take(t.len() as int) =~= t@);
            assert(rest.skip(p@.len() as int) =~= cs@.skip(i + p.len()));
            assert(replace_spec(rest, p@, t@) == t@ + replace_spec(rest.skip(p@.len() as int), p@, t@));
            assert(before + (t@ + replace_spec(cs@.skip(i + p.len()), p@, t@)) =~= out@ + replace_spec(
                cs@.skip(i + p.len()),
                p@,
                t@,
            ));
            i = i + p.len();
        } else {
            let ghost before = out@;
            out.push(cs[i]);
            assert(rest.drop_first() =~= cs@.skip(i + 1));
            assert(rest[0] == cs@[i as int]);
            assert(replace_spec(rest, p@, t@) == seq![rest[0]] + replace_spec(rest.drop_first(), p@, t@));
            assert(before + (seq![cs@[i as int]] + replace_spec(cs@.skip(i + 1), p@, t@)) =~= out@
                + replace_spec(cs@.skip(i + 1), p@, t@));
            i = i + 1;
        }
    }
    assert(cs@.skip(i as int) =~= Seq::<char>::empty());
    assert(out@ + Seq::<char>::empty() =~= out@);
    string_of(out.as_slice())
}

/// Every occurrence of `from` in `s` replaced by `to`.
pub fn replace_char(s: &str, from: char, to: char) -> (r: String)
    ensures
        r@ == replace_char_spec(s@, from, to),
{
    let cs = chars_of(s);
    let mut out: Vec<char> = Vec::new();
    let mut i: usize = 0;
    while i < cs.len()
        invariant
            cs@ == s@,
            i <= cs.len(),
            out@ == replace_char_spec(s@.take(i as int), from, to),
        decreases cs.len() - i,
    {
        if cs[i] == from {
            out.push(to);
        } else {
            out.push(cs[i]);
        }
        i = i + 1;
        assert(out@ =~= replace_char_spec(s@.take(i as int), from, to));
    }
    assert(s@.take(cs.len() as int) =~= s@);
    string_of(out.as_slice())
}

/// The value of a text of decimal digits.
pub open spec fn decimal_value(ds: Seq<char>) -> int
    decreases ds.len(),
{
    if ds.len() == 0 {
        0
    } else {
        decimal_value(ds.drop_last()) * 10 + (ds.last() as int - '0' as int)
    }
}

/// Every character is an ASCII digit.
pub open spec fn all_digits(ds: Seq<char>) -> bool {
    forall|i: int| 0 <= i < ds.len() ==> '0' <= #[trigger] ds[i] <= '9'
}

/// What `u32::from_str` gives: an optional `+`, then one or more ASCII digits
/// whose value fits in a `u32`.
pub open spec fn u32_from_text(s: Seq<char>) -> Option<u32> {
    let ds = if s.len() > 0 && s[0] == '+' {
        s.drop_first()
    } else {
        s
    };
    if ds.len() > 0 && all_digits(ds) && decimal_value(ds) <= u32::MAX {
        Some(decimal_value(ds) as u32)
    } else {
        None
    }
}

/// What `bool::from_str` gives: `true` and `false`, nothing else.
pub open spec fn bool_from_text(s: Seq<char>) -> Option<bool> {
    if s == "true"@ {
        Some(true)
    } else if s == "false"@ {
        Some(false)
    } else {
        None
    }
}

proof fn lemma_decimal_grows(ds: Seq<char>, k: int)
    requires
        all_digits(ds),
        0 <= k <= ds.len(),
    ensures
        decimal_value(ds.take(k)) <= decimal_value(ds),
        decimal_value(ds.take(k)) >= 0,
    decreases ds.len() - k,
{
    if k < ds.len() {
        lemma_decimal_grows(ds, k + 1);
        assert(ds.take(k + 1).drop_last() =~= ds.take(k));
        assert(ds.take(k + 1).last() == ds[k]);
    } else {
        assert(ds.take(k) =~= ds);
    }
    lemma_decimal_nonneg(ds.take(k));
}

proof fn lemma_decimal_nonneg(ds: Seq<char>)
    requires
        all_digits(ds),
    ensures
        decimal_value(ds) >= 0,
    decreases ds.len(),
{
    if ds.len() > 0 {
        assert(all_digits(ds.drop_last()));
        lemma_decimal_nonneg(ds.drop_last());
        assert('0' <= ds[ds.len() - 1] <= '9');
    }
}

/// `u32::from_str`.
pub fn parse_u32(s: &str) -> (r: Option<u32>)
    ensures
        r == u32_from_text(s@),
{
    let cs = chars_of(s);
    let start: usize = if cs.len() > 0 && cs[0] == '+' {
        1
    } else {
        0
    };
    let ghost ds = if s@.len() > 0 && s@[0] == '+' {
        s@.drop_first()
    } else {
        s@
    };
    assert(ds =~= s@.skip(start as int));
    if start >= cs.len() {
        return None;
    }
    let mut value: u32 = 0;
    let mut i: usize = start;
    while i < cs.len()
        invariant
            start <= i <= cs.len(),
            cs@ == s@,
            ds == s@.skip(start as int),
            ds == (if s@.len() > 0 && s@[0] == '+' {
                s@.drop_first()
            } else {
                s@
            }),
            all_digits(ds.take(i - start)),
            value as int == decimal_value(ds.take(i - start)),
        decreases cs.len() - i,
    {
        let c = cs[i];
        assert(ds.take(i + 1 - start).drop_last() =~= ds.take(i - start));
        assert(ds.take(i + 1 - start).last() == c);
        if c < '0' || c > '9' {
            assert(ds[(i - start) as int] == cs@[i as int]);
            assert(!('0' <= ds[(i - start) as int] <= '9'));
            assert(!all_digits(ds));
            assert(u32_from_text(s@) is None);
            return None;
        }
        let d = (c as u32) - ('0' as u32);
        if value > 429496729 || (value == 429496729 && d > 5) {
            proof {
                assert(d as int == c as int - '0' as int);
                assert(decimal_value(ds.take(i + 1 - start)) == value * 10 + d);
                assert(decimal_value(ds.take(i + 1 - start)) > u32::MAX);
                if all_digits(ds) {
                    lemma_decimal_grows(ds, i + 1 - start);
                }
                assert(u32_from_text(s@) is None);
            }
            return None;
        }
        value = value * 10 + d;
        i = i + 1;
    }
    assert(ds.take(cs.len() - start) =~= ds);
    Some(value)
}

/// `bool::from_str`.
pub fn parse_bool(s: &str) -> (r: Option<bool>)
    ensures
        r == bool_from_text(s@),
{
    if same_text(s, "true") {
        Some(true)
    } else if same_text(s, "false") {
        Some(false)
    } else {
        None
    }
}

} // verus!
