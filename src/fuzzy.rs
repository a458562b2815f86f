//! The spellings under which a crate may be published: every choice of `-`
//! or `_` at the first ten separator positions of the requested name.
use crate::error::FetchError;
use vstd::arithmetic::power2::{lemma2_to64, lemma_pow2_unfold, pow2};
use vstd::prelude::*;

verus! {

/// At most this many separator positions are varied.
pub const MAX_VARIED: usize = 10;

pub open spec fn is_sep(c: char) -> bool {
    c == '-' || c == '_'
}

/// The number of separator characters in `s`.
pub open spec fn sep_count(s: Seq<char>) -> nat
    decreases s.len(),
{
    if s.len() == 0 {
        0
    } else {
        sep_count(s.drop_last()) + if is_sep(s.last()) {
            1nat
        } else {
            0nat
        }
    }
}

/// Position `p` of `s` is varied: it holds a separator, and fewer than ten
/// separators come before it.
pub open spec fn varied(s: Seq<char>, p: int) -> bool {
    is_sep(s[p]) && sep_count(s.take(p)) < MAX_VARIED
}

/// The number of varied positions of `s`.
pub open spec fn varied_count(s: Seq<char>) -> nat {
    if sep_count(s) < MAX_VARIED {
        sep_count(s)
    } else {
        MAX_VARIED as nat
    }
}

/// `t` is a spelling of `s`: it holds a separator at each varied position of
/// `s` and agrees with `s` everywhere else.
pub open spec fn is_variant(s: Seq<char>, t: Seq<char>) -> bool {
    &&& t.len() == s.len()
    &&& forall|p: int|
        0 <= p < s.len() ==> if varied(s, p) {
            is_sep(#[trigger] t[p])
        } else {
            t[p] == s[p]
        }
}

/// `t` is a spelling of `s` in which only the varied positions before `i`
/// may differ from `s`.
pub open spec fn is_variant_upto(s: Seq<char>, t: Seq<char>, i: int) -> bool {
    &&& t.len() == s.len()
    &&& forall|p: int|
        0 <= p < s.len() ==> if p < i && varied(s, p) {
            is_sep(#[trigger] t[p])
        } else {
            t[p] == s[p]
        }
}

pub open spec fn views_of(vs: Seq<Vec<char>>) -> Seq<Seq<char>> {
    vs.map_values(|v: Vec<char>| v@)
}

pub open spec fn string_views(vs: Seq<String>) -> Seq<Seq<char>> {
    vs.map_values(|v: String| v@)
}

/// The names are exactly the spellings of `s`, each once, `2^k` of them for
/// `k` varied positions.
pub open spec fn all_variants(s: Seq<char>, names: Seq<Seq<char>>) -> bool {
    &&& names.len() == pow2(varied_count(s))
    &&& names.no_duplicates()
    &&& forall|t: Seq<char>| #[trigger] names.contains(t) <==> is_variant(s, t)
}

/// Relies on `String: FromIterator<char>`: the characters in order.
#[verifier::external_body]
fn string_from_chars(v: &Vec<char>) -> (r: String)
    ensures
        r@ == v@,
{
    v.iter().collect()
}

fn chars_of(s: &String) -> (r: Vec<char>)
    ensures
        r@ == s@,
{
    let n = s.as_str().unicode_len();
    let mut r: Vec<char> = Vec::new();
    let mut i: usize = 0;
    while i < n
        invariant
            n == s@.len(),
            i <= n,
            r@ == s@.take(i as int),
        decreases n - i,
    {
        r.push(s.as_str().get_char(i));
        i = i + 1;
        assert(r@ =~= s@.take(i as int));
    }
    assert(r@ =~= s@);
    r
}

/// Each spelling twice: first with `_` at position `i`, then with `-`.
fn with_both_separators(cur: &Vec<Vec<char>>, i: usize) -> (r: Vec<Vec<char>>)
    requires
        cur@.len() <= 1024,
        forall|k: int| 0 <= k < cur@.len() ==> i < (#[trigger] cur@[k])@.len(),
    ensures
        r@.len() == 2 * cur@.len(),
        forall|k: int|
            0 <= k < cur@.len() ==> (#[trigger] r@[k])@ == cur@[k]@.update(i as int, '_'),
        forall|k: int|
            0 <= k < cur@.len() ==> (#[trigger] r@[k + cur@.len()])@ == cur@[k]@.update(
                i as int,
                '-',
            ),
{
    let n = cur.len();
    let mut r: Vec<Vec<char>> = Vec::new();
    let mut k: usize = 0;
    while k < 2 * n
        invariant
            n == cur@.len(),
            n <= 1024,
            k <= 2 * n,
            r@.len() == k,
            forall|j: int| 0 <= j < n ==> i < (#[trigger] cur@[j])@.len(),
            forall|j: int| 0 <= j < k && j < n ==> (#[trigger] r@[j])@ == cur@[j]@.update(i as int, '_'),
            forall|j: int|
                n <= j < k ==> (#[trigger] r@[j])@ == cur@[j - n]@.update(i as int, '-'),
        decreases 2 * n - k,
    {
        let (src, c) = if k < n {
            (k, '_')
        } else {
            (k - n, '-')
        };
        let mut v = cur[src].clone();
        assert(v@ == cur@[src as int]@);
        v.set(i, c);
        r.push(v);
        k = k + 1;
    }
    assert forall|j: int| 0 <= j < n implies (#[trigger] r@[j + n])@ == cur@[j]@.update(
        i as int,
        '-',
    ) by {
        assert(r@[j + n]@ == cur@[(j + n) - n]@.update(i as int, '-'));
    }
    r
}

pub(crate) proof fn lemma_sep_count_step(s: Seq<char>, i: int)
    requires
        0 <= i < s.len(),
    ensures
        sep_count(s.take(i + 1)) == sep_count(s.take(i)) + if is_sep(s[i]) {
            1nat
        } else {
            0nat
        },
{
    assert(s.take(i + 1).drop_last() =~= s.take(i));
}

/// Doubling the spellings at a varied position keeps them exact and distinct.
proof fn lemma_double(s: Seq<char>, old_names: Seq<Seq<char>>, new_names: Seq<Seq<char>>, i: int)
    requires
        0 <= i < s.len(),
        varied(s, i),
        old_names.no_duplicates(),
        forall|k: int| 0 <= k < old_names.len() ==> (#[trigger] old_names[k]).len() == s.len(),
        forall|t: Seq<char>| #[trigger] old_names.contains(t) <==> is_variant_upto(s, t, i),
        new_names.len() == 2 * old_names.len(),
        forall|k: int|
            0 <= k < old_names.len() ==> #[trigger] new_names[k] == old_names[k].update(i, '_'),
        forall|k: int|
            0 <= k < old_names.len() ==> #[trigger] new_names[k + old_names.len()]
                == old_names[k].update(i, '-'),
    ensures
        new_names.no_duplicates(),
        forall|k: int| 0 <= k < new_names.len() ==> (#[trigger] new_names[k]).len() == s.len(),
        forall|t: Seq<char>| #[trigger] new_names.contains(t) <==> is_variant_upto(s, t, i + 1),
{
    let n = old_names.len() as int;
    assert forall|a: int| 0 <= a < new_names.len() implies new_names[a] == old_names[if a < n {
        a
    } else {
        a - n
    }].update(i, if a < n {
        '_'
    } else {
        '-'
    }) by {
        if a >= n {
            let k = a - n;
            assert(new_names[k + old_names.len()] == old_names[k].update(i, '-'));
        }
    }
    assert forall|k: int| 0 <= k < new_names.len() implies (#[trigger] new_names[k]).len()
        == s.len() by {
        if k >= n {
            assert(old_names[k - n].len() == s.len());
        }
    }
    assert forall|k: int| 0 <= k < n implies is_variant_upto(s, #[trigger] old_names[k], i) by {
        assert(old_names.contains(old_names[k]));
    }
    assert forall|a: int, b: int|
        0 <= a < new_names.len() && 0 <= b < new_names.len() && a != b implies new_names[a]
        != new_names[b] by {
        let ka = if a < n {
            a
        } else {
            a - n
        };
        let kb = if b < n {
            b
        } else {
            b - n
        };
        let ca = if a < n {
            '_'
        } else {
            '-'
        };
        let cb = if b < n {
            '_'
        } else {
            '-'
        };
        assert(new_names[a] == old_names[ka].update(i, ca));
        assert(new_names[b] == old_names[kb].update(i, cb));
        assert(is_variant_upto(s, old_names[ka], i));
        assert(is_variant_upto(s, old_names[kb], i));
        if new_names[a] == new_names[b] {
            assert(new_names[a][i] == ca);
            assert(new_names[b][i] == cb);
            assert(ka != kb);
            assert(old_names[ka][i] == s[i]);
            assert(old_names[kb][i] == s[i]);
            assert forall|p: int| 0 <= p < old_names[ka].len() implies old_names[ka][p]
                == old_names[kb][p] by {
                if p != i {
                    assert(new_names[a][p] == old_names[ka][p]);
                    assert(new_names[b][p] == old_names[kb][p]);
                }
            }
            assert(old_names[ka] =~= old_names[kb]);
        }
    }
    assert forall|t: Seq<char>| #[trigger] new_names.contains(t) <==> is_variant_upto(s, t, i + 1) by {
        if new_names.contains(t) {
            let a = choose|a: int| 0 <= a < new_names.len() && new_names[a] == t;
            let ka = if a < n {
                a
            } else {
                a - n
            };
            let ca = if a < n {
                '_'
            } else {
                '-'
            };
            assert(t == old_names[ka].update(i, ca));
            assert(is_variant_upto(s, old_names[ka], i));
            assert forall|p: int| 0 <= p < s.len() implies if p < i + 1 && varied(s, p) {
                is_sep(#[trigger] t[p])
            } else {
                t[p] == s[p]
            } by {
                if p != i {
                    assert(t[p] == old_names[ka][p]);
                }
            }
        }
        if is_variant_upto(s, t, i + 1) {
            let u = t.update(i, s[i]);
            assert forall|p: int| 0 <= p < s.len() implies if p < i && varied(s, p) {
                is_sep(#[trigger] u[p])
            } else {
                u[p] == s[p]
            } by {
                if p != i {
                    assert(u[p] == t[p]);
                }
            }
            assert(old_names.contains(u));
            let k = choose|k: int| 0 <= k < n && old_names[k] == u;
            assert(is_sep(t[i]));
            if t[i] == '_' {
                assert(new_names[k] =~= t);
                assert(new_names.contains(t));
            } else {
                assert(new_names[k + n] =~= t);
                assert(new_names.contains(t));
            }
        }
    }
}

/// Every spelling of a crate name, in the order of a binary count over the
/// varied positions.
fn all_spellings(crate_name: &String) -> (r: Vec<String>)
    ensures
        all_variants(crate_name@, string_views(r@)),
{
    let ghost s = crate_name@;
    let chars = chars_of(crate_name);
    let n = chars.len();
    let mut cur: Vec<Vec<char>> = Vec::new();
    cur.push(chars.clone());
    let mut count: usize = 0;
    let mut i: usize = 0;
    proof {
        lemma2_to64();
        assert(views_of(cur@) =~= seq![s]);
        assert forall|t: Seq<char>| #[trigger] views_of(cur@).contains(t) <==> is_variant_upto(
            s,
            t,
            0,
        ) by {
            if is_variant_upto(s, t, 0) {
                assert(t =~= s);
                assert(views_of(cur@)[0] == s);
            }
        }
        assert(s.take(0) =~= Seq::<char>::empty());
    }
    while i < n
        invariant
            chars@ == s,
            n == s.len(),
            i <= n,
            count <= MAX_VARIED,
            count == (if sep_count(s.take(i as int)) < MAX_VARIED {
                sep_count(s.take(i as int))
            } else {
                MAX_VARIED as nat
            }),
            cur@.len() == pow2(count as nat),
            forall|k: int| 0 <= k < cur@.len() ==> (#[trigger] cur@[k])@.len() == n,
            views_of(cur@).no_duplicates(),
            forall|t: Seq<char>| #[trigger]
                views_of(cur@).contains(t) <==> is_variant_upto(s, t, i as int),
        decreases n - i,
    {
        proof {
            lemma_sep_count_step(s, i as int);
            lemma2_to64();
        }
        let c = chars[i];
        if (c == '-' || c == '_') && count < MAX_VARIED {
            proof {
                if count >= 1 {
                    vstd::arithmetic::power2::lemma_pow2_strictly_increases(count as nat, 10);
                }
            }
            let next = with_both_separators(&cur, i);
            proof {
                assert forall|k: int| 0 <= k < cur@.len() implies (#[trigger] views_of(cur@)[k]).len() == n by {
                    assert(cur@[k]@.len() == n);
                }
                lemma_double(s, views_of(cur@), views_of(next@), i as int);
                lemma_pow2_unfold((count + 1) as nat);
            }
            cur = next;
            count = count + 1;
            proof {
                assert forall|k: int| 0 <= k < cur@.len() implies (#[trigger] cur@[k])@.len() == n by {
                    assert(views_of(cur@)[k].len() == n);
                }
            }
        } else {
            proof {
                assert forall|t: Seq<char>|
                    is_variant_upto(s, t, i as int) <==> is_variant_upto(s, t, i + 1) by {
                    if is_variant_upto(s, t, i as int) {
                        assert forall|p: int| 0 <= p < s.len() implies if p < i + 1 && varied(s, p) {
                            is_sep(#[trigger] t[p])
                        } else {
                            t[p] == s[p]
                        } by {}
                    }
                    if is_variant_upto(s, t, i + 1) {
                        assert forall|p: int| 0 <= p < s.len() implies if p < i && varied(s, p) {
                            is_sep(#[trigger] t[p])
                        } else {
                            t[p] == s[p]
                        } by {}
                    }
                }
            }
            if c == '-' || c == '_' {
                assert(count == MAX_VARIED);
            }
        }
        i = i + 1;
    }
    proof {
        assert(s.take(n as int) =~= s);
    }
    let mut out: Vec<String> = Vec::new();
    let mut k: usize = 0;
    while k < cur.len()
        invariant
            k <= cur@.len(),
            out@.len() == k,
            forall|j: int| 0 <= j < k ==> (#[trigger] out@[j])@ == cur@[j]@,
        decreases cur@.len() - k,
    {
        out.push(string_from_chars(&cur[k]));
        k = k + 1;
    }
    proof {
        assert(string_views(out@) =~= views_of(cur@));
        assert forall|t: Seq<char>| is_variant_upto(s, t, n as int) == is_variant(s, t) by {}
    }
    out
}

/// Whether two strings hold the same characters.
pub fn same_text(a: &String, b: &String) -> (r: bool)
    ensures
        r == (a@ == b@),
{
    let n = a.as_str().unicode_len();
    if n != b.as_str().unicode_len() {
        return false;
    }
    let mut i: usize = 0;
    while i < n
        invariant
            n == a@.len() == b@.len(),
            i <= n,
            a@.take(i as int) == b@.take(i as int),
        decreases n - i,
    {
        if a.as_str().get_char(i) != b.as_str().get_char(i) {
            return false;
        }
        assert(a@.take(i + 1) =~= a@.take(i as int).push(a@[i as int]));
        assert(b@.take(i + 1) =~= b@.take(i as int).push(b@[i as int]));
        i = i + 1;
    }
    assert(a@ =~= a@.take(n as int));
    assert(b@ =~= b@.take(n as int));
    true
}

/// Generates every spelling of a crate name: each of the first ten `-` or
/// `_` characters is set to either separator in turn, all other characters
/// are kept. The name as requested comes first, so that it is tried first;
/// a name with no separator yields itself alone.
pub fn gen_fuzzy_crate_names(crate_name: String) -> (r: Result<Vec<String>, FetchError>)
    ensures
        r is Ok,
        all_variants(crate_name@, string_views(r->Ok_0@)),
        r->Ok_0@.len() > 0,
        r->Ok_0@[0]@ == crate_name@,
{
    let ghost s = crate_name@;
    let names = all_spellings(&crate_name);
    let crate_name = &crate_name;
    let ghost vs = string_views(names@);
    proof {
        assert(is_variant(s, s));
        assert(vs.contains(s));
    }
    let mut k: usize = 0;
    let mut found = false;
    while k < names.len() && !found
        invariant
            vs == string_views(names@),
            s == crate_name@,
            vs.contains(s),
            k <= names@.len(),
            found ==> k < names@.len() && vs[k as int] == s,
            !found ==> forall|j: int| 0 <= j < k ==> vs[j] != s,
        decreases names@.len() - k + if found { 0int } else { 1int },
    {
        assert(vs[k as int] == names@[k as int]@);
        let same = same_text(&names[k], crate_name);
        if same {
            found = true;
        } else {
            k = k + 1;
        }
    }
    if !found {
        let ghost j = choose|j: int| 0 <= j < vs.len() && vs[j] == s;
        assert(vs[j] != s);
    }
    assert(vs[k as int] == s);
    let mut out: Vec<String> = Vec::new();
    let mut j: usize = 0;
    while j < names.len()
        invariant
            vs == string_views(names@),
            k < names@.len(),
            j <= names@.len(),
            out@.len() == j,
            forall|m: int|
                0 <= m < j ==> (#[trigger] out@[m])@ == vs.update(0, vs[k as int]).update(
                    k as int,
                    vs[0],
                )[m],
        decreases names@.len() - j,
    {
        let idx = if j == 0 {
            k
        } else if j == k {
            0
        } else {
            j
        };
        out.push(names[idx].clone());
        j = j + 1;
    }
    proof {
        let ws = string_views(out@);
        assert(ws =~= vs.update(0, vs[k as int]).update(k as int, vs[0]));
        lemma_swap_keeps(vs, 0, k as int);
    }
    Ok(out)
}

/// Exchanging two entries keeps a list's length, its members and their
/// distinctness.
proof fn lemma_swap_keeps(vs: Seq<Seq<char>>, a: int, b: int)
    requires
        0 <= a < vs.len(),
        0 <= b < vs.len(),
        vs.no_duplicates(),
    ensures
        ({
            let ws = vs.update(a, vs[b]).update(b, vs[a]);
            &&& ws.len() == vs.len()
            &&& ws.no_duplicates()
            &&& forall|t: Seq<char>| #[trigger] ws.contains(t) <==> vs.contains(t)
        }),
{
    let ws = vs.update(a, vs[b]).update(b, vs[a]);
    let perm = |i: int|
        if i == a {
            b
        } else if i == b {
            a
        } else {
            i
        };
    assert forall|i: int| 0 <= i < ws.len() implies ws[i] == vs[perm(i)] by {}
    assert forall|t: Seq<char>| #[trigger] ws.contains(t) <==> vs.contains(t) by {
        if ws.contains(t) {
            let i = choose|i: int| 0 <= i < ws.len() && ws[i] == t;
            assert(vs[perm(i)] == t);
        }
        if vs.contains(t) {
            let i = choose|i: int| 0 <= i < vs.len() && vs[i] == t;
            assert(ws[perm(i)] == t);
        }
    }
}

} // verus!
