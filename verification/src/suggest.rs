//! "Did you mean" suggestions for an unbound name: the names in scope
//! within a small edit distance of it, closest first.

use vstd::prelude::*;
use vstd::relations::{sorted_by, total_ordering};

use crate::text::{chars_of, owned, push_str, spec_join};
use crate::ty::string_clone;

verus! {

/// The Levenshtein distance: the least number of single-character
/// insertions, deletions and substitutions that turn `a` into `b`.
pub open spec fn lev(a: Seq<char>, b: Seq<char>) -> nat
    decreases a.len() + b.len(),
{
    if a.len() == 0 {
        b.len()
    } else if b.len() == 0 {
        a.len()
    } else {
        let x = lev(a.drop_last(), b) + 1;
        let y = lev(a, b.drop_last()) + 1;
        let z = lev(a.drop_last(), b.drop_last()) + if a.last() == b.last() {
            0nat
        } else {
            1nat
        };
        if x <= y && x <= z {
            x
        } else if y <= z {
            y
        } else {
            z
        }
    }
}

proof fn lemma_lev_bound(a: Seq<char>, b: Seq<char>)
    ensures
        lev(a, b) <= if a.len() >= b.len() {
            a.len()
        } else {
            b.len()
        },
    decreases a.len() + b.len(),
{
    if a.len() > 0 && b.len() > 0 {
        lemma_lev_bound(a.drop_last(), b.drop_last());
    }
}

/// The edit distance between `a` and `b`, row by row.
fn levenshtein(a: &Vec<char>, b: &Vec<char>) -> (r: usize)
    requires
        a@.len() < usize::MAX,
        b@.len() < usize::MAX,
    ensures
        r == lev(a@, b@),
{
    let m = a.len();
    let n = b.len();
    if m == 0 {
        return n;
    }
    if n == 0 {
        return m;
    }
    let mut prev: Vec<usize> = Vec::new();
    let mut j: usize = 0;
    while j <= n
        invariant
            j <= n + 1,
            n == b@.len(),
            n < usize::MAX,
            prev@.len() == j,
            forall|q: int| 0 <= q < j ==> prev@[q] == lev(a@.take(0), b@.take(q)),
        decreases n + 1 - j,
    {
        assert(lev(a@.take(0), b@.take(j as int)) == j) by {
            assert(a@.take(0).len() == 0);
        }
        prev.push(j);
        j += 1;
    }
    let mut curr: Vec<usize> = Vec::new();
    let mut j: usize = 0;
    while j <= n
        invariant
            j <= n + 1,
            n < usize::MAX,
            curr@.len() == j,
        decreases n + 1 - j,
    {
        curr.push(0);
        j += 1;
    }
    let mut i: usize = 1;
    while i <= m
        invariant
            1 <= i <= m + 1,
            m == a@.len(),
            n == b@.len(),
            0 < m < usize::MAX,
            0 < n < usize::MAX,
            prev@.len() == n + 1,
            curr@.len() == n + 1,
            forall|q: int| 0 <= q <= n ==> prev@[q] == lev(a@.take(i - 1), b@.take(q)),
        decreases m + 1 - i,
    {
        proof {
            assert(lev(a@.take(i as int), b@.take(0)) == i) by {
                assert(b@.take(0).len() == 0);
            }
        }
        curr.set(0, i);
        let mut j: usize = 1;
        while j <= n
            invariant
                1 <= i <= m,
                1 <= j <= n + 1,
                m == a@.len(),
                n == b@.len(),
                0 < m < usize::MAX,
                0 < n < usize::MAX,
                prev@.len() == n + 1,
                curr@.len() == n + 1,
                forall|q: int| 0 <= q <= n ==> prev@[q] == lev(a@.take(i - 1), b@.take(q)),
                forall|q: int| 0 <= q < j ==> curr@[q] == lev(a@.take(i as int), b@.take(q)),
            decreases n + 1 - j,
        {
            let ghost ai = a@.take(i as int);
            let ghost bj = b@.take(j as int);
            proof {
                assert(ai.drop_last() =~= a@.take(i - 1));
                assert(bj.drop_last() =~= b@.take(j - 1));
                assert(ai.last() == a@[i - 1]);
                assert(bj.last() == b@[j - 1]);
                lemma_lev_bound(a@.take(i - 1), b@.take(j as int));
                lemma_lev_bound(ai, b@.take(j - 1));
                lemma_lev_bound(a@.take(i - 1), b@.take(j - 1));
            }
            let cost: usize = if a[i - 1] == b[j - 1] {
                0
            } else {
                1
            };
            let x = prev[j] + 1;
            let y = curr[j - 1] + 1;
            let z = prev[j - 1] + cost;
            let v = if x <= y && x <= z {
                x
            } else if y <= z {
                y
            } else {
                z
            };
            assert(v == lev(ai, bj));
            curr.set(j, v);
            j += 1;
        }
        std::mem::swap(&mut prev, &mut curr);
        i += 1;
    }
    assert(a@.take(m as int) =~= a@);
    assert(b@.take(n as int) =~= b@);
    prev[n]
}

// ── ordering suggestions ────────────────────────────────────────────

/// `a` comes before `b`, or equals it, in the order of characters: the
/// order in which `str` compares.
pub open spec fn name_le(a: Seq<char>, b: Seq<char>) -> bool
    decreases a.len(),
{
    if a.len() == 0 {
        true
    } else if b.len() == 0 {
        false
    } else if a[0] != b[0] {
        a[0] < b[0]
    } else {
        name_le(a.drop_first(), b.drop_first())
    }
}

/// Suggestions are ordered by distance, then by name.
pub open spec fn key_le(x: (nat, Seq<char>), y: (nat, Seq<char>)) -> bool {
    x.0 < y.0 || (x.0 == y.0 && name_le(x.1, y.1))
}

proof fn lemma_name_le_refl(a: Seq<char>)
    ensures
        name_le(a, a),
    decreases a.len(),
{
    if a.len() > 0 {
        lemma_name_le_refl(a.drop_first());
    }
}

proof fn lemma_name_le_antisym(a: Seq<char>, b: Seq<char>)
    requires
        name_le(a, b),
        name_le(b, a),
    ensures
        a == b,
    decreases a.len(),
{
    if a.len() > 0 && b.len() > 0 {
        lemma_name_le_antisym(a.drop_first(), b.drop_first());
        assert(a =~= seq![a[0]] + a.drop_first());
        assert(b =~= seq![b[0]] + b.drop_first());
    } else {
        assert(a =~= b);
    }
}

proof fn lemma_name_le_trans(a: Seq<char>, b: Seq<char>, c: Seq<char>)
    requires
        name_le(a, b),
        name_le(b, c),
    ensures
        name_le(a, c),
    decreases a.len(),
{
    if a.len() > 0 && b.len() > 0 && c.len() > 0 && a[0] == b[0] && b[0] == c[0] {
        lemma_name_le_trans(a.drop_first(), b.drop_first(), c.drop_first());
    }
}

proof fn lemma_name_le_total(a: Seq<char>, b: Seq<char>)
    ensures
        name_le(a, b) || name_le(b, a),
    decreases a.len(),
{
    if a.len() > 0 && b.len() > 0 && a[0] == b[0] {
        lemma_name_le_total(a.drop_first(), b.drop_first());
    }
}

proof fn lemma_key_le_total_ordering()
    ensures
        total_ordering(|x: (nat, Seq<char>), y: (nat, Seq<char>)| key_le(x, y)),
{
    let r = |x: (nat, Seq<char>), y: (nat, Seq<char>)| key_le(x, y);
    assert forall|x: (nat, Seq<char>)| #[trigger] r(x, x) by {
        lemma_name_le_refl(x.1);
    }
    assert forall|x: (nat, Seq<char>), y: (nat, Seq<char>)| #[trigger] r(x, y) && #[trigger] r(y, x) implies x
        == y by {
        lemma_name_le_antisym(x.1, y.1);
    }
    assert forall|x: (nat, Seq<char>), y: (nat, Seq<char>), z: (nat, Seq<char>)| #[trigger] r(x, y)
        && #[trigger] r(y, z) implies r(x, z) by {
        if x.0 == y.0 && y.0 == z.0 {
            lemma_name_le_trans(x.1, y.1, z.1);
        }
    }
    assert forall|x: (nat, Seq<char>), y: (nat, Seq<char>)| #[trigger] r(x, y) || #[trigger] r(y, x) by {
        lemma_name_le_total(x.1, y.1);
    }
}

fn name_le_exec(a: &Vec<char>, b: &Vec<char>) -> (r: bool)
    ensures
        r == name_le(a@, b@),
{
    let mut i: usize = 0;
    assert(a@.skip(0) =~= a@);
    assert(b@.skip(0) =~= b@);
    while i < a.len() && i < b.len() && a[i] == b[i]
        invariant
            i <= a@.len(),
            i <= b@.len(),
            name_le(a@, b@) == name_le(a@.skip(i as int), b@.skip(i as int)),
        decreases a@.len() - i,
    {
        assert(a@.skip(i as int).drop_first() =~= a@.skip(i + 1));
        assert(b@.skip(i as int).drop_first() =~= b@.skip(i + 1));
        i += 1;
    }
    if i == a.len() {
        true
    } else if i == b.len() {
        false
    } else {
        a[i] < b[i]
    }
}

/// A name with its distance, and its characters for comparing.
struct Suggestion {
    dist: usize,
    name: String,
    chars: Vec<char>,
}

spec fn sugg_view(s: Suggestion) -> (nat, Seq<char>) {
    (s.dist as nat, s.name@)
}

spec fn suggs_view(v: Seq<Suggestion>) -> Seq<(nat, Seq<char>)> {
    v.map_values(|s: Suggestion| sugg_view(s))
}

fn key_le_exec(x: &Suggestion, y: &Suggestion) -> (r: bool)
    requires
        x.chars@ == x.name@,
        y.chars@ == y.name@,
    ensures
        r == key_le(sugg_view(*x), sugg_view(*y)),
{
    x.dist < y.dist || (x.dist == y.dist && name_le_exec(&x.chars, &y.chars))
}

/// The candidates within `max_dist` of `name` (and not equal to it), with
/// their distances, in the order given.
pub open spec fn kept(name: Seq<char>, cands: Seq<Seq<char>>, max_dist: nat) -> Seq<(nat, Seq<char>)>
    decreases cands.len(),
{
    if cands.len() == 0 {
        Seq::empty()
    } else {
        let rest = kept(name, cands.drop_last(), max_dist);
        let d = lev(name, cands.last());
        if 0 < d <= max_dist {
            rest.push((d, cands.last()))
        } else {
            rest
        }
    }
}

/// The distance allowed: a third of the name's length in bytes, and at
/// least 2.
pub open spec fn max_dist_for(name: &str) -> nat {
    if name.len() / 3 >= 2 {
        (name.len() / 3) as nat
    } else {
        2
    }
}

/// The message for the ordered suggestions `l`: the first three, quoted.
pub open spec fn suggestion_text(l: Seq<(nat, Seq<char>)>) -> Seq<char> {
    let top = if l.len() > 3 {
        l.take(3)
    } else {
        l
    };
    "você quis dizer "@ + spec_join(Seq::new(top.len(), |k: int| "`"@ + top[k].1 + "`"@), ", "@) + "?"@
}

/// `m` suggests the ordering `l` of the kept candidates `f`.
pub open spec fn suggests(m: Seq<char>, f: Seq<(nat, Seq<char>)>, l: Seq<(nat, Seq<char>)>) -> bool {
    &&& sorted_by(l, |x: (nat, Seq<char>), y: (nat, Seq<char>)| key_le(x, y))
    &&& l.to_multiset() == f.to_multiset()
    &&& m == suggestion_text(l)
}

/// Suggests names in scope close to an unbound `name`: those at an edit
/// distance from 1 to [`max_dist_for`], closest first and then in name
/// order, at most three. `None` when there is none.
pub fn suggest_similar(name: &str, candidates: &Vec<String>) -> (r: Option<String>)
    requires
        name@.len() < usize::MAX,
        forall|i: int| 0 <= i < candidates@.len() ==> (#[trigger] candidates@[i])@.len() < usize::MAX,
    ensures
        r is None <==> kept(name@, crate::text::names_view(candidates@), max_dist_for(name)).len() == 0,
        r matches Some(m) ==> exists|l: Seq<(nat, Seq<char>)>|
            #[trigger] suggests(m@, kept(name@, crate::text::names_view(candidates@), max_dist_for(name)), l),
{
    let ghost cands = crate::text::names_view(candidates@);
    let bytes = name.len();
    let third = bytes / 3;
    let max_dist: usize = if third >= 2 {
        third
    } else {
        2
    };
    let name_chars = chars_of(name);
    let mut best: Vec<Suggestion> = Vec::new();
    proof {
        lemma_key_le_total_ordering();
        assert(cands.take(0) =~= Seq::<Seq<char>>::empty());
        assert(suggs_view(best@) =~= Seq::<(nat, Seq<char>)>::empty());
    }
    let mut i: usize = 0;
    while i < candidates.len()
        invariant
            i <= candidates@.len(),
            cands == crate::text::names_view(candidates@),
            name_chars@ == name@,
            name@.len() < usize::MAX,
            forall|q: int| 0 <= q < candidates@.len() ==> (#[trigger] candidates@[q])@.len() < usize::MAX,
            max_dist == max_dist_for(name),
            forall|q: int| 0 <= q < best@.len() ==> (#[trigger] best@[q]).chars@ == best@[q].name@,
            sorted_by(suggs_view(best@), |x: (nat, Seq<char>), y: (nat, Seq<char>)| key_le(x, y)),
            suggs_view(best@).to_multiset() == kept(name@, cands.take(i as int), max_dist as nat).to_multiset(),
            total_ordering(|x: (nat, Seq<char>), y: (nat, Seq<char>)| key_le(x, y)),
        decreases candidates@.len() - i,
    {
        let cand_chars = chars_of(candidates[i].as_str());
        let dist = levenshtein(&name_chars, &cand_chars);
        let ghost kept_before = kept(name@, cands.take(i as int), max_dist as nat);
        proof {
            let t = cands.take(i + 1);
            assert(t.drop_last() =~= cands.take(i as int));
            assert(t.last() == candidates@[i as int]@);
            assert(cands[i as int] == candidates@[i as int]@);
        }
        if dist <= max_dist && dist > 0 {
            let x = Suggestion { dist, name: string_clone(&candidates[i]), chars: cand_chars };
            let mut p: usize = 0;
            while p < best.len() && key_le_exec(&best[p], &x)
                invariant
                    p <= best@.len(),
                    x.chars@ == x.name@,
                    forall|q: int| 0 <= q < best@.len() ==> (#[trigger] best@[q]).chars@ == best@[q].name@,
                    forall|q: int| 0 <= q < p ==> key_le(sugg_view(#[trigger] best@[q]), sugg_view(x)),
                decreases best@.len() - p,
            {
                p += 1;
            }
            let ghost old_best = best@;
            let ghost xv = sugg_view(x);
            best.insert(p, x);
            proof {
                let r = |a: (nat, Seq<char>), b: (nat, Seq<char>)| key_le(a, b);
                let ov = suggs_view(old_best);
                let nv = suggs_view(best@);
                assert(nv =~= ov.insert(p as int, xv));
                vstd::seq_lib::to_multiset_insert(ov, p as int, xv);
                assert(kept(name@, cands.take(i + 1), max_dist as nat) == kept_before.push(xv));
                vstd::seq_lib::to_multiset_build(kept_before, xv);
                if p < old_best.len() {
                    assert(!key_le(ov[p as int], xv));
                    assert(r(ov[p as int], xv) || r(xv, ov[p as int]));
                }
                assert forall|a: int, b: int| 0 <= a < b < nv.len() implies #[trigger] r(nv[a], nv[b]) by {
                    if b < p {
                        assert(r(ov[a], ov[b]));
                    } else if b == p {
                        assert(key_le(ov[a], xv));
                    } else if a == p {
                        assert(r(xv, ov[p as int]));
                        if b - 1 > p {
                            assert(r(ov[p as int], ov[b - 1]));
                        }
                    } else if a < p {
                        assert(r(ov[a], ov[b - 1]));
                    } else {
                        assert(r(ov[a - 1], ov[b - 1]));
                    }
                }
            }
        } else {
            assert(kept(name@, cands.take(i + 1), max_dist as nat) == kept_before);
        }
        i += 1;
    }
    assert(cands.take(candidates@.len() as int) =~= cands);
    if best.len() == 0 {
        proof {
            vstd::seq_lib::to_multiset_len(suggs_view(best@));
            vstd::seq_lib::to_multiset_len(kept(name@, cands, max_dist as nat));
        }
        return None;
    }
    let n_top: usize = if best.len() > 3 {
        3
    } else {
        best.len()
    };
    let ghost l = suggs_view(best@);
    let ghost top = if l.len() > 3 {
        l.take(3)
    } else {
        l
    };
    let mut quoted: Vec<String> = Vec::new();
    let mut k: usize = 0;
    while k < n_top
        invariant
            k <= n_top,
            n_top <= best@.len(),
            l == suggs_view(best@),
            top.len() == n_top,
            forall|q: int| 0 <= q < n_top ==> #[trigger] top[q] == l[q],
            crate::text::names_view(quoted@) == Seq::new(k as nat, |q: int| "`"@ + top[q].1 + "`"@),
        decreases n_top - k,
    {
        let mut qs = owned("`");
        push_str(&mut qs, best[k].name.as_str());
        push_str(&mut qs, "`");
        let ghost before = quoted@;
        assert(before.len() == k) by {
            assert(crate::text::names_view(before).len() == before.len());
        }
        quoted.push(qs);
        proof {
            assert(top[k as int] == l[k as int]);
            assert forall|q: int| 0 <= q < k + 1 implies #[trigger] crate::text::names_view(quoted@)[q]
                == Seq::new((k + 1) as nat, |q: int| "`"@ + top[q].1 + "`"@)[q] by {
                if q < k {
                    assert(quoted@[q] == before[q]);
                    assert(crate::text::names_view(before)[q] == Seq::new(k as nat, |q: int| "`"@ + top[q].1 + "`"@)[q]);
                }
            }
            assert(crate::text::names_view(quoted@) =~= Seq::new((k + 1) as nat, |q: int| "`"@ + top[q].1 + "`"@));
        }
        k += 1;
    }
    let joined = crate::text::join_strings(&quoted, ", ");
    let mut msg = owned("você quis dizer ");
    push_str(&mut msg, joined.as_str());
    push_str(&mut msg, "?");
    proof {
        assert(crate::text::names_view(quoted@) =~= Seq::new(top.len(), |q: int| "`"@ + top[q].1 + "`"@));
        assert(suggests(msg@, kept(name@, cands, max_dist as nat), l));
        vstd::seq_lib::to_multiset_len(l);
        vstd::seq_lib::to_multiset_len(kept(name@, cands, max_dist as nat));
    }
    let ghost mv = msg@;
    let res = Some(msg);
    assert(res->0@ == mv);
    assert(suggests(
        res->0@,
        kept(name@, cands, max_dist as nat),
        choose|l2: Seq<(nat, Seq<char>)>| suggests(mv, kept(name@, cands, max_dist as nat), l2),
    ));
    res
}

/// The suggestion is determined by the candidates kept: any two orderings
/// of them by distance and name give the same message, so the message does
/// not depend on the order in which the candidates come.
pub proof fn law_suggestion_deterministic(
    m1: Seq<char>,
    m2: Seq<char>,
    f: Seq<(nat, Seq<char>)>,
    l1: Seq<(nat, Seq<char>)>,
    l2: Seq<(nat, Seq<char>)>,
)
    requires
        suggests(m1, f, l1),
        suggests(m2, f, l2),
    ensures
        m1 == m2,
{
    lemma_key_le_total_ordering();
    vstd::seq_lib::lemma_sorted_unique(l1, l2, |x: (nat, Seq<char>), y: (nat, Seq<char>)| key_le(x, y));
}

} // verus!
