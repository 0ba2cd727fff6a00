//! The one-shot migration from the legacy schema generation to the current
//! one.
//!
//! The legacy layout keeps, per jar, a flat name list per meal and the
//! pending-shop pointer. Migration reads that shape exhaustively and
//! re-emits it through the current write path: every distinct name becomes
//! one place registered under the meals it appeared in, and the pointer is
//! carried over. Running it twice would duplicate data, so callers must
//! gate it explicitly.

use vstd::prelude::*;
use crate::meal::Meal;
use crate::store::{spec_filter_keys, svs};
use crate::strutil::str_eq;

verus! {

/// One jar's content under the legacy schema generation: the pending
/// pointer and the name list of each meal bucket.
#[derive(Debug, Clone)]
pub struct LegacyJar {
    pub pending_shop: Option<String>,
    pub lunch: Vec<String>,
    pub dinner: Vec<String>,
}

/// What migrating one jar writes through the current schema: the pointer
/// to carry over, and each distinct name with the meals to register it
/// under.
#[derive(Debug)]
pub struct MigrationPlan {
    pub current_draw: Option<String>,
    pub shops: Vec<(String, Vec<Meal>)>,
}

/// The distinct elements of `s`, each at its first appearance, in order.
pub open spec fn spec_unique(s: Seq<Seq<char>>) -> Seq<Seq<char>>
    decreases s.len(),
{
    if s.len() == 0 {
        Seq::<Seq<char>>::empty()
    } else {
        spec_unique(s.drop_last()) + (if s.drop_last().contains(s.last()) {
            Seq::<Seq<char>>::empty()
        } else {
            seq![s.last()]
        })
    }
}

/// Deduplication keeps exactly the members.
pub proof fn lemma_unique_mem(s: Seq<Seq<char>>)
    ensures
        forall|x: Seq<char>| #[trigger] spec_unique(s).contains(x) <==> s.contains(x),
    decreases s.len(),
{
    if s.len() > 0 {
        lemma_unique_mem(s.drop_last());
        assert forall|x: Seq<char>| #[trigger]
            spec_unique(s).contains(x) <==> s.contains(x) by {
            let u = spec_unique(s);
            let up = spec_unique(s.drop_last());
            if u.contains(x) {
                let i = choose|i: int| 0 <= i < u.len() && u[i] == x;
                if i < up.len() {
                    assert(up.contains(x)) by {
                        assert(up[i] == x);
                    }
                    assert(s.drop_last().contains(x));
                    let j = choose|j: int|
                        0 <= j < s.drop_last().len() && (#[trigger] s.drop_last()[j]) == x;
                    assert(s[j] == x);
                    assert(s.contains(x));
                } else {
                    assert(x == s.last());
                    assert(s[s.len() - 1] == x);
                    assert(s.contains(x));
                }
            }
            if s.contains(x) {
                let i = choose|i: int| 0 <= i < s.len() && s[i] == x;
                if i < s.len() - 1 {
                    assert(s.drop_last()[i] == x);
                    assert(s.drop_last().contains(x));
                    assert(up.contains(x));
                    let j = choose|j: int| 0 <= j < up.len() && up[j] == x;
                    assert(u[j] == x);
                    assert(u.contains(x));
                } else {
                    assert(s.last() == x);
                    if s.drop_last().contains(x) {
                        assert(up.contains(x));
                        let j = choose|j: int| 0 <= j < up.len() && up[j] == x;
                        assert(u[j] == x);
                        assert(u.contains(x));
                    } else {
                        assert(u[u.len() - 1] == x);
                        assert(u.contains(x));
                    }
                }
            }
        }
    }
}

/// The meals a name is registered under: lunch first, then dinner.
pub open spec fn spec_meals_for(
    lunch: Seq<Seq<char>>,
    dinner: Seq<Seq<char>>,
    name: Seq<char>,
) -> Seq<Meal> {
    (if lunch.contains(name) {
        seq![Meal::Lunch]
    } else {
        Seq::<Meal>::empty()
    }) + (if dinner.contains(name) {
        seq![Meal::Dinner]
    } else {
        Seq::<Meal>::empty()
    })
}

/// One plan entry for a name.
pub open spec fn spec_shop_entry(lunch: Seq<Seq<char>>, dinner: Seq<Seq<char>>) -> spec_fn(
    Seq<char>,
) -> (Seq<char>, Seq<Meal>) {
    |n: Seq<char>| (n, spec_meals_for(lunch, dinner, n))
}

/// The shop list of a migration plan.
pub open spec fn spec_migration_shops(lunch: Seq<Seq<char>>, dinner: Seq<Seq<char>>) -> Seq<
    (Seq<char>, Seq<Meal>),
> {
    spec_unique(lunch + dinner).map_values(spec_shop_entry(lunch, dinner))
}

pub open spec fn shops_view(s: Seq<(String, Vec<Meal>)>) -> Seq<(Seq<char>, Seq<Meal>)> {
    s.map_values(|e: (String, Vec<Meal>)| (e.0@, e.1@))
}

/// Whether a name list holds `x`.
fn vec_contains_str(v: &Vec<String>, x: &str) -> (r: bool)
    ensures
        r == svs(v@).contains(x@),
{
    let n = v.len();
    let mut i: usize = 0;
    while i < n
        invariant
            0 <= i <= n,
            n == v@.len(),
            forall|j: int| 0 <= j < i ==> svs(v@)[j] != x@,
        decreases n - i,
    {
        if str_eq(v[i].as_str(), x) {
            proof {
                assert(svs(v@)[i as int] == x@);
                assert(svs(v@).contains(x@));
            }
            return true;
        }
        i += 1;
    }
    proof {
        if svs(v@).contains(x@) {
            let j = choose|j: int| 0 <= j < svs(v@).len() && svs(v@)[j] == x@;
        }
    }
    false
}

/// Whether the plan already holds a shop of this name.
fn shops_contain(shops: &Vec<(String, Vec<Meal>)>, name: &str) -> (r: bool)
    ensures
        r == exists|j: int|
            0 <= j < shops@.len() && (#[trigger] shops_view(shops@)[j].0) == name@,
{
    let n = shops.len();
    let mut i: usize = 0;
    while i < n
        invariant
            0 <= i <= n,
            n == shops@.len(),
            forall|j: int| 0 <= j < i ==> (#[trigger] shops_view(shops@)[j].0) != name@,
        decreases n - i,
    {
        if str_eq(shops[i].0.as_str(), name) {
            proof {
                assert(shops_view(shops@)[i as int].0 == name@);
            }
            return true;
        }
        i += 1;
    }
    false
}

/// Builds the meal list of one name.
fn meals_for(lunch: &Vec<String>, dinner: &Vec<String>, name: &str) -> (r: Vec<Meal>)
    ensures
        r@ == spec_meals_for(svs(lunch@), svs(dinner@), name@),
{
    let mut m: Vec<Meal> = Vec::new();
    if vec_contains_str(lunch, name) {
        m.push(Meal::Lunch);
    }
    if vec_contains_str(dinner, name) {
        m.push(Meal::Dinner);
    }
    proof {
        assert(m@ =~= spec_meals_for(svs(lunch@), svs(dinner@), name@));
    }
    m
}

/// Folds one name into the plan: a first appearance is pushed with its
/// meals, a repeat is skipped.
fn plan_push(
    shops: &mut Vec<(String, Vec<Meal>)>,
    lunch: &Vec<String>,
    dinner: &Vec<String>,
    name: &String,
    Ghost(prefix): Ghost<Seq<Seq<char>>>,
)
    requires
        shops_view(old(shops)@) == spec_unique(prefix).map_values(
            spec_shop_entry(svs(lunch@), svs(dinner@)),
        ),
    ensures
        shops_view(final(shops)@) == spec_unique(prefix.push(name@)).map_values(
            spec_shop_entry(svs(lunch@), svs(dinner@)),
        ),
{
    let ghost l = svs(lunch@);
    let ghost d = svs(dinner@);
    let ghost f = spec_shop_entry(l, d);
    let ghost u = spec_unique(prefix);
    let ghost pre = shops_view(shops@);
    let present = shops_contain(shops, name.as_str());
    proof {
        lemma_unique_mem(prefix);
        assert(shops_view(shops@) == u.map_values(f));
        assert(u.map_values(f).len() == u.len());
        assert(present == prefix.contains(name@)) by {
            if present {
                let j = choose|j: int|
                    0 <= j < shops@.len() && (#[trigger] shops_view(shops@)[j].0) == name@;
                assert(u.map_values(f)[j] == f(u[j]));
                assert(u[j] == name@);
                assert(u.contains(name@)) by {
                    assert(u[j] == name@);
                }
            }
            if prefix.contains(name@) {
                assert(u.contains(name@));
                let j = choose|j: int| 0 <= j < u.len() && u[j] == name@;
                assert(u.map_values(f)[j] == f(u[j]));
                assert(shops_view(shops@)[j].0 == name@);
            }
        }
        assert(prefix.push(name@).drop_last() =~= prefix);
        assert(prefix.push(name@).last() == name@);
    }
    if !present {
        let meals = meals_for(lunch, dinner, name.as_str());
        shops.push((name.clone(), meals));
        proof {
            assert(shops_view(shops@) =~= pre.push((name@, spec_meals_for(l, d, name@))));
            assert(spec_unique(prefix.push(name@)) =~= u.push(name@));
            assert(shops_view(shops@) =~= spec_unique(prefix.push(name@)).map_values(f));
        }
    } else {
        proof {
            assert(spec_unique(prefix.push(name@)) =~= u);
        }
    }
}

/// Plans the migration of one legacy jar: the pointer is carried over, and
/// every distinct name of the two buckets becomes one shop with the meals
/// it appeared under.
pub fn migrate_entry(legacy: &LegacyJar) -> (r: MigrationPlan)
    ensures
        match r.current_draw {
            Some(ref c) => legacy.pending_shop matches Some(p) && p@ == c@,
            None => legacy.pending_shop is None,
        },
        shops_view(r.shops@) == spec_migration_shops(svs(legacy.lunch@), svs(legacy.dinner@)),
{
    let ghost l = svs(legacy.lunch@);
    let ghost d = svs(legacy.dinner@);
    let mut shops: Vec<(String, Vec<Meal>)> = Vec::new();
    let lunch_len = legacy.lunch.len();
    let dinner_len = legacy.dinner.len();
    let mut i: usize = 0;
    proof {
        assert(l.take(0) =~= Seq::<Seq<char>>::empty());
        assert(shops_view(shops@) =~= spec_unique(l.take(0)).map_values(spec_shop_entry(l, d)));
    }
    while i < lunch_len
        invariant
            0 <= i <= lunch_len,
            lunch_len == legacy.lunch@.len(),
            l == svs(legacy.lunch@),
            d == svs(legacy.dinner@),
            shops_view(shops@) == spec_unique(l.take(i as int)).map_values(
                spec_shop_entry(l, d),
            ),
        decreases lunch_len - i,
    {
        proof {
            assert(l.take(i as int).push(l[i as int]) =~= l.take(i + 1));
        }
        plan_push(
            &mut shops,
            &legacy.lunch,
            &legacy.dinner,
            &legacy.lunch[i],
            Ghost(l.take(i as int)),
        );
        i += 1;
    }
    proof {
        assert(l.take(lunch_len as int) =~= l);
        assert(l =~= (l + d).take(l.len() as int));
    }
    let mut j: usize = 0;
    while j < dinner_len
        invariant
            0 <= j <= dinner_len,
            dinner_len == legacy.dinner@.len(),
            l == svs(legacy.lunch@),
            d == svs(legacy.dinner@),
            shops_view(shops@) == spec_unique((l + d).take(l.len() + j)).map_values(
                spec_shop_entry(l, d),
            ),
        decreases dinner_len - j,
    {
        proof {
            assert((l + d).take(l.len() + j).push(d[j as int]) =~= (l + d).take(
                l.len() + j + 1,
            ));
        }
        plan_push(
            &mut shops,
            &legacy.lunch,
            &legacy.dinner,
            &legacy.dinner[j],
            Ghost((l + d).take(l.len() + j)),
        );
        j += 1;
    }
    proof {
        assert((l + d).take(l.len() + dinner_len) =~= l + d);
    }
    let current_draw: Option<String> = match &legacy.pending_shop {
        Some(p) => Some(p.clone()),
        None => None,
    };
    MigrationPlan { current_draw, shops }
}

/// The root entries a migration run visits: every jar but the current
/// generation's own subtree.
pub fn migration_targets(keys: &Vec<String>) -> (r: Vec<String>)
    ensures
        svs(r@) == spec_filter_keys(svs(keys@), |k: Seq<char>| k != "v2"@),
{
    let ghost p = |k: Seq<char>| k != "v2"@;
    let n = keys.len();
    let mut out: Vec<String> = Vec::new();
    let mut i: usize = 0;
    proof {
        assert(svs(keys@).skip(0) =~= svs(keys@));
        assert(svs(out@) + spec_filter_keys(svs(keys@), p) =~= spec_filter_keys(svs(keys@), p));
    }
    while i < n
        invariant
            0 <= i <= n,
            n == keys@.len(),
            spec_filter_keys(svs(keys@), p) == svs(out@) + spec_filter_keys(
                svs(keys@).skip(i as int),
                p,
            ),
            p == (|k: Seq<char>| k != "v2"@),
        decreases n - i,
    {
        let ghost pre = svs(out@);
        let ghost tail = svs(keys@).skip(i as int);
        proof {
            assert(tail.len() > 0);
            assert(tail[0] == svs(keys@)[i as int]);
            assert(tail.skip(1) =~= svs(keys@).skip(i + 1));
        }
        if !str_eq(keys[i].as_str(), "v2") {
            out.push(keys[i].clone());
            proof {
                assert(svs(out@) =~= pre.push(svs(keys@)[i as int]));
                assert(p(tail[0]));
                assert(spec_filter_keys(tail, p) == seq![tail[0]] + spec_filter_keys(
                    tail.skip(1),
                    p,
                ));
                assert(pre + spec_filter_keys(tail, p) =~= svs(out@) + spec_filter_keys(
                    tail.skip(1),
                    p,
                ));
            }
        } else {
            proof {
                assert(!p(tail[0]));
                assert(spec_filter_keys(tail, p) == Seq::<Seq<char>>::empty()
                    + spec_filter_keys(tail.skip(1), p));
                assert(pre + (Seq::<Seq<char>>::empty() + spec_filter_keys(tail.skip(1), p))
                    =~= pre + spec_filter_keys(tail.skip(1), p));
            }
        }
        i += 1;
    }
    proof {
        assert(svs(keys@).skip(n as int).len() == 0);
        assert(spec_filter_keys(svs(keys@).skip(n as int), p) == Seq::<Seq<char>>::empty());
        assert(svs(out@) + Seq::<Seq<char>>::empty() =~= svs(out@));
    }
    out
}

} // verus!
