//! The model of one jar's document tree in the remote store, and the
//! operations the draw engine performs on it.
//!
//! One jar holds, under the current schema generation: a places table keyed
//! by a store-assigned id, one membership set of place keys per meal slot, a
//! name lookup table, a coordinates side table, the single current-draw
//! pointer, and a free-text label. The surrounding program loads this model
//! from the remote document, calls the operations below, and mirrors their
//! effect with one REST write per step; the write paths are built here too.
//! Each multi-step operation is a sequence of independent writes and may
//! partially fail remotely — the model states what a fully applied
//! operation does.

use vstd::prelude::*;
use vstd::hash_map::StringHashMap;
use crate::coordinates::Coordinates;
use crate::jar::Jar;
use crate::meal::{spec_meal_token, Meal};
use crate::strutil::str_eq;

verus! {

/// A catalog entry as the places table stores it.
#[derive(Debug, Clone)]
pub struct ApiV2Place {
    pub name: String,
    pub timeslot: Vec<Meal>,
}

pub ghost struct ApiV2PlaceView {
    pub name: Seq<char>,
    pub timeslot: Seq<Meal>,
}

impl View for ApiV2Place {
    type V = ApiV2PlaceView;

    open spec fn view(&self) -> ApiV2PlaceView {
        ApiV2PlaceView { name: self.name@, timeslot: self.timeslot@ }
    }
}

/// A place as callers see it: its store key and its display name.
#[derive(Debug, Clone)]
pub struct Place {
    pub key: String,
    pub name: String,
}

pub ghost struct PlaceView {
    pub key: Seq<char>,
    pub name: Seq<char>,
}

impl View for Place {
    type V = PlaceView;

    open spec fn view(&self) -> PlaceView {
        PlaceView { key: self.key@, name: self.name@ }
    }
}

/// The abstract state of one jar.
#[verifier::ext_equal]
pub ghost struct JarView {
    pub places: Map<Seq<char>, ApiV2PlaceView>,
    pub lunch: Seq<Seq<char>>,
    pub dinner: Seq<Seq<char>>,
    pub names: Map<Seq<char>, Seq<char>>,
    pub coords: Map<Seq<char>, Coordinates>,
    pub current: Option<Seq<char>>,
    pub label: Option<Seq<char>>,
}

/// One jar's document tree, held in memory.
///
/// A jar has zero or one current draw at any time: the pointer is an
/// `Option`, so the invariant holds by construction.
pub struct JarStore {
    pub places: StringHashMap<ApiV2Place>,
    pub lunch: Vec<String>,
    pub dinner: Vec<String>,
    pub names: StringHashMap<String>,
    pub coords: StringHashMap<Coordinates>,
    pub current: Option<String>,
    pub label: Option<String>,
}

pub open spec fn svs(s: Seq<String>) -> Seq<Seq<char>> {
    s.map_values(|x: String| x@)
}

impl View for JarStore {
    type V = JarView;

    open spec fn view(&self) -> JarView {
        JarView {
            places: self.places@.map_values(|p: ApiV2Place| p@),
            lunch: svs(self.lunch@),
            dinner: svs(self.dinner@),
            names: self.names@.map_values(|n: String| n@),
            coords: self.coords@,
            current: match self.current {
                Some(ref k) => Some(k@),
                None => None,
            },
            label: match self.label {
                Some(ref l) => Some(l@),
                None => None,
            },
        }
    }
}

/// The key sequence registered under one meal.
pub open spec fn spec_slot_of(v: JarView, m: Meal) -> Seq<Seq<char>> {
    match m {
        Meal::Lunch => v.lunch,
        Meal::Dinner => v.dinner,
    }
}

/// The keys of `s` that satisfy `p`, in order.
pub open spec fn spec_filter_keys(s: Seq<Seq<char>>, p: spec_fn(Seq<char>) -> bool) -> Seq<
    Seq<char>,
>
    decreases s.len(),
{
    if s.len() == 0 {
        Seq::<Seq<char>>::empty()
    } else {
        (if p(s[0]) {
            seq![s[0]]
        } else {
            Seq::<Seq<char>>::empty()
        }) + spec_filter_keys(s.skip(1), p)
    }
}

/// Membership in a filtered key sequence is membership plus the predicate.
pub proof fn lemma_filter_keys_mem(s: Seq<Seq<char>>, p: spec_fn(Seq<char>) -> bool)
    ensures
        forall|k: Seq<char>|
            #[trigger] spec_filter_keys(s, p).contains(k) <==> s.contains(k) && p(k),
    decreases s.len(),
{
    if s.len() == 0 {
        assert forall|k: Seq<char>| !(#[trigger] s.contains(k)) by {
            if s.contains(k) {
                let i = choose|i: int| 0 <= i < s.len() && s[i] == k;
            }
        }
    } else {
        lemma_filter_keys_mem(s.skip(1), p);
        assert forall|k: Seq<char>|
            #[trigger] spec_filter_keys(s, p).contains(k) <==> s.contains(k) && p(k) by {
            let head: Seq<Seq<char>> = if p(s[0]) {
                seq![s[0]]
            } else {
                Seq::<Seq<char>>::empty()
            };
            if spec_filter_keys(s, p).contains(k) {
                let i = choose|i: int|
                    0 <= i < spec_filter_keys(s, p).len() && spec_filter_keys(s, p)[i] == k;
                if i < head.len() {
                    assert(k == s[0] && p(k));
                    assert(s.contains(k)) by {
                        assert(s[0] == k);
                    }
                } else {
                    assert(spec_filter_keys(s.skip(1), p)[i - head.len()] == k);
                    assert(spec_filter_keys(s.skip(1), p).contains(k));
                    assert(s.skip(1).contains(k));
                    let j = choose|j: int| 0 <= j < s.skip(1).len() && s.skip(1)[j] == k;
                    assert(s[j + 1] == k);
                }
            }
            if s.contains(k) && p(k) {
                let i = choose|i: int| 0 <= i < s.len() && s[i] == k;
                if i == 0 {
                    assert(spec_filter_keys(s, p)[0] == k);
                } else {
                    assert(s.skip(1)[i - 1] == k);
                    assert(s.skip(1).contains(k));
                    assert(spec_filter_keys(s.skip(1), p).contains(k));
                    let j = choose|j: int|
                        0 <= j < spec_filter_keys(s.skip(1), p).len() && spec_filter_keys(
                            s.skip(1),
                            p,
                        )[j] == k;
                    assert(spec_filter_keys(s, p)[head.len() + j] == k);
                }
            }
        }
    }
}

/// A slot with `k` appended unless already present.
pub open spec fn spec_slot_insert(slot: Seq<Seq<char>>, k: Seq<char>) -> Seq<Seq<char>> {
    if slot.contains(k) {
        slot
    } else {
        slot.push(k)
    }
}

/// A slot with every occurrence of `k` removed.
pub open spec fn spec_slot_remove(slot: Seq<Seq<char>>, k: Seq<char>) -> Seq<Seq<char>> {
    spec_filter_keys(slot, spec_not_key(k))
}

/// What one distance entry pairs: a place key and its ceiled distance from
/// the origin, in meters.
pub open spec fn dists_view(d: Seq<(String, u64)>) -> Seq<(Seq<char>, u64)> {
    d.map_values(|e: (String, u64)| (e.0@, e.1))
}

/// Whether the distance table holds `k` within the proximity radius.
pub open spec fn spec_has_close(d: Seq<(Seq<char>, u64)>, k: Seq<char>) -> bool {
    exists|i: int| 0 <= i < d.len() && d[i].0 == k && d[i].1 <= 1000
}

/// Keeping the keys within the proximity radius.
pub open spec fn spec_close_pred(d: Seq<(Seq<char>, u64)>) -> spec_fn(Seq<char>) -> bool {
    |k: Seq<char>| spec_has_close(d, k)
}

/// Keeping every key but `k`.
pub open spec fn spec_not_key(k: Seq<char>) -> spec_fn(Seq<char>) -> bool {
    |x: Seq<char>| x != k
}

/// The draw candidates: the whole slot, or, with an origin, the slot keys
/// whose stored location is within 1000 meters of it.
pub open spec fn spec_candidates(slot: Seq<Seq<char>>, d: Option<Seq<(Seq<char>, u64)>>) -> Seq<
    Seq<char>,
> {
    match d {
        None => slot,
        Some(d) => spec_filter_keys(slot, spec_close_pred(d)),
    }
}

/// Appends `key` to the slot unless already present.
fn slot_insert(slot: &mut Vec<String>, key: &str)
    ensures
        svs(final(slot)@) == spec_slot_insert(svs(old(slot)@), key@),
{
    let n = slot.len();
    let mut i: usize = 0;
    while i < n
        invariant
            0 <= i <= n,
            n == slot@.len(),
            *slot == *old(slot),
            forall|j: int| 0 <= j < i ==> svs(slot@)[j] != key@,
        decreases n - i,
    {
        if str_eq(slot[i].as_str(), key) {
            proof {
                assert(svs(slot@)[i as int] == key@);
                assert(svs(slot@).contains(key@));
            }
            return ;
        }
        i += 1;
    }
    proof {
        assert(!svs(slot@).contains(key@)) by {
            if svs(slot@).contains(key@) {
                let j = choose|j: int| 0 <= j < svs(slot@).len() && svs(slot@)[j] == key@;
            }
        }
    }
    slot.push(String::from_str(key));
    proof {
        assert(svs(slot@) =~= spec_slot_insert(svs(old(slot)@), key@));
    }
}

/// Rebuilds the slot without `key`.
fn slot_remove(slot: &mut Vec<String>, key: &str)
    ensures
        svs(final(slot)@) == spec_slot_remove(svs(old(slot)@), key@),
{
    let ghost p = spec_not_key(key@);
    let n = slot.len();
    let mut out: Vec<String> = Vec::new();
    let mut i: usize = 0;
    proof {
        assert(svs(slot@).skip(0) =~= svs(slot@));
        assert(svs(out@) + spec_filter_keys(svs(slot@), p) =~= spec_filter_keys(svs(slot@), p));
    }
    while i < n
        invariant
            0 <= i <= n,
            n == slot@.len(),
            *slot == *old(slot),
            spec_filter_keys(svs(slot@), p) == svs(out@) + spec_filter_keys(
                svs(slot@).skip(i as int),
                p,
            ),
            p == spec_not_key(key@),
        decreases n - i,
    {
        let ghost pre = svs(out@);
        let ghost tail = svs(slot@).skip(i as int);
        proof {
            assert(tail.len() > 0);
            assert(tail[0] == svs(slot@)[i as int]);
            assert(tail.skip(1) =~= svs(slot@).skip(i + 1));
        }
        if !str_eq(slot[i].as_str(), key) {
            out.push(slot[i].clone());
            proof {
                assert(svs(out@) =~= pre.push(svs(slot@)[i as int]));
                assert(p(tail[0]));
                assert(spec_filter_keys(tail, p) == seq![tail[0]] + spec_filter_keys(
                    tail.skip(1),
                    p,
                ));
                assert(pre + spec_filter_keys(tail, p) =~= svs(out@) + spec_filter_keys(
                    tail.skip(1),
                    p,
                ));
            }
        } else {
            proof {
                assert(!p(tail[0]));
                assert(spec_filter_keys(tail, p) == Seq::<Seq<char>>::empty()
                    + spec_filter_keys(tail.skip(1), p));
                assert(pre + (Seq::<Seq<char>>::empty() + spec_filter_keys(tail.skip(1), p))
                    =~= pre + spec_filter_keys(tail.skip(1), p));
            }
        }
        i += 1;
    }
    proof {
        assert(svs(slot@).skip(n as int).len() == 0);
        assert(spec_filter_keys(svs(slot@).skip(n as int), p) == Seq::<Seq<char>>::empty());
        assert(svs(out@) + Seq::<Seq<char>>::empty() =~= svs(out@));
    }
    *slot = out;
}

/// The slot keys whose distance entry is within the radius.
fn close_candidates(slot: &Vec<String>, d: &Vec<(String, u64)>) -> (r: Vec<String>)
    ensures
        svs(r@) == spec_filter_keys(
            svs(slot@),
            |k: Seq<char>| spec_has_close(dists_view(d@), k),
        ),
{
    let ghost p = spec_close_pred(dists_view(d@));
    let n = slot.len();
    let mut out: Vec<String> = Vec::new();
    let mut i: usize = 0;
    proof {
        assert(svs(slot@).skip(0) =~= svs(slot@));
        assert(svs(out@) + spec_filter_keys(svs(slot@), p) =~= spec_filter_keys(svs(slot@), p));
    }
    while i < n
        invariant
            0 <= i <= n,
            n == slot@.len(),
            spec_filter_keys(svs(slot@), p) == svs(out@) + spec_filter_keys(
                svs(slot@).skip(i as int),
                p,
            ),
            p == spec_close_pred(dists_view(d@)),
        decreases n - i,
    {
        let ghost pre = svs(out@);
        let ghost tail = svs(slot@).skip(i as int);
        proof {
            assert(tail.len() > 0);
            assert(tail[0] == svs(slot@)[i as int]);
            assert(tail.skip(1) =~= svs(slot@).skip(i + 1));
        }
        if has_close(d, slot[i].as_str()) {
            out.push(slot[i].clone());
            proof {
                assert(svs(out@) =~= pre.push(svs(slot@)[i as int]));
                assert(p(tail[0]));
                assert(spec_filter_keys(tail, p) == seq![tail[0]] + spec_filter_keys(
                    tail.skip(1),
                    p,
                ));
                assert(pre + spec_filter_keys(tail, p) =~= svs(out@) + spec_filter_keys(
                    tail.skip(1),
                    p,
                ));
            }
        } else {
            proof {
                assert(!p(tail[0]));
                assert(spec_filter_keys(tail, p) == Seq::<Seq<char>>::empty()
                    + spec_filter_keys(tail.skip(1), p));
                assert(pre + (Seq::<Seq<char>>::empty() + spec_filter_keys(tail.skip(1), p))
                    =~= pre + spec_filter_keys(tail.skip(1), p));
            }
        }
        i += 1;
    }
    proof {
        assert(svs(slot@).skip(n as int).len() == 0);
        assert(spec_filter_keys(svs(slot@).skip(n as int), p) == Seq::<Seq<char>>::empty());
        assert(svs(out@) + Seq::<Seq<char>>::empty() =~= svs(out@));
    }
    out
}

/// The state after a draw pointer update.
pub open spec fn spec_with_current(v: JarView, c: Option<Seq<char>>) -> JarView {
    JarView { current: c, ..v }
}

/// The state after attaching a label.
pub open spec fn spec_with_label(v: JarView, l: Seq<char>) -> JarView {
    JarView { label: Some(l), ..v }
}

/// The state after an idempotent coordinates upsert.
pub open spec fn spec_set_coordinates(v: JarView, k: Seq<char>, c: Coordinates) -> JarView {
    JarView { coords: v.coords.insert(k, c), ..v }
}

/// The state after registering a place under its key: the catalog entry,
/// one membership per requested meal, and the name table row. The
/// coordinates table and the current draw are untouched.
pub open spec fn spec_add_place(v: JarView, k: Seq<char>, n: Seq<char>, meals: Seq<Meal>) -> JarView {
    JarView {
        places: v.places.insert(k, ApiV2PlaceView { name: n, timeslot: meals }),
        lunch: if meals.contains(Meal::Lunch) {
            spec_slot_insert(v.lunch, k)
        } else {
            v.lunch
        },
        dinner: if meals.contains(Meal::Dinner) {
            spec_slot_insert(v.dinner, k)
        } else {
            v.dinner
        },
        names: v.names.insert(k, n),
        coords: v.coords,
        current: v.current,
        label: v.label,
    }
}

/// The current pointer after a checked clear: an unconditional clear when no
/// place is named, otherwise cleared only when it still points at that
/// place.
pub open spec fn spec_cleared_current(cur: Option<Seq<char>>, place: Option<Seq<char>>) -> Option<
    Seq<char>,
> {
    match place {
        None => None,
        Some(k) => if cur == Some(k) {
            None
        } else {
            cur
        },
    }
}

/// The state after a full delete: the key leaves the catalog, both meal
/// slots, the name table and the coordinates table, and the current draw is
/// cleared when it pointed at it.
pub open spec fn spec_delete_place(v: JarView, k: Seq<char>) -> JarView {
    JarView {
        places: v.places.remove(k),
        lunch: spec_slot_remove(v.lunch, k),
        dinner: spec_slot_remove(v.dinner, k),
        names: v.names.remove(k),
        coords: v.coords.remove(k),
        current: spec_cleared_current(v.current, Some(k)),
        label: v.label,
    }
}

/// What resolving the current draw returns: the pointed-at key with its
/// name, or a placeholder name when the name row is missing.
pub open spec fn spec_current_draw(v: JarView) -> Option<PlaceView> {
    match v.current {
        None => None,
        Some(k) => Some(
            PlaceView {
                key: k,
                name: if v.names.contains_key(k) {
                    v.names[k]
                } else {
                    "Could not find place name"@
                },
            },
        ),
    }
}

impl JarStore {
    /// An empty jar.
    pub fn new() -> (r: Self)
        ensures
            r@.places == Map::<Seq<char>, ApiV2PlaceView>::empty(),
            r@.lunch == Seq::<Seq<char>>::empty(),
            r@.dinner == Seq::<Seq<char>>::empty(),
            r@.names == Map::<Seq<char>, Seq<char>>::empty(),
            r@.coords == Map::<Seq<char>, Coordinates>::empty(),
            r@.current is None,
            r@.label is None,
    {
        let r = JarStore {
            places: StringHashMap::new(),
            lunch: Vec::new(),
            dinner: Vec::new(),
            names: StringHashMap::new(),
            coords: StringHashMap::new(),
            current: None,
            label: None,
        };
        proof {
            assert(r@.places =~= Map::<Seq<char>, ApiV2PlaceView>::empty());
            assert(r@.lunch =~= Seq::<Seq<char>>::empty());
            assert(r@.dinner =~= Seq::<Seq<char>>::empty());
            assert(r@.names =~= Map::<Seq<char>, Seq<char>>::empty());
        }
        r
    }

    /// Attaches a free-text label to the jar and hands it back.
    pub fn add_label(&mut self, label: &str) -> (r: String)
        ensures
            final(self)@ == spec_with_label(old(self)@, label@),
            r@ == label@,
    {
        self.label = Some(String::from_str(label));
        proof {
            assert(self@ =~= spec_with_label(old(self)@, label@));
        }
        String::from_str(label)
    }

    /// Resolves the current-draw pointer into a full place; a pointer whose
    /// name row is missing yields a placeholder name rather than a failure.
    pub fn get_current_draw(&self) -> (r: Option<Place>)
        ensures
            match r {
                Some(p) => spec_current_draw(self@) == Some(p@),
                None => spec_current_draw(self@) is None,
            },
    {
        match &self.current {
            None => None,
            Some(k) => {
                let name: String = match self.names.get(k.as_str()) {
                    Some(n) => n.clone(),
                    None => String::from_str("Could not find place name"),
                };
                Some(Place { key: k.clone(), name })
            },
        }
    }

    /// The name a key resolves to, when its row exists.
    pub fn get_current_draw_name(&self, draw_key: &str) -> (r: Option<String>)
        ensures
            match r {
                Some(n) => self@.names.contains_key(draw_key@) && self@.names[draw_key@]
                    == n@,
                None => !self@.names.contains_key(draw_key@),
            },
    {
        match self.names.get(draw_key) {
            Some(n) => Some(n.clone()),
            None => None,
        }
    }

    /// Points the current draw at `drawn_place_key`.
    pub fn update_current_draw(&mut self, drawn_place_key: &str)
        ensures
            final(self)@ == spec_with_current(old(self)@, Some(drawn_place_key@)),
    {
        self.current = Some(String::from_str(drawn_place_key));
        proof {
            assert(self@ =~= spec_with_current(old(self)@, Some(drawn_place_key@)));
        }
    }

    /// The membership list registered under a meal.
    pub fn get_list_of_places_keys(&self, meal: Meal) -> (r: &Vec<String>)
        ensures
            svs(r@) == spec_slot_of(self@, meal),
    {
        match meal {
            Meal::Lunch => &self.lunch,
            Meal::Dinner => &self.dinner,
        }
    }

    /// Idempotent upsert into the coordinates side table.
    pub fn set_place_coordinates(&mut self, place: &Place, coordinates: Coordinates)
        ensures
            final(self)@ == spec_set_coordinates(old(self)@, place.key@, coordinates),
    {
        self.coords.insert(place.key.clone(), coordinates);
        proof {
            assert(self@ =~= spec_set_coordinates(old(self)@, place.key@, coordinates));
        }
    }

    /// Clears the current-draw pointer; when a place is named, only a
    /// pointer still at that place is cleared, so a draw that changed
    /// concurrently survives.
    pub fn remove_drawn_place(&mut self, place: Option<&Place>)
        ensures
            final(self)@ == spec_with_current(
                old(self)@,
                spec_cleared_current(old(self)@.current, match place {
                    Some(p) => Some(p.key@),
                    None => None,
                }),
            ),
    {
        match place {
            None => {
                self.current = None;
            },
            Some(p) => {
                let clear = match &self.current {
                    Some(cur) => str_eq(cur.as_str(), p.key.as_str()),
                    None => false,
                };
                if clear {
                    self.current = None;
                }
            },
        }
        proof {
            assert(self@ =~= spec_with_current(
                old(self)@,
                spec_cleared_current(old(self)@.current, match place {
                    Some(p) => Some(p.key@),
                    None => None,
                }),
            ));
        }
    }

    /// Registers a place under a store-assigned key: the catalog entry, one
    /// membership row per requested meal, and the name row — an ordered
    /// sequence of independent writes with no rollback.
    pub fn add_place(&mut self, key: &str, place_name: &str, meals: &Vec<Meal>) -> (r: Place)
        ensures
            final(self)@ == spec_add_place(old(self)@, key@, place_name@, meals@),
            r.key@ == key@,
            r.name@ == place_name@,
    {
        self.places.insert(
            String::from_str(key),
            ApiV2Place { name: String::from_str(place_name), timeslot: clone_meals(meals) },
        );
        proof {
            assert(self@.places =~= old(self)@.places.insert(
                key@,
                ApiV2PlaceView { name: place_name@, timeslot: meals@ },
            ));
            assert(meals@.take(0) =~= Seq::<Meal>::empty());
        }
        let n = meals.len();
        let mut i: usize = 0;
        while i < n
            invariant
                0 <= i <= n,
                n == meals@.len(),
                self@.places == old(self)@.places.insert(
                    key@,
                    ApiV2PlaceView { name: place_name@, timeslot: meals@ },
                ),
                self@.names == old(self)@.names,
                self@.coords == old(self)@.coords,
                self@.current == old(self)@.current,
                self@.label == old(self)@.label,
                self@.lunch == if meals@.take(i as int).contains(Meal::Lunch) {
                    spec_slot_insert(old(self)@.lunch, key@)
                } else {
                    old(self)@.lunch
                },
                self@.dinner == if meals@.take(i as int).contains(Meal::Dinner) {
                    spec_slot_insert(old(self)@.dinner, key@)
                } else {
                    old(self)@.dinner
                },
            decreases n - i,
        {
            match meals[i] {
                Meal::Lunch => {
                    slot_insert(&mut self.lunch, key);
                    proof {
                        lemma_slot_insert_idempotent(old(self)@.lunch, key@);
                    }
                },
                Meal::Dinner => {
                    slot_insert(&mut self.dinner, key);
                    proof {
                        lemma_slot_insert_idempotent(old(self)@.dinner, key@);
                    }
                },
            }
            i += 1;
            proof {
                lemma_take_contains_step(meals@, i as int, Meal::Lunch);
                lemma_take_contains_step(meals@, i as int, Meal::Dinner);
            }
        }
        proof {
            assert(meals@.take(n as int) =~= meals@);
        }
        self.names.insert(String::from_str(key), String::from_str(place_name));
        proof {
            assert(self@ =~= spec_add_place(old(self)@, key@, place_name@, meals@));
        }
        Place { key: String::from_str(key), name: String::from_str(place_name) }
    }

    /// Deletes a place everywhere it is referenced: the catalog, both meal
    /// slots, the name table, the coordinates table, and the current draw
    /// when it pointed at it — an ordered sequence of independent deletes
    /// with no rollback.
    pub fn delete_place(&mut self, place: &Place) -> (r: Place)
        ensures
            final(self)@ == spec_delete_place(old(self)@, place.key@),
            r.key@ == place.key@,
            r.name@ == place.name@,
    {
        self.places.remove(place.key.as_str());
        slot_remove(&mut self.lunch, place.key.as_str());
        slot_remove(&mut self.dinner, place.key.as_str());
        self.names.remove(place.key.as_str());
        self.coords.remove(place.key.as_str());
        self.remove_drawn_place(Some(place));
        proof {
            assert(self@ =~= spec_delete_place(old(self)@, place.key@));
        }
        Place { key: place.key.clone(), name: place.name.clone() }
    }

    /// Draws one place for a meal: the candidates are the meal's membership
    /// set, narrowed — when an origin's distance table is given — to the
    /// keys stored within 1000 meters of it; one candidate is selected by
    /// `pick` (callers inject a uniform random number there), persisted as
    /// the current draw, and resolved to its name. An empty candidate set
    /// yields `None` and leaves the jar untouched.
    ///
    /// Each entry of `dists` pairs a key having stored coordinates with its
    /// ceiled distance from the origin in meters.
    pub fn draw(&mut self, meal: Meal, dists: Option<&Vec<(String, u64)>>, pick: usize) -> (r:
        Option<Place>)
        requires
            match dists {
                Some(d) => forall|i: int|
                    0 <= i < d@.len() ==> old(self)@.coords.contains_key(
                        #[trigger] d@[i].0@,
                    ),
                None => true,
            },
        ensures
            ({
                let cands = spec_candidates(spec_slot_of(old(self)@, meal), match dists {
                    Some(d) => Some(dists_view(d@)),
                    None => None,
                });
                match r {
                    None => cands.len() == 0 && final(self)@ == old(self)@,
                    Some(p) => {
                        &&& cands.len() > 0
                        &&& p.key@ == cands[pick as int % cands.len() as int]
                        &&& final(self)@ == spec_with_current(old(self)@, Some(p.key@))
                        &&& p.name@ == (if old(self)@.names.contains_key(p.key@) {
                            old(self)@.names[p.key@]
                        } else {
                            ""@
                        })
                        &&& spec_slot_of(old(self)@, meal).contains(p.key@)
                        &&& (dists matches Some(d) ==> spec_has_close(dists_view(d@), p.key@)
                            && old(self)@.coords.contains_key(p.key@))
                    },
                }
            }),
    {
        let slot: &Vec<String> = match meal {
            Meal::Lunch => &self.lunch,
            Meal::Dinner => &self.dinner,
        };
        let chosen: Option<String> = match dists {
            None => {
                let n = slot.len();
                if n == 0 {
                    None
                } else {
                    Some(slot[pick % n].clone())
                }
            },
            Some(d) => {
                let cands = close_candidates(slot, d);
                let n = cands.len();
                if n == 0 {
                    None
                } else {
                    Some(cands[pick % n].clone())
                }
            },
        };
        proof {
            let cands = spec_candidates(spec_slot_of(self@, meal), match dists {
                Some(d) => Some(dists_view(d@)),
                None => None,
            });
            match chosen {
                Some(ref k) => {
                    let idx = pick as int % cands.len() as int;
                    assert(k@ == cands[idx]);
                    assert(cands.contains(cands[idx]));
                    match dists {
                        Some(d) => {
                            lemma_filter_keys_mem(
                                spec_slot_of(self@, meal),
                                spec_close_pred(dists_view(d@)),
                            );
                            let j = choose|j: int|
                                0 <= j < dists_view(d@).len() && dists_view(d@)[j].0 == k@
                                    && dists_view(d@)[j].1 <= 1000;
                            assert(self@.coords.contains_key(d@[j].0@));
                        },
                        None => {},
                    }
                },
                None => {},
            }
        }
        match chosen {
            None => None,
            Some(key) => {
                self.current = Some(key.clone());
                proof {
                    assert(self@ =~= spec_with_current(old(self)@, Some(key@)));
                }
                let name: String = match self.names.get(key.as_str()) {
                    Some(n) => n.clone(),
                    None => String::new(),
                };
                proof {
                    reveal_strlit("");
                    assert(""@ =~= Seq::<char>::empty());
                    assert(self.names@.contains_key(key@) == old(self)@.names.contains_key(
                        key@,
                    ));
                    if self.names@.contains_key(key@) {
                        assert(old(self)@.names[key@] == self.names@[key@]@);
                    }
                }
                Some(Place { key, name })
            },
        }
    }

    /// Draws with the process random source injected as the pick.
    pub fn draw_random(&mut self, meal: Meal, dists: Option<&Vec<(String, u64)>>) -> (r: Option<
        Place,
    >)
        requires
            match dists {
                Some(d) => forall|i: int|
                    0 <= i < d@.len() ==> old(self)@.coords.contains_key(
                        #[trigger] d@[i].0@,
                    ),
                None => true,
            },
        ensures
            ({
                let cands = spec_candidates(spec_slot_of(old(self)@, meal), match dists {
                    Some(d) => Some(dists_view(d@)),
                    None => None,
                });
                match r {
                    None => cands.len() == 0 && final(self)@ == old(self)@,
                    Some(p) => {
                        &&& cands.len() > 0
                        &&& cands.contains(p.key@)
                        &&& final(self)@ == spec_with_current(old(self)@, Some(p.key@))
                        &&& p.name@ == (if old(self)@.names.contains_key(p.key@) {
                            old(self)@.names[p.key@]
                        } else {
                            ""@
                        })
                        &&& spec_slot_of(old(self)@, meal).contains(p.key@)
                        &&& (dists matches Some(d) ==> spec_has_close(dists_view(d@), p.key@)
                            && old(self)@.coords.contains_key(p.key@))
                    },
                }
            }),
    {
        let pick = random_usize();
        let r = self.draw(meal, dists, pick);
        proof {
            let cands = spec_candidates(spec_slot_of(old(self)@, meal), match dists {
                Some(d) => Some(dists_view(d@)),
                None => None,
            });
            match r {
                Some(ref p) => {
                    assert(cands.contains(p.key@)) by {
                        assert(cands[pick as int % cands.len() as int] == p.key@);
                    }
                },
                None => {},
            }
        }
        r
    }

    /// The coordinates stored for a key, if any.
    pub fn get_place_coordinates(&self, key: &str) -> (r: Option<Coordinates>)
        ensures
            match r {
                Some(c) => self@.coords.contains_key(key@) && self@.coords[key@] == c,
                None => !self@.coords.contains_key(key@),
            },
    {
        match self.coords.get(key) {
            Some(c) => Some(*c),
            None => None,
        }
    }

    /// The catalog entry stored for a key, if any.
    pub fn get_place_entry(&self, key: &str) -> (r: Option<&ApiV2Place>)
        ensures
            match r {
                Some(p) => self@.places.contains_key(key@) && self@.places[key@] == p@,
                None => !self@.places.contains_key(key@),
            },
    {
        self.places.get(key)
    }
}

// ---------------------------------------------------------------------------
// The request paths of the remote document store. A document lives under
// `{base}/v2/{jar}/{path}.json` in the current schema generation, and under
// `{base}/{jar}/{path}.json` in the legacy one.
pub open spec fn spec_slot_path(m: Meal) -> Seq<char> {
    "timeslots/"@ + spec_meal_token(m)
}

pub open spec fn spec_slot_member_path(m: Meal, key: Seq<char>) -> Seq<char> {
    "timeslots/"@ + spec_meal_token(m) + "/"@ + key
}

pub open spec fn spec_place_entry_path(key: Seq<char>) -> Seq<char> {
    "places/"@ + key
}

pub open spec fn spec_name_entry_path(key: Seq<char>) -> Seq<char> {
    "place_id_name/"@ + key
}

pub open spec fn spec_coords_entry_path(key: Seq<char>) -> Seq<char> {
    "place_id_coordinates/"@ + key
}

pub open spec fn spec_firebase_url(base: Seq<char>, jar: Seq<char>, path: Seq<char>) -> Seq<
    char,
> {
    base + "/v2/"@ + jar + "/"@ + path + ".json"@
}

pub open spec fn spec_firebase_url_legacy(base: Seq<char>, jar: Seq<char>, path: Seq<char>) -> Seq<
    char,
> {
    base + "/"@ + jar + "/"@ + path + ".json"@
}

/// The current-draw pointer's document path.
pub fn current_draw_path() -> (r: &'static str)
    ensures
        r@ == "current_draw"@,
{
    "current_draw"
}

/// The jar label's document path.
pub fn label_path() -> (r: &'static str)
    ensures
        r@ == "label"@,
{
    "label"
}

/// The places table's document path.
pub fn places_path() -> (r: &'static str)
    ensures
        r@ == "places"@,
{
    "places"
}

/// The name table's document path.
pub fn name_table_path() -> (r: &'static str)
    ensures
        r@ == "place_id_name"@,
{
    "place_id_name"
}

/// The coordinates table's document path.
pub fn coords_table_path() -> (r: &'static str)
    ensures
        r@ == "place_id_coordinates"@,
{
    "place_id_coordinates"
}

/// The membership set of one meal.
pub fn slot_path(m: Meal) -> (r: String)
    ensures
        r@ == spec_slot_path(m),
{
    let mut out = String::from_str("timeslots/");
    out.append(m.serialized());
    out
}

/// One membership row under a meal.
pub fn slot_member_path(m: Meal, key: &str) -> (r: String)
    ensures
        r@ == spec_slot_member_path(m, key@),
{
    let mut out = String::from_str("timeslots/");
    out.append(m.serialized());
    out.append("/");
    out.append(key);
    out
}

/// One catalog row.
pub fn place_entry_path(key: &str) -> (r: String)
    ensures
        r@ == spec_place_entry_path(key@),
{
    let mut out = String::from_str("places/");
    out.append(key);
    out
}

/// One name row.
pub fn name_entry_path(key: &str) -> (r: String)
    ensures
        r@ == spec_name_entry_path(key@),
{
    let mut out = String::from_str("place_id_name/");
    out.append(key);
    out
}

/// One coordinates row.
pub fn coords_entry_path(key: &str) -> (r: String)
    ensures
        r@ == spec_coords_entry_path(key@),
{
    let mut out = String::from_str("place_id_coordinates/");
    out.append(key);
    out
}

/// The five bucket rows `delete_place` removes, in the order the store is
/// asked to delete them.
pub fn delete_place_paths(place: &Place) -> (r: Vec<String>)
    ensures
        r@.len() == 5,
        r@[0]@ == spec_place_entry_path(place.key@),
        r@[1]@ == spec_slot_member_path(Meal::Lunch, place.key@),
        r@[2]@ == spec_slot_member_path(Meal::Dinner, place.key@),
        r@[3]@ == spec_name_entry_path(place.key@),
        r@[4]@ == spec_coords_entry_path(place.key@),
{
    let mut out: Vec<String> = Vec::new();
    out.push(place_entry_path(place.key.as_str()));
    out.push(slot_member_path(Meal::Lunch, place.key.as_str()));
    out.push(slot_member_path(Meal::Dinner, place.key.as_str()));
    out.push(name_entry_path(place.key.as_str()));
    out.push(coords_entry_path(place.key.as_str()));
    out
}

/// A document URL under the current schema generation.
pub fn firebase_url(base: &str, jar: &Jar, path: &str) -> (r: String)
    ensures
        r@ == spec_firebase_url(base@, jar@, path@),
{
    let mut out = String::from_str(base);
    out.append("/v2/");
    out.append(jar.as_str());
    out.append("/");
    out.append(path);
    out.append(".json");
    out
}

/// A document URL under the legacy schema generation.
pub fn firebase_url_legacy(base: &str, jar: &Jar, path: &str) -> (r: String)
    ensures
        r@ == spec_firebase_url_legacy(base@, jar@, path@),
{
    let mut out = String::from_str(base);
    out.append("/");
    out.append(jar.as_str());
    out.append("/");
    out.append(path);
    out.append(".json");
    out
}

/// Relies on rand's `random`: a fresh sample of the thread-local generator.
/// Nothing is promised of the value; `draw` is verified for every pick.
#[verifier::external_body]
fn random_usize() -> usize {
    rand::random::<usize>()
}

/// A meal list is `Copy`-free only because `Vec` is not; clone it by hand.
fn clone_meals(meals: &Vec<Meal>) -> (r: Vec<Meal>)
    ensures
        r@ == meals@,
{
    let mut out: Vec<Meal> = Vec::new();
    let n = meals.len();
    let mut i: usize = 0;
    while i < n
        invariant
            0 <= i <= n,
            n == meals@.len(),
            out@ == meals@.take(i as int),
        decreases n - i,
    {
        out.push(meals[i]);
        proof {
            assert(meals@.take(i + 1).drop_last() =~= meals@.take(i as int));
            assert(out@ =~= meals@.take(i + 1));
        }
        i += 1;
    }
    proof {
        assert(meals@.take(n as int) =~= meals@);
    }
    out
}

/// Inserting an already-inserted key changes nothing.
proof fn lemma_slot_insert_idempotent(slot: Seq<Seq<char>>, k: Seq<char>)
    ensures
        spec_slot_insert(spec_slot_insert(slot, k), k) == spec_slot_insert(slot, k),
{
    if !slot.contains(k) {
        assert(slot.push(k)[slot.len() as int] == k);
        assert(slot.push(k).contains(k));
    }
}

/// Whether a prefix one longer contains an element.
proof fn lemma_take_contains_step<T>(s: Seq<T>, i: int, x: T)
    requires
        1 <= i <= s.len(),
    ensures
        s.take(i).contains(x) <==> (s.take(i - 1).contains(x) || s[i - 1] == x),
{
    if s.take(i).contains(x) {
        let j = choose|j: int| 0 <= j < i && s.take(i)[j] == x;
        if j < i - 1 {
            assert(s.take(i - 1)[j] == x);
            assert(s.take(i - 1).contains(x));
        }
    }
    if s.take(i - 1).contains(x) {
        let j = choose|j: int| 0 <= j < i - 1 && (#[trigger] s.take(i - 1)[j]) == x;
        assert(s.take(i)[j] == x);
        assert(s.take(i).contains(x));
    }
    if s[i - 1] == x {
        assert(s.take(i)[i - 1] == x);
        assert(s.take(i).contains(x));
    }
}

/// Whether the distance table holds `key` within 1000 meters.
fn has_close(d: &Vec<(String, u64)>, key: &str) -> (r: bool)
    ensures
        r == spec_has_close(dists_view(d@), key@),
{
    let n = d.len();
    let mut i: usize = 0;
    while i < n
        invariant
            0 <= i <= n,
            n == d@.len(),
            forall|j: int|
                0 <= j < i ==> !(#[trigger] dists_view(d@)[j].0 == key@ && dists_view(d@)[j].1
                    <= 1000),
        decreases n - i,
    {
        let e = &d[i];
        if e.1 <= 1000 && str_eq(e.0.as_str(), key) {
            proof {
                assert(dists_view(d@)[i as int].0 == key@ && dists_view(d@)[i as int].1
                    <= 1000);
            }
            return true;
        }
        i += 1;
    }
    proof {
        if spec_has_close(dists_view(d@), key@) {
            let j = choose|j: int|
                0 <= j < dists_view(d@).len() && dists_view(d@)[j].0 == key@ && dists_view(
                    d@,
                )[j].1 <= 1000;
        }
    }
    false
}

} // verus!
