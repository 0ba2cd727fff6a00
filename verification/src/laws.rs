//! The behavioural laws of the draw engine, stated and proved over the
//! jar's abstract state.

use vstd::prelude::*;
use crate::coordinates::Coordinates;
use crate::meal::Meal;
use crate::store::{
    lemma_filter_keys_mem, spec_add_place, spec_candidates, spec_close_pred, spec_current_draw,
    spec_delete_place, spec_has_close, spec_not_key, spec_set_coordinates, spec_with_current,
    spec_with_label, JarView,
};

verus! {

/// A draw never selects outside the meal's registered set, and — when an
/// origin narrows the candidates — never selects a place whose distance
/// entry is beyond 1000 meters or missing: every candidate is a registered
/// key with a close distance entry.
pub proof fn lemma_draw_candidates(slot: Seq<Seq<char>>, d: Seq<(Seq<char>, u64)>)
    ensures
        forall|k: Seq<char>|
            #[trigger] spec_candidates(slot, Some(d)).contains(k) ==> slot.contains(k)
                && spec_has_close(d, k),
        forall|k: Seq<char>|
            #[trigger] spec_candidates(slot, None).contains(k) ==> slot.contains(k),
{
    lemma_filter_keys_mem(slot, spec_close_pred(d));
}

/// After a successful draw the current draw resolves to the drawn key, and
/// it keeps doing so through the operations that do not clear it: labels,
/// coordinate upserts, and additions under a different key. A postpone or
/// a delete of the drawn place clears it.
pub proof fn lemma_current_draw_lifecycle(
    v: JarView,
    drawn: Seq<char>,
    other: Seq<char>,
    name: Seq<char>,
    meals: Seq<Meal>,
    c: Coordinates,
    label: Seq<char>,
)
    ensures
        spec_current_draw(spec_with_current(v, Some(drawn))) matches Some(p) && p.key == drawn,
        spec_current_draw(spec_set_coordinates(v, other, c)) == spec_current_draw(v),
        spec_current_draw(spec_with_label(v, label)) == spec_current_draw(v),
        v.current == Some(drawn) && other != drawn ==> spec_current_draw(
            spec_add_place(v, other, name, meals),
        ) == spec_current_draw(v),
        spec_current_draw(spec_with_current(v, None)) is None,
        v.current == Some(drawn) ==> spec_current_draw(spec_delete_place(v, drawn)) is None,
{
}

/// Adding a place and then deleting it leaves the jar's meal-slot sets,
/// name table and coordinates table all free of that place's key, and the
/// current draw not pointing at it.
pub proof fn lemma_add_then_delete(v: JarView, key: Seq<char>, name: Seq<char>, meals: Seq<Meal>)
    ensures
        ({
            let after = spec_delete_place(spec_add_place(v, key, name, meals), key);
            &&& !after.places.contains_key(key)
            &&& !after.names.contains_key(key)
            &&& !after.coords.contains_key(key)
            &&& !after.lunch.contains(key)
            &&& !after.dinner.contains(key)
            &&& after.current != Some(key)
        }),
{
    let v1 = spec_add_place(v, key, name, meals);
    lemma_filter_keys_mem(v1.lunch, spec_not_key(key));
    lemma_filter_keys_mem(v1.dinner, spec_not_key(key));
}

/// Deleting a place leaves every table free of its key, whatever the jar
/// held before.
pub proof fn lemma_delete_clears_key(v: JarView, key: Seq<char>)
    ensures
        ({
            let after = spec_delete_place(v, key);
            &&& !after.places.contains_key(key)
            &&& !after.names.contains_key(key)
            &&& !after.coords.contains_key(key)
            &&& !after.lunch.contains(key)
            &&& !after.dinner.contains(key)
            &&& after.current != Some(key)
        }),
{
    lemma_filter_keys_mem(v.lunch, spec_not_key(key));
    lemma_filter_keys_mem(v.dinner, spec_not_key(key));
}

} // verus!
