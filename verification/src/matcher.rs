//! The trigger matcher: which macros an input event sets off.

use vstd::prelude::*;
use crate::input::{held_after, EventList, InputEvent, InputEventType};
use crate::model::{key_codes, Collection, CollectionView, KeyPress, Macro, MacroData};

verus! {

/// The place of a macro in the database.
#[derive(Debug, Clone, Copy, PartialEq, Eq, Hash, Structural)]
pub struct MacroId {
    /// Index of the collection in the database.
    pub collection: usize,
    /// Index of the macro in its collection.
    pub index: usize,
}

/// Whether macro `index` of collection `collection` fires while `held` are
/// the held keys: both exist, both are switched on, and the trigger's keys
/// are the held keys, one for one and in the same order.
pub open spec fn fires(db: Seq<CollectionView>, held: Seq<u32>, collection: int, index: int) -> bool {
    &&& 0 <= collection < db.len()
    &&& 0 <= index < db[collection].macros.len()
    &&& db[collection].active
    &&& db[collection].macros[index].active
    &&& key_codes(db[collection].macros[index].trigger) == held
}

/// Whether `a` comes before `b` when the database is walked collection by
/// collection and, within a collection, macro by macro.
pub open spec fn walked_before(a: MacroId, b: MacroId) -> bool {
    a.collection < b.collection || (a.collection == b.collection && a.index < b.index)
}

/// Whether `fired` lists the macros that fire under `held`: each listed
/// macro fires, each macro that fires is listed, and they are listed once
/// each in the order of the walk.
pub open spec fn is_firing_list(db: Seq<CollectionView>, held: Seq<u32>, fired: Seq<MacroId>) -> bool {
    &&& forall|k: int|
        0 <= k < fired.len() ==> fires(
            db,
            held,
            (#[trigger] fired[k]).collection as int,
            fired[k].index as int,
        )
    &&& forall|c: int, m: int| #[trigger]
        fires(db, held, c, m) ==> fired.contains(MacroId { collection: c as usize, index: m as usize })
    &&& forall|k1: int, k2: int|
        0 <= k1 < k2 < fired.len() ==> walked_before(#[trigger] fired[k1], #[trigger] fired[k2])
}

/// Whether an event makes the matcher look through the database: only a
/// key press does, and only one that the engine did not produce itself.
pub open spec fn starts_scan(event: InputEvent) -> bool {
    !event.synthetic && event.event_type is KeyPress
}

/// What the walk has established once it has dealt with every macro before
/// position (`collection`, `index`).
spec fn scanned(
    db: Seq<CollectionView>,
    held: Seq<u32>,
    fired: Seq<MacroId>,
    collection: int,
    index: int,
) -> bool {
    &&& forall|k: int|
        0 <= k < fired.len() ==> {
            &&& fires(db, held, (#[trigger] fired[k]).collection as int, fired[k].index as int)
            &&& (fired[k].collection < collection || (fired[k].collection == collection
                && fired[k].index < index))
        }
    &&& forall|c: int, m: int| #[trigger]
        fires(db, held, c, m) && (c < collection || (c == collection && m < index))
            ==> fired.contains(MacroId { collection: c as usize, index: m as usize })
    &&& forall|k1: int, k2: int|
        0 <= k1 < k2 < fired.len() ==> walked_before(#[trigger] fired[k1], #[trigger] fired[k2])
}

/// Listing one more macro keeps everything that was listed.
proof fn lemma_push_keeps_listed(fired: Seq<MacroId>, id: MacroId)
    ensures
        fired.push(id).contains(id),
        forall|other: MacroId| fired.contains(other) ==> #[trigger] fired.push(id).contains(other),
{
    assert(fired.push(id)[fired.len() as int] == id);
    assert forall|other: MacroId| fired.contains(other) implies #[trigger] fired.push(id).contains(
        other,
    ) by {
        let k = choose|k: int| 0 <= k < fired.len() && fired[k] == other;
        assert(fired.push(id)[k] == other);
    }
}

/// The macro at `id`, if the database has one there.
pub fn macro_at(db: &MacroData, id: MacroId) -> (found: Option<&Macro>)
    ensures
        found is Some <==> (id.collection < db@.len() && id.index < db@[id.collection as int].macros.len()),
        found is Some ==> found->0@ == db@[id.collection as int].macros[id.index as int],
        found is Some ==> *found->0 == db.data@[id.collection as int].macros@[id.index as int],
{
    if id.collection < db.data.len() {
        let collection: &Collection = &db.data[id.collection];
        assert(db@[id.collection as int] == collection@);
        if id.index < collection.macros.len() {
            let found: &Macro = &collection.macros[id.index];
            assert(collection@.macros[id.index as int] == found@);
            return Some(found);
        }
    }
    None
}

/// Lists the macros of `db` that fire while `held` are the held keys.
pub fn find_triggered(db: &MacroData, held: &EventList) -> (fired: Vec<MacroId>)
    ensures
        is_firing_list(db@, held@, fired@),
{
    let mut fired: Vec<MacroId> = Vec::new();
    let mut c: usize = 0;
    while c < db.data.len()
        invariant
            c <= db.data@.len(),
            scanned(db@, held@, fired@, c as int, 0),
        decreases db.data@.len() - c,
    {
        let collection: &Collection = &db.data[c];
        assert(db@[c as int] == collection@);
        if collection.active {
            let mut m: usize = 0;
            while m < collection.macros.len()
                invariant
                    c < db.data@.len(),
                    db@[c as int] == collection@,
                    collection.active,
                    m <= collection.macros@.len(),
                    scanned(db@, held@, fired@, c as int, m as int),
                decreases collection.macros@.len() - m,
            {
                let candidate: &Macro = &collection.macros[m];
                assert(collection@.macros[m as int] == candidate@);
                let hit: bool = candidate.active && held.matches(&candidate.trigger);
                assert(hit == fires(db@, held@, c as int, m as int));
                if hit {
                    let id = MacroId { collection: c, index: m };
                    proof {
                        lemma_push_keeps_listed(fired@, id);
                    }
                    fired.push(id);
                }
                m += 1;
            }
        }
        c += 1;
    }
    fired
}

/// Takes one input event in: brings the held keys up to date and lists the
/// macros to play.
///
/// The database is read afresh at every call, so a database that replaces
/// another is in force from the next event on. A key press is the only event
/// that can set macros off, and it does so only if, with the pressed key
/// added, the held keys are exactly a trigger.
pub fn run_this(
    pressed_keys: &mut EventList,
    trigger_overview: &MacroData,
    event: &InputEvent,
) -> (fired: Vec<MacroId>)
    ensures
        final(pressed_keys)@ == held_after(old(pressed_keys)@, *event),
        starts_scan(*event) ==> is_firing_list(trigger_overview@, final(pressed_keys)@, fired@),
        !starts_scan(*event) ==> fired@.len() == 0,
{
    if event.synthetic {
        return Vec::new();
    }
    match event.event_type {
        InputEventType::KeyPress(key) => {
            pressed_keys.press(key);
            find_triggered(trigger_overview, pressed_keys)
        },
        InputEventType::KeyRelease(key) => {
            pressed_keys.release(key);
            Vec::new()
        },
        _ => Vec::new(),
    }
}

/// The database with collection `collection` switched on or off and
/// nothing else changed.
pub open spec fn with_collection_active(db: Seq<CollectionView>, collection: int, active: bool) -> Seq<
    CollectionView,
> {
    db.update(
        collection,
        CollectionView {
            name: db[collection].name,
            icon: db[collection].icon,
            macros: db[collection].macros,
            active,
        },
    )
}

/// Matching is exact: a trigger is met when, and only when, there are as
/// many held keys as the trigger has keys and each held key is the
/// trigger's key in the same position.
pub proof fn lemma_match_is_exact(held: Seq<u32>, trigger: Seq<KeyPress>)
    ensures
        key_codes(trigger) == held <==> {
            &&& held.len() == trigger.len()
            &&& forall|i: int| 0 <= i < held.len() ==> held[i] == (#[trigger] trigger[i]).keypress
        },
{
    if held.len() == trigger.len() && (forall|i: int|
        0 <= i < held.len() ==> held[i] == (#[trigger] trigger[i]).keypress) {
        assert(key_codes(trigger) =~= held);
    }
    if key_codes(trigger) == held {
        assert forall|i: int| 0 <= i < held.len() implies held[i] == (#[trigger] trigger[i]).keypress by {
            assert(key_codes(trigger)[i] == trigger[i].keypress);
        }
    }
}

/// At a key press a macro fires when, and only when, it and its collection
/// are switched on and the press completes its trigger: the keys held
/// before are the trigger's keys but the last, in order, and the pressed key
/// is the trigger's last.
pub proof fn lemma_press_fires_iff_trigger_completed(
    db: Seq<CollectionView>,
    held: Seq<u32>,
    key: u32,
    collection: int,
    index: int,
)
    requires
        0 <= collection < db.len(),
        0 <= index < db[collection].macros.len(),
    ensures
        fires(
            db,
            held_after(held, InputEvent { event_type: InputEventType::KeyPress(key), synthetic: false }),
            collection,
            index,
        ) <==> {
            let trigger = db[collection].macros[index].trigger;
            &&& db[collection].active
            &&& db[collection].macros[index].active
            &&& trigger.len() == held.len() + 1
            &&& forall|i: int| 0 <= i < held.len() ==> (#[trigger] trigger[i]).keypress == held[i]
            &&& trigger.last().keypress == key
        },
{
    let trigger = db[collection].macros[index].trigger;
    lemma_match_is_exact(held.push(key), trigger);
    if trigger.len() == held.len() + 1 {
        if key_codes(trigger) == held.push(key) {
            assert forall|i: int| 0 <= i < held.len() implies (#[trigger] trigger[i]).keypress
                == held[i] by {
                assert(held.push(key)[i] == held[i]);
            }
            assert(held.push(key)[held.len() as int] == key);
        }
        if (forall|i: int| 0 <= i < held.len() ==> (#[trigger] trigger[i]).keypress == held[i])
            && trigger.last().keypress == key {
            assert forall|i: int| 0 <= i < held.push(key).len() implies held.push(key)[i] == (
            #[trigger] trigger[i]).keypress by {
                if i < held.len() {
                    assert(trigger[i].keypress == held[i]);
                }
            }
        }
    }
}

/// Keys held besides those of the trigger, whether they went down before
/// or after, keep the trigger from being met.
pub proof fn lemma_extra_keys_prevent_match(trigger: Seq<KeyPress>, before: Seq<u32>, after: Seq<u32>)
    requires
        before.len() + after.len() > 0,
    ensures
        before + key_codes(trigger) + after != key_codes(trigger),
{
    assert((before + key_codes(trigger) + after).len() > key_codes(trigger).len());
}

/// The same keys held in another order do not meet the trigger.
pub proof fn lemma_order_matters(held: Seq<u32>, trigger: Seq<KeyPress>, i: int)
    requires
        0 <= i < held.len(),
        i < trigger.len(),
        held[i] != trigger[i].keypress,
    ensures
        key_codes(trigger) != held,
{
    lemma_match_is_exact(held, trigger);
}

/// A macro fires only while its own switch and its collection's switch are
/// both on.
pub proof fn lemma_fires_needs_both_switches(db: Seq<CollectionView>, held: Seq<u32>, collection: int, index: int)
    requires
        fires(db, held, collection, index),
    ensures
        db[collection].active,
        db[collection].macros[index].active,
{
}

/// No macro of a collection that is switched off is ever listed to fire,
/// whatever the macro's own switch says.
pub proof fn lemma_inactive_collection_never_fires(
    db: Seq<CollectionView>,
    held: Seq<u32>,
    fired: Seq<MacroId>,
    collection: int,
)
    requires
        0 <= collection < db.len(),
        !db[collection].active,
        is_firing_list(db, held, fired),
    ensures
        forall|index: int| !fires(db, held, collection, index),
        forall|k: int| 0 <= k < fired.len() ==> (#[trigger] fired[k]).collection != collection,
{
}

/// Switching a collection off silences its macros and no others; switching
/// it on again brings back what was there, with no need to load the
/// database anew.
pub proof fn lemma_collection_switch(db: Seq<CollectionView>, held: Seq<u32>, collection: int)
    requires
        0 <= collection < db.len(),
    ensures
        forall|index: int| !fires(with_collection_active(db, collection, false), held, collection, index),
        forall|other: int, index: int|
            other != collection ==> (#[trigger] fires(
                with_collection_active(db, collection, false),
                held,
                other,
                index,
            ) <==> fires(db, held, other, index)),
        with_collection_active(with_collection_active(db, collection, false), collection, true)
            == with_collection_active(db, collection, true),
        db[collection].active ==> with_collection_active(
            with_collection_active(db, collection, false),
            collection,
            true,
        ) == db,
        db[collection].active ==> forall|other: int, index: int| #[trigger]
            fires(
                with_collection_active(with_collection_active(db, collection, false), collection, true),
                held,
                other,
                index,
            ) <==> fires(db, held, other, index),
{
    let off = with_collection_active(db, collection, false);
    let on = with_collection_active(off, collection, true);
    assert(on =~= with_collection_active(db, collection, true));
    if db[collection].active {
        assert(on =~= db);
    }
}

/// Two lists in walk order that list the same macros are the same list.
proof fn lemma_walk_order_settles_list(first: Seq<MacroId>, second: Seq<MacroId>)
    requires
        forall|k1: int, k2: int|
            0 <= k1 < k2 < first.len() ==> walked_before(#[trigger] first[k1], #[trigger] first[k2]),
        forall|k1: int, k2: int|
            0 <= k1 < k2 < second.len() ==> walked_before(#[trigger] second[k1], #[trigger] second[k2]),
        forall|id: MacroId| first.contains(id) <==> second.contains(id),
    ensures
        first == second,
    decreases first.len(),
{
    if first.len() == 0 {
        if second.len() > 0 {
            assert(second.contains(second[0]));
        }
        assert(first =~= second);
    } else {
        let id = first.last();
        assert(first.contains(id));
        let at = choose|at: int| 0 <= at < second.len() && second[at] == id;
        if at < second.len() - 1 {
            // A later entry of `second` would have to follow the last entry of `first`.
            let late = second.last();
            assert(walked_before(second[at], late));
            assert(second.contains(late));
            let back = choose|back: int| 0 <= back < first.len() && first[back] == late;
            if back < first.len() - 1 {
                assert(walked_before(first[back], first[first.len() - 1]));
            }
        }
        let first_front = first.drop_last();
        let second_front = second.drop_last();
        assert forall|other: MacroId| first_front.contains(other) <==> second_front.contains(other) by {
            if first_front.contains(other) {
                let k = choose|k: int| 0 <= k < first_front.len() && first_front[k] == other;
                assert(walked_before(first[k], first[first.len() - 1]));
                assert(first.contains(other));
                let j = choose|j: int| 0 <= j < second.len() && second[j] == other;
                assert(second_front[j] == other);
            }
            if second_front.contains(other) {
                let k = choose|k: int| 0 <= k < second_front.len() && second_front[k] == other;
                assert(walked_before(second[k], second[second.len() - 1]));
                assert(second.contains(other));
                let j = choose|j: int| 0 <= j < first.len() && first[j] == other;
                assert(first_front[j] == other);
            }
        }
        assert forall|k1: int, k2: int| 0 <= k1 < k2 < first_front.len() implies walked_before(
            #[trigger] first_front[k1],
            #[trigger] first_front[k2],
        ) by {
            assert(walked_before(first[k1], first[k2]));
        }
        assert forall|k1: int, k2: int| 0 <= k1 < k2 < second_front.len() implies walked_before(
            #[trigger] second_front[k1],
            #[trigger] second_front[k2],
        ) by {
            assert(walked_before(second[k1], second[k2]));
        }
        lemma_walk_order_settles_list(first_front, second_front);
        assert(first =~= first_front.push(id));
        assert(second =~= second_front.push(id));
    }
}

/// There is one firing list and no other: what is listed, and in what
/// order, is settled by the database and the held keys.
pub proof fn lemma_firing_list_is_unique(
    db: Seq<CollectionView>,
    held: Seq<u32>,
    first: Seq<MacroId>,
    second: Seq<MacroId>,
)
    requires
        is_firing_list(db, held, first),
        is_firing_list(db, held, second),
    ensures
        first == second,
{
    assert forall|id: MacroId| first.contains(id) <==> second.contains(id) by {
        if first.contains(id) {
            let k = choose|k: int| 0 <= k < first.len() && first[k] == id;
            assert(fires(db, held, first[k].collection as int, first[k].index as int));
            assert(second.contains(MacroId { collection: id.collection, index: id.index }));
        }
        if second.contains(id) {
            let k = choose|k: int| 0 <= k < second.len() && second[k] == id;
            assert(fires(db, held, second[k].collection as int, second[k].index as int));
            assert(first.contains(MacroId { collection: id.collection, index: id.index }));
        }
    }
    lemma_walk_order_settles_list(first, second);
}

} // verus!
