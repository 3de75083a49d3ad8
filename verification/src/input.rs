//! Input events as the engine sees them, and the record of held keys.

use vstd::prelude::*;
use crate::model::TriggerEventType;

verus! {

/// A pointer button.
#[derive(Debug, Clone, Copy, PartialEq, Eq, Hash, Structural)]
pub enum MouseButton {
    Left,
    Right,
    Middle,
    Unknown(u8),
}

/// What happened on an input device.
///
/// Keys are named by the same platform-independent codes that key steps use;
/// the host maps the platform's own key names to these codes before it hands
/// an event over.
#[derive(Debug, Clone, Copy, PartialEq, Eq, Structural)]
pub enum InputEventType {
    KeyPress(u32),
    KeyRelease(u32),
    ButtonPress(MouseButton),
    ButtonRelease(MouseButton),
    MouseMove,
    Wheel { delta_x: i64, delta_y: i64 },
}

/// One event of the input stream.
#[derive(Debug, Clone, Copy, PartialEq, Eq, Structural)]
pub struct InputEvent {
    pub event_type: InputEventType,
    /// Set by the host on events that the engine's own playback produced.
    /// Such events are invisible to the matcher, so that a macro cannot
    /// trigger itself or another macro.
    pub synthetic: bool,
}

/// The held keys that remain once `key` is let go: every occurrence of `key`
/// is gone, every other key stays where it was relative to the rest.
pub open spec fn released(held: Seq<u32>, key: u32) -> Seq<u32> {
    held.filter(|k: u32| k != key)
}

/// The held keys after an event has been taken in.
///
/// A key press appends the key, also when it is already held (key repeat is
/// passed through). A key release removes the key. Pointer events and events
/// of the engine's own making change nothing.
pub open spec fn held_after(held: Seq<u32>, event: InputEvent) -> Seq<u32> {
    if event.synthetic {
        held
    } else {
        match event.event_type {
            InputEventType::KeyPress(key) => held.push(key),
            InputEventType::KeyRelease(key) => released(held, key),
            _ => held,
        }
    }
}

/// The keys that are currently down, in the order in which they went down.
#[derive(Debug)]
pub struct EventList(Vec<u32>);

impl View for EventList {
    type V = Seq<u32>;

    closed spec fn view(&self) -> Seq<u32> {
        self.0@
    }
}

impl Clone for EventList {
    fn clone(&self) -> (res: Self)
        ensures
            res@ == self@,
    {
        let mut keys: Vec<u32> = Vec::new();
        let mut i: usize = 0;
        while i < self.0.len()
            invariant
                i <= self.0@.len(),
                keys@ == self.0@.take(i as int),
            decreases self.0@.len() - i,
        {
            keys.push(self.0[i]);
            i += 1;
        }
        EventList(keys)
    }
}

impl EventList {
    /// No key is held.
    pub fn new() -> (held: EventList)
        ensures
            held@ == Seq::<u32>::empty(),
    {
        EventList(Vec::new())
    }

    /// The held keys, oldest first.
    pub fn keys(&self) -> (keys: &Vec<u32>)
        ensures
            keys@ == self@,
    {
        &self.0
    }

    /// Records that `key` went down.
    pub fn press(&mut self, key: u32)
        ensures
            final(self)@ == old(self)@.push(key),
    {
        self.0.push(key);
    }

    /// Records that `key` went up.
    pub fn release(&mut self, key: u32)
        ensures
            final(self)@ == released(old(self)@, key),
    {
        let ghost before = self.0@;
        let mut kept: Vec<u32> = Vec::new();
        let mut i: usize = 0;
        proof {
            reveal(Seq::filter);
            assert(before.take(0) =~= Seq::<u32>::empty());
        }
        while i < self.0.len()
            invariant
                self.0@ == before,
                i <= before.len(),
                kept@ == released(before.take(i as int), key),
            decreases before.len() - i,
        {
            let k: u32 = self.0[i];
            proof {
                reveal(Seq::filter);
                let next = before.take(i as int + 1);
                assert(next.drop_last() =~= before.take(i as int));
                assert(next.last() == k);
            }
            if k != key {
                kept.push(k);
            }
            i += 1;
        }
        proof {
            assert(before.take(i as int) =~= before);
        }
        self.0 = kept;
    }

    /// Whether the held keys meet `trigger`: the same keys, as many, in the
    /// same order.
    pub fn matches(&self, trigger: &TriggerEventType) -> (hit: bool)
        ensures
            hit == (self@ == trigger.key_codes()),
    {
        match trigger {
            TriggerEventType::KeyPressEvent { data } => {
                if self.0.len() != data.len() {
                    return false;
                }
                let mut i: usize = 0;
                while i < data.len()
                    invariant
                        i <= data.len(),
                        self.0@.len() == data@.len(),
                        trigger@ == data@,
                        forall|k: int| 0 <= k < i ==> self.0@[k] == #[trigger] data@[k].keypress,
                    decreases data.len() - i,
                {
                    if self.0[i] != data[i].keypress {
                        assert(self@[i as int] != trigger.key_codes()[i as int]);
                        return false;
                    }
                    i += 1;
                }
                assert(self@ =~= trigger.key_codes());
                true
            },
        }
    }
}

/// Release goes through the held keys one by one: it drops the released key
/// wherever it meets it and passes every other key on, in place.
pub proof fn lemma_release_key_by_key(held: Seq<u32>, last: u32, key: u32)
    ensures
        released(Seq::<u32>::empty(), key) == Seq::<u32>::empty(),
        released(held.push(last), key) == if last == key {
            released(held, key)
        } else {
            released(held, key).push(last)
        },
{
    reveal(Seq::filter);
    assert(held.push(last).drop_last() =~= held);
}

/// After a key's release has been taken in, the key is not held, however
/// often it had been pressed.
pub proof fn lemma_release_removes_key(held: Seq<u32>, key: u32)
    ensures
        !released(held, key).contains(key),
    decreases held.len(),
{
    if held.len() == 0 {
        lemma_release_key_by_key(held, key, key);
        assert(held =~= Seq::<u32>::empty());
    } else {
        let front = held.drop_last();
        assert(held =~= front.push(held.last()));
        lemma_release_key_by_key(front, held.last(), key);
        lemma_release_removes_key(front, key);
        if held.last() != key {
            let kept = released(front, key);
            assert forall|i: int| 0 <= i < kept.push(held.last()).len() implies kept.push(
                held.last(),
            )[i] != key by {
                if i < kept.len() {
                    assert(kept.contains(kept[i]));
                }
            }
        }
    }
}

/// A release takes nothing but the released key: every other key is held
/// exactly as often afterwards as it was before.
pub proof fn lemma_release_keeps_other_keys(held: Seq<u32>, key: u32, other: u32)
    requires
        other != key,
    ensures
        released(held, key).to_multiset().count(other) == held.to_multiset().count(other),
        released(held, key).contains(other) <==> held.contains(other),
    decreases held.len(),
{
    broadcast use vstd::seq_lib::group_to_multiset_ensures;

    if held.len() == 0 {
        lemma_release_key_by_key(held, key, key);
        assert(held =~= Seq::<u32>::empty());
    } else {
        let front = held.drop_last();
        assert(held =~= front.push(held.last()));
        lemma_release_key_by_key(front, held.last(), key);
        lemma_release_keeps_other_keys(front, key, other);
    }
}

/// Releasing a key that is not held changes nothing.
pub proof fn lemma_release_of_unheld_key(held: Seq<u32>, key: u32)
    requires
        !held.contains(key),
    ensures
        released(held, key) == held,
    decreases held.len(),
{
    if held.len() == 0 {
        lemma_release_key_by_key(held, key, key);
        assert(held =~= Seq::<u32>::empty());
    } else {
        let front = held.drop_last();
        assert(held =~= front.push(held.last()));
        assert(held[held.len() - 1] == held.last());
        assert forall|i: int| 0 <= i < front.len() implies front[i] != key by {
            assert(held[i] == front[i]);
        }
        lemma_release_key_by_key(front, held.last(), key);
        lemma_release_of_unheld_key(front, key);
    }
}

/// Taking the same release in twice leaves the held keys as taking it in
/// once does.
pub proof fn lemma_release_twice_is_release_once(held: Seq<u32>, key: u32)
    ensures
        released(released(held, key), key) == released(held, key),
{
    lemma_release_removes_key(held, key);
    lemma_release_of_unheld_key(released(held, key), key);
}

/// A key whose press was taken in twice is cleared by one release, just as
/// if the press had been taken in once.
pub proof fn lemma_release_clears_repeated_press(held: Seq<u32>, key: u32)
    ensures
        released(held.push(key).push(key), key) == released(held.push(key), key),
        released(held.push(key), key) == released(held, key),
        !released(held.push(key).push(key), key).contains(key),
{
    lemma_release_key_by_key(held, key, key);
    lemma_release_key_by_key(held.push(key), key, key);
    lemma_release_removes_key(held, key);
}

/// A release event that the input source delivers twice has the effect of
/// one delivery, and after it the released key is not held.
pub proof fn lemma_release_event_delivered_twice(held: Seq<u32>, event: InputEvent)
    requires
        event.event_type is KeyRelease,
    ensures
        held_after(held_after(held, event), event) == held_after(held, event),
        !event.synthetic ==> !held_after(held, event).contains(event.event_type->KeyRelease_0),
{
    let key = event.event_type->KeyRelease_0;
    lemma_release_twice_is_release_once(held, key);
    lemma_release_removes_key(held, key);
}

} // verus!
