//! The macro database: actions, triggers, macros, collections.

use vstd::prelude::*;

verus! {

/// A duration in milliseconds.
pub type Delay = u64;

/// Declared playback behaviour of a macro.
///
/// Only linear playback is implemented: every kind is played once, start to
/// end, each time the trigger is met.
#[derive(Debug, Clone, Copy, PartialEq, Eq, Structural)]
pub enum MacroType {
    Single,
    Repeating,
    OnHold,
    MultiLevel,
}

/// How a single key step is synthesized during playback.
#[derive(Debug, Clone, Copy, PartialEq, Eq, Hash, Structural)]
pub enum KeyType {
    /// Press the key, hold it for the step's duration, then release it.
    DownUp,
    /// Press the key and leave it held.
    Down,
    /// Release the key.
    Up,
}

/// One key step: which key, for how long, and in what manner.
#[derive(Debug, Clone, Copy, PartialEq, Eq, Hash, Structural)]
pub struct KeyPress {
    /// Platform-independent key code.
    pub keypress: u32,
    /// How long a `DownUp` step holds the key.
    pub press_duration: Delay,
    pub keytype: KeyType,
}

/// One step of a macro's playback sequence.
#[derive(Debug, Clone, Copy, PartialEq, Eq, Structural)]
#[allow(inconsistent_fields)]
pub enum ActionEventType {
    /// Synthesize a key event.
    KeyPressEvent { data: KeyPress },
    /// Reserved; plays nothing.
    PhillipsHueCommand {},
    /// Reserved; plays nothing.
    OBS {},
    /// Reserved; plays nothing.
    DiscordCommand {},
    /// Reserved; plays nothing.
    UnicodeDirect {},
    /// Pause playback.
    Delay { data: Delay },
}

/// The condition that starts a macro.
#[derive(Debug)]
pub enum TriggerEventType {
    /// The held keys are exactly these, in this order.
    KeyPressEvent { data: Vec<KeyPress> },
}

/// A character with the pause that follows it.
#[derive(Debug, Clone, Copy, PartialEq, Eq, Structural)]
pub struct Action {
    pub action: char,
    pub press_wait_delay_after: Delay,
}

/// A named playback sequence with its trigger.
#[derive(Debug)]
pub struct Macro {
    pub name: String,
    pub sequence: Vec<ActionEventType>,
    pub macro_type: MacroType,
    pub trigger: TriggerEventType,
    pub active: bool,
}

/// A named group of macros that is switched on and off as a whole.
#[derive(Debug)]
pub struct Collection {
    pub name: String,
    pub icon: String,
    pub macros: Vec<Macro>,
    pub active: bool,
}

/// The whole macro database.
#[derive(Debug)]
pub struct MacroData {
    pub data: Vec<Collection>,
}

/// What a [`Macro`] holds, as mathematical values.
pub struct MacroView {
    pub name: Seq<char>,
    pub sequence: Seq<ActionEventType>,
    pub macro_type: MacroType,
    /// The key steps of the trigger combination, in order.
    pub trigger: Seq<KeyPress>,
    pub active: bool,
}

/// What a [`Collection`] holds, as mathematical values.
pub struct CollectionView {
    pub name: Seq<char>,
    pub icon: Seq<char>,
    pub macros: Seq<MacroView>,
    pub active: bool,
}

impl View for TriggerEventType {
    type V = Seq<KeyPress>;

    open spec fn view(&self) -> Seq<KeyPress> {
        match *self {
            TriggerEventType::KeyPressEvent { data } => data@,
        }
    }
}

impl View for Macro {
    type V = MacroView;

    open spec fn view(&self) -> MacroView {
        MacroView {
            name: self.name@,
            sequence: self.sequence@,
            macro_type: self.macro_type,
            trigger: self.trigger@,
            active: self.active,
        }
    }
}

impl View for Collection {
    type V = CollectionView;

    open spec fn view(&self) -> CollectionView {
        CollectionView {
            name: self.name@,
            icon: self.icon@,
            macros: self.macros@.map_values(|m: Macro| m@),
            active: self.active,
        }
    }
}

impl View for MacroData {
    type V = Seq<CollectionView>;

    open spec fn view(&self) -> Seq<CollectionView> {
        self.data@.map_values(|c: Collection| c@)
    }
}

impl TriggerEventType {
    /// The key codes of the combination, in order.
    pub open spec fn key_codes(&self) -> Seq<u32> {
        key_codes(self@)
    }
}

/// The key codes of a sequence of key steps, in order.
pub open spec fn key_codes(keys: Seq<KeyPress>) -> Seq<u32> {
    keys.map_values(|k: KeyPress| k.keypress)
}

impl Clone for TriggerEventType {
    fn clone(&self) -> (res: Self)
        ensures
            res@ == self@,
    {
        match self {
            TriggerEventType::KeyPressEvent { data } => {
                let mut keys: Vec<KeyPress> = Vec::new();
                let mut i: usize = 0;
                while i < data.len()
                    invariant
                        i <= data.len(),
                        keys@ == data@.take(i as int),
                    decreases data.len() - i,
                {
                    keys.push(data[i]);
                    i += 1;
                }
                TriggerEventType::KeyPressEvent { data: keys }
            },
        }
    }
}

impl Clone for Macro {
    fn clone(&self) -> (res: Self)
        ensures
            res@ == self@,
    {
        let mut sequence: Vec<ActionEventType> = Vec::new();
        let mut i: usize = 0;
        while i < self.sequence.len()
            invariant
                i <= self.sequence@.len(),
                sequence@ == self.sequence@.take(i as int),
            decreases self.sequence@.len() - i,
        {
            sequence.push(self.sequence[i]);
            i += 1;
        }
        assert(sequence@ =~= self.sequence@);
        Macro {
            name: self.name.clone(),
            sequence,
            macro_type: self.macro_type,
            trigger: self.trigger.clone(),
            active: self.active,
        }
    }
}

impl Clone for Collection {
    fn clone(&self) -> (res: Self)
        ensures
            res@ == self@,
    {
        let mut macros: Vec<Macro> = Vec::new();
        let mut i: usize = 0;
        while i < self.macros.len()
            invariant
                i <= self.macros@.len(),
                macros@.len() == i,
                forall|k: int| 0 <= k < i ==> (#[trigger] macros@[k])@ == self.macros@[k]@,
            decreases self.macros@.len() - i,
        {
            macros.push(self.macros[i].clone());
            i += 1;
        }
        let res = Collection { name: self.name.clone(), icon: self.icon.clone(), macros, active: self.active };
        assert(res@.macros =~= self@.macros);
        res
    }
}

impl Clone for MacroData {
    fn clone(&self) -> (res: Self)
        ensures
            res@ == self@,
    {
        let mut data: Vec<Collection> = Vec::new();
        let mut i: usize = 0;
        while i < self.data.len()
            invariant
                i <= self.data@.len(),
                data@.len() == i,
                forall|k: int| 0 <= k < i ==> (#[trigger] data@[k])@ == self.data@[k]@,
            decreases self.data@.len() - i,
        {
            data.push(self.data[i].clone());
            i += 1;
        }
        let res = MacroData { data };
        assert(res@ =~= self@);
        res
    }
}

impl Macro {
    /// An inactive, nameless macro with no actions and an empty trigger.
    pub fn new() -> (m: Macro)
        ensures
            m@.name.len() == 0,
            m@.sequence.len() == 0,
            m@.macro_type == MacroType::Single,
            m@.trigger.len() == 0,
            !m@.active,
    {
        Macro {
            name: String::new(),
            sequence: Vec::new(),
            macro_type: MacroType::Single,
            trigger: TriggerEventType::KeyPressEvent { data: Vec::new() },
            active: false,
        }
    }
}

impl MacroData {
    /// The database to start from, given what the host found in its store.
    ///
    /// `persisted` is the stored database if the host could read and
    /// understand it, and `None` if the store was absent or malformed. In
    /// that case the engine starts without any collection.
    pub fn read_data(persisted: Option<MacroData>) -> (db: MacroData)
        ensures
            persisted is Some ==> db == persisted->0,
            persisted is None ==> db@.len() == 0,
    {
        match persisted {
            Some(db) => db,
            None => MacroData { data: Vec::new() },
        }
    }
}

} // verus!
