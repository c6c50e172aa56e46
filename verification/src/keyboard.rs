//! Keyboard input: the set of held keys, the queue of raw scancodes, the
//! subscribers that each get a bounded queue of decoded key events, and the
//! step that turns one scancode into key state and events.
use vstd::prelude::*;
use crossbeam_queue::ArrayQueue;
use pc_keyboard::layouts::Us104Key;
use pc_keyboard::{DecodedKey, HandleControl, KeyCode, KeyState, PS2Keyboard, ScancodeSet1};
use crate::queue::{
    event_queue_capacity, event_queue_items, event_queue_new, event_queue_pop, event_queue_push,
    max_queue_capacity, scancode_queue_capacity, scancode_queue_items, scancode_queue_new,
    scancode_queue_pop, scancode_queue_push,
};

verus! {

#[verifier::external_type_specification]
pub struct ExKeyCode(KeyCode);

#[verifier::external_type_specification]
pub struct ExDecodedKey(DecodedKey);

#[verifier::external_type_specification]
#[verifier::external_body]
pub struct ExDecodeError(pc_keyboard::Error);

/// `KeyCode`'s `==`: `KeyCode` is a field-less enum with a derived
/// `PartialEq`, so two codes compare equal exactly when they are the same
/// key.
#[verifier::external_body]
fn key_codes_equal(a: KeyCode, b: KeyCode) -> (eq: bool)
    ensures
        eq == (a == b),
{
    a == b
}

/// A key event as the rest of the system sees it: a character, or a key
/// without one.
#[derive(Copy, Clone, Debug)]
pub enum KeyEvent {
    Unicode(char),
    Raw(KeyCode),
}

impl KeyEvent {
    /// The key code of a raw key event; `None` for a character.
    pub fn code_from_raw(&self) -> (code: Option<KeyCode>)
        ensures
            code == match *self {
                KeyEvent::Raw(c) => Some(c),
                KeyEvent::Unicode(_) => None::<KeyCode>,
            },
    {
        match self {
            KeyEvent::Raw(code) => Some(*code),
            _ => None,
        }
    }
}

/// What happened to a key: released, pressed, or pressed and released at
/// once.
#[derive(Copy, Clone, Debug, PartialEq, Eq, Structural)]
pub enum KeyTransition {
    Up,
    Down,
    SingleShot,
}

/// The held keys after `code` goes through `transition`: a pressed key is
/// added at the end unless it is already held, a released key is taken out,
/// a single-shot event changes nothing.
pub open spec fn held_after(held: Seq<KeyCode>, code: KeyCode, transition: KeyTransition) -> Seq<KeyCode> {
    match transition {
        KeyTransition::Down => if held.contains(code) { held } else { held.push(code) },
        KeyTransition::Up => if held.contains(code) { held.remove(held.index_of(code)) } else { held },
        KeyTransition::SingleShot => held,
    }
}

/// The keys that are held down, in the order they were pressed.
pub struct HeldKeys {
    keys: Vec<KeyCode>,
}

impl HeldKeys {
    /// The held keys, oldest press first.
    pub closed spec fn keys(&self) -> Seq<KeyCode> {
        self.keys@
    }

    /// The invariant: no key is listed twice.
    pub open spec fn wf(&self) -> bool {
        self.keys().no_duplicates()
    }

    /// No key held.
    pub fn new() -> (h: HeldKeys)
        ensures
            h.wf(),
            h.keys() == Seq::<KeyCode>::empty(),
    {
        HeldKeys { keys: Vec::new() }
    }

    fn position(&self, code: KeyCode) -> (pos: Option<usize>)
        ensures
            match pos {
                None => !self.keys().contains(code),
                Some(p) => p < self.keys().len() && self.keys()[p as int] == code && forall|j: int|
                    0 <= j < p ==> self.keys()[j] != code,
            },
    {
        let mut i: usize = 0;
        while i < self.keys.len()
            invariant
                i <= self.keys@.len(),
                forall|j: int| 0 <= j < i ==> self.keys@[j] != code,
            decreases self.keys@.len() - i,
        {
            if key_codes_equal(self.keys[i], code) {
                return Some(i);
            }
            i = i + 1;
        }
        None
    }

    /// Records that `code` went through `transition`; see [`held_after`].
    pub fn set_key_state(&mut self, code: KeyCode, transition: KeyTransition)
        requires
            old(self).wf(),
        ensures
            final(self).wf(),
            final(self).keys() == held_after(old(self).keys(), code, transition),
    {
        match transition {
            KeyTransition::Down => {
                if self.position(code).is_none() {
                    self.keys.push(code);
                }
            },
            KeyTransition::Up => {
                match self.position(code) {
                    Some(pos) => {
                        proof {
                            let k = self.keys@;
                            assert(k.contains(code));
                            assert(k[k.index_of(code)] == code);
                        }
                        self.keys.remove(pos);
                    },
                    None => {},
                }
            },
            KeyTransition::SingleShot => {},
        }
    }

    /// The held keys, oldest press first.
    pub fn held(&self) -> (k: &[KeyCode])
        ensures
            k@ == self.keys(),
    {
        self.keys.as_slice()
    }

    /// Whether `code` is held down.
    pub fn is_key_down(&self, code: KeyCode) -> (down: bool)
        ensures
            down == self.keys().contains(code),
    {
        self.position(code).is_some()
    }
}

/// Capacity of the queue of scancodes waiting to be decoded.
pub const SCANCODE_QUEUE_CAPACITY: usize = 100;

/// Scancodes received from the keyboard controller, waiting to be decoded.
pub struct ScancodeStream {
    queue: ArrayQueue<u8>,
}

impl ScancodeStream {
    /// The waiting scancodes, oldest first.
    pub closed spec fn pending(&self) -> Seq<u8> {
        scancode_queue_items(self.queue)
    }

    /// How many scancodes the stream holds at most.
    pub closed spec fn capacity(&self) -> nat {
        scancode_queue_capacity(self.queue)
    }

    /// The invariant: the queue never exceeds its capacity of
    /// [`SCANCODE_QUEUE_CAPACITY`].
    pub open spec fn wf(&self) -> bool {
        self.capacity() == SCANCODE_QUEUE_CAPACITY && self.pending().len() <= self.capacity()
    }

    /// An empty stream.
    pub fn new() -> (s: ScancodeStream)
        ensures
            s.wf(),
            s.pending() == Seq::<u8>::empty(),
    {
        ScancodeStream { queue: scancode_queue_new(SCANCODE_QUEUE_CAPACITY) }
    }

    /// Queues a scancode from the keyboard interrupt. Returns `false`, and
    /// drops the scancode, when the queue is full.
    pub fn add_scancode(&mut self, scancode: u8) -> (queued: bool)
        requires
            old(self).wf(),
        ensures
            final(self).wf(),
            queued == (old(self).pending().len() < SCANCODE_QUEUE_CAPACITY),
            queued ==> final(self).pending() == old(self).pending().push(scancode),
            !queued ==> final(self).pending() == old(self).pending(),
    {
        scancode_queue_push(&mut self.queue, scancode).is_ok()
    }

    /// Takes the oldest waiting scancode, if any.
    pub fn next_scancode(&mut self) -> (sc: Option<u8>)
        requires
            old(self).wf(),
        ensures
            final(self).wf(),
            old(self).pending().len() == 0 ==> sc is None && final(self).pending() == old(self).pending(),
            old(self).pending().len() > 0 ==> sc == Some(old(self).pending()[0]) && final(self).pending()
                == old(self).pending().drop_first(),
    {
        scancode_queue_pop(&mut self.queue)
    }
}

/// What a subscriber holds: its id, the events waiting for it (oldest
/// first) and how many events it keeps at most.
pub struct SubscriberState {
    pub id: usize,
    pub events: Seq<KeyEvent>,
    pub capacity: nat,
}

/// A subscriber's events after `ev` is delivered: appended, after dropping
/// the oldest event when the queue is full.
pub open spec fn deliver(events: Seq<KeyEvent>, capacity: nat, ev: KeyEvent) -> Seq<KeyEvent> {
    if events.len() < capacity {
        events.push(ev)
    } else {
        events.drop_first().push(ev)
    }
}

/// Every subscriber after `ev` is delivered to each.
pub open spec fn broadcast_spec(subs: Seq<SubscriberState>, ev: KeyEvent) -> Seq<SubscriberState> {
    Seq::new(
        subs.len(),
        |i: int|
            SubscriberState {
                id: subs[i].id,
                events: deliver(subs[i].events, subs[i].capacity, ev),
                capacity: subs[i].capacity,
            },
    )
}

/// Whether `p` is the position of the first subscriber with id `id`.
pub open spec fn first_with_id(subs: Seq<SubscriberState>, id: usize, p: int) -> bool {
    &&& 0 <= p < subs.len()
    &&& subs[p].id == id
    &&& forall|j: int| 0 <= j < p ==> #[trigger] subs[j].id != id
}

/// Whether some subscriber has id `id`.
pub open spec fn has_id(subs: Seq<SubscriberState>, id: usize) -> bool {
    exists|j: int| 0 <= j < subs.len() && #[trigger] subs[j].id == id
}

/// A subscriber's handle: the id under which its events wait.
pub struct Subscriber {
    id: usize,
}

impl Subscriber {
    /// The subscriber's id.
    pub closed spec fn spec_id(&self) -> usize {
        self.id
    }

    /// The subscriber's id.
    pub fn id(&self) -> (id: usize)
        ensures
            id == self.spec_id(),
    {
        self.id
    }
}

struct SubscriberEntry {
    id: usize,
    queue: ArrayQueue<KeyEvent>,
}

/// The subscribers to key events, each with a bounded queue of events.
pub struct SubscriberRegistry {
    entries: Vec<SubscriberEntry>,
    next_id: usize,
}

impl SubscriberRegistry {
    /// The subscribers, in the order they subscribed.
    pub closed spec fn subscribers(&self) -> Seq<SubscriberState> {
        Seq::new(
            self.entries@.len(),
            |i: int|
                SubscriberState {
                    id: self.entries@[i].id,
                    events: event_queue_items(self.entries@[i].queue),
                    capacity: event_queue_capacity(self.entries@[i].queue),
                },
        )
    }

    /// The id the next subscriber gets.
    pub closed spec fn next_id(&self) -> usize {
        self.next_id
    }

    /// The invariant: every queue has room for at least one event and holds
    /// no more than its capacity.
    pub open spec fn wf(&self) -> bool {
        forall|i: int|
            0 <= i < self.subscribers().len() ==> 0 < (#[trigger] self.subscribers()[i]).capacity
                && self.subscribers()[i].events.len() <= self.subscribers()[i].capacity
    }

    /// Every registered id is below the next id to be handed out: so the
    /// next id is fresh. Holds from the start until the id counter wraps.
    pub open spec fn ids_below_next(&self) -> bool {
        forall|i: int| 0 <= i < self.subscribers().len() ==> (#[trigger] self.subscribers()[i]).id < self.next_id()
    }

    /// No subscribers; ids start at 1.
    pub fn new() -> (r: SubscriberRegistry)
        ensures
            r.wf(),
            r.ids_below_next(),
            r.subscribers() == Seq::<SubscriberState>::empty(),
            r.next_id() == 1,
    {
        let r = SubscriberRegistry { entries: Vec::new(), next_id: 1 };
        assert(r.subscribers() =~= Seq::<SubscriberState>::empty());
        r
    }

    /// Adds a subscriber whose queue keeps up to `capacity` events, with the
    /// next id; ids count up and wrap around at the end of `usize`.
    pub fn subscribe(&mut self, capacity: usize) -> (s: Subscriber)
        requires
            old(self).wf(),
            0 < capacity <= max_queue_capacity(),
        ensures
            final(self).wf(),
            s.spec_id() == old(self).next_id(),
            old(self).ids_below_next() ==> !has_id(old(self).subscribers(), s.spec_id()),
            old(self).ids_below_next() && old(self).next_id() < usize::MAX ==> final(self).ids_below_next(),
            final(self).next_id() == if old(self).next_id() == usize::MAX {
                0
            } else {
                (old(self).next_id() + 1) as usize
            },
            final(self).subscribers() == old(self).subscribers().push(
                SubscriberState { id: old(self).next_id(), events: Seq::empty(), capacity: capacity as nat },
            ),
    {
        let queue = event_queue_new(capacity);
        let id = self.next_id;
        self.next_id = self.next_id.wrapping_add(1);
        self.entries.push(SubscriberEntry { id, queue });
        assert(self.subscribers() =~= old(self).subscribers().push(
            SubscriberState { id: old(self).next_id(), events: Seq::empty(), capacity: capacity as nat },
        ));
        Subscriber { id }
    }

    fn position(&self, id: usize) -> (pos: Option<usize>)
        ensures
            match pos {
                None => !has_id(self.subscribers(), id),
                Some(p) => first_with_id(self.subscribers(), id, p as int),
            },
    {
        let mut i: usize = 0;
        while i < self.entries.len()
            invariant
                i <= self.entries@.len(),
                forall|j: int| 0 <= j < i ==> #[trigger] self.entries@[j].id != id,
            decreases self.entries@.len() - i,
        {
            if self.entries[i].id == id {
                return Some(i);
            }
            i = i + 1;
        }
        None
    }

    /// Whether some subscriber has id `id`.
    pub fn contains(&self, id: usize) -> (found: bool)
        ensures
            found == has_id(self.subscribers(), id),
    {
        match self.position(id) {
            Some(p) => {
                assert(self.subscribers()[p as int].id == id);
                true
            },
            None => false,
        }
    }

    /// Delivers `ev` to every subscriber; a subscriber whose queue is full
    /// loses its oldest event to make room. See [`broadcast_spec`].
    pub fn broadcast(&mut self, ev: KeyEvent)
        requires
            old(self).wf(),
        ensures
            final(self).wf(),
            final(self).next_id() == old(self).next_id(),
            old(self).ids_below_next() ==> final(self).ids_below_next(),
            final(self).subscribers() == broadcast_spec(old(self).subscribers(), ev),
    {
        let ghost before = self.subscribers();
        let n = self.entries.len();
        let mut i: usize = 0;
        while i < n
            invariant
                i <= n,
                n == self.entries@.len(),
                before.len() == n,
                self.next_id == old(self).next_id(),
                forall|j: int|
                    0 <= j < n ==> 0 < (#[trigger] before[j]).capacity && before[j].events.len()
                        <= before[j].capacity,
                forall|j: int|
                    0 <= j < n ==> (#[trigger] self.entries@[j]).id == before[j].id
                        && event_queue_capacity(self.entries@[j].queue) == before[j].capacity,
                forall|j: int|
                    0 <= j < i ==> event_queue_items((#[trigger] self.entries@[j]).queue) == deliver(
                        before[j].events,
                        before[j].capacity,
                        ev,
                    ),
                forall|j: int|
                    i <= j < n ==> event_queue_items((#[trigger] self.entries@[j]).queue)
                        == before[j].events,
            decreases n - i,
        {
            let mut entry = self.entries.remove(i);
            if event_queue_push(&mut entry.queue, ev).is_err() {
                let _ = event_queue_pop(&mut entry.queue);
                let _ = event_queue_push(&mut entry.queue, ev);
            }
            self.entries.insert(i, entry);
            i = i + 1;
        }
        assert(self.subscribers() =~= broadcast_spec(before, ev));
    }

    /// Takes the oldest event waiting for subscriber `id`, if any.
    pub fn next_event(&mut self, id: usize) -> (ev: Option<KeyEvent>)
        requires
            old(self).wf(),
            has_id(old(self).subscribers(), id),
        ensures
            final(self).wf(),
            final(self).next_id() == old(self).next_id(),
            old(self).ids_below_next() ==> final(self).ids_below_next(),
            forall|p: int|
                first_with_id(old(self).subscribers(), id, p) ==> {
                    let s = old(self).subscribers()[p];
                    &&& s.events.len() == 0 ==> ev is None && final(self).subscribers() == old(
                        self,
                    ).subscribers()
                    &&& s.events.len() > 0 ==> ev == Some(s.events[0]) && final(self).subscribers()
                        == old(self).subscribers().update(
                        p,
                        SubscriberState { id: s.id, events: s.events.drop_first(), capacity: s.capacity },
                    )
                },
    {
        let ghost before = self.subscribers();
        let pos = self.position(id);
        match pos {
            Some(p) => {
                let mut entry = self.entries.remove(p);
                let ev = event_queue_pop(&mut entry.queue);
                self.entries.insert(p, entry);
                proof {
                    let s = before[p as int];
                    if s.events.len() == 0 {
                        assert(self.subscribers() =~= before);
                    } else {
                        assert(self.subscribers() =~= before.update(
                            p as int,
                            SubscriberState { id: s.id, events: s.events.drop_first(), capacity: s.capacity },
                        ));
                    }
                    assert forall|q: int| first_with_id(before, id, q) implies q == p by {
                        if q < p {
                            assert(before[q].id != id);
                        } else if q > p {
                            assert(before[p as int].id != id);
                        }
                    }
                }
                ev
            },
            None => {
                None
            },
        }
    }
}

/// Removes the first subscriber with id `id`; does nothing when there is
/// none.
pub fn unsubscribe(registry: &mut SubscriberRegistry, id: usize)
    requires
        old(registry).wf(),
    ensures
        final(registry).wf(),
        final(registry).next_id() == old(registry).next_id(),
        old(registry).ids_below_next() ==> final(registry).ids_below_next(),
        !has_id(old(registry).subscribers(), id) ==> final(registry).subscribers() == old(
            registry,
        ).subscribers(),
        forall|p: int|
            first_with_id(old(registry).subscribers(), id, p) ==> final(registry).subscribers() == old(
                registry,
            ).subscribers().remove(p),
{
    let ghost before = registry.subscribers();
    match registry.position(id) {
        Some(p) => {
            registry.entries.remove(p);
            proof {
                assert(registry.subscribers() =~= before.remove(p as int));
                assert forall|q: int| first_with_id(before, id, q) implies q == p by {
                    if q < p {
                        assert(before[q].id != id);
                    } else if q > p {
                        assert(before[p as int].id != id);
                    }
                }
            }
        },
        None => {},
    }
}

/// Where a scancode-set-1 byte sequence stands: at the start, or after one
/// of the two prefix bytes 0xE0 and 0xE1.
#[derive(Copy, Clone, Debug, PartialEq, Eq, Structural)]
pub enum Set1Prefix {
    Start,
    AfterE0,
    AfterE1,
}

/// The key event that `byte` completes in scancode set 1 after `prefix`,
/// if any: `None` when the byte only starts a sequence or is not a key.
pub uninterp spec fn set1_key_event(prefix: Set1Prefix, byte: u8) -> Option<(KeyCode, KeyTransition)>;

/// Where the sequence stands after `byte`: a prefix byte at the start opens
/// a sequence, and every other byte ends it.
pub open spec fn set1_next_prefix(prefix: Set1Prefix, byte: u8) -> Set1Prefix {
    if prefix == Set1Prefix::Start && byte == 0xe0 {
        Set1Prefix::AfterE0
    } else if prefix == Set1Prefix::Start && byte == 0xe1 {
        Set1Prefix::AfterE1
    } else {
        Set1Prefix::Start
    }
}

/// Whether `byte` only opens a sequence.
pub open spec fn set1_opens_sequence(prefix: Set1Prefix, byte: u8) -> bool {
    prefix == Set1Prefix::Start && (byte == 0xe0 || byte == 0xe1)
}

/// `ScancodeSet1::advance_state` on `byte`, in a decoder brought to `prefix`
/// by feeding it the prefix byte first; the event's `KeyState` is converted
/// to a `KeyTransition`. The result depends on `prefix` and `byte` alone
/// and is named by `set1_key_event`. As `advance_state`'s source shows, the
/// sequence is left incomplete exactly when a prefix byte comes at the
/// start, and a completed event is a press for a byte below 0x80 and a
/// release otherwise. Which key an event is for is left to the name.
#[verifier::external_body]
fn set1_advance(prefix: Set1Prefix, byte: u8) -> (r: Result<Option<(KeyCode, KeyTransition)>, pc_keyboard::Error>)
    ensures
        (r matches Ok(None)) <==> set1_opens_sequence(prefix, byte),
        match r {
            Ok(Some(ev)) => set1_key_event(prefix, byte) == Some(ev),
            _ => set1_key_event(prefix, byte) is None,
        },
        r matches Ok(Some(ev)) ==> ev.1 == (if byte < 0x80 { KeyTransition::Down } else { KeyTransition::Up }),
{
    let mut set = ScancodeSet1::new();
    let _ = match prefix { Set1Prefix::Start => Ok(None), Set1Prefix::AfterE0 => pc_keyboard::ScancodeSet::advance_state(&mut set, 0xe0), Set1Prefix::AfterE1 => pc_keyboard::ScancodeSet::advance_state(&mut set, 0xe1) };
    match pc_keyboard::ScancodeSet::advance_state(&mut set, byte) {
        Ok(Some(ev)) => Ok(Some((ev.code, match ev.state {
            KeyState::Up => KeyTransition::Up,
            KeyState::Down => KeyTransition::Down,
            KeyState::SingleShot => KeyTransition::SingleShot,
        }))),
        Ok(None) => Ok(None),
        Err(e) => Err(e),
    }
}

/// The modifier keys and toggles a key decoder tracks.
#[derive(Copy, Clone, Debug, PartialEq, Eq, Structural)]
pub struct ModifierState {
    pub lshift: bool,
    pub rshift: bool,
    pub lctrl: bool,
    pub rctrl: bool,
    pub numlock: bool,
    pub capslock: bool,
    pub lalt: bool,
    pub ralt: bool,
    pub rctrl2: bool,
}

/// The modifiers a fresh decoder holds: Num Lock on, everything else off.
pub open spec fn us104_start_modifiers() -> ModifierState {
    ModifierState {
        lshift: false,
        rshift: false,
        lctrl: false,
        rctrl: false,
        numlock: true,
        capslock: false,
        lalt: false,
        ralt: false,
        rctrl2: false,
    }
}

/// The modifiers after the event (`code`, `transition`): pressing or
/// releasing Shift, Ctrl, Alt, AltGr or the hidden second right Ctrl sets
/// or clears its flag, pressing Caps Lock toggles it, pressing Num Lock
/// toggles it unless the hidden right Ctrl is down (then it is Pause), and
/// every other event leaves them.
pub open spec fn us104_modifiers_after(m: ModifierState, code: KeyCode, transition: KeyTransition) -> ModifierState {
    let down = transition == KeyTransition::Down;
    let up = transition == KeyTransition::Up;
    if code == KeyCode::LShift && (down || up) {
        ModifierState { lshift: down, ..m }
    } else if code == KeyCode::RShift && (down || up) {
        ModifierState { rshift: down, ..m }
    } else if code == KeyCode::CapsLock && down {
        ModifierState { capslock: !m.capslock, ..m }
    } else if code == KeyCode::NumpadLock && down && !m.rctrl2 {
        ModifierState { numlock: !m.numlock, ..m }
    } else if code == KeyCode::LControl && (down || up) {
        ModifierState { lctrl: down, ..m }
    } else if code == KeyCode::RControl && (down || up) {
        ModifierState { rctrl: down, ..m }
    } else if code == KeyCode::LAlt && (down || up) {
        ModifierState { lalt: down, ..m }
    } else if code == KeyCode::RAltGr && (down || up) {
        ModifierState { ralt: down, ..m }
    } else if code == KeyCode::RControl2 && (down || up) {
        ModifierState { rctrl2: down, ..m }
    } else {
        m
    }
}

/// The key that the US 104-key layout, with Ctrl passed through, produces
/// for the event (`code`, `transition`) when the modifiers are `modifiers`.
pub uninterp spec fn us104_decoded_key(modifiers: ModifierState, code: KeyCode, transition: KeyTransition) -> Option<DecodedKey>;

/// The event half of `pc_keyboard`'s decoder for the US 104-key layout with
/// Ctrl passed through: it tracks the modifier keys.
#[verifier::external_body]
pub struct ModifierTracker {
    kb: PS2Keyboard<Us104Key, ScancodeSet1>,
}

/// The modifiers a tracker holds (what `PS2Keyboard::get_modifiers` reads).
pub uninterp spec fn tracker_modifiers(t: ModifierTracker) -> ModifierState;

/// `PS2Keyboard::new(ScancodeSet1::new(), Us104Key, HandleControl::Ignore)`:
/// as `EventDecoder::new` shows, its modifiers are all off but Num Lock.
#[verifier::external_body]
fn us104_modifier_tracker() -> (t: ModifierTracker)
    ensures
        tracker_modifiers(t) == us104_start_modifiers(),
{
    ModifierTracker { kb: PS2Keyboard::new(ScancodeSet1::new(), Us104Key, HandleControl::Ignore) }
}

/// `PS2Keyboard::process_keyevent` on (`code`, `transition`), returning the
/// modifiers the decoder held before the event (read with `get_modifiers`)
/// and the decoded key. The key depends on those modifiers, the code and the
/// transition alone (the layout and the Ctrl handling are fixed), and is
/// named by `us104_decoded_key`; every arm of `EventDecoder::process_keyevent`
/// produces a key for a press and none otherwise, and its modifier updates
/// are the ones `us104_modifiers_after` spells out.
#[verifier::external_body]
fn tracker_process_keyevent(t: &mut ModifierTracker, code: KeyCode, transition: KeyTransition) -> (r: (ModifierState, Option<DecodedKey>))
    ensures
        r.0 == tracker_modifiers(*old(t)),
        r.1 == us104_decoded_key(r.0, code, transition),
        r.1 is Some <==> transition == KeyTransition::Down,
        tracker_modifiers(*final(t)) == us104_modifiers_after(r.0, code, transition),
{
    let m = t.kb.get_modifiers();
    let before = ModifierState { lshift: m.lshift, rshift: m.rshift, lctrl: m.lctrl, rctrl: m.rctrl, numlock: m.numlock, capslock: m.capslock, lalt: m.lalt, ralt: m.ralt, rctrl2: m.rctrl2 };
    let state = match transition { KeyTransition::Up => KeyState::Up, KeyTransition::Down => KeyState::Down, KeyTransition::SingleShot => KeyState::SingleShot };
    (before, t.kb.process_keyevent(pc_keyboard::KeyEvent { code, state }))
}

/// The key event a decoded key stands for.
pub open spec fn key_event_from(k: DecodedKey) -> KeyEvent {
    match k {
        DecodedKey::Unicode(c) => KeyEvent::Unicode(c),
        DecodedKey::RawKey(code) => KeyEvent::Raw(code),
    }
}

impl From<DecodedKey> for KeyEvent {
    fn from(k: DecodedKey) -> (ev: KeyEvent) {
        match k {
            DecodedKey::Unicode(c) => KeyEvent::Unicode(c),
            DecodedKey::RawKey(code) => KeyEvent::Raw(code),
        }
    }
}

impl vstd::std_specs::convert::FromSpecImpl<DecodedKey> for KeyEvent {
    open spec fn obeys_from_spec() -> bool {
        true
    }

    open spec fn from_spec(k: DecodedKey) -> KeyEvent {
        key_event_from(k)
    }
}

/// The key event that a decoded key, if any, stands for.
pub open spec fn key_event_from_option(k: Option<DecodedKey>) -> Option<KeyEvent> {
    match k {
        Some(d) => Some(key_event_from(d)),
        None => None,
    }
}

/// A scancode-set-1 decoder for the US 104-key layout, with Ctrl passed
/// through as a key of its own: where the current byte sequence stands, and
/// the modifiers held.
pub struct KeyDecoder {
    prefix: Set1Prefix,
    tracker: ModifierTracker,
}

impl KeyDecoder {
    /// Where the decoder's current byte sequence stands.
    pub closed spec fn prefix(&self) -> Set1Prefix {
        self.prefix
    }

    /// The modifiers the decoder holds.
    pub closed spec fn modifiers(&self) -> ModifierState {
        tracker_modifiers(self.tracker)
    }

    /// A decoder at the start of a byte sequence, with Num Lock on and no
    /// other modifier.
    pub fn new() -> (d: KeyDecoder)
        ensures
            d.prefix() == Set1Prefix::Start,
            d.modifiers() == us104_start_modifiers(),
    {
        KeyDecoder { prefix: Set1Prefix::Start, tracker: us104_modifier_tracker() }
    }

    /// Feeds one byte; returns the key event it completes, if any, or the
    /// decoder's error. The modifiers are not touched.
    pub fn add_byte(&mut self, byte: u8) -> (r: Result<Option<(KeyCode, KeyTransition)>, pc_keyboard::Error>)
        ensures
            final(self).prefix() == set1_next_prefix(old(self).prefix(), byte),
            final(self).modifiers() == old(self).modifiers(),
            (r matches Ok(None)) <==> set1_opens_sequence(old(self).prefix(), byte),
            match r {
                Ok(Some(ev)) => set1_key_event(old(self).prefix(), byte) == Some(ev),
                _ => set1_key_event(old(self).prefix(), byte) is None,
            },
    {
        let r = set1_advance(self.prefix, byte);
        self.prefix = if self.prefix == Set1Prefix::Start && byte == 0xe0 {
            Set1Prefix::AfterE0
        } else if self.prefix == Set1Prefix::Start && byte == 0xe1 {
            Set1Prefix::AfterE1
        } else {
            Set1Prefix::Start
        };
        r
    }

    /// Processes a completed key event: returns the modifiers held before
    /// it and the key it decodes to, and updates the modifiers.
    pub fn process_keyevent(&mut self, code: KeyCode, transition: KeyTransition) -> (r: (ModifierState, Option<KeyEvent>))
        ensures
            final(self).prefix() == old(self).prefix(),
            r.0 == old(self).modifiers(),
            r.1 == key_event_from_option(us104_decoded_key(r.0, code, transition)),
            r.1 is Some <==> transition == KeyTransition::Down,
            final(self).modifiers() == us104_modifiers_after(old(self).modifiers(), code, transition),
    {
        let (before, key) = tracker_process_keyevent(&mut self.tracker, code, transition);
        let ev = match key {
            Some(k) => Some(KeyEvent::from(k)),
            None => None,
        };
        (before, ev)
    }
}

/// What one scancode did.
#[derive(Debug)]
pub enum ScancodeOutcome {
    /// The scancode is part of a sequence that is not complete yet.
    Incomplete,
    /// The decoder rejected the scancode.
    Failed(pc_keyboard::Error),
    /// The scancode completed a key event; `decoded` is the key it produced,
    /// if any, with the modifiers held before it.
    Key { code: KeyCode, transition: KeyTransition, decoded: Option<KeyEvent>, modifiers: ModifierState },
}

/// Records a decoded key event: `code`'s held state follows `transition`,
/// and `decoded`, when there is one, goes to every subscriber.
pub fn record_key_event(
    held: &mut HeldKeys,
    subscribers: &mut SubscriberRegistry,
    code: KeyCode,
    transition: KeyTransition,
    decoded: Option<KeyEvent>,
)
    requires
        old(held).wf(),
        old(subscribers).wf(),
    ensures
        final(held).wf(),
        final(subscribers).wf(),
        final(held).keys() == held_after(old(held).keys(), code, transition),
        final(subscribers).next_id() == old(subscribers).next_id(),
        old(subscribers).ids_below_next() ==> final(subscribers).ids_below_next(),
        final(subscribers).subscribers() == match decoded {
            Some(ev) => broadcast_spec(old(subscribers).subscribers(), ev),
            None => old(subscribers).subscribers(),
        },
{
    held.set_key_state(code, transition);
    match decoded {
        Some(ev) => subscribers.broadcast(ev),
        None => {},
    }
}

/// Feeds one scancode to the decoder and records the key event it
/// completes, if any: the held keys follow the event and the key the
/// layout decodes for it goes to every subscriber. A scancode that only
/// opens a sequence, or that the decoder rejects, changes neither.
pub fn dispatch_scancode(
    decoder: &mut KeyDecoder,
    held: &mut HeldKeys,
    subscribers: &mut SubscriberRegistry,
    scancode: u8,
) -> (outcome: ScancodeOutcome)
    requires
        old(held).wf(),
        old(subscribers).wf(),
    ensures
        final(held).wf(),
        final(subscribers).wf(),
        final(subscribers).next_id() == old(subscribers).next_id(),
        old(subscribers).ids_below_next() ==> final(subscribers).ids_below_next(),
        final(decoder).prefix() == set1_next_prefix(old(decoder).prefix(), scancode),
        outcome matches ScancodeOutcome::Key { code, transition, .. } ==> final(decoder).modifiers()
            == us104_modifiers_after(old(decoder).modifiers(), code, transition),
        !(outcome is Key) ==> final(decoder).modifiers() == old(decoder).modifiers(),
        outcome is Incomplete <==> set1_opens_sequence(old(decoder).prefix(), scancode),
        outcome is Failed ==> set1_key_event(old(decoder).prefix(), scancode) is None,
        match outcome {
            ScancodeOutcome::Key { code, transition, decoded, modifiers } => {
                &&& set1_key_event(old(decoder).prefix(), scancode) == Some((code, transition))
                &&& modifiers == old(decoder).modifiers()
                &&& decoded == key_event_from_option(us104_decoded_key(modifiers, code, transition))
                &&& final(held).keys() == held_after(old(held).keys(), code, transition)
                &&& final(subscribers).subscribers() == match decoded {
                    Some(ev) => broadcast_spec(old(subscribers).subscribers(), ev),
                    None => old(subscribers).subscribers(),
                }
            },
            _ => final(held).keys() == old(held).keys() && final(subscribers).subscribers() == old(
                subscribers,
            ).subscribers(),
        },
{
    match decoder.add_byte(scancode) {
        Ok(Some((code, transition))) => {
            let (modifiers, decoded) = decoder.process_keyevent(code, transition);
            record_key_event(held, subscribers, code, transition, decoded);
            ScancodeOutcome::Key { code, transition, decoded, modifiers }
        },
        Ok(None) => ScancodeOutcome::Incomplete,
        Err(e) => ScancodeOutcome::Failed(e),
    }
}

/// The held keys after each key event of `events`, in order.
pub open spec fn held_after_all(held: Seq<KeyCode>, events: Seq<(KeyCode, KeyTransition)>) -> Seq<
    KeyCode,
>
    decreases events.len(),
{
    if events.len() == 0 {
        held
    } else {
        let last = events.last();
        held_after(held_after_all(held, events.drop_last()), last.0, last.1)
    }
}

/// Where a byte sequence stands after feeding `bytes` from `prefix`.
pub open spec fn set1_prefix_after(prefix: Set1Prefix, bytes: Seq<u8>) -> Set1Prefix
    decreases bytes.len(),
{
    if bytes.len() == 0 {
        prefix
    } else {
        set1_next_prefix(set1_prefix_after(prefix, bytes.drop_last()), bytes.last())
    }
}

/// The key events that `bytes` complete, in order, fed from `prefix`.
pub open spec fn set1_key_events(prefix: Set1Prefix, bytes: Seq<u8>) -> Seq<(KeyCode, KeyTransition)>
    decreases bytes.len(),
{
    if bytes.len() == 0 {
        Seq::empty()
    } else {
        let earlier = set1_key_events(prefix, bytes.drop_last());
        match set1_key_event(set1_prefix_after(prefix, bytes.drop_last()), bytes.last()) {
            Some(ev) => earlier.push(ev),
            None => earlier,
        }
    }
}

/// Decodes every waiting scancode, in order, and applies the key events
/// they complete to the held keys, leaving the stream empty. Returns the
/// key events, in order.
pub fn pump_keyboard(scancodes: &mut ScancodeStream, decoder: &mut KeyDecoder, held: &mut HeldKeys) -> (events: Vec<(KeyCode, KeyTransition)>)
    requires
        old(scancodes).wf(),
        old(held).wf(),
    ensures
        final(scancodes).wf(),
        final(scancodes).pending() == Seq::<u8>::empty(),
        events@ == set1_key_events(old(decoder).prefix(), old(scancodes).pending()),
        final(decoder).prefix() == set1_prefix_after(old(decoder).prefix(), old(scancodes).pending()),
        final(decoder).modifiers() == old(decoder).modifiers(),
        final(held).wf(),
        final(held).keys() == held_after_all(old(held).keys(), events@),
{
    let ghost queued = scancodes.pending();
    let ghost start = decoder.prefix();
    let ghost mut k: int = 0;
    let mut events: Vec<(KeyCode, KeyTransition)> = Vec::new();
    loop
        invariant
            scancodes.wf(),
            held.wf(),
            0 <= k <= queued.len(),
            scancodes.pending() == queued.subrange(k, queued.len() as int),
            events@ == set1_key_events(start, queued.subrange(0, k)),
            decoder.prefix() == set1_prefix_after(start, queued.subrange(0, k)),
            decoder.modifiers() == old(decoder).modifiers(),
            held.keys() == held_after_all(old(held).keys(), events@),
        ensures
            scancodes.wf(),
            scancodes.pending() == Seq::<u8>::empty(),
            events@ == set1_key_events(start, queued),
            decoder.prefix() == set1_prefix_after(start, queued),
            decoder.modifiers() == old(decoder).modifiers(),
            held.wf(),
            held.keys() == held_after_all(old(held).keys(), events@),
        decreases scancodes.pending().len(),
    {
        match scancodes.next_scancode() {
            None => {
                assert(queued.subrange(0, k) =~= queued);
                break;
            },
            Some(sc) => {
                proof {
                    assert(sc == queued[k]);
                    assert(queued.subrange(0, k + 1).drop_last() =~= queued.subrange(0, k));
                    assert(queued.subrange(0, k + 1).last() == sc);
                    assert(scancodes.pending() =~= queued.subrange(k + 1, queued.len() as int));
                }
                match decoder.add_byte(sc) {
                    Ok(Some((code, transition))) => {
                        held.set_key_state(code, transition);
                        let ghost before = events@;
                        events.push((code, transition));
                        assert(events@.drop_last() == before);
                    },
                    _ => {},
                }
                proof {
                    k = k + 1;
                }
            },
        }
    }
    events
}

/// A pressed key is held, and a released key is not, whatever was held
/// before (the held keys never list a key twice).
pub proof fn lemma_press_and_release(held: Seq<KeyCode>, code: KeyCode)
    requires
        held.no_duplicates(),
    ensures
        held_after(held, code, KeyTransition::Down).contains(code),
        !held_after(held, code, KeyTransition::Up).contains(code),
        held_after(held, code, KeyTransition::Down).no_duplicates(),
        held_after(held, code, KeyTransition::Up).no_duplicates(),
{
    let down = held_after(held, code, KeyTransition::Down);
    if !held.contains(code) {
        assert(down[held.len() as int] == code);
    }
    if held.contains(code) {
        let i = held.index_of(code);
        let up = held.remove(i);
        if up.contains(code) {
            let j = choose|j: int| 0 <= j < up.len() && up[j] == code;
            if j < i {
                assert(held[j] == code);
            } else {
                assert(held[j + 1] == code);
            }
        }
        assert forall|a: int, b: int| 0 <= a < up.len() && 0 <= b < up.len() && a != b implies up[a]
            != up[b] by {
            let a2 = if a < i { a } else { a + 1 };
            let b2 = if b < i { b } else { b + 1 };
            assert(up[a] == held[a2]);
            assert(up[b] == held[b2]);
        }
    }
}

/// Pressing a key that is not held and releasing it again leaves the held
/// keys exactly as they were.
pub proof fn lemma_press_release_restores(held: Seq<KeyCode>, code: KeyCode)
    requires
        held.no_duplicates(),
        !held.contains(code),
    ensures
        held_after(held_after(held, code, KeyTransition::Down), code, KeyTransition::Up) == held,
{
    let down = held.push(code);
    assert(down[held.len() as int] == code);
    assert(down.contains(code));
    let i = down.index_of(code);
    if i < held.len() {
        assert(held[i] == code);
    }
    assert(down.remove(held.len() as int) =~= held);
}

/// After a broadcast every subscriber's newest event is the one broadcast,
/// it keeps its id and capacity, and its queue still fits its capacity.
pub proof fn lemma_broadcast_delivers(subs: Seq<SubscriberState>, ev: KeyEvent, i: int)
    requires
        0 <= i < subs.len(),
        0 < subs[i].capacity,
        subs[i].events.len() <= subs[i].capacity,
    ensures
        broadcast_spec(subs, ev)[i].events.last() == ev,
        broadcast_spec(subs, ev)[i].id == subs[i].id,
        broadcast_spec(subs, ev)[i].capacity == subs[i].capacity,
        0 < broadcast_spec(subs, ev)[i].events.len() <= subs[i].capacity,
{
}

/// The filter that keeps every key but `code`.
pub open spec fn other_than(code: KeyCode) -> spec_fn(KeyCode) -> bool {
    |k: KeyCode| k != code
}

proof fn lemma_filter_without(s: Seq<KeyCode>, code: KeyCode)
    requires
        !s.contains(code),
    ensures
        s.filter(other_than(code)) == s,
    decreases s.len(),
{
    reveal_with_fuel(Seq::<_>::filter, 1);
    if s.len() > 0 {
        if s.drop_last().contains(code) {
            let j = choose|j: int| 0 <= j < s.drop_last().len() && s.drop_last()[j] == code;
            assert(s[j] == code);
        }
        lemma_filter_without(s.drop_last(), code);
        assert(s.last() != code);
        assert(s.drop_last().push(s.last()) =~= s);
    }
}

/// Releasing a key removes it from the held keys exactly as keeping every
/// other key does (the held keys never list a key twice), so the two ways
/// the kernel records a release agree.
pub proof fn lemma_release_keeps_the_others(held: Seq<KeyCode>, code: KeyCode)
    requires
        held.no_duplicates(),
    ensures
        held_after(held, code, KeyTransition::Up) == held.filter(other_than(code)),
{
    if !held.contains(code) {
        lemma_filter_without(held, code);
    } else {
        let i = held.index_of(code);
        let a = held.subrange(0, i);
        let b = held.subrange(i + 1, held.len() as int);
        assert(held =~= a + seq![code] + b);
        if a.contains(code) {
            let j = choose|j: int| 0 <= j < a.len() && a[j] == code;
            assert(held[j] == held[i]);
        }
        if b.contains(code) {
            let j = choose|j: int| 0 <= j < b.len() && b[j] == code;
            assert(held[i + 1 + j] == held[i]);
        }
        lemma_filter_without(a, code);
        lemma_filter_without(b, code);
        Seq::filter_distributes_over_add(a + seq![code], b, other_than(code));
        Seq::filter_distributes_over_add(a, seq![code], other_than(code));
        reveal_with_fuel(Seq::<_>::filter, 2);
        assert(seq![code].drop_last() =~= Seq::<KeyCode>::empty());
        assert(seq![code].filter(other_than(code)) =~= Seq::<KeyCode>::empty());
        assert(held.remove(i) =~= a + b);
        assert(a + Seq::<KeyCode>::empty() =~= a);
    }
}

/// Subscribing and then unsubscribing the new id leaves the subscribers as
/// they were, as long as every registered id is below the next one.
pub proof fn lemma_subscribe_then_unsubscribe(subs: Seq<SubscriberState>, next_id: usize, capacity: nat)
    requires
        forall|i: int| 0 <= i < subs.len() ==> (#[trigger] subs[i]).id < next_id,
    ensures
        first_with_id(
            subs.push(SubscriberState { id: next_id, events: Seq::empty(), capacity }),
            next_id,
            subs.len() as int,
        ),
        subs.push(SubscriberState { id: next_id, events: Seq::empty(), capacity }).remove(
            subs.len() as int,
        ) == subs,
{
    let grown = subs.push(SubscriberState { id: next_id, events: Seq::empty(), capacity });
    assert forall|j: int| 0 <= j < subs.len() implies #[trigger] grown[j].id != next_id by {
        assert(grown[j] == subs[j]);
    }
    assert(grown.remove(subs.len() as int) =~= subs);
}

/// A prefix byte affects only the byte right after it: 0xE0 or 0xE1 at the
/// start of a sequence opens it, and any other byte, including the one
/// right after a prefix, ends it, so the next byte is read unprefixed.
pub proof fn lemma_prefix_covers_one_byte(prefix: Set1Prefix, byte: u8)
    ensures
        prefix == Set1Prefix::Start && byte == 0xe0 ==> set1_next_prefix(prefix, byte) == Set1Prefix::AfterE0,
        prefix == Set1Prefix::Start && byte == 0xe1 ==> set1_next_prefix(prefix, byte) == Set1Prefix::AfterE1,
        !(prefix == Set1Prefix::Start && (byte == 0xe0 || byte == 0xe1)) ==> set1_next_prefix(prefix, byte)
            == Set1Prefix::Start,
        set1_opens_sequence(prefix, byte) <==> (prefix == Set1Prefix::Start && (byte == 0xe0 || byte == 0xe1)),
{
}

} // verus!
