//! Decisions of the keyboard listener: which input devices are keyboards,
//! how Right Ctrl presses and releases become `START` / `STOP` commands, and
//! which events the virtual keyboard emits to paste.
use vstd::prelude::*;
use crate::protocol::Command;
use crate::text::starts_with;

verus! {

/// Event type of synchronisation events.
pub const EV_SYN: u16 = 0;
/// Event type of key events.
pub const EV_KEY: u16 = 1;
/// Synchronisation code that closes a batch of events.
pub const SYN_REPORT: u16 = 0;

/// Key code of Enter.
pub const KEY_ENTER: u16 = 28;
/// Key code of the left Ctrl key.
pub const KEY_LEFTCTRL: u16 = 29;
/// Key code of A.
pub const KEY_A: u16 = 30;
/// Key code of V.
pub const KEY_V: u16 = 47;
/// Key code of the space bar.
pub const KEY_SPACE: u16 = 57;
/// Key code of the right Ctrl key, the push-to-talk key.
pub const KEY_RIGHTCTRL: u16 = 97;

/// Key event value: released.
pub const KEY_RELEASED: i32 = 0;
/// Key event value: pressed.
pub const KEY_PRESSED: i32 = 1;
/// Key event value: auto-repeat while held.
pub const KEY_REPEATED: i32 = 2;

/// Name under which the virtual Ctrl+V keyboard registers.
pub const VIRTUAL_KEYBOARD_NAME: &'static str = "v2p-ctrl-v";

/// An input event as plain numbers.
#[derive(PartialEq, Eq, Structural, Clone, Copy, Debug)]
pub struct RawEvent {
    pub event_type: u16,
    pub code: u16,
    pub value: i32,
}

/// Tracks whether the push-to-talk key is held.
pub struct KeyTracker {
    pub pressed: bool,
}

/// The effect of one input event on the held state, and the command it
/// sends: only Right Ctrl key events count, auto-repeat is ignored, a press
/// while released sends `START`, a release while held sends `STOP`.
pub open spec fn key_step(pressed: bool, ev: RawEvent) -> (bool, Option<Command>) {
    if ev.event_type != EV_KEY || ev.code != KEY_RIGHTCTRL || ev.value == KEY_REPEATED {
        (pressed, None)
    } else if ev.value == KEY_PRESSED && !pressed {
        (true, Some(Command::Start))
    } else if ev.value == KEY_RELEASED && pressed {
        (false, Some(Command::Stop))
    } else {
        (pressed, None)
    }
}

/// The held state after a sequence of events and the commands they send.
pub open spec fn key_run(pressed: bool, evs: Seq<RawEvent>) -> (bool, Seq<Command>)
    decreases evs.len(),
{
    if evs.len() == 0 {
        (pressed, Seq::empty())
    } else {
        let before = key_run(pressed, evs.drop_last());
        let step = key_step(before.0, evs.last());
        (
            step.0,
            match step.1 {
                Some(c) => before.1.push(c),
                None => before.1,
            },
        )
    }
}

/// `START`, `STOP`, `START`, ... : the commands alternate, beginning with
/// `START`.
pub open spec fn alternating(cmds: Seq<Command>) -> bool {
    forall|i: int|
        0 <= i < cmds.len() ==> #[trigger] cmds[i] == if i % 2 == 0 {
            Command::Start
        } else {
            Command::Stop
        }
}

impl KeyTracker {
    /// A tracker with the key released.
    pub fn new() -> (t: KeyTracker)
        ensures
            !t.pressed,
    {
        KeyTracker { pressed: false }
    }

    /// Feeds one input event; returns the command to send, if any.
    pub fn on_event(&mut self, ev: RawEvent) -> (c: Option<Command>)
        ensures
            (final(self).pressed, c) == key_step(old(self).pressed, ev),
            ev.event_type != EV_KEY || ev.code != KEY_RIGHTCTRL
                ==> final(self).pressed == old(self).pressed && c is None,
            ev.value != 0 && ev.value != 1
                ==> final(self).pressed == old(self).pressed && c is None,
            ev.event_type == EV_KEY && ev.code == KEY_RIGHTCTRL && ev.value == 1
                ==> final(self).pressed && c == (if old(self).pressed {
                None
            } else {
                Some(Command::Start)
            }),
            ev.event_type == EV_KEY && ev.code == KEY_RIGHTCTRL && ev.value == 0
                ==> !final(self).pressed && c == (if old(self).pressed {
                Some(Command::Stop)
            } else {
                None
            }),
    {
        if ev.event_type != EV_KEY || ev.code != KEY_RIGHTCTRL || ev.value == KEY_REPEATED {
            None
        } else if ev.value == KEY_PRESSED && !self.pressed {
            self.pressed = true;
            Some(Command::Start)
        } else if ev.value == KEY_RELEASED && self.pressed {
            self.pressed = false;
            Some(Command::Stop)
        } else {
            None
        }
    }

    /// Feeds a batch of events in order; returns the commands to send, in
    /// order.
    pub fn on_events(&mut self, evs: &Vec<RawEvent>) -> (cmds: Vec<Command>)
        ensures
            (final(self).pressed, cmds@) == key_run(old(self).pressed, evs@),
    {
        let mut cmds: Vec<Command> = Vec::new();
        let mut i: usize = 0;
        while i < evs.len()
            invariant
                i <= evs.len(),
                (self.pressed, cmds@) == key_run(old(self).pressed, evs@.take(i as int)),
            decreases evs.len() - i,
        {
            let c = self.on_event(evs[i]);
            match c {
                Some(cmd) => cmds.push(cmd),
                None => {},
            }
            assert(evs@.take(i + 1).drop_last() =~= evs@.take(i as int));
            i = i + 1;
        }
        assert(evs@.take(evs.len() as int) =~= evs@);
        cmds
    }
}

/// Starting from a released key, whatever events arrive, the commands sent
/// alternate `START`, `STOP`, `START`, ... and the key is held exactly when an
/// odd number of commands has been sent (a `START` awaits its `STOP`).
pub proof fn law_commands_alternate(evs: Seq<RawEvent>)
    ensures
        alternating(key_run(false, evs).1),
        key_run(false, evs).0 == (key_run(false, evs).1.len() % 2 == 1),
    decreases evs.len(),
{
    if evs.len() > 0 {
        law_commands_alternate(evs.drop_last());
        let before = key_run(false, evs.drop_last());
        let after = key_run(false, evs);
        assert forall|i: int| 0 <= i < after.1.len() implies #[trigger] after.1[i] == if i % 2
            == 0 {
            Command::Start
        } else {
            Command::Stop
        } by {
            if i < before.1.len() {
                assert(after.1[i] == before.1[i]);
            }
        }
    }
}

/// Whether a device offers a key that only a typing keyboard has: A, Enter
/// or Space.
pub open spec fn is_typing_keyboard(keys: Seq<u16>) -> bool {
    keys.contains(KEY_A) || keys.contains(KEY_ENTER) || keys.contains(KEY_SPACE)
}

/// Whether a device node name is an event device (`event*`).
pub open spec fn is_event_name(name: Seq<char>) -> bool {
    "event"@.len() <= name.len() && name.take("event"@.len() as int) == "event"@
}

/// Whether a device node name is an event device (`event*`).
pub fn is_event_device_name(name: &str) -> (r: bool)
    ensures
        r == is_event_name(name@),
{
    starts_with(name, "event")
}

/// Whether the supported keys mark a typing keyboard.
pub fn has_typing_keys(keys: &Vec<u16>) -> (r: bool)
    ensures
        r == is_typing_keyboard(keys@),
        r == exists|i: int|
            0 <= i < keys@.len() && (#[trigger] keys@[i] == KEY_A || keys@[i] == KEY_ENTER
                || keys@[i] == KEY_SPACE),
{
    let mut i: usize = 0;
    while i < keys.len()
        invariant
            i <= keys.len(),
            forall|k: int|
                0 <= k < i ==> #[trigger] keys@[k] != KEY_A && keys@[k] != KEY_ENTER && keys@[k]
                    != KEY_SPACE,
        decreases keys.len() - i,
    {
        let k = keys[i];
        if k == KEY_A || k == KEY_ENTER || k == KEY_SPACE {
            assert(keys@[i as int] == k);
            return true;
        }
        i = i + 1;
    }
    false
}

/// An entry of the input device directory as the logic sees it: its node
/// name, its path, and the keys it supports (`None` when it could not be
/// opened or reports no keys).
pub struct DeviceEntry {
    pub name: String,
    pub path: String,
    pub keys: Option<Vec<u16>>,
}

/// Whether an entry is a keyboard to listen on.
pub open spec fn is_keyboard_entry(e: DeviceEntry) -> bool {
    &&& is_event_name(e.name@)
    &&& e.keys is Some
    &&& is_typing_keyboard(e.keys->0@)
}

/// The paths of the keyboard entries, in directory order.
pub open spec fn keyboard_paths_of(entries: Seq<DeviceEntry>) -> Seq<Seq<char>>
    decreases entries.len(),
{
    if entries.len() == 0 {
        Seq::empty()
    } else {
        let before = keyboard_paths_of(entries.drop_last());
        if is_keyboard_entry(entries.last()) {
            before.push(entries.last().path@)
        } else {
            before
        }
    }
}

/// Selects the keyboards among the input devices, keeping their order.
pub fn keyboard_paths(entries: &Vec<DeviceEntry>) -> (paths: Vec<String>)
    ensures
        paths@.map_values(|p: String| p@) == keyboard_paths_of(entries@),
{
    let mut paths: Vec<String> = Vec::new();
    let mut i: usize = 0;
    while i < entries.len()
        invariant
            i <= entries.len(),
            paths@.map_values(|p: String| p@) == keyboard_paths_of(entries@.take(i as int)),
        decreases entries.len() - i,
    {
        let e = &entries[i];
        let keyboard = match &e.keys {
            Some(keys) => is_event_device_name(e.name.as_str()) && has_typing_keys(keys),
            None => false,
        };
        let ghost before = paths@;
        if keyboard {
            paths.push(e.path.clone());
        }
        proof {
            assert(entries@.take(i + 1).drop_last() =~= entries@.take(i as int));
            assert(entries@.take(i + 1).last() == entries@[i as int]);
            if keyboard {
                assert(paths@.map_values(|p: String| p@) =~= before.map_values(|p: String| p@).push(
                    entries@[i as int].path@,
                ));
            }
        }
        i = i + 1;
    }
    assert(entries@.take(entries.len() as int) =~= entries@);
    paths
}

/// The keys the virtual keyboard declares: left Ctrl and V.
pub open spec fn virtual_keys() -> Seq<u16> {
    seq![KEY_LEFTCTRL, KEY_V]
}

/// The events that type Ctrl+V: Ctrl down, V down, sync, V up, Ctrl up, sync.
pub open spec fn ctrl_v_sequence() -> Seq<RawEvent> {
    seq![
        RawEvent { event_type: EV_KEY, code: KEY_LEFTCTRL, value: KEY_PRESSED },
        RawEvent { event_type: EV_KEY, code: KEY_V, value: KEY_PRESSED },
        RawEvent { event_type: EV_SYN, code: SYN_REPORT, value: 0 },
        RawEvent { event_type: EV_KEY, code: KEY_V, value: KEY_RELEASED },
        RawEvent { event_type: EV_KEY, code: KEY_LEFTCTRL, value: KEY_RELEASED },
        RawEvent { event_type: EV_SYN, code: SYN_REPORT, value: 0 },
    ]
}

/// The keys the virtual keyboard is created with.
pub fn virtual_keyboard_keys() -> (keys: Vec<u16>)
    ensures
        keys@ == virtual_keys(),
{
    let mut keys: Vec<u16> = Vec::new();
    keys.push(KEY_LEFTCTRL);
    keys.push(KEY_V);
    assert(keys@ =~= virtual_keys());
    keys
}

/// The events the virtual keyboard emits to paste.
pub fn ctrl_v_events() -> (evs: Vec<RawEvent>)
    ensures
        evs@ == ctrl_v_sequence(),
{
    let mut evs: Vec<RawEvent> = Vec::new();
    evs.push(RawEvent { event_type: EV_KEY, code: KEY_LEFTCTRL, value: KEY_PRESSED });
    evs.push(RawEvent { event_type: EV_KEY, code: KEY_V, value: KEY_PRESSED });
    evs.push(RawEvent { event_type: EV_SYN, code: SYN_REPORT, value: 0 });
    evs.push(RawEvent { event_type: EV_KEY, code: KEY_V, value: KEY_RELEASED });
    evs.push(RawEvent { event_type: EV_KEY, code: KEY_LEFTCTRL, value: KEY_RELEASED });
    evs.push(RawEvent { event_type: EV_SYN, code: SYN_REPORT, value: 0 });
    assert(evs@ =~= ctrl_v_sequence());
    evs
}

/// Whether event `i` of `evs` presses (`value` 1) or releases (`value` 0) key
/// `code`.
pub open spec fn key_event_at(evs: Seq<RawEvent>, i: int, code: u16, value: i32) -> bool {
    0 <= i < evs.len() && evs[i].event_type == EV_KEY && evs[i].code == code && evs[i].value
        == value
}

/// The paste sequence presses V while Ctrl is held, releases every key it
/// presses after pressing it (in reverse order), only uses keys the virtual
/// keyboard declares, and ends with a synchronisation.
pub proof fn law_ctrl_v_well_nested()
    ensures
        ({
            let evs = ctrl_v_sequence();
            &&& forall|i: int|
                0 <= i < evs.len() && evs[i].event_type == EV_KEY ==> virtual_keys().contains(
                    #[trigger] evs[i].code,
                )
            &&& forall|i: int|
                #![trigger evs[i]]
                0 <= i < evs.len() && evs[i].event_type == EV_KEY && evs[i].value == KEY_PRESSED
                    ==> exists|j: int| i < j < evs.len() && key_event_at(evs, j, evs[i].code, KEY_RELEASED)
            &&& key_event_at(evs, 0, KEY_LEFTCTRL, KEY_PRESSED)
            &&& key_event_at(evs, 1, KEY_V, KEY_PRESSED)
            &&& key_event_at(evs, 3, KEY_V, KEY_RELEASED)
            &&& key_event_at(evs, 4, KEY_LEFTCTRL, KEY_RELEASED)
            &&& evs.last() == RawEvent { event_type: EV_SYN, code: SYN_REPORT, value: 0 }
        }),
{
    let evs = ctrl_v_sequence();
    assert(virtual_keys()[0] == KEY_LEFTCTRL);
    assert(virtual_keys()[1] == KEY_V);
    assert(key_event_at(evs, 3, KEY_V, KEY_RELEASED));
    assert(key_event_at(evs, 4, KEY_LEFTCTRL, KEY_RELEASED));
    assert forall|i: int|
        0 <= i < evs.len() && evs[i].event_type == EV_KEY implies virtual_keys().contains(
            #[trigger] evs[i].code,
        ) by {
        if evs[i].code == KEY_LEFTCTRL {
            assert(virtual_keys()[0] == evs[i].code);
        } else {
            assert(virtual_keys()[1] == evs[i].code);
        }
    }
    assert forall|i: int|
        #![trigger evs[i]]
        0 <= i < evs.len() && evs[i].event_type == EV_KEY && evs[i].value == KEY_PRESSED
            implies exists|j: int| i < j < evs.len() && key_event_at(evs, j, evs[i].code, KEY_RELEASED) by {
        if i == 0 {
            assert(key_event_at(evs, 4, evs[i].code, KEY_RELEASED));
        } else {
            assert(i == 1);
            assert(key_event_at(evs, 3, evs[i].code, KEY_RELEASED));
        }
    }
}

/// One input event, for any held state: an event that is not a Right Ctrl
/// key event, or is an auto-repeat, changes nothing and sends nothing; a
/// Right Ctrl press holds the key and sends `START` only if it was
/// released; a Right Ctrl release releases it and sends `STOP` only if it
/// was held.
pub proof fn law_key_step(pressed: bool, ev: RawEvent)
    ensures
        ev.event_type != 1 || ev.code != 97 || (ev.value != 0 && ev.value != 1) ==> key_step(
            pressed,
            ev,
        ) == (pressed, None::<Command>),
        ev.event_type == 1 && ev.code == 97 && ev.value == 1 ==> key_step(pressed, ev) == (
            true,
            if pressed {
                None
            } else {
                Some(Command::Start)
            },
        ),
        ev.event_type == 1 && ev.code == 97 && ev.value == 0 ==> key_step(pressed, ev) == (
            false,
            if pressed {
                Some(Command::Stop)
            } else {
                None
            },
        ),
{
}

proof fn lemma_key_run_concat(pressed: bool, x: Seq<RawEvent>, y: Seq<RawEvent>)
    ensures
        key_run(pressed, x + y) == (
            key_run(key_run(pressed, x).0, y).0,
            key_run(pressed, x).1 + key_run(key_run(pressed, x).0, y).1,
        ),
    decreases y.len(),
{
    if y.len() == 0 {
        assert(x + y =~= x);
        assert(key_run(pressed, x).1 + Seq::<Command>::empty() =~= key_run(pressed, x).1);
    } else {
        assert((x + y).drop_last() =~= x + y.drop_last());
        assert((x + y).last() == y.last());
        lemma_key_run_concat(pressed, x, y.drop_last());
        let mid = key_run(pressed, x);
        let rest = key_run(mid.0, y.drop_last());
        let step = key_step(rest.0, y.last());
        match step.1 {
            Some(c) => {
                assert((mid.1 + rest.1).push(c) =~= mid.1 + rest.1.push(c));
            },
            None => {},
        }
    }
}

/// Events of other keys, and auto-repeats, can be inserted anywhere in a
/// stream of events without changing the held state or the commands sent.
pub proof fn law_other_keys_ignored(pressed: bool, a: Seq<RawEvent>, e: RawEvent, b: Seq<RawEvent>)
    requires
        e.event_type != 1 || e.code != 97 || e.value == 2,
    ensures
        key_run(pressed, a + seq![e] + b) == key_run(pressed, a + b),
{
    lemma_key_run_concat(pressed, a + seq![e], b);
    lemma_key_run_concat(pressed, a, seq![e]);
    lemma_key_run_concat(pressed, a, b);
    let p = key_run(pressed, a).0;
    assert(seq![e].drop_last() =~= Seq::<RawEvent>::empty());
    assert(seq![e].last() == e);
    assert(key_run(p, Seq::<RawEvent>::empty()) == (p, Seq::<Command>::empty()));
    assert(key_run(p, seq![e]) == (p, Seq::<Command>::empty()));
    assert(key_run(pressed, a).1 + Seq::<Command>::empty() =~= key_run(pressed, a).1);
}

/// A device is a typing keyboard exactly when some key it offers, at any
/// position of its list, is A (30), Enter (28) or Space (57).
pub proof fn law_typing_keyboard(keys: Seq<u16>)
    ensures
        is_typing_keyboard(keys) == exists|i: int|
            0 <= i < keys.len() && (#[trigger] keys[i] == 30 || keys[i] == 28 || keys[i] == 57),
{
    if is_typing_keyboard(keys) {
        if keys.contains(KEY_A) {
            let i = choose|i: int| 0 <= i < keys.len() && keys[i] == KEY_A;
            assert(keys[i] == 30);
        } else if keys.contains(KEY_ENTER) {
            let i = choose|i: int| 0 <= i < keys.len() && keys[i] == KEY_ENTER;
            assert(keys[i] == 28);
        } else {
            let i = choose|i: int| 0 <= i < keys.len() && keys[i] == KEY_SPACE;
            assert(keys[i] == 57);
        }
    }
    if exists|i: int| 0 <= i < keys.len() && (#[trigger] keys[i] == 30 || keys[i] == 28 || keys[i] == 57) {
        let i = choose|i: int| 0 <= i < keys.len() && (#[trigger] keys[i] == 30 || keys[i] == 28 || keys[i] == 57);
        if keys[i] == 30 {
            assert(keys.contains(KEY_A));
        } else if keys[i] == 28 {
            assert(keys.contains(KEY_ENTER));
        } else {
            assert(keys.contains(KEY_SPACE));
        }
    }
}

proof fn lemma_paths_concat(x: Seq<DeviceEntry>, y: Seq<DeviceEntry>)
    ensures
        keyboard_paths_of(x + y) == keyboard_paths_of(x) + keyboard_paths_of(y),
    decreases y.len(),
{
    if y.len() == 0 {
        assert(x + y =~= x);
        assert(keyboard_paths_of(x) + keyboard_paths_of(y) =~= keyboard_paths_of(x));
    } else {
        assert((x + y).drop_last() =~= x + y.drop_last());
        assert((x + y).last() == y.last());
        lemma_paths_concat(x, y.drop_last());
        if is_keyboard_entry(y.last()) {
            assert((keyboard_paths_of(x) + keyboard_paths_of(y.drop_last())).push(y.last().path@)
                =~= keyboard_paths_of(x) + keyboard_paths_of(y.drop_last()).push(y.last().path@));
        }
    }
}

/// Keyboard selection goes entry by entry, keeping directory order: the
/// paths selected from two runs of entries are those of the first followed
/// by those of the second, and a single entry is selected exactly when its
/// name begins with `event` and it offers A, Enter or Space.
pub proof fn law_keyboard_selection(x: Seq<DeviceEntry>, y: Seq<DeviceEntry>, e: DeviceEntry)
    ensures
        keyboard_paths_of(x + y) == keyboard_paths_of(x) + keyboard_paths_of(y),
        keyboard_paths_of(seq![e]) == if e.name@.len() >= 5 && e.name@.take(5) == "event"@ && e.keys
            is Some && (exists|i: int|
            0 <= i < e.keys->0@.len() && (#[trigger] e.keys->0@[i] == 30 || e.keys->0@[i] == 28
                || e.keys->0@[i] == 57)) {
            seq![e.path@]
        } else {
            Seq::empty()
        },
        keyboard_paths_of(Seq::empty()) == Seq::<Seq<char>>::empty(),
{
    lemma_paths_concat(x, y);
    reveal_strlit("event");
    if e.keys is Some {
        law_typing_keyboard(e.keys->0@);
    }
    assert(seq![e].drop_last() =~= Seq::<DeviceEntry>::empty());
    assert(seq![e].last() == e);
    assert(keyboard_paths_of(Seq::<DeviceEntry>::empty()) == Seq::<Seq<char>>::empty());
    assert("event"@.len() == 5);
    assert(Seq::<Seq<char>>::empty().push(e.path@) =~= seq![e.path@]);
}

} // verus!
