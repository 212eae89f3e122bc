//! Device permission decisions: the listener runs unprivileged only when an
//! event device can be read and the uinput device can be written.
use vstd::prelude::*;
use crate::listener::{is_event_device_name, is_event_name};

verus! {

/// An entry of the input device directory with the outcome of trying to
/// open it for reading.
pub struct DeviceProbe {
    pub name: String,
    pub readable: bool,
}

/// Whether some event device (`event*`) could be opened for reading.
pub open spec fn some_event_device_readable(probes: Seq<DeviceProbe>) -> bool {
    exists|i: int| 0 <= i < probes.len() && is_event_name(#[trigger] probes[i].name@) && probes[i].readable
}

/// Whether at least one event device can be read, given the probed entries
/// of the input device directory; entries not named `event*` do not count.
pub fn evdev_readable(probes: &Vec<DeviceProbe>) -> (r: bool)
    ensures
        r == some_event_device_readable(probes@),
{
    let mut i: usize = 0;
    while i < probes.len()
        invariant
            i <= probes.len(),
            forall|k: int|
                0 <= k < i ==> !(is_event_name(#[trigger] probes@[k].name@) && probes@[k].readable),
        decreases probes.len() - i,
    {
        if probes[i].readable && is_event_device_name(probes[i].name.as_str()) {
            return true;
        }
        i = i + 1;
    }
    false
}

/// Both device checks must pass for the keyboard listener to run without
/// elevated privileges.
pub fn ok(evdev_readable: bool, uinput_writable: bool) -> (r: bool)
    ensures
        r == (evdev_readable && uinput_writable),
{
    evdev_readable && uinput_writable
}

} // verus!
