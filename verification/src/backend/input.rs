//! River input-device bookkeeping: keyboard repeat policy and
//! tap-to-click enforcement for devices announced by the compositor.
//!
//! Devices are named by their protocol object ids. Each event yields the one
//! protocol request the caller must send, if any, and whether the event was
//! accepted.
use vstd::prelude::*;

use crate::backend::river::{capacity, protocol_error};
use crate::backend::table::{
    id_index, ids_unique, key_index, keyed_insert, keyed_remove, keys_unique, lemma_id_index,
    lemma_id_index_finds, lemma_ids_remove, lemma_key_index, lemma_key_index_finds,
    lemma_keyed_insert, lemma_keyed_remove,
};
use crate::backend::{
    BackendCapacityResource, BackendError, BackendProtocolErrorKind, KEY_REPEAT_DELAY_MS,
    KEY_REPEAT_RATE_HZ, MAX_BACKEND_INPUT_DEVICES, MAX_BACKEND_LIBINPUT_DEVICES,
};

verus! {

/// One input-management event from the compositor.
#[derive(Debug, Clone, Copy, PartialEq, Eq, Structural)]
pub enum InputEvent {
    /// An input device appeared.
    DeviceCreated(u32),
    /// An input device disappeared.
    DeviceRemoved(u32),
    /// An input device reported whether it is a keyboard.
    DeviceType {
        /// The device.
        device: u32,
        /// Whether it is a keyboard.
        keyboard: bool,
    },
    /// An input device finished describing itself.
    DeviceDone(u32),
    /// A libinput device appeared.
    LibinputCreated(u32),
    /// A libinput device disappeared.
    LibinputRemoved(u32),
    /// A libinput device reported its tap finger count.
    TapSupport {
        /// The device.
        device: u32,
        /// Fingers supported for tapping; zero when tapping is unsupported.
        finger_count: i32,
    },
    /// A libinput device reported whether tapping is on.
    TapCurrent {
        /// The device.
        device: u32,
        /// Whether tapping is enabled.
        enabled: bool,
    },
    /// A libinput device finished describing itself.
    LibinputDone(u32),
    /// The compositor answered a tap configuration request.
    LibinputResult {
        /// The request's result object.
        result: u32,
        /// Whether the configuration was applied.
        success: bool,
    },
}

/// The protocol request an input event calls for.
#[derive(Debug, Clone, Copy, PartialEq, Eq, Structural)]
pub enum InputAction {
    /// No request.
    Nothing,
    /// Destroy the object.
    Destroy(u32),
    /// Set a keyboard's repeat rate (per second) and delay (milliseconds).
    SetRepeatInfo {
        /// The keyboard.
        device: u32,
        /// Repeats per second.
        rate: i32,
        /// Delay before the first repeat, in milliseconds.
        delay: i32,
    },
    /// Ask for tap-to-click on a libinput device.
    EnableTap(u32),
}

/// An event's request and verdict.
#[derive(Debug, PartialEq, Eq)]
pub struct InputOutcome {
    /// The request to send, even when the event is refused.
    pub action: InputAction,
    /// Whether the event was accepted.
    pub result: Result<(), BackendError>,
}

/// Known input devices, libinput devices and outstanding tap requests.
#[derive(Debug, Clone, PartialEq, Eq)]
pub struct InputDevices {
    /// Input devices by object id, with whether each is a keyboard once known.
    pub devices: Vec<(u32, Option<bool>)>,
    /// Libinput devices by object id, with their tap finger count and tap state once known.
    pub libinput: Vec<(u32, Option<i32>, Option<bool>)>,
    /// Outstanding tap configuration requests.
    pub results: Vec<u32>,
    /// Ordinal of the last input device.
    pub next_input_ordinal: u64,
    /// Ordinal of the last libinput device.
    pub next_libinput_ordinal: u64,
    /// Whether a protocol flush is owed.
    pub flush_pending: bool,
    /// Whether the connection is established.
    pub connected: bool,
}

/// The libinput entries viewed as keyed pairs.
pub open spec fn libinput_pairs(s: Seq<(u32, Option<i32>, Option<bool>)>) -> Seq<(u32, (Option<i32>, Option<bool>))> {
    s.map_values(|e: (u32, Option<i32>, Option<bool>)| (e.0, (e.1, e.2)))
}

/// Whether a finished libinput device needs tapping switched on.
pub open spec fn needs_tap(tap_support: Option<i32>, tap_enabled: Option<bool>) -> bool {
    tap_support matches Some(count) && count > 0 && tap_enabled == Some(false)
}

/// Whether `e` is the refusal of the tap-to-click policy.
pub open spec fn is_tap_refusal(e: BackendError) -> bool {
    e matches BackendError::Unavailable { message } && message@ == "River rejected required tap-to-click policy"@
}

/// Whether an outcome accepts with `action`.
pub open spec fn accepted(o: InputOutcome, action: InputAction) -> bool {
    o.action == action && o.result is Ok
}

/// Whether an outcome refuses with `error`, requesting `action`.
pub open spec fn refused(o: InputOutcome, action: InputAction, error: BackendError) -> bool {
    o.action == action && o.result == Err::<(), BackendError>(error)
}

/// The slot of an input device.
fn find_device(s: &Vec<(u32, Option<bool>)>, k: u32) -> (r: Option<usize>)
    ensures
        match r {
            Some(i) => i < s@.len() && i as int == key_index(s@, k),
            None => key_index(s@, k) == -1,
        },
{
    let mut i: usize = 0;
    while i < s.len()
        invariant
            i <= s@.len(),
            forall|j: int| 0 <= j < i ==> s@[j].0 != k,
        decreases s.len() - i,
    {
        if s[i].0 == k {
            proof {
                lemma_key_index(s@, k, i as int);
            }
            return Some(i);
        }
        i = i + 1;
    }
    proof {
        lemma_key_index(s@, k, i as int);
    }
    None
}

/// The slot of a libinput device.
fn find_libinput(s: &Vec<(u32, Option<i32>, Option<bool>)>, k: u32) -> (r: Option<usize>)
    ensures
        match r {
            Some(i) => i < s@.len() && i as int == key_index(libinput_pairs(s@), k),
            None => key_index(libinput_pairs(s@), k) == -1,
        },
{
    let ghost p = libinput_pairs(s@);
    let mut i: usize = 0;
    while i < s.len()
        invariant
            i <= s@.len(),
            p == libinput_pairs(s@),
            forall|j: int| 0 <= j < i ==> p[j].0 != k,
        decreases s.len() - i,
    {
        if s[i].0 == k {
            proof {
                lemma_key_index(p, k, i as int);
            }
            return Some(i);
        }
        i = i + 1;
    }
    proof {
        lemma_key_index(p, k, i as int);
    }
    None
}

/// The slot of an outstanding tap request.
fn find_result(s: &Vec<u32>, k: u32) -> (r: Option<usize>)
    ensures
        match r {
            Some(i) => i < s@.len() && i as int == id_index(s@, k),
            None => id_index(s@, k) == -1,
        },
{
    let mut i: usize = 0;
    while i < s.len()
        invariant
            i <= s@.len(),
            forall|j: int| 0 <= j < i ==> s@[j] != k,
        decreases s.len() - i,
    {
        if s[i] == k {
            proof {
                lemma_id_index(s@, k, i as int);
            }
            return Some(i);
        }
        i = i + 1;
    }
    proof {
        lemma_id_index(s@, k, i as int);
    }
    None
}

/// The accepted outcome requesting `action`.
fn accept(action: InputAction) -> (o: InputOutcome)
    ensures
        accepted(o, action),
{
    InputOutcome { action, result: Ok(()) }
}

/// The refused outcome requesting `action`.
fn refuse(action: InputAction, error: BackendError) -> (o: InputOutcome)
    ensures
        refused(o, action, error),
{
    InputOutcome { action, result: Err(error) }
}

impl InputDevices {
    /// Every device and outstanding request is known once, and the device
    /// tables stay within their capacities.
    pub open spec fn wf(&self) -> bool {
        &&& keys_unique(self.devices@)
        &&& keys_unique(libinput_pairs(self.libinput@))
        &&& ids_unique(self.results@)
        &&& self.devices@.len() <= MAX_BACKEND_INPUT_DEVICES
        &&& self.libinput@.len() <= MAX_BACKEND_LIBINPUT_DEVICES
    }

    /// No devices, nothing outstanding.
    pub fn new(connected: bool) -> (d: Self)
        ensures
            d.devices@.len() == 0,
            d.libinput@.len() == 0,
            d.results@.len() == 0,
            d.next_input_ordinal == 0,
            d.next_libinput_ordinal == 0,
            !d.flush_pending,
            d.connected == connected,
            d.wf(),
    {
        InputDevices {
            devices: Vec::new(),
            libinput: Vec::new(),
            results: Vec::new(),
            next_input_ordinal: 0,
            next_libinput_ordinal: 0,
            flush_pending: false,
            connected,
        }
    }

    /// Apply one input event.
    ///
    /// A new device beyond capacity is destroyed and refused, as is one whose
    /// ordinal would overflow; a removed device is destroyed; facts about an
    /// unknown device are protocol errors; a finished keyboard gets the
    /// fixed repeat policy; a finished touchpad that supports tapping with
    /// tapping off gets tap-to-click requested; a tap answer must match an
    /// outstanding request and report success.
    pub fn apply(&mut self, event: InputEvent) -> (o: InputOutcome)
        ensures
            final(self).connected == old(self).connected,
            old(self).wf() ==> final(self).wf(),
            match event {
                InputEvent::DeviceCreated(id) => if old(self).devices@.len() == MAX_BACKEND_INPUT_DEVICES {
                    refused(o, InputAction::Destroy(id), BackendError::Capacity {
                        resource: BackendCapacityResource::InputDevices,
                        limit: MAX_BACKEND_INPUT_DEVICES as u64,
                    }) && *final(self) == *old(self)
                } else if old(self).next_input_ordinal == u64::MAX {
                    refused(o, InputAction::Nothing, BackendError::Capacity {
                        resource: BackendCapacityResource::ObjectOrdinals,
                        limit: u64::MAX,
                    }) && *final(self) == *old(self)
                } else {
                    accepted(o, InputAction::Nothing) && *final(self) == (InputDevices {
                        next_input_ordinal: (old(self).next_input_ordinal + 1) as u64,
                        devices: final(self).devices,
                        ..*old(self)
                    }) && final(self).devices@ == keyed_insert(old(self).devices@, id, None)
                },
                InputEvent::DeviceRemoved(id) => accepted(o, InputAction::Destroy(id)) && *final(self) == (InputDevices {
                    flush_pending: old(self).flush_pending || old(self).connected,
                    devices: final(self).devices,
                    ..*old(self)
                }) && final(self).devices@ == keyed_remove(old(self).devices@, id),
                InputEvent::DeviceType { device, keyboard } => if key_index(old(self).devices@, device) < 0 {
                    refused(o, InputAction::Nothing, BackendError::Protocol { kind: BackendProtocolErrorKind::InvalidFraming })
                        && *final(self) == *old(self)
                } else {
                    accepted(o, InputAction::Nothing) && *final(self) == (InputDevices {
                        devices: final(self).devices,
                        ..*old(self)
                    }) && final(self).devices@ == keyed_insert(old(self).devices@, device, Some(keyboard))
                },
                InputEvent::DeviceDone(id) => if key_index(old(self).devices@, id) < 0 {
                    refused(o, InputAction::Nothing, BackendError::Protocol { kind: BackendProtocolErrorKind::InvalidFraming })
                        && *final(self) == *old(self)
                } else if old(self).devices@[key_index(old(self).devices@, id)].1 == Some(true) {
                    accepted(o, InputAction::SetRepeatInfo {
                        device: id,
                        rate: KEY_REPEAT_RATE_HZ as i32,
                        delay: KEY_REPEAT_DELAY_MS as i32,
                    }) && *final(self) == (InputDevices {
                        flush_pending: old(self).flush_pending || old(self).connected,
                        ..*old(self)
                    })
                } else {
                    accepted(o, InputAction::Nothing) && *final(self) == *old(self)
                },
                InputEvent::LibinputCreated(id) => if old(self).libinput@.len() == MAX_BACKEND_LIBINPUT_DEVICES {
                    refused(o, InputAction::Destroy(id), BackendError::Capacity {
                        resource: BackendCapacityResource::LibinputDevices,
                        limit: MAX_BACKEND_LIBINPUT_DEVICES as u64,
                    }) && *final(self) == *old(self)
                } else if old(self).next_libinput_ordinal == u64::MAX {
                    refused(o, InputAction::Nothing, BackendError::Capacity {
                        resource: BackendCapacityResource::ObjectOrdinals,
                        limit: u64::MAX,
                    }) && *final(self) == *old(self)
                } else {
                    accepted(o, InputAction::Nothing) && *final(self) == (InputDevices {
                        next_libinput_ordinal: (old(self).next_libinput_ordinal + 1) as u64,
                        libinput: final(self).libinput,
                        ..*old(self)
                    }) && libinput_pairs(final(self).libinput@) == keyed_insert(libinput_pairs(old(self).libinput@), id, (None, None))
                },
                InputEvent::LibinputRemoved(id) => accepted(o, InputAction::Destroy(id)) && *final(self) == (InputDevices {
                    flush_pending: old(self).flush_pending || old(self).connected,
                    libinput: final(self).libinput,
                    ..*old(self)
                }) && libinput_pairs(final(self).libinput@) == keyed_remove(libinput_pairs(old(self).libinput@), id),
                InputEvent::TapSupport { device, finger_count } => {
                    let i = key_index(libinput_pairs(old(self).libinput@), device);
                    if i < 0 {
                        refused(o, InputAction::Nothing, BackendError::Protocol { kind: BackendProtocolErrorKind::InvalidFraming })
                            && *final(self) == *old(self)
                    } else {
                        accepted(o, InputAction::Nothing) && *final(self) == (InputDevices {
                            libinput: final(self).libinput,
                            ..*old(self)
                        }) && final(self).libinput@ == old(self).libinput@.update(
                            i,
                            (device, Some(finger_count), old(self).libinput@[i].2),
                        )
                    }
                },
                InputEvent::TapCurrent { device, enabled } => {
                    let i = key_index(libinput_pairs(old(self).libinput@), device);
                    if i < 0 {
                        refused(o, InputAction::Nothing, BackendError::Protocol { kind: BackendProtocolErrorKind::InvalidFraming })
                            && *final(self) == *old(self)
                    } else {
                        accepted(o, InputAction::Nothing) && *final(self) == (InputDevices {
                            libinput: final(self).libinput,
                            ..*old(self)
                        }) && final(self).libinput@ == old(self).libinput@.update(
                            i,
                            (device, old(self).libinput@[i].1, Some(enabled)),
                        )
                    }
                },
                InputEvent::LibinputDone(id) => {
                    let i = key_index(libinput_pairs(old(self).libinput@), id);
                    if i < 0 {
                        refused(o, InputAction::Nothing, BackendError::Protocol { kind: BackendProtocolErrorKind::InvalidFraming })
                            && *final(self) == *old(self)
                    } else if needs_tap(old(self).libinput@[i].1, old(self).libinput@[i].2) {
                        accepted(o, InputAction::EnableTap(id)) && *final(self) == *old(self)
                    } else {
                        accepted(o, InputAction::Nothing) && *final(self) == *old(self)
                    }
                },
                InputEvent::LibinputResult { result, success } => {
                    let i = id_index(old(self).results@, result);
                    &&& o.action == InputAction::Nothing
                    &&& *final(self) == (InputDevices { results: final(self).results, ..*old(self) })
                    &&& i >= 0 ==> final(self).results@ == old(self).results@.remove(i)
                    &&& i < 0 ==> final(self).results@ == old(self).results@
                    &&& (i >= 0 && success) ==> o.result is Ok
                    &&& !(i >= 0 && success) ==> (o.result matches Err(e) && is_tap_refusal(e))
                },
            },
    {
        match event {
            InputEvent::DeviceCreated(id) => {
                if self.devices.len() == MAX_BACKEND_INPUT_DEVICES {
                    return refuse(
                        InputAction::Destroy(id),
                        capacity(BackendCapacityResource::InputDevices, MAX_BACKEND_INPUT_DEVICES as u64),
                    );
                }
                if self.next_input_ordinal == u64::MAX {
                    return refuse(InputAction::Nothing, capacity(BackendCapacityResource::ObjectOrdinals, u64::MAX));
                }
                self.next_input_ordinal = self.next_input_ordinal + 1;
                match find_device(&self.devices, id) {
                    Some(i) => self.devices.set(i, (id, None)),
                    None => self.devices.push((id, None)),
                }
                proof {
                    if old(self).wf() {
                        lemma_keyed_insert(old(self).devices@, id, None);
                    }
                }
                accept(InputAction::Nothing)
            },
            InputEvent::DeviceRemoved(id) => {
                if let Some(i) = find_device(&self.devices, id) {
                    self.devices.remove(i);
                }
                proof {
                    if old(self).wf() {
                        lemma_keyed_remove(old(self).devices@, id);
                    }
                }
                self.flush_pending = self.flush_pending || self.connected;
                accept(InputAction::Destroy(id))
            },
            InputEvent::DeviceType { device, keyboard } => {
                match find_device(&self.devices, device) {
                    Some(i) => {
                        self.devices.set(i, (device, Some(keyboard)));
                        proof {
                            if old(self).wf() {
                                lemma_keyed_insert(old(self).devices@, device, Some(keyboard));
                            }
                        }
                        accept(InputAction::Nothing)
                    },
                    None => refuse(InputAction::Nothing, protocol_error()),
                }
            },
            InputEvent::DeviceDone(id) => {
                match find_device(&self.devices, id) {
                    Some(i) => {
                        if self.devices[i].1 == Some(true) {
                            self.flush_pending = self.flush_pending || self.connected;
                            accept(InputAction::SetRepeatInfo {
                                device: id,
                                rate: KEY_REPEAT_RATE_HZ as i32,
                                delay: KEY_REPEAT_DELAY_MS as i32,
                            })
                        } else {
                            accept(InputAction::Nothing)
                        }
                    },
                    None => refuse(InputAction::Nothing, protocol_error()),
                }
            },
            InputEvent::LibinputCreated(id) => {
                if self.libinput.len() == MAX_BACKEND_LIBINPUT_DEVICES {
                    return refuse(
                        InputAction::Destroy(id),
                        capacity(BackendCapacityResource::LibinputDevices, MAX_BACKEND_LIBINPUT_DEVICES as u64),
                    );
                }
                if self.next_libinput_ordinal == u64::MAX {
                    return refuse(InputAction::Nothing, capacity(BackendCapacityResource::ObjectOrdinals, u64::MAX));
                }
                self.next_libinput_ordinal = self.next_libinput_ordinal + 1;
                let ghost before = self.libinput@;
                match find_libinput(&self.libinput, id) {
                    Some(i) => {
                        self.libinput.set(i, (id, None, None));
                        proof {
                            assert(libinput_pairs(self.libinput@) =~= libinput_pairs(before).update(i as int, (id, (None, None))));
                        }
                    },
                    None => {
                        self.libinput.push((id, None, None));
                        proof {
                            assert(libinput_pairs(self.libinput@) =~= libinput_pairs(before).push((id, (None, None))));
                        }
                    },
                }
                proof {
                    if old(self).wf() {
                        lemma_keyed_insert(libinput_pairs(before), id, (None, None));
                    }
                }
                accept(InputAction::Nothing)
            },
            InputEvent::LibinputRemoved(id) => {
                let ghost before = self.libinput@;
                if let Some(i) = find_libinput(&self.libinput, id) {
                    self.libinput.remove(i);
                    proof {
                        assert(libinput_pairs(self.libinput@) =~= libinput_pairs(before).remove(i as int));
                    }
                }
                proof {
                    if old(self).wf() {
                        lemma_keyed_remove(libinput_pairs(before), id);
                    }
                }
                self.flush_pending = self.flush_pending || self.connected;
                accept(InputAction::Destroy(id))
            },
            InputEvent::TapSupport { device, finger_count } => {
                match find_libinput(&self.libinput, device) {
                    Some(i) => {
                        let enabled = self.libinput[i].2;
                        self.libinput.set(i, (device, Some(finger_count), enabled));
                        proof {
                            let p = libinput_pairs(old(self).libinput@);
                            lemma_key_index_finds(p, device);
                            assert(libinput_pairs(self.libinput@) =~= keyed_insert(p, device, (Some(finger_count), enabled)));
                            if old(self).wf() {
                                lemma_keyed_insert(p, device, (Some(finger_count), enabled));
                            }
                        }
                        accept(InputAction::Nothing)
                    },
                    None => refuse(InputAction::Nothing, protocol_error()),
                }
            },
            InputEvent::TapCurrent { device, enabled } => {
                match find_libinput(&self.libinput, device) {
                    Some(i) => {
                        let support = self.libinput[i].1;
                        self.libinput.set(i, (device, support, Some(enabled)));
                        proof {
                            let p = libinput_pairs(old(self).libinput@);
                            lemma_key_index_finds(p, device);
                            assert(libinput_pairs(self.libinput@) =~= keyed_insert(p, device, (support, Some(enabled))));
                            if old(self).wf() {
                                lemma_keyed_insert(p, device, (support, Some(enabled)));
                            }
                        }
                        accept(InputAction::Nothing)
                    },
                    None => refuse(InputAction::Nothing, protocol_error()),
                }
            },
            InputEvent::LibinputDone(id) => {
                match find_libinput(&self.libinput, id) {
                    Some(i) => {
                        let support = self.libinput[i].1;
                        let enabled = self.libinput[i].2;
                        let tap = match support {
                            Some(count) => count > 0 && enabled == Some(false),
                            None => false,
                        };
                        if tap {
                            accept(InputAction::EnableTap(id))
                        } else {
                            accept(InputAction::Nothing)
                        }
                    },
                    None => refuse(InputAction::Nothing, protocol_error()),
                }
            },
            InputEvent::LibinputResult { result, success } => {
                let found = match find_result(&self.results, result) {
                    Some(i) => {
                        proof {
                            if old(self).wf() {
                                lemma_ids_remove(old(self).results@, i as int);
                            }
                        }
                        self.results.remove(i);
                        true
                    },
                    None => false,
                };
                if !found || !success {
                    return refuse(
                        InputAction::Nothing,
                        BackendError::Unavailable {
                            message: String::from_str("River rejected required tap-to-click policy"),
                        },
                    );
                }
                accept(InputAction::Nothing)
            },
        }
    }

    /// Record a sent tap request's result object.
    pub fn tap_requested(&mut self, result: u32)
        ensures
            *final(self) == (InputDevices {
                flush_pending: old(self).flush_pending || old(self).connected,
                results: final(self).results,
                ..*old(self)
            }),
            id_index(old(self).results@, result) >= 0 ==> final(self).results@ == old(self).results@,
            id_index(old(self).results@, result) < 0 ==> final(self).results@ == old(self).results@.push(result),
            old(self).wf() ==> final(self).wf(),
    {
        if find_result(&self.results, result).is_none() {
            proof {
                lemma_id_index_finds(old(self).results@, result);
            }
            self.results.push(result);
        }
        self.flush_pending = self.flush_pending || self.connected;
    }
}

} // verus!
