//! Pure protocol decisions of the River window-management backend.
use vstd::prelude::*;

use super::{BackendCapacityResource, BackendError, BackendModifier, BackendProtocolErrorKind};
use crate::text::{decimal, push_decimal};

verus! {

/// One advertised registry global.
#[derive(Debug, Clone, Copy, PartialEq, Eq, Structural)]
pub struct AdvertisedGlobal {
    /// Registry name.
    pub name: u32,
    /// Advertised interface version.
    pub version: u32,
}

/// The five River globals the backend requires, as last advertised.
#[derive(Debug, Clone, Copy, PartialEq, Eq, Structural)]
pub struct Globals {
    /// `river_window_manager_v1`.
    pub window_manager: Option<AdvertisedGlobal>,
    /// `river_xkb_bindings_v1`.
    pub xkb_bindings: Option<AdvertisedGlobal>,
    /// `river_layer_shell_v1`.
    pub layer_shell: Option<AdvertisedGlobal>,
    /// `river_input_manager_v1`.
    pub input_manager: Option<AdvertisedGlobal>,
    /// `river_libinput_config_v1`.
    pub libinput_config: Option<AdvertisedGlobal>,
}

/// The slot left after removing `name`: a global of that name is forgotten.
pub open spec fn without_name(slot: Option<AdvertisedGlobal>, name: u32) -> Option<AdvertisedGlobal> {
    match slot {
        Some(global) => if global.name == name { None } else { slot },
        None => None,
    }
}

/// The message of a missing or too-old required global.
pub open spec fn required_global_message(interface: Seq<char>, advertised: u32, required: u32) -> Seq<char> {
    "required global "@ + interface + " advertised version "@ + decimal(advertised as nat)
        + ", required "@ + decimal(required as nat)
}

/// The version a slot advertises, zero when the global is absent.
pub open spec fn advertised_version(global: Option<AdvertisedGlobal>) -> u32 {
    match global {
        Some(global) => global.version,
        None => 0,
    }
}

/// The outcome of requiring one global at a minimum version.
pub open spec fn require_global_result(interface: Seq<char>, global: Option<AdvertisedGlobal>, required: u32) -> Result<(), Seq<char>> {
    if advertised_version(global) < required {
        Err(required_global_message(interface, advertised_version(global), required))
    } else {
        Ok(())
    }
}

/// Reject a missing global or one advertised below the required version.
pub fn require_global(interface: &str, global: Option<AdvertisedGlobal>, required: u32) -> (r: Result<(), BackendError>)
    ensures
        match (r, require_global_result(interface@, global, required)) {
            (Ok(()), Ok(())) => true,
            (Err(BackendError::Unavailable { message }), Err(expected)) => message@ == expected,
            _ => false,
        },
{
    let advertised = match global {
        Some(global) => global.version,
        None => 0,
    };
    if advertised < required {
        let mut message = String::from_str("required global ");
        message.append(interface);
        message.append(" advertised version ");
        push_decimal(&mut message, advertised as u64);
        message.append(", required ");
        push_decimal(&mut message, required as u64);
        return Err(BackendError::Unavailable { message });
    }
    Ok(())
}

impl Globals {
    /// No global has been advertised.
    pub fn new() -> (g: Self)
        ensures
            g.window_manager is None,
            g.xkb_bindings is None,
            g.layer_shell is None,
            g.input_manager is None,
            g.libinput_config is None,
    {
        Globals {
            window_manager: None,
            xkb_bindings: None,
            layer_shell: None,
            input_manager: None,
            libinput_config: None,
        }
    }

    /// Record an advertised global; unrelated interfaces are ignored.
    ///
    /// Recording never needs a new roundtrip, so the result is always `Ok(false)`.
    pub fn record(&mut self, name: u32, interface: &str, version: u32) -> (r: Result<bool, BackendError>)
        ensures
            r == Ok::<bool, BackendError>(false),
            final(self).window_manager == (if interface@ == "river_window_manager_v1"@ {
                Some(AdvertisedGlobal { name, version }) } else { old(self).window_manager }),
            final(self).xkb_bindings == (if interface@ == "river_xkb_bindings_v1"@ {
                Some(AdvertisedGlobal { name, version }) } else { old(self).xkb_bindings }),
            final(self).layer_shell == (if interface@ == "river_layer_shell_v1"@ {
                Some(AdvertisedGlobal { name, version }) } else { old(self).layer_shell }),
            final(self).input_manager == (if interface@ == "river_input_manager_v1"@ {
                Some(AdvertisedGlobal { name, version }) } else { old(self).input_manager }),
            final(self).libinput_config == (if interface@ == "river_libinput_config_v1"@ {
                Some(AdvertisedGlobal { name, version }) } else { old(self).libinput_config }),
    {
        proof {
            reveal_strlit("river_window_manager_v1");
            reveal_strlit("river_xkb_bindings_v1");
            reveal_strlit("river_layer_shell_v1");
            reveal_strlit("river_input_manager_v1");
            reveal_strlit("river_libinput_config_v1");
            let names = seq![
                "river_window_manager_v1"@,
                "river_xkb_bindings_v1"@,
                "river_layer_shell_v1"@,
                "river_input_manager_v1"@,
                "river_libinput_config_v1"@,
            ];
            assert(forall|a: int, b: int|
                0 <= a < 5 && 0 <= b < 5 && a != b ==> (#[trigger] names[a])[6] != names[b][6]
                    || names[a][7] != (#[trigger] names[b])[7]);
        }
        let global = Some(AdvertisedGlobal { name, version });
        if crate::text::str_equal(interface, "river_window_manager_v1") {
            self.window_manager = global;
        } else if crate::text::str_equal(interface, "river_xkb_bindings_v1") {
            self.xkb_bindings = global;
        } else if crate::text::str_equal(interface, "river_layer_shell_v1") {
            self.layer_shell = global;
        } else if crate::text::str_equal(interface, "river_input_manager_v1") {
            self.input_manager = global;
        } else if crate::text::str_equal(interface, "river_libinput_config_v1") {
            self.libinput_config = global;
        }
        Ok(false)
    }

    /// Forget every global advertised under `name`; always `Ok(false)`.
    pub fn remove(&mut self, name: u32) -> (r: Result<bool, BackendError>)
        ensures
            r == Ok::<bool, BackendError>(false),
            final(self).window_manager == without_name(old(self).window_manager, name),
            final(self).xkb_bindings == without_name(old(self).xkb_bindings, name),
            final(self).layer_shell == without_name(old(self).layer_shell, name),
            final(self).input_manager == without_name(old(self).input_manager, name),
            final(self).libinput_config == without_name(old(self).libinput_config, name),
    {
        self.window_manager = forget(self.window_manager, name);
        self.xkb_bindings = forget(self.xkb_bindings, name);
        self.layer_shell = forget(self.layer_shell, name);
        self.input_manager = forget(self.input_manager, name);
        self.libinput_config = forget(self.libinput_config, name);
        Ok(false)
    }

    /// The first unmet requirement, in the fixed binding order.
    pub open spec fn spec_validate(self) -> Result<(), Seq<char>> {
        let checks = seq![
            require_global_result("river_window_manager_v1"@, self.window_manager, 4),
            require_global_result("river_xkb_bindings_v1"@, self.xkb_bindings, 3),
            require_global_result("river_layer_shell_v1"@, self.layer_shell, 1),
            require_global_result("river_input_manager_v1"@, self.input_manager, 2),
            require_global_result("river_libinput_config_v1"@, self.libinput_config, 2),
        ];
        if checks[0] is Err { checks[0] }
        else if checks[1] is Err { checks[1] }
        else if checks[2] is Err { checks[2] }
        else if checks[3] is Err { checks[3] }
        else { checks[4] }
    }

    /// Require every global at its minimum version, reporting the first failure.
    pub fn validate(&self) -> (r: Result<(), BackendError>)
        ensures
            match (r, self.spec_validate()) {
                (Ok(()), Ok(())) => true,
                (Err(BackendError::Unavailable { message }), Err(expected)) => message@ == expected,
                _ => false,
            },
    {
        require_global("river_window_manager_v1", self.window_manager, 4)?;
        require_global("river_xkb_bindings_v1", self.xkb_bindings, 3)?;
        require_global("river_layer_shell_v1", self.layer_shell, 1)?;
        require_global("river_input_manager_v1", self.input_manager, 2)?;
        require_global("river_libinput_config_v1", self.libinput_config, 2)
    }
}

fn forget(slot: Option<AdvertisedGlobal>, name: u32) -> (r: Option<AdvertisedGlobal>)
    ensures
        r == without_name(slot, name),
{
    match slot {
        Some(global) => if global.name == name { None } else { slot },
        None => None,
    }
}

/// The single protocol-violation error the transport reports.
pub fn protocol_error() -> (e: BackendError)
    ensures
        e == (BackendError::Protocol { kind: BackendProtocolErrorKind::InvalidFraming }),
{
    BackendError::Protocol { kind: BackendProtocolErrorKind::InvalidFraming }
}

/// A capacity failure for `resource` at `limit`.
pub fn capacity(resource: BackendCapacityResource, limit: u64) -> (e: BackendError)
    ensures
        e == (BackendError::Capacity { resource, limit }),
{
    BackendError::Capacity { resource, limit }
}

/// A transport failure carrying the rendered I/O error.
pub fn io_error(message: String) -> (e: BackendError)
    ensures
        e matches BackendError::Io { message: m } && m@ == message@,
{
    BackendError::Io { message }
}

/// The keysym a binding name denotes, if it is one of the supported names.
pub open spec fn spec_keysym(name: Seq<char>) -> Option<u32> {
    if name == "Return"@ {
        Some(0xff0d)
    } else if name == "Escape"@ {
        Some(0xff1b)
    } else if name == "question"@ {
        Some(0x3f)
    } else if name.len() == 1 && is_ascii_alphanumeric(name[0]) {
        Some(name[0] as u32)
    } else {
        None
    }
}

/// ASCII letters and digits.
pub open spec fn is_ascii_alphanumeric(c: char) -> bool {
    ('0' <= c <= '9') || ('a' <= c <= 'z') || ('A' <= c <= 'Z')
}

/// The X keysym of a binding key name.
pub fn keysym(name: &str) -> (k: Option<u32>)
    ensures
        k == spec_keysym(name@),
{
    proof {
        reveal_strlit("Return");
        reveal_strlit("Escape");
        reveal_strlit("question");
    }
    if crate::text::str_equal(name, "Return") {
        return Some(0xff0d);
    }
    if crate::text::str_equal(name, "Escape") {
        return Some(0xff1b);
    }
    if crate::text::str_equal(name, "question") {
        return Some(0x3f);
    }
    let chars = crate::text::chars_of(name);
    if chars.len() == 1 {
        let c = chars[0];
        if ('0' <= c && c <= '9') || ('a' <= c && c <= 'z') || ('A' <= c && c <= 'Z') {
            return Some(c as u32);
        }
    }
    None
}

/// The wire bit of one modifier.
pub open spec fn modifier_bit(m: BackendModifier) -> u32 {
    match m {
        BackendModifier::Shift => 1,
        BackendModifier::Control => 4,
        BackendModifier::Alt => 8,
        BackendModifier::Super => 64,
    }
}

/// The union of the wire bits of a modifier list.
pub open spec fn modifier_mask(modifiers: Seq<BackendModifier>) -> u32
    decreases modifiers.len(),
{
    if modifiers.len() == 0 {
        0
    } else {
        modifier_mask(modifiers.drop_last()) | modifier_bit(modifiers.last())
    }
}

/// Encode modifiers as the protocol's bit mask.
pub fn modifiers_bits(modifiers: &[BackendModifier]) -> (bits: u32)
    ensures
        bits == modifier_mask(modifiers@),
{
    let mut bits: u32 = 0;
    let mut i: usize = 0;
    while i < modifiers.len()
        invariant
            i <= modifiers@.len(),
            bits == modifier_mask(modifiers@.take(i as int)),
        decreases modifiers.len() - i,
    {
        let bit: u32 = match modifiers[i] {
            BackendModifier::Shift => 1,
            BackendModifier::Control => 4,
            BackendModifier::Alt => 8,
            BackendModifier::Super => 64,
        };
        proof {
            assert(modifiers@.take(i + 1).drop_last() =~= modifiers@.take(i as int));
        }
        bits = bits | bit;
        i = i + 1;
    }
    assert(modifiers@.take(modifiers@.len() as int) =~= modifiers@);
    bits
}

/// The canonical modifier list a valid mask denotes.
pub open spec fn decoded_modifiers(bits: u32) -> Seq<BackendModifier> {
    (if bits & 1 != 0 { seq![BackendModifier::Shift] } else { Seq::empty() })
        + (if bits & 4 != 0 { seq![BackendModifier::Control] } else { Seq::empty() })
        + (if bits & 8 != 0 { seq![BackendModifier::Alt] } else { Seq::empty() })
        + (if bits & 64 != 0 { seq![BackendModifier::Super] } else { Seq::empty() })
}

/// Decode a protocol modifier mask, rejecting unknown bits.
pub fn decode_modifiers(bits: u32) -> (r: Result<Vec<BackendModifier>, BackendError>)
    ensures
        bits & !(1u32 | 4u32 | 8u32 | 64u32) != 0 <==> r is Err,
        r matches Err(e) ==> e == (BackendError::Protocol { kind: BackendProtocolErrorKind::InvalidFraming }),
        r matches Ok(m) ==> m@ == decoded_modifiers(bits),
{
    if bits & !(1u32 | 4u32 | 8u32 | 64u32) != 0 {
        return Err(protocol_error());
    }
    let mut modifiers: Vec<BackendModifier> = Vec::new();
    if bits & 1 != 0 {
        modifiers.push(BackendModifier::Shift);
    }
    if bits & 4 != 0 {
        modifiers.push(BackendModifier::Control);
    }
    if bits & 8 != 0 {
        modifiers.push(BackendModifier::Alt);
    }
    if bits & 64 != 0 {
        modifiers.push(BackendModifier::Super);
    }
    assert(modifiers@ =~= decoded_modifiers(bits));
    Ok(modifiers)
}

/// Premultiplied border colour components for one focus state.
pub open spec fn spec_border_rgba(focused: bool) -> (u32, u32, u32, u32) {
    let (red, green, blue, alpha_percent) = if focused {
        (0xa6int, 0x92int, 0xecint, 60int)
    } else {
        (0x66int, 0x74int, 0x8eint, 30int)
    };
    let alpha = 0xffff_ffffint * alpha_percent / 100;
    (
        (alpha * red / 255) as u32,
        (alpha * green / 255) as u32,
        (alpha * blue / 255) as u32,
        alpha as u32,
    )
}

/// The border colour, premultiplied by its alpha, in 32-bit channels.
pub fn border_rgba(focused: bool) -> (c: (u32, u32, u32, u32))
    ensures
        c == spec_border_rgba(focused),
{
    let (red, green, blue, alpha_percent): (u64, u64, u64, u64) = if focused {
        (0xa6, 0x92, 0xec, 60)
    } else {
        (0x66, 0x74, 0x8e, 30)
    };
    let alpha: u64 = 0xffff_ffffu64 * alpha_percent / 100;
    assert(alpha <= 0xffff_ffffu64);
    assert(alpha * red <= 0xffff_ffffu64 * 255) by (nonlinear_arith)
        requires alpha <= 0xffff_ffffu64, red <= 255;
    assert(alpha * green <= 0xffff_ffffu64 * 255) by (nonlinear_arith)
        requires alpha <= 0xffff_ffffu64, green <= 255;
    assert(alpha * blue <= 0xffff_ffffu64 * 255) by (nonlinear_arith)
        requires alpha <= 0xffff_ffffu64, blue <= 255;
    let r = alpha * red / 255;
    let g = alpha * green / 255;
    let b = alpha * blue / 255;
    (r as u32, g as u32, b as u32, alpha as u32)
}

} // verus!

verus! {

/// The wire mask with the four modifier bits chosen by flags.
pub open spec fn flags_mask(s: bool, c: bool, a: bool, p: bool) -> u32 {
    (if s { 1u32 } else { 0u32 }) | (if c { 4u32 } else { 0u32 }) | (if a { 8u32 } else { 0u32 }) | (if p {
        64u32
    } else {
        0u32
    })
}

/// The modifiers chosen by flags, in canonical order.
pub open spec fn flagged_modifiers(s: bool, c: bool, a: bool, p: bool) -> Seq<BackendModifier> {
    (if s { seq![BackendModifier::Shift] } else { Seq::empty() })
        + (if c { seq![BackendModifier::Control] } else { Seq::empty() })
        + (if a { seq![BackendModifier::Alt] } else { Seq::empty() })
        + (if p { seq![BackendModifier::Super] } else { Seq::empty() })
}

proof fn lemma_flags_mask(s: bool, c: bool, a: bool, p: bool)
    by (bit_vector)
    ensures
        (flags_mask(s, c, a, p) & 1u32 != 0) == s,
        (flags_mask(s, c, a, p) & 4u32 != 0) == c,
        (flags_mask(s, c, a, p) & 8u32 != 0) == a,
        (flags_mask(s, c, a, p) & 64u32 != 0) == p,
        flags_mask(s, c, a, p) & !(1u32 | 4u32 | 8u32 | 64u32) == 0,
        flags_mask(s, c, a, p) | 1u32 == flags_mask(true, c, a, p),
        flags_mask(s, c, a, p) | 4u32 == flags_mask(s, true, a, p),
        flags_mask(s, c, a, p) | 8u32 == flags_mask(s, c, true, p),
        flags_mask(s, c, a, p) | 64u32 == flags_mask(s, c, a, true),
        flags_mask(false, false, false, false) == 0u32,
{
}

/// The mask of any modifier list sets exactly the bits of the modifiers it contains.
proof fn lemma_mask_is_membership(m: Seq<BackendModifier>)
    ensures
        modifier_mask(m) == flags_mask(
            m.contains(BackendModifier::Shift),
            m.contains(BackendModifier::Control),
            m.contains(BackendModifier::Alt),
            m.contains(BackendModifier::Super),
        ),
    decreases m.len(),
{
    let sh = BackendModifier::Shift;
    let ct = BackendModifier::Control;
    let al = BackendModifier::Alt;
    let su = BackendModifier::Super;
    if m.len() == 0 {
        lemma_flags_mask(false, false, false, false);
    } else {
        let r = m.drop_last();
        lemma_mask_is_membership(r);
        lemma_flags_mask(r.contains(sh), r.contains(ct), r.contains(al), r.contains(su));
        assert forall|x: BackendModifier| #[trigger] m.contains(x) == (r.contains(x) || m.last() == x) by {
            if m.contains(x) {
                let i = choose|i: int| 0 <= i < m.len() && m[i] == x;
                if i < m.len() - 1 {
                    assert(r[i] == x);
                }
            }
            if r.contains(x) {
                let i = choose|i: int| 0 <= i < r.len() && r[i] == x;
                assert(m[i] == x);
            }
            if m.last() == x {
                assert(m[m.len() - 1] == x);
            }
        }
    }
}

/// A canonical modifier list is exactly its members in canonical order.
proof fn lemma_canonical_is_flagged(m: Seq<BackendModifier>)
    requires
        crate::session::spec_canonical_modifiers(m),
    ensures
        m == flagged_modifiers(
            m.contains(BackendModifier::Shift),
            m.contains(BackendModifier::Control),
            m.contains(BackendModifier::Alt),
            m.contains(BackendModifier::Super),
        ),
    decreases m.len(),
{
    let sh = BackendModifier::Shift;
    let ct = BackendModifier::Control;
    let al = BackendModifier::Alt;
    let su = BackendModifier::Super;
    if m.len() == 0 {
        assert(flagged_modifiers(false, false, false, false) =~= m);
        assert(!m.contains(sh) && !m.contains(ct) && !m.contains(al) && !m.contains(su));
    } else {
        let r = m.drop_last();
        assert forall|i: int| 0 <= i < r.len() - 1 implies #[trigger] crate::session::increasing_at(r, i) by {
            assert(crate::session::increasing_at(m, i));
        }
        lemma_canonical_is_flagged(r);
        assert forall|x: BackendModifier| #[trigger] m.contains(x) == (r.contains(x) || m.last() == x) by {
            if m.contains(x) {
                let i = choose|i: int| 0 <= i < m.len() && m[i] == x;
                if i < m.len() - 1 {
                    assert(r[i] == x);
                }
            }
            if r.contains(x) {
                let i = choose|i: int| 0 <= i < r.len() && r[i] == x;
                assert(m[i] == x);
            }
            if m.last() == x {
                assert(m[m.len() - 1] == x);
            }
        }
        let x = m.last();
        if r.len() > 0 {
            assert(crate::session::increasing_at(m, m.len() - 2));
            assert(r.last() == m[m.len() - 2]);
            // every member of r ranks at most r's last member
            assert forall|y: BackendModifier| r.contains(y) implies crate::backend::modifier_rank(y)
                <= crate::backend::modifier_rank(r.last()) by {
                let f = flagged_modifiers(r.contains(sh), r.contains(ct), r.contains(al), r.contains(su));
                assert(r == f);
            }
            assert(!r.contains(x));
        }
        assert(m =~= r.push(x));
        let f = flagged_modifiers(r.contains(sh), r.contains(ct), r.contains(al), r.contains(su));
        assert(r == f);
        if x == sh {
            assert(flagged_modifiers(true, r.contains(ct), r.contains(al), r.contains(su)) =~= r.push(x));
        } else if x == ct {
            assert(flagged_modifiers(r.contains(sh), true, r.contains(al), r.contains(su)) =~= r.push(x));
        } else if x == al {
            assert(flagged_modifiers(r.contains(sh), r.contains(ct), true, r.contains(su)) =~= r.push(x));
        } else {
            assert(flagged_modifiers(r.contains(sh), r.contains(ct), r.contains(al), true) =~= r.push(x));
        }
    }
}

/// Encoding a canonical modifier list and decoding the mask gives the list
/// back: the mask carries no bit outside the four modifiers, so
/// `decode_modifiers(modifiers_bits(m))` is `Ok` of exactly `m`.
pub proof fn lemma_modifiers_round_trip(m: Seq<BackendModifier>)
    requires
        crate::session::spec_canonical_modifiers(m),
    ensures
        modifier_mask(m) & !(1u32 | 4u32 | 8u32 | 64u32) == 0,
        decoded_modifiers(modifier_mask(m)) == m,
{
    let sh = BackendModifier::Shift;
    let ct = BackendModifier::Control;
    let al = BackendModifier::Alt;
    let su = BackendModifier::Super;
    lemma_mask_is_membership(m);
    lemma_canonical_is_flagged(m);
    lemma_flags_mask(m.contains(sh), m.contains(ct), m.contains(al), m.contains(su));
    assert(decoded_modifiers(modifier_mask(m)) =~= flagged_modifiers(
        m.contains(sh),
        m.contains(ct),
        m.contains(al),
        m.contains(su),
    ));
}


/// Appending an optional modifier that ranks above everything before it
/// keeps a list canonical and adds its bit to the mask.
proof fn lemma_append_optional(x: Seq<BackendModifier>, b: bool, m: BackendModifier)
    requires
        crate::session::spec_canonical_modifiers(x),
        x.len() <= crate::backend::modifier_rank(m),
        x.len() > 0 ==> crate::backend::modifier_rank(x.last()) < crate::backend::modifier_rank(m),
    ensures
        ({
            let y = x + (if b { seq![m] } else { Seq::empty() });
            &&& crate::session::spec_canonical_modifiers(y)
            &&& y.len() <= crate::backend::modifier_rank(m) + 1
            &&& y.len() > 0 ==> crate::backend::modifier_rank(y.last()) <= crate::backend::modifier_rank(m)
            &&& modifier_mask(y) == if b { modifier_mask(x) | modifier_bit(m) } else { modifier_mask(x) }
        }),
{
    let y = x + (if b { seq![m] } else { Seq::empty() });
    if b {
        assert(y.drop_last() =~= x);
        assert(y.last() == m);
        assert forall|i: int| 0 <= i < y.len() - 1 implies #[trigger] crate::session::increasing_at(y, i) by {
            if i < x.len() - 1 {
                assert(crate::session::increasing_at(x, i));
            } else {
                assert(y[i] == x.last());
            }
        }
    } else {
        assert(y =~= x);
    }
}

/// The four modifier bits of a mask with no other bit, set one at a time
/// onto an empty mask in canonical order, give the mask back.
proof fn lemma_rebuild_bits(bits: u32, v1: u32, v2: u32, v3: u32, v4: u32)
    by (bit_vector)
    requires
        bits & !(1u32 | 4u32 | 8u32 | 64u32) == 0,
        v1 == (if bits & 1u32 != 0 { 0u32 | 1u32 } else { 0u32 }),
        v2 == (if bits & 4u32 != 0 { v1 | 4u32 } else { v1 }),
        v3 == (if bits & 8u32 != 0 { v2 | 8u32 } else { v2 }),
        v4 == (if bits & 64u32 != 0 { v3 | 64u32 } else { v3 }),
    ensures
        v4 == bits,
{
}

/// Decoding a mask with no unknown bit gives a canonical modifier list whose
/// encoding is the same mask: `decode_modifiers(bits)` is `Ok(d)` with `d`
/// canonical and `modifiers_bits(d) == bits`.
pub proof fn lemma_decode_then_encode(bits: u32)
    requires
        bits & !(1u32 | 4u32 | 8u32 | 64u32) == 0,
    ensures
        crate::session::spec_canonical_modifiers(decoded_modifiers(bits)),
        modifier_mask(decoded_modifiers(bits)) == bits,
{
    let sh = BackendModifier::Shift;
    let ct = BackendModifier::Control;
    let al = BackendModifier::Alt;
    let su = BackendModifier::Super;
    let s = bits & 1 != 0;
    let c = bits & 4 != 0;
    let a = bits & 8 != 0;
    let p = bits & 64 != 0;
    let t0: Seq<BackendModifier> = Seq::empty();
    let t1 = t0 + (if s { seq![sh] } else { Seq::empty() });
    let t2 = t1 + (if c { seq![ct] } else { Seq::empty() });
    let t3 = t2 + (if a { seq![al] } else { Seq::empty() });
    let t4 = t3 + (if p { seq![su] } else { Seq::empty() });
    lemma_append_optional(t0, s, sh);
    lemma_append_optional(t1, c, ct);
    lemma_append_optional(t2, a, al);
    lemma_append_optional(t3, p, su);
    assert(t1 =~= (if s { seq![sh] } else { Seq::empty() }));
    assert(t4 =~= decoded_modifiers(bits));
    lemma_rebuild_bits(bits, modifier_mask(t1), modifier_mask(t2), modifier_mask(t3), modifier_mask(t4));
}
} // verus!
