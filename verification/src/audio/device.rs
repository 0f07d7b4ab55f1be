//! Output devices as the flyout lists them, and the text that Windows reports in UTF-16.

use vstd::prelude::*;

verus! {

/// The `VARTYPE` of a property value that holds a wide (UTF-16) string.
pub const VT_LPWSTR: u16 = 31;

/// `u` is the first half of a surrogate pair.
pub open spec fn is_high_surrogate(u: u16) -> bool {
    0xD800 <= u <= 0xDBFF
}

/// `u` is the second half of a surrogate pair.
pub open spec fn is_low_surrogate(u: u16) -> bool {
    0xDC00 <= u <= 0xDFFF
}

/// The code points that UTF-16 `units` stand for, in order: a unit that is no surrogate
/// stands for itself, a high surrogate followed by a low one for the code point they
/// encode together, and any other surrogate for nothing (`None`), the unit after it
/// being read anew.
pub open spec fn utf16_code_points(units: Seq<u16>) -> Seq<Option<u32>>
    decreases units.len(),
{
    if units.len() == 0 {
        Seq::empty()
    } else if units.len() >= 2 && is_high_surrogate(units[0]) && is_low_surrogate(units[1]) {
        seq![Some((0x10000 + (units[0] - 0xD800) * 0x400 + (units[1] - 0xDC00)) as u32)]
            + utf16_code_points(units.skip(2))
    } else if is_high_surrogate(units[0]) || is_low_surrogate(units[0]) {
        seq![None] + utf16_code_points(units.skip(1))
    } else {
        seq![Some(units[0] as u32)] + utf16_code_points(units.skip(1))
    }
}

/// What `String::from_utf16_lossy` makes of `units`: each unpaired surrogate becomes
/// U+FFFD.
pub open spec fn utf16_lossy(units: Seq<u16>) -> Seq<char> {
    utf16_code_points(units).map_values(
        |cp: Option<u32>|
            match cp {
                Some(c) => c as char,
                None => '\u{FFFD}',
            },
    )
}

/// What `String::from_utf16` makes of `units`: `None` where they hold an unpaired
/// surrogate.
pub open spec fn utf16_strict(units: Seq<u16>) -> Option<Seq<char>> {
    let cps = utf16_code_points(units);
    if forall|i: int| 0 <= i < cps.len() ==> #[trigger] cps[i] is Some {
        Some(cps.map_values(|cp: Option<u32>| cp.unwrap() as char))
    } else {
        None
    }
}

proof fn lemma_plain_code_points(units: Seq<u16>)
    requires
        forall|i: int| 0 <= i < units.len() ==> !is_high_surrogate(#[trigger] units[i]) && !is_low_surrogate(units[i]),
    ensures
        utf16_code_points(units).len() == units.len(),
        forall|i: int| 0 <= i < units.len() ==> #[trigger] utf16_code_points(units)[i] == Some(units[i] as u32),
    decreases units.len(),
{
    if units.len() > 0 {
        let rest = units.skip(1);
        assert forall|i: int| 0 <= i < rest.len() implies !is_high_surrogate(#[trigger] rest[i]) && !is_low_surrogate(rest[i]) by {
            assert(rest[i] == units[i + 1]);
        }
        lemma_plain_code_points(rest);
        assert(!is_high_surrogate(units[0]) && !is_low_surrogate(units[0]));
        let cps = utf16_code_points(units);
        assert(cps == seq![Some(units[0] as u32)] + utf16_code_points(rest));
        assert forall|i: int| 0 <= i < units.len() implies #[trigger] utf16_code_points(units)[i] == Some(units[i] as u32) by {
            if i > 0 {
                assert(cps[i] == utf16_code_points(rest)[i - 1]);
                assert(rest[i - 1] == units[i]);
            }
        }
    }
}

/// UTF-16 without surrogates decodes unit by unit, in both decodings: each unit is the
/// character with that code (a plain ASCII name decodes to itself).
pub proof fn lemma_utf16_without_surrogates(units: Seq<u16>)
    requires
        forall|i: int| 0 <= i < units.len() ==> !is_high_surrogate(#[trigger] units[i]) && !is_low_surrogate(units[i]),
    ensures
        utf16_lossy(units).len() == units.len(),
        forall|i: int| 0 <= i < units.len() ==> #[trigger] utf16_lossy(units)[i] == (units[i] as u32) as char,
        utf16_strict(units) == Some(utf16_lossy(units)),
{
    lemma_plain_code_points(units);
    let cps = utf16_code_points(units);
    assert forall|i: int| 0 <= i < units.len() implies #[trigger] utf16_lossy(units)[i] == (units[i] as u32) as char by {
        assert(cps[i] == Some(units[i] as u32));
    }
    assert forall|i: int| 0 <= i < cps.len() implies #[trigger] cps[i] is Some by {
        assert(cps[i] == Some(units[i] as u32));
    }
    assert(cps.map_values(|cp: Option<u32>| cp.unwrap() as char) =~= utf16_lossy(units));
}

/// Decodes UTF-16 with std's `String::from_utf16_lossy`.
///
/// Claims of `String::from_utf16_lossy`: the text decodes the units as `char::decode_utf16`
/// documents it, each unpaired surrogate replaced by U+FFFD (`utf16_lossy`).
#[verifier::external_body]
fn decode_utf16_lossy(units: &[u16]) -> (s: String)
    ensures
        s@ == utf16_lossy(units@),
{
    String::from_utf16_lossy(units)
}

/// Decodes UTF-16 with std's `String::from_utf16`.
///
/// Claims of `String::from_utf16`: it decodes the units as `char::decode_utf16` documents
/// it, and fails exactly where they hold an unpaired surrogate (`utf16_strict`).
#[verifier::external_body]
fn decode_utf16(units: &[u16]) -> (s: Option<String>)
    ensures
        s.deep_view() == utf16_strict(units@),
{
    String::from_utf16(units).ok()
}

/// The name given to a device whose friendly name cannot be read.
pub open spec fn unknown_device_name() -> Seq<char> {
    "Unknown Device"@
}

/// The friendly name of a device from its property value: the decoded wide string where
/// the value holds one (`text` is `None` where its pointer is null), else
/// `Unknown Device`.
pub open spec fn device_name(value_type: u16, text: Option<Seq<u16>>) -> Seq<char> {
    if value_type == VT_LPWSTR {
        match text {
            Some(units) => utf16_lossy(units),
            None => unknown_device_name(),
        }
    } else {
        unknown_device_name()
    }
}

/// Reads the friendly name of a device (see `device_name`); `text` holds the code units
/// of the value up to its terminating zero, and is only looked at when the value holds a
/// wide string.
pub fn friendly_device_name(value_type: u16, text: Option<&[u16]>) -> (name: String)
    ensures
        name@ == device_name(value_type, text.deep_view()),
{
    if value_type == VT_LPWSTR {
        match text {
            Some(units) => {
                assert(units.deep_view() =~= units@);
                decode_utf16_lossy(units)
            },
            None => String::from_str("Unknown Device"),
        }
    } else {
        String::from_str("Unknown Device")
    }
}

/// The full path of a process image from the UTF-16 code units that Windows wrote for it;
/// `None` where they are no valid UTF-16.
pub fn decode_process_path(units: &[u16]) -> (path: Option<String>)
    ensures
        path.deep_view() == utf16_strict(units@),
{
    decode_utf16(units)
}

/// An active output device as the flyout lists it.
#[derive(Debug)]
pub struct AudioDeviceInfo {
    pub id: String,
    pub name: String,
    pub is_default: bool,
}

impl AudioDeviceInfo {
    /// Describes the device `id` named `name`; it is the default device when its id is
    /// the default endpoint's id.
    pub fn describe(id: String, name: String, default_id: &str) -> (info: Self)
        ensures
            info.id@ == id@,
            info.name@ == name@,
            info.is_default == (id@ == default_id@),
    {
        let default_string = String::from_str(default_id);
        let is_default = id == default_string;
        AudioDeviceInfo { id, name, is_default }
    }
}

/// Describes each device of `devices` (id and friendly name, in enumeration order)
/// against the default endpoint's id.
pub fn describe_devices(devices: Vec<(String, String)>, default_id: &str) -> (infos: Vec<AudioDeviceInfo>)
    ensures
        infos.len() == devices.len(),
        forall|i: int| 0 <= i < devices.len() ==> {
            &&& #[trigger] infos@[i].id@ == devices@[i].0@
            &&& infos@[i].name@ == devices@[i].1@
            &&& infos@[i].is_default == (devices@[i].0@ == default_id@)
        },
{
    let mut infos: Vec<AudioDeviceInfo> = Vec::new();
    let mut i: usize = 0;
    while i < devices.len()
        invariant
            i <= devices.len(),
            infos.len() == i,
            forall|j: int| 0 <= j < i ==> {
                &&& #[trigger] infos@[j].id@ == devices@[j].0@
                &&& infos@[j].name@ == devices@[j].1@
                &&& infos@[j].is_default == (devices@[j].0@ == default_id@)
            },
        decreases devices.len() - i,
    {
        let id = devices[i].0.clone();
        let name = devices[i].1.clone();
        let info = AudioDeviceInfo::describe(id, name, default_id);
        let ghost before = infos@;
        infos.push(info);
        assert(infos@ == before.push(info));
        assert(infos@[i as int] == info);
        i += 1;
    }
    infos
}

/// Where the listed devices have distinct ids, at most one of them is marked as the
/// default device.
pub proof fn lemma_single_default(infos: Seq<AudioDeviceInfo>, default_id: Seq<char>)
    requires
        forall|i: int| 0 <= i < infos.len() ==> #[trigger] infos[i].is_default == (infos[i].id@ == default_id),
        forall|i: int, j: int| 0 <= i < infos.len() && 0 <= j < infos.len() && i != j ==> infos[i].id@ != infos[j].id@,
    ensures
        forall|i: int, j: int| 0 <= i < infos.len() && 0 <= j < infos.len() && #[trigger] infos[i].is_default
            && #[trigger] infos[j].is_default ==> i == j,
{
}

/// A device's friendly name is `Unknown Device` unless its property value holds a wide
/// string; a wide string without surrogates gives the name character for character.
pub proof fn lemma_device_name(value_type: u16, units: Seq<u16>)
    ensures
        value_type != VT_LPWSTR ==> device_name(value_type, Some(units)) == "Unknown Device"@
            && device_name(value_type, None) == "Unknown Device"@,
        device_name(VT_LPWSTR, None) == "Unknown Device"@,
        (forall|i: int| 0 <= i < units.len() ==> !is_high_surrogate(#[trigger] units[i]) && !is_low_surrogate(units[i]))
            ==> {
            &&& device_name(VT_LPWSTR, Some(units)).len() == units.len()
            &&& forall|i: int| 0 <= i < units.len() ==> #[trigger] device_name(VT_LPWSTR, Some(units))[i]
                == (units[i] as u32) as char
        },
{
    if forall|i: int| 0 <= i < units.len() ==> !is_high_surrogate(#[trigger] units[i]) && !is_low_surrogate(units[i]) {
        lemma_utf16_without_surrogates(units);
    }
}

} // verus!
