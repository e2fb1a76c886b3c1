//! The identity that the device announces.

use vstd::prelude::*;
use vstd::slice::slice_subrange;
use crate::text::{
    chars_of, find, find_char, first_lines_are_split_off, is_white, lemma_find_first, lines,
    lines_of, same_chars, same_text, text_of, trim, trim_end, trim_start, trimmed,
};
use super::types::{default_device_settings, DeviceConfig, DeviceSettings};

verus! {

/// The serial number in the lines of a CPU description: the first non-empty
/// value of a `Serial` line, or nothing.
pub open spec fn serial_in(ls: Seq<Seq<char>>) -> Seq<char>
    decreases ls.len(),
{
    if ls.len() == 0 {
        Seq::empty()
    } else {
        let i = find(ls[0], ':');
        let value = trim(ls[0].skip(i + 1));
        if i < ls[0].len() && trim(ls[0].take(i)) == "Serial"@ && value.len() > 0 {
            value
        } else {
            serial_in(ls.skip(1))
        }
    }
}

/// Finds the serial number of the board in a CPU description.
pub fn serial_from_cpuinfo(data: &str) -> (serial: String)
    ensures
        serial@ == serial_in(lines(data@)),
{
    let text = chars_of(data);
    let ls = lines_of(text.as_slice());
    let label = chars_of("Serial");
    let ghost all = lines(data@);
    let mut n: usize = 0;
    proof {
        assert(all.skip(0) =~= all);
    }
    while n < ls.len()
        invariant
            n <= ls.len(),
            ls@.len() == all.len(),
            label@ == "Serial"@,
            forall|k: int| 0 <= k < ls@.len() ==> #[trigger] ls@[k]@ == all[k],
            serial_in(all) == serial_in(all.skip(n as int)),
            all == lines(data@),
        decreases ls.len() - n,
    {
        let line = ls[n].as_slice();
        proof {
            assert(all.skip(n as int)[0] == line@);
            assert(all.skip(n as int).skip(1) =~= all.skip(n + 1));
        }
        let i: usize = find_char(line, ':');
        if i < line.len() {
            let key = slice_subrange(line, 0, i);
            let rest = slice_subrange(line, i + 1, line.len());
            proof {
                assert(key@ =~= line@.take(i as int));
                assert(rest@ =~= line@.skip(i + 1));
            }
            let value = trimmed(rest);
            if same_chars(trimmed(key), label.as_slice()) && value.len() > 0 {
                return text_of(value);
            }
        }
        n = n + 1;
    }
    let none = String::new();
    proof {
        assert(none@ =~= Seq::<char>::empty());
    }
    none
}

/// A machine identifier: the first line, if it has eight bytes or more.
pub open spec fn machine_id(data: Seq<char>) -> Seq<char> {
    let first = if lines(data).len() == 0 { Seq::empty() } else { trim(lines(data)[0]) };
    if vstd::utf8::encode_utf8(first).len() < 8 {
        Seq::empty()
    } else {
        first
    }
}

/// Reads a machine identifier.
pub fn normalize_machine_id(data: &str) -> (id: String)
    ensures
        id@ == machine_id(data@),
{
    let text = chars_of(data);
    let ls = lines_of(text.as_slice());
    let id = if ls.len() == 0 {
        String::new()
    } else {
        text_of(trimmed(ls[0].as_slice()))
    };
    proof {
        if ls@.len() == 0 {
            assert(id@ =~= Seq::<char>::empty());
        }
    }
    if id.as_str().as_bytes().len() < 8 {
        String::new()
    } else {
        id
    }
}

/// What the system says about the board, as far as it could be read.
pub struct Probes {
    /// The CPU description.
    pub cpuinfo: Option<String>,
    /// The machine identifier.
    pub machine_id: Option<String>,
    /// The machine identifier of the message bus.
    pub dbus_machine_id: Option<String>,
}

/// The first non-empty of the board's serial number and the two machine
/// identifiers.
pub open spec fn detected_serial(p: Probes) -> Seq<char> {
    let a = match p.cpuinfo {
        Some(t) => serial_in(lines(t@)),
        None => Seq::empty(),
    };
    let b = match p.machine_id {
        Some(t) => machine_id(t@),
        None => Seq::empty(),
    };
    let c = match p.dbus_machine_id {
        Some(t) => machine_id(t@),
        None => Seq::empty(),
    };
    if a.len() > 0 {
        a
    } else if b.len() > 0 {
        b
    } else {
        c
    }
}

/// Finds a serial number that does not change with the network interface or a
/// reboot; empty where there is none.
pub fn detect_device_serial(probes: &Probes) -> (serial: String)
    ensures
        serial@ == detected_serial(*probes),
{
    if let Some(data) = &probes.cpuinfo {
        let serial = serial_from_cpuinfo(data.as_str());
        if !serial.as_str().is_empty() {
            return serial;
        }
    }
    if let Some(data) = &probes.machine_id {
        let id = normalize_machine_id(data.as_str());
        if !id.as_str().is_empty() {
            return id;
        }
    }
    match &probes.dbus_machine_id {
        Some(data) => normalize_machine_id(data.as_str()),
        None => {
            let none = String::new();
            proof {
                assert(none@ =~= Seq::<char>::empty());
            }
            none
        },
    }
}

/// A device's identity with what was left open filled in: a detected serial
/// number, and the documented identity in place of placeholders.
pub open spec fn identified(d: DeviceSettings, detected: Seq<char>) -> DeviceSettings {
    DeviceSettings {
        serial_number: if d.serial_number.len() == 0 { detected } else { d.serial_number },
        name: if d.name == "ONVIF Device"@ { "Pi Camera V1"@ } else { d.name },
        manufacturer: if d.manufacturer == "unknown"@ { "Raspberry Pi"@ } else { d.manufacturer },
        model: if d.model == "unknown"@ { "OV5647"@ } else { d.model },
        hardware_id: if d.hardware_id == "unknown"@ { "OV5647"@ } else { d.hardware_id },
        ..d
    }
}

/// Fills in what the configuration left open of the device's identity.
pub fn backfill_device_identity(device: &mut DeviceConfig, detected: &str)
    ensures
        final(device)@ == identified(old(device)@, detected@),
{
    if device.serial_number.as_str().is_empty() {
        device.serial_number = detected.to_owned();
    }
    if same_text(device.name.as_str(), "ONVIF Device") {
        device.name = "Pi Camera V1".to_owned();
    }
    if same_text(device.manufacturer.as_str(), "unknown") {
        device.manufacturer = "Raspberry Pi".to_owned();
    }
    if same_text(device.model.as_str(), "unknown") {
        device.model = "OV5647".to_owned();
    }
    if same_text(device.hardware_id.as_str(), "unknown") {
        device.hardware_id = "OV5647".to_owned();
    }
}

/// The documented identity, without a serial number.
pub fn default_device_config() -> (device: DeviceConfig)
    ensures
        device@ == identified(default_device_settings(), Seq::empty()),
{
    let mut device = DeviceConfig::default();
    backfill_device_identity(&mut device, "");
    proof {
        reveal_strlit("");
        assert(""@ =~= Seq::<char>::empty());
    }
    device
}

/// What the configuration says itself is never replaced: a field that is set,
/// and is no placeholder, stays.
pub proof fn explicit_identity_stays(d: DeviceSettings, detected: Seq<char>)
    ensures
        d.serial_number.len() > 0 ==> identified(d, detected).serial_number == d.serial_number,
        d.name != "ONVIF Device"@ ==> identified(d, detected).name == d.name,
        d.manufacturer != "unknown"@ ==> identified(d, detected).manufacturer == d.manufacturer,
        d.model != "unknown"@ ==> identified(d, detected).model == d.model,
        d.hardware_id != "unknown"@ ==> identified(d, detected).hardware_id == d.hardware_id,
        identified(d, detected).firmware == d.firmware,
{
}

/// No placeholder is left in an identity that was filled in, and filling it in
/// again changes nothing.
pub proof fn identity_is_filled_in_once(d: DeviceSettings, detected: Seq<char>)
    ensures
        identified(d, detected).name != "ONVIF Device"@,
        identified(d, detected).manufacturer != "unknown"@,
        identified(d, detected).model != "unknown"@,
        identified(d, detected).hardware_id != "unknown"@,
        identified(identified(d, detected), detected) == identified(d, detected),
{
    reveal_strlit("ONVIF Device");
    reveal_strlit("Pi Camera V1");
    reveal_strlit("unknown");
    reveal_strlit("Raspberry Pi");
    reveal_strlit("OV5647");
    assert("Pi Camera V1"@[0] != "ONVIF Device"@[0]);
    assert("Raspberry Pi"@[0] != "unknown"@[0]);
    assert("OV5647"@[0] != "unknown"@[0]);
}

/// Whether a text can be the name of a line in a CPU description.
pub open spec fn is_label(name: Seq<char>) -> bool {
    &&& name.len() > 0
    &&& !is_white(name[0])
    &&& !is_white(name[name.len() - 1])
    &&& !name.contains(':')
}

/// Whether a text can be the value of a line in a CPU description: it is empty,
/// or has no white space at its ends.
pub open spec fn is_entry(value: Seq<char>) -> bool {
    value.len() > 0 ==> !is_white(value[0]) && !is_white(value[value.len() - 1])
}

/// The lines of a CPU description: each a name, a tab, a colon, a blank and a
/// value.
pub open spec fn described(entries: Seq<(Seq<char>, Seq<char>)>) -> Seq<Seq<char>> {
    entries.map_values(
        |e: (Seq<char>, Seq<char>)| e.0 + seq!['\t', ':', ' '] + e.1,
    )
}

proof fn lemma_described_line(name: Seq<char>, value: Seq<char>)
    requires
        is_label(name),
        is_entry(value),
    ensures
        ({
            let line = name + seq!['\t', ':', ' '] + value;
            let i = find(line, ':');
            &&& i == name.len() + 1
            &&& i < line.len()
            &&& trim(line.take(i)) == name
            &&& trim(line.skip(i + 1)) == value
        }),
{
    let line = name + seq!['\t', ':', ' '] + value;
    let n = name.len() as int;
    assert(line[n + 1] == ':');
    assert forall|k: int| 0 <= k < n + 1 implies line[k] != ':' by {
        if k < n {
            assert(line[k] == name[k]);
            assert(name.contains(name[k]));
        } else {
            assert(line[k] == '\t');
        }
    }
    lemma_find_first(line, ':', 0, n + 1);
    let left = line.take(n + 1);
    assert(left =~= name.push('\t'));
    assert(left[0] == name[0]);
    assert(left.drop_last() =~= name);
    assert(trim_start(left) == left);
    assert(trim_end(name) == name);
    let right = line.skip(n + 2);
    assert(right =~= seq![' '] + value);
    assert(right.skip(1) =~= value);
    assert(trim_start(value) == value);
    assert(trim_end(value) == value);
}

/// The serial number of a CPU description is the value of its first line that is
/// called `Serial` and has one; lines of other names do not count.
pub proof fn the_first_serial_is_found(entries: Seq<(Seq<char>, Seq<char>)>, i: int)
    requires
        forall|k: int|
            0 <= k < entries.len() ==> is_label((#[trigger] entries[k]).0) && is_entry(
                entries[k].1,
            ),
        0 <= i <= entries.len(),
        forall|k: int|
            0 <= k < i ==> (#[trigger] entries[k]).0 != "Serial"@ || entries[k].1.len() == 0,
    ensures
        i == entries.len() ==> serial_in(described(entries)).len() == 0,
        i < entries.len() && entries[i].0 == "Serial"@ && entries[i].1.len() > 0 ==> serial_in(
            described(entries),
        ) == entries[i].1,
    decreases entries.len(),
{
    let ls = described(entries);
    if entries.len() > 0 {
        let (name, value) = entries[0];
        assert(is_label(entries[0].0));
        lemma_described_line(name, value);
        assert(ls[0] == name + seq!['\t', ':', ' '] + value);
        let tail = entries.skip(1);
        assert(ls.skip(1) =~= described(tail));
        assert forall|k: int| 0 <= k < tail.len() implies is_label((#[trigger] tail[k]).0)
            && is_entry(tail[k].1) by {
            assert(tail[k] == entries[k + 1]);
        }
        if i > 0 {
            assert forall|k: int| 0 <= k < i - 1 implies (#[trigger] tail[k]).0 != "Serial"@
                || tail[k].1.len() == 0 by {
                assert(tail[k] == entries[k + 1]);
            }
            assert(entries[0].0 != "Serial"@ || entries[0].1.len() == 0);
            the_first_serial_is_found(tail, i - 1);
            if i < entries.len() {
                assert(tail[i - 1] == entries[i]);
            }
        }
    }
}

/// A machine identifier is the first line of its file, where that has eight
/// bytes or more; a shorter one is none.
pub proof fn machine_ids_are_first_lines(id: Seq<char>, rest: Seq<char>)
    requires
        id.len() > 0,
        !is_white(id[0]),
        !is_white(id[id.len() - 1]),
        !id.contains('\n'),
    ensures
        machine_id(id + "\r\n"@ + rest) == (if vstd::utf8::encode_utf8(id).len() >= 8 {
            id
        } else {
            Seq::empty()
        }),
{
    first_lines_are_split_off(id, rest);
    let ls = lines(id + "\r\n"@ + rest);
    assert(ls[0] == id);
    assert(trim(id) == id);
}

/// The serial number of the board comes before the machine identifiers, and
/// that of the system before that of the message bus.
pub proof fn the_board_comes_first(p: Probes)
    ensures
        p.cpuinfo is Some && serial_in(lines(p.cpuinfo->0@)).len() > 0 ==> detected_serial(p)
            == serial_in(lines(p.cpuinfo->0@)),
        p.cpuinfo is None && p.machine_id is Some && machine_id(p.machine_id->0@).len() > 0
            ==> detected_serial(p) == machine_id(p.machine_id->0@),
        p.cpuinfo is None && p.machine_id is None && p.dbus_machine_id is Some ==> detected_serial(
            p,
        ) == machine_id(p.dbus_machine_id->0@),
        p.cpuinfo is Some && serial_in(lines(p.cpuinfo->0@)).len() == 0 ==> detected_serial(p)
            == detected_serial(Probes { cpuinfo: None, ..p }),
        p.machine_id is Some && machine_id(p.machine_id->0@).len() == 0 ==> detected_serial(p)
            == detected_serial(Probes { machine_id: None, ..p }),
        p.cpuinfo is None && p.machine_id is None && p.dbus_machine_id is None ==> detected_serial(
            p,
        ).len() == 0,
{
}

/// Placeholders give way to the documented identity, and a serial number that
/// is not set to the one that was found.
pub proof fn placeholders_give_way(d: DeviceSettings, detected: Seq<char>)
    ensures
        d.serial_number.len() == 0 ==> identified(d, detected).serial_number == detected,
        d.name == "ONVIF Device"@ ==> identified(d, detected).name == "Pi Camera V1"@,
        d.manufacturer == "unknown"@ ==> identified(d, detected).manufacturer == "Raspberry Pi"@,
        d.model == "unknown"@ ==> identified(d, detected).model == "OV5647"@,
        d.hardware_id == "unknown"@ ==> identified(d, detected).hardware_id == "OV5647"@,
{
}

} // verus!
