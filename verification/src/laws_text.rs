//! What holds of the texts, numbers and choices that the tool works with.
use crate::cd321x::{le_bytes, le_u32, mode_named, TpsMode};
use crate::error::Error;
use crate::path::{file_name_of, last_component, last_slash, lemma_last_slash};
use crate::sysfs::{
    best_connector, connector_matches, debugusb_path, i2c_dev_of, i2c_device_parts,
    is_debugusb, label_len, sysfs_device, Connector, UsbEntry,
};
use crate::text::{digit_value, digits_value, hex4, hex_digit, split_at_first, u16_written};
use crate::tool::address_of;
use crate::trace_tool::hpm_id;
use vstd::prelude::*;

verus! {

/// The number that four bytes hold is the one that they were made from.
pub proof fn law_le_round_trip(v: u32)
    ensures
        le_u32(le_bytes(v)) == v,
{
}

/// The bytes of the number that four bytes hold are those bytes.
pub proof fn law_le_round_trip_bytes(b: Seq<u8>)
    requires
        b.len() == 4,
    ensures
        le_bytes(le_u32(b)) == b,
{
    let v = le_u32(b) as int;
    let (b0, b1, b2, b3) = (b[0] as int, b[1] as int, b[2] as int, b[3] as int);
    assert(v == b0 + 0x100 * b1 + 0x1_0000 * b2 + 0x100_0000 * b3);
    assert(v / 0x100 == b1 + 0x100 * b2 + 0x1_0000 * b3);
    assert(v / 0x1_0000 == b2 + 0x100 * b3);
    assert(v / 0x100_0000 == b3);
    assert((b1 + 0x100 * b2 + 0x1_0000 * b3) % 0x100 == b1);
    assert((b2 + 0x100 * b3) % 0x100 == b2);
    assert(v % 0x100 == b0);
    assert(le_bytes(le_u32(b)) =~= b);
}

proof fn lemma_hex_digit(d: int)
    requires
        0 <= d < 16,
    ensures
        digit_value(hex_digit(d), 16) == Some(d as nat),
        hex_digit(d) != '/',
        hex_digit(d) != '+',
        hex_digit(d) != '-',
{
}

/// Four hexadecimal digits write the number that they were made from.
pub proof fn law_hex4_round_trip(v: u16)
    ensures
        u16_written(hex4(v), 16) == Some(v),
{
    let n = v as int;
    let s = hex4(v);
    lemma_hex_digit(n / 4096);
    lemma_hex_digit(n / 256 % 16);
    lemma_hex_digit(n / 16 % 16);
    lemma_hex_digit(n % 16);
    reveal_with_fuel(digits_value, 5);
    let s3 = s.drop_last();
    let s2 = s3.drop_last();
    let s1 = s2.drop_last();
    assert(s1.drop_last() =~= Seq::<char>::empty());
    assert(digits_value(s1, 16) == Some((n / 4096) as nat));
    assert(digits_value(s2, 16) == Some((n / 4096 * 16 + n / 256 % 16) as nat));
    assert(digits_value(s3, 16) == Some(
        ((n / 4096 * 16 + n / 256 % 16) * 16 + n / 16 % 16) as nat,
    ));
}

/// An address after `0x` is read as hexadecimal.
pub proof fn law_hex_address(v: u16)
    ensures
        address_of("0x"@ + hex4(v)) == Ok::<u16, Error>(v),
{
    let s = "0x"@ + hex4(v);
    law_hex4_round_trip(v);
    assert("0x"@.is_prefix_of(s)) by {
        assert(s.take("0x"@.len() as int) =~= "0x"@);
    }
    assert(s.skip("0x"@.len() as int) =~= hex4(v));
}

/// Whether a text can be the name of a file.
pub open spec fn plain_name(s: Seq<char>) -> bool {
    &&& s.len() > 0
    &&& !s.contains('/')
    &&& s != "."@
    &&& s != ".."@
}

/// The last component of a path is what follows its last `/`.
pub proof fn law_last_component(dir: Seq<char>, name: Seq<char>)
    requires
        plain_name(name),
    ensures
        last_component(dir + "/"@ + name) == Some((dir, name)),
        file_name_of(dir + "/"@ + name) == Some(name),
{
    reveal_strlit("/");
    let s = dir + "/"@ + name;
    lemma_last_slash(s);
    let i = dir.len() as int;
    assert(s[i] == '/');
    assert forall|j: int| i < j < s.len() implies s[j] != '/' by {
        assert(name.contains(name[j - i - 1]));
    }
    assert(last_slash(s) == i);
    assert(s.skip(i + 1) =~= name);
    assert(s.take(i) =~= dir);
}

proof fn lemma_component_plain(s: Seq<char>)
    ensures
        last_component(s) matches Some((before, name)) ==> name.len() > 0 && !name.contains('/'),
    decreases s.len(),
{
    lemma_last_slash(s);
    let i = last_slash(s);
    let name = s.skip(i + 1);
    if name.len() == 0 || name == "."@ {
        if i >= 0 {
            lemma_component_plain(s.take(i));
        }
    } else if name.contains('/') {
        let j = choose|j: int| 0 <= j < name.len() && name[j] == '/';
        assert(s[i + 1 + j] == '/');
    }
}

/// A text that ends in a number of four digits can be the name of a file where nothing before is a
/// `/`.
proof fn lemma_device_name(bus: Seq<char>, addr: u16)
    requires
        !bus.contains('/'),
    ensures
        plain_name(bus + "-"@ + hex4(addr)),
{
    reveal_strlit("-");
    reveal_strlit(".");
    reveal_strlit("..");
    let n = addr as int;
    lemma_hex_digit(n / 4096);
    lemma_hex_digit(n / 256 % 16);
    lemma_hex_digit(n / 16 % 16);
    lemma_hex_digit(n % 16);
    let s = bus + "-"@ + hex4(addr);
    assert forall|j: int| 0 <= j < s.len() implies s[j] != '/' by {
        if j < bus.len() {
            assert(bus.contains(bus[j]));
        } else if j > bus.len() {
            assert(s[j] == hex4(addr)[j - bus.len() - 1]);
        }
    }
}

/// The id by which the driver of a controller knows it: the number of the bus, and the address.
pub proof fn law_hpm_id(bus: Seq<char>, addr: u16)
    requires
        sysfs_device(bus, addr) is Some,
    ensures
        file_name_of(sysfs_device(bus, addr)->0) == Some(hpm_id(bus, addr)),
        file_name_of(bus) matches Some(name) && name == "i2c-"@ + name.skip("i2c-"@.len() as int)
            && hpm_id(bus, addr) == name.skip("i2c-"@.len() as int) + "-"@ + hex4(addr),
{
    let name = file_name_of(bus)->0;
    let number = name.skip("i2c-"@.len() as int);
    let id = number + "-"@ + hex4(addr);
    lemma_component_plain(bus);
    assert(!number.contains('/')) by {
        if number.contains('/') {
            let j = choose|j: int| 0 <= j < number.len() && number[j] == '/';
            assert(name["i2c-"@.len() + j] == '/');
        }
    }
    lemma_device_name(number, addr);
    reveal_strlit("/sys/bus/i2c/devices/");
    reveal_strlit("/sys/bus/i2c/devices");
    reveal_strlit("/");
    assert("/sys/bus/i2c/devices/"@ =~= "/sys/bus/i2c/devices"@ + "/"@);
    law_last_component("/sys/bus/i2c/devices"@, id);
    assert(sysfs_device(bus, addr)->0 =~= "/sys/bus/i2c/devices"@ + "/"@ + id);
    assert(name =~= "i2c-"@ + number);
}

pub proof fn lemma_split_first(before: Seq<char>, sep: char, after: Seq<char>)
    requires
        !before.contains(sep),
    ensures
        split_at_first(before + seq![sep] + after, sep) == Some((before, after)),
    decreases before.len(),
{
    let s = before + seq![sep] + after;
    if before.len() == 0 {
        assert(s.drop_first() =~= after);
        assert(before =~= Seq::empty());
    } else {
        assert(before.contains(before[0]));
        let rest = before.drop_first();
        assert(!rest.contains(sep)) by {
            if rest.contains(sep) {
                let j = choose|j: int| 0 <= j < rest.len() && rest[j] == sep;
                assert(before[j + 1] == sep);
            }
        }
        lemma_split_first(rest, sep, after);
        assert(s.drop_first() =~= rest + seq![sep] + after);
        assert(seq![s[0]] + rest =~= before);
    }
}

/// The controller behind a port is found again: a device named `BUS-ADDRESS` in a directory
/// `i2c-BUS` is reached through the bus `/dev/i2c-BUS` at that address, and that bus and address
/// lead to the device of that name in sysfs.
pub proof fn law_port_and_device(dir: Seq<char>, bus: Seq<char>, addr: u16)
    requires
        !bus.contains('/'),
        !bus.contains('-'),
    ensures
        ({
            let path = dir + "/"@ + ("i2c-"@ + bus) + "/"@ + (bus + "-"@ + hex4(addr));
            &&& i2c_dev_of(path) == Some(("/dev/i2c-"@ + bus, addr))
            &&& sysfs_device("/dev/i2c-"@ + bus, addr) == Some(
                "/sys/bus/i2c/devices/"@ + bus + "-"@ + hex4(addr),
            )
        }),
{
    let parent = "i2c-"@ + bus;
    let name = bus + "-"@ + hex4(addr);
    let path = dir + "/"@ + parent + "/"@ + name;
    reveal_strlit("i2c-");
    reveal_strlit("-");
    reveal_strlit(".");
    reveal_strlit("..");
    reveal_strlit("/");
    lemma_device_name(bus, addr);
    law_last_component(dir + "/"@ + parent, name);
    assert(plain_name(parent)) by {
        assert forall|j: int| 0 <= j < parent.len() implies parent[j] != '/' by {
            if j >= 4 {
                assert(bus.contains(bus[j - 4]));
            }
        }
        assert(parent[0] == 'i');
    }
    law_last_component(dir, parent);
    assert("-"@ =~= seq!['-']);
    lemma_split_first(bus, '-', hex4(addr));
    law_hex4_round_trip(addr);
    assert(i2c_device_parts(path) == Some((bus, hex4(addr))));
    reveal_strlit("/dev/i2c-");
    reveal_strlit("/dev");
    let dev = "/dev/i2c-"@ + bus;
    assert(dev =~= "/dev"@ + "/"@ + parent);
    law_last_component("/dev"@, parent);
    assert(parent.take(4) =~= "i2c-"@);
    assert(parent.skip(4) =~= bus);
}

/// The connector that a text stands for is one that it describes; no other that it describes has a
/// shorter label, and none before it one as short.
pub proof fn law_best_connector(connectors: Seq<Connector>, wanted: Seq<char>, j: int)
    requires
        0 <= j < connectors.len(),
        connector_matches(connectors[j], wanted),
    ensures
        best_connector(connectors, wanted) matches Some(i) && {
            &&& 0 <= i < connectors.len()
            &&& connector_matches(connectors[i], wanted)
            &&& label_len(connectors[i]) <= label_len(connectors[j])
            &&& label_len(connectors[i]) == label_len(connectors[j]) ==> i <= j
        },
    decreases connectors.len(),
{
    let n = connectors.len() - 1;
    let rest = connectors.drop_last();
    lemma_best_connector_matches(connectors, wanted);
    lemma_best_connector_matches(rest, wanted);
    if j < n {
        law_best_connector(rest, wanted, j);
    }
}

proof fn lemma_best_connector_matches(connectors: Seq<Connector>, wanted: Seq<char>)
    ensures
        best_connector(connectors, wanted) matches Some(i) ==> 0 <= i < connectors.len()
            && connector_matches(connectors[i], wanted),
    decreases connectors.len(),
{
    if connectors.len() > 0 {
        lemma_best_connector_matches(connectors.drop_last(), wanted);
    }
}

/// A text that describes no connector stands for none.
pub proof fn law_no_connector(connectors: Seq<Connector>, wanted: Seq<char>)
    requires
        forall|j: int|
            0 <= j < connectors.len() ==> !connector_matches(#[trigger] connectors[j], wanted),
    ensures
        best_connector(connectors, wanted) is None,
{
    lemma_best_connector_matches(connectors, wanted);
}

/// The DebugUSB function is found where, and only where, a device has both of its ids.
pub proof fn law_debugusb_by_ids(entries: Seq<UsbEntry>)
    ensures
        debugusb_path(entries) is Some <==> exists|i: int|
            0 <= i < entries.len() && is_debugusb(#[trigger] entries[i]),
    decreases entries.len(),
{
    if entries.len() > 0 {
        let rest = entries.drop_first();
        law_debugusb_by_ids(rest);
        if is_debugusb(entries[0]) {
            assert(debugusb_path(entries) is Some);
        } else {
            if exists|i: int| 0 <= i < entries.len() && is_debugusb(#[trigger] entries[i]) {
                let i = choose|i: int| 0 <= i < entries.len() && is_debugusb(#[trigger] entries[i]);
                assert(is_debugusb(rest[i - 1]));
            }
            if exists|i: int| 0 <= i < rest.len() && is_debugusb(#[trigger] rest[i]) {
                let i = choose|i: int| 0 <= i < rest.len() && is_debugusb(#[trigger] rest[i]);
                assert(is_debugusb(entries[i + 1]));
            }
        }
    }
}

/// No two names stand for one mode.
pub proof fn law_modes_have_one_name(a: Seq<char>, b: Seq<char>, mode: TpsMode)
    requires
        mode_named(a) == Some(mode),
        mode_named(b) == Some(mode),
    ensures
        a == b,
{
}

} // verus!
