//! What the tool reads out of the texts that it is given: which connector, which controller, which
//! machine.
use crate::cd321x::key_of;
use crate::error::Error;
use crate::laws_text::{law_hex4_round_trip, law_last_component, lemma_split_first, plain_name};
use crate::path::{
    file_name_of, joined, last_component, last_slash, lemma_last_slash, parent_name_of,
};
use crate::sysfs::{best_connector, connector_matches, i2c_dev_of, sysfs_device, Connector};
use crate::text::{hex4, is_numeric, lowered, split_at_first, u16_written, utf8_error};
use crate::tool::{address_of, apple_device_of};
use vstd::prelude::*;
use vstd::utf8::{decode_utf8, encode_utf8, valid_utf8};

verus! {

/// Whether a port can be meant by a text: it is called `port` and a number, the label of its
/// connector begins with `usb-c ` but for the case of its letters, and the text stands anywhere in
/// the whole of that label in lower case.
pub open spec fn can_mean(c: Connector, text: Seq<char>) -> bool {
    &&& c.port@.len() >= 4 && c.port@[0] == 'p' && c.port@[1] == 'o' && c.port@[2] == 'r'
        && c.port@[3] == 't'
    &&& forall|i: int| 4 <= i < c.port@.len() ==> is_numeric(#[trigger] c.port@[i])
    &&& c.label matches Some(label) && {
        let l = lowered(label@);
        &&& l.len() >= 6 && l[0] == 'u' && l[1] == 's' && l[2] == 'b' && l[3] == '-' && l[4] == 'c'
            && l[5] == ' '
        &&& exists|i: int|
            0 <= i <= l.len() - text.len() && #[trigger] l.subrange(i, i + text.len()) == text
    }
}

/// How many bytes a label has in lower case.
pub open spec fn label_bytes(c: Connector) -> nat {
    encode_utf8(lowered(c.label->0@)).len()
}

proof fn lemma_can_mean(c: Connector, text: Seq<char>)
    ensures
        can_mean(c, text) <==> connector_matches(c, text),
{
    reveal_strlit("port");
    reveal_strlit("usb-c ");
    assert("port"@.len() == 4 && "usb-c "@.len() == 6);
    let p = c.port@;
    if "port"@.is_prefix_of(p) {
        assert(p[0] == "port"@[0] && p[1] == "port"@[1] && p[2] == "port"@[2] && p[3]
            == "port"@[3]);
    }
    if p.len() >= 4 && p[0] == 'p' && p[1] == 'o' && p[2] == 'r' && p[3] == 't' {
        assert(p.take(4) =~= "port"@);
    }
    if let Some(label) = c.label {
        let l = lowered(label@);
        let u = "usb-c "@;
        if u.is_prefix_of(l) {
            assert(l[0] == u[0] && l[1] == u[1] && l[2] == u[2] && l[3] == u[3] && l[4] == u[4]
                && l[5] == u[5]);
        }
        if l.len() >= 6 && l[0] == 'u' && l[1] == 's' && l[2] == 'b' && l[3] == '-' && l[4] == 'c'
            && l[5] == ' ' {
            assert(l.take(6) =~= u);
        }
    }
}

/// The choice among connectors: where a text can mean none of them, none is chosen; else one that
/// it can mean, with no longer label than any other that it can mean, and the first of those with
/// the shortest.
pub proof fn law_choice(connectors: Seq<Connector>, text: Seq<char>)
    ensures
        match best_connector(connectors, text) {
            None => forall|j: int|
                0 <= j < connectors.len() ==> !can_mean(#[trigger] connectors[j], text),
            Some(i) => 0 <= i < connectors.len() && can_mean(connectors[i], text) && forall|j: int|
                0 <= j < connectors.len() && can_mean(#[trigger] connectors[j], text) ==> {
                    ||| label_bytes(connectors[i]) < label_bytes(connectors[j])
                    ||| label_bytes(connectors[i]) == label_bytes(connectors[j]) && i <= j
                },
        },
    decreases connectors.len(),
{
    if connectors.len() > 0 {
        let n = connectors.len() - 1;
        let rest = connectors.drop_last();
        law_choice(rest, text);
        lemma_can_mean(connectors[n], text);
        assert forall|j: int| 0 <= j < n implies rest[j] == connectors[j] by {}
        match best_connector(connectors, text) {
            None => {
                assert forall|j: int| 0 <= j < connectors.len() implies !can_mean(
                    #[trigger] connectors[j],
                    text,
                ) by {
                    if j < n {
                        assert(!can_mean(rest[j], text));
                    }
                }
            },
            Some(i) => {
                assert forall|j: int|
                    0 <= j < connectors.len() && can_mean(#[trigger] connectors[j], text) implies {
                    ||| label_bytes(connectors[i]) < label_bytes(connectors[j])
                    ||| label_bytes(connectors[i]) == label_bytes(connectors[j]) && i <= j
                } by {
                    if j < n {
                        assert(can_mean(rest[j], text));
                    }
                }
            },
        }
    }
}

/// The label of a port means a connector: given any part of the label of a port, from the first
/// letter on, the whole of it included, and in any case of its letters, some connector is chosen,
/// and the text stands in its label.
pub proof fn law_label_is_found(
    connectors: Seq<Connector>,
    j: int,
    from: int,
    to: int,
    given: Seq<char>,
)
    requires
        0 <= j < connectors.len(),
        connectors[j].port@.len() >= 4,
        connectors[j].port@.take(4) == seq!['p', 'o', 'r', 't'],
        forall|i: int|
            4 <= i < connectors[j].port@.len() ==> '0' <= #[trigger] connectors[j].port@[i] <= '9',
        connectors[j].label is Some,
        lowered(connectors[j].label->0@).len() >= 6,
        lowered(connectors[j].label->0@).take(6) == seq!['u', 's', 'b', '-', 'c', ' '],
        0 <= from <= to <= connectors[j].label->0@.len(),
        lowered(given) == lowered(connectors[j].label->0@).subrange(from, to),
    ensures
        best_connector(connectors, lowered(given)) matches Some(i) && 0 <= i < connectors.len()
            && connectors[i].label is Some && exists|k: int|
            0 <= k <= connectors[i].label->0@.len() - given.len() && #[trigger] lowered(
                connectors[i].label->0@,
            ).subrange(k, k + given.len()) == lowered(given),
{
    let c = connectors[j];
    let l = lowered(c.label->0@);
    let port = c.port@;
    let four = port.take(4);
    assert(port[0] == four[0] && port[1] == four[1] && port[2] == four[2] && port[3] == four[3]);
    let six = l.take(6);
    assert(l[0] == six[0] && l[1] == six[1] && l[2] == six[2] && l[3] == six[3] && l[4] == six[4]
        && l[5] == six[5]);
    assert forall|i: int| 4 <= i < port.len() implies is_numeric(#[trigger] port[i]) by {
        assert('0' <= port[i] <= '9');
    }
    assert(l.subrange(from, from + lowered(given).len()) == lowered(given));
    assert(can_mean(c, lowered(given)));
    law_choice(connectors, lowered(given));
    let i = best_connector(connectors, lowered(given))->0;
    let li = lowered(connectors[i].label->0@);
    let k = choose|k: int|
        0 <= k <= li.len() - lowered(given).len() && #[trigger] li.subrange(
            k,
            k + lowered(given).len(),
        ) == lowered(given);
    assert(li.subrange(k, k + given.len()) == lowered(given));
}

proof fn lemma_split_is(s: Seq<char>, sep: char)
    ensures
        match split_at_first(s, sep) {
            Some((a, b)) => s == a + seq![sep] + b && !a.contains(sep),
            None => !s.contains(sep),
        },
    decreases s.len(),
{
    if s.len() > 0 {
        if s[0] == sep {
            assert(s =~= Seq::<char>::empty() + seq![sep] + s.drop_first());
            assert(!Seq::<char>::empty().contains(sep));
        } else {
            let rest = s.drop_first();
            lemma_split_is(rest, sep);
            match split_at_first(rest, sep) {
                Some((a, b)) => {
                    let a1 = seq![s[0]] + a;
                    assert(s =~= seq![s[0]] + rest);
                    assert(seq![s[0]] + (a + seq![sep] + b) =~= a1 + seq![sep] + b);
                    if a1.contains(sep) {
                        let j = choose|j: int| 0 <= j < a1.len() && a1[j] == sep;
                        assert(a[j - 1] == sep);
                    }
                },
                None => {
                    if s.contains(sep) {
                        let j = choose|j: int| 0 <= j < s.len() && s[j] == sep;
                        assert(rest[j - 1] == sep);
                    }
                },
            }
        }
    }
}

/// A machine is one of Apple's just where the first ten bytes of its list are text that begins with
/// `apple,`; the rest of those ten is its name. Other text is refused as `Compatible`, and what is
/// no text as `Utf8`, with the cause.
pub proof fn law_machine(compat: Seq<u8>)
    requires
        compat.len() >= 10,
    ensures
        ({
            let head = compat.subrange(0, 10);
            let text = decode_utf8(head);
            let apple = seq!['a', 'p', 'p', 'l', 'e', ','];
            if !valid_utf8(head) {
                apple_device_of(compat) == Err::<Seq<char>, Error>(Error::Utf8(utf8_error(head)))
            } else if text.len() >= 6 && text.subrange(0, 6) == apple {
                apple_device_of(compat) == Ok::<Seq<char>, Error>(
                    text.subrange(6, text.len() as int),
                )
            } else {
                apple_device_of(compat) == Err::<Seq<char>, Error>(Error::Compatible)
            }
        }),
{
    let head = compat.subrange(0, 10);
    assert(head =~= compat.take(10));
    let text = decode_utf8(head);
    let apple = seq!['a', 'p', 'p', 'l', 'e', ','];
    reveal_strlit("apple");
    lemma_split_is(text, ',');
    let six = text.subrange(0, 6);
    match split_at_first(text, ',') {
        Some((a, b)) => {
            if a == "apple"@ {
                assert(six =~= apple);
                assert(text.subrange(6, text.len() as int) =~= b);
            }
            if text.len() >= 6 && six == apple {
                assert(text[0] == six[0] && text[1] == six[1] && text[2] == six[2] && text[3]
                    == six[3] && text[4] == six[4] && text[5] == six[5]);
                if a.len() < 5 {
                    assert(text[a.len() as int] == ',');
                }
                if a.len() > 5 {
                    assert(a[5] == ',');
                    assert(a.contains(','));
                }
                assert(a =~= "apple"@);
            }
        },
        None => {
            if text.len() >= 6 && six == apple {
                assert(six[5] == ',');
                assert(text[5] == ',');
                assert(text.contains(','));
            }
        },
    }
}

/// The key of a machine is the bytes of its code in reverse.
pub proof fn law_key(code: Seq<char>, i: int)
    requires
        0 <= i < encode_utf8(code).len(),
    ensures
        key_of(code).len() == encode_utf8(code).len(),
        key_of(code)[i] == encode_utf8(code)[encode_utf8(code).len() - 1 - i],
{
}

/// An address is hexadecimal behind `0x` and decimal without it; what is no number that fits is
/// refused as `Parse`.
pub proof fn law_address(text: Seq<char>)
    ensures
        ({
            let hex = text.len() >= 2 && text[0] == '0' && text[1] == 'x';
            let number = if hex {
                u16_written(text.subrange(2, text.len() as int), 16)
            } else {
                u16_written(text, 10)
            };
            match number {
                Some(addr) => address_of(text) == Ok::<u16, Error>(addr),
                None => address_of(text) matches Err(Error::Parse(_)),
            }
        }),
{
    reveal_strlit("0x");
    assert("0x"@.len() == 2);
    if "0x"@.is_prefix_of(text) {
        assert(text[0] == "0x"@[0] && text[1] == "0x"@[1]);
        assert(text.skip(2) =~= text.subrange(2, text.len() as int));
    }
    if text.len() >= 2 && text[0] == '0' && text[1] == 'x' {
        assert(text.take(2) =~= "0x"@);
    }
}

/// Where a controller is found behind a port, the device there is called `BUS-ADDRESS` and stands
/// in a directory `i2c-BUS`, with nothing but the first `-` between the two; the bus is
/// `/dev/i2c-BUS`, and the address is read as hexadecimal. Where it is not found, the device is not
/// called so.
pub proof fn law_port_device(path: Seq<char>)
    ensures
        match i2c_dev_of(path) {
            Some((dev, addr)) => exists|bus: Seq<char>, text: Seq<char>|
                dev == "/dev/i2c-"@ + bus && parent_name_of(path) == Some("i2c-"@ + bus)
                    && file_name_of(path) == Some(#[trigger] (bus + seq!['-'] + text))
                    && !bus.contains('-') && u16_written(text, 16) == Some(addr),
            None => forall|bus: Seq<char>, text: Seq<char>|
                parent_name_of(path) == Some("i2c-"@ + bus) && file_name_of(path) == Some(
                    #[trigger] (bus + seq!['-'] + text),
                ) && !bus.contains('-') ==> u16_written(text, 16) is None,
        },
{
    if let Some(name) = file_name_of(path) {
        lemma_split_is(name, '-');
        match i2c_dev_of(path) {
            Some((dev, addr)) => {
                let (bus, text) = split_at_first(name, '-')->0;
                assert(name == bus + seq!['-'] + text);
            },
            None => {
                assert forall|bus: Seq<char>, text: Seq<char>|
                    parent_name_of(path) == Some("i2c-"@ + bus) && file_name_of(path) == Some(
                        #[trigger] (bus + seq!['-'] + text),
                    ) && !bus.contains('-') implies u16_written(text, 16) is None by {
                    lemma_split_first(bus, '-', text);
                }
            },
        }
    }
}

/// A controller in sysfs: on a bus called `i2c-BUS`, wherever that is, it is
/// `/sys/bus/i2c/devices/BUS-ADDRESS`, with the address in four hexadecimal digits; a bus that is
/// not called so is not in sysfs.
pub proof fn law_sysfs_device(bus: Seq<char>, addr: u16)
    ensures
        match file_name_of(bus) {
            Some(name) => if name.len() >= 4 && name[0] == 'i' && name[1] == '2' && name[2] == 'c'
                && name[3] == '-' {
                sysfs_device(bus, addr) == Some(
                    "/sys/bus/i2c/devices/"@ + name.subrange(4, name.len() as int) + seq!['-']
                        + hex4(addr),
                )
            } else {
                sysfs_device(bus, addr) is None
            },
            None => sysfs_device(bus, addr) is None,
        },
{
    reveal_strlit("i2c-");
    reveal_strlit("-");
    assert("-"@ =~= seq!['-']);
    assert("i2c-"@.len() == 4);
    if let Some(name) = file_name_of(bus) {
        if "i2c-"@.is_prefix_of(name) {
            assert(name[0] == "i2c-"@[0] && name[1] == "i2c-"@[1] && name[2] == "i2c-"@[2]
                && name[3] == "i2c-"@[3]);
            assert(name.skip(4) =~= name.subrange(4, name.len() as int));
        }
        if name.len() >= 4 && name[0] == 'i' && name[1] == '2' && name[2] == 'c' && name[3] == '-' {
            assert(name.take(4) =~= "i2c-"@);
        }
    }
}

/// Four hexadecimal digits are digits or letters from `a` to `f`, and write the number.
pub proof fn law_hex_digits(v: u16, i: int)
    requires
        0 <= i < 4,
    ensures
        hex4(v).len() == 4,
        '0' <= hex4(v)[i] <= '9' || 'a' <= hex4(v)[i] <= 'f',
        u16_written(hex4(v), 16) == Some(v),
{
    law_hex4_round_trip(v);
    let n = v as int;
    assert(0 <= n / 4096 < 16 && 0 <= n / 256 % 16 < 16 && 0 <= n / 16 % 16 < 16 && 0 <= n % 16
        < 16);
}

/// Names in paths: a `/` or `/.` at the end changes nothing; a path that ends in `..` leads to no
/// name; a plain name is its own; behind a directory it is still the name, and the name of the
/// directory is that of its path.
pub proof fn law_path_names(dir: Seq<char>, name: Seq<char>)
    requires
        plain_name(name),
    ensures
        file_name_of(dir + seq!['/']) == file_name_of(dir),
        file_name_of(dir + seq!['/', '.']) == file_name_of(dir),
        file_name_of(dir + seq!['/', '.', '.']) is None,
        file_name_of(name) == Some(name),
        parent_name_of(name) is None,
        file_name_of(dir + seq!['/'] + name) == Some(name),
        parent_name_of(dir + seq!['/'] + name) == file_name_of(dir),
        file_name_of(Seq::empty()) is None,
{
    reveal_strlit(".");
    reveal_strlit("..");
    reveal_strlit("/");
    assert("/"@ =~= seq!['/']);
    law_last_component(dir, name);
    let n = dir.len() as int;
    let a = dir + seq!['/'];
    lemma_last_slash(a);
    assert(a[n] == '/');
    assert(last_slash(a) == n);
    assert(a.take(n) =~= dir);
    assert(a.skip(n + 1) =~= Seq::<char>::empty());
    let b = dir + seq!['/', '.'];
    lemma_last_slash(b);
    assert(b[n] == '/' && b[n + 1] == '.');
    assert(last_slash(b) == n);
    assert(b.take(n) =~= dir);
    assert(b.skip(n + 1) =~= "."@);
    let c = dir + seq!['/', '.', '.'];
    lemma_last_slash(c);
    assert(c[n] == '/' && c[n + 1] == '.' && c[n + 2] == '.');
    assert(last_slash(c) == n);
    assert(c.skip(n + 1) =~= ".."@);
    lemma_last_slash(name);
    if last_slash(name) >= 0 {
        assert(name.contains(name[last_slash(name)]));
    }
    assert(name.skip(0) =~= name);
    assert(name.take(0) =~= Seq::<char>::empty());
    let e = Seq::<char>::empty();
    assert(e.skip(0) =~= e);
    assert(last_component(e) is None);
}

/// A name in a directory is joined to it by one `/`; a name that begins with `/` stands for itself.
pub proof fn law_joined(dir: Seq<char>, name: Seq<char>)
    ensures
        name.len() > 0 && name[0] == '/' ==> joined(dir, name) == name,
        (name.len() == 0 || name[0] != '/') && dir.len() > 0 && dir.last() != '/' ==> joined(
            dir,
            name,
        ) == dir + seq!['/'] + name,
        (name.len() == 0 || name[0] != '/') && (dir.len() == 0 || dir.last() == '/') ==> joined(
            dir,
            name,
        ) == dir + name,
{
    reveal_strlit("/");
    assert("/"@ =~= seq!['/']);
}

} // verus!
