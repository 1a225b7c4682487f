use tuxvdmtool::error::Error;
use tuxvdmtool::path::{file_name, join, parent_name};
use tuxvdmtool::sysfs::{
    debugusb_device_in, get_i2c_dev_from_typec_port, get_i2c_sysfs_device,
    get_typec_port_from_connector, has_typec_partner, read_trimmed, Connector,
    UsbEntry,
};

fn usb(path: &str, vendor: Option<&str>, product: Option<&str>) -> UsbEntry {
    UsbEntry {
        path: path.to_string(),
        id_vendor: vendor.map(|s| s.to_string()),
        id_product: product.map(|s| s.to_string()),
    }
}

#[test]
fn finds_only_the_debugusb_vid_pid() {
    let mut entries = vec![
        usb("1-1", Some("05ac\n"), Some("1881\n")),
        usb("1-2", Some("05ac\n"), Some("1234\n")),
    ];

    let found = debugusb_device_in(&entries);
    assert_eq!(found, Some("1-1"));

    entries[0].id_product = Some("1880\n".to_string());
    assert_eq!(debugusb_device_in(&entries), None);
}

#[test]
fn the_first_debugusb_function_is_taken() {
    let entries = vec![
        usb("usb1", None, None),
        usb("1-0", Some("05ac"), None),
        usb("1-3", Some(" 05ac\t"), Some("\u{a0}1881\u{3000}\n")),
        usb("1-4", Some("05ac"), Some("1881")),
    ];
    assert_eq!(debugusb_device_in(&entries), Some("1-3"));
    assert_eq!(debugusb_device_in(&Vec::new()), None);
}

#[test]
fn texts_are_trimmed() {
    assert_eq!(read_trimmed(&Some("  a b \n".to_string())), Some("a b"));
    assert_eq!(read_trimmed(&Some(" \n".to_string())), Some(""));
    assert_eq!(read_trimmed(&None), None);
}

#[test]
fn names_of_files_and_directories() {
    assert_eq!(file_name("/dev/i2c-0"), Some("i2c-0"));
    assert_eq!(file_name("i2c-0"), Some("i2c-0"));
    assert_eq!(file_name("/dev/i2c-0//./"), Some("i2c-0"));
    assert_eq!(file_name("/dev/.."), None);
    assert_eq!(file_name("/"), None);
    assert_eq!(file_name("."), None);
    assert_eq!(file_name(""), None);
    assert_eq!(parent_name("/a/i2c-3/3-003f"), Some("i2c-3"));
    assert_eq!(parent_name("/a"), None);
    assert_eq!(parent_name("a"), None);
    assert_eq!(parent_name("/x/.."), Some("x"));
}

#[test]
fn names_agree_with_std() {
    for path in [
        "/dev/i2c-0", "a", "a/", "a/.", "./a", "/", "", ".", "..", "a/..", "a/../b", "//a//b//",
        "/.", "é/ü",
    ] {
        let std_path = std::path::Path::new(path);
        assert_eq!(
            file_name(path),
            std_path.file_name().and_then(|n| n.to_str())
        );
        assert_eq!(
            parent_name(path),
            std_path
                .parent()
                .and_then(|p| p.file_name())
                .and_then(|n| n.to_str())
        );
    }
}

#[test]
fn joining_agrees_with_std() {
    for dir in ["/sys/x", "/sys/x/", "/", "", "a", "é"] {
        for name in ["driver", "a/b", "/etc", "", "ü"] {
            let joined = std::path::Path::new(dir).join(name);
            assert_eq!(join(dir, name), joined.to_str().unwrap());
        }
    }
}

#[test]
fn a_bus_and_an_address_lead_to_the_device() {
    assert_eq!(
        get_i2c_sysfs_device("/dev/i2c-0", 0x38),
        Some("/sys/bus/i2c/devices/0-0038".to_string())
    );
    assert_eq!(
        get_i2c_sysfs_device("/dev/i2c-12", 0xbeef),
        Some("/sys/bus/i2c/devices/12-beef".to_string())
    );
    assert_eq!(get_i2c_sysfs_device("/dev/spi-0", 0x38), None);
    assert_eq!(get_i2c_sysfs_device("/", 0x38), None);
}

#[test]
fn a_port_leads_to_a_bus_and_an_address() {
    assert_eq!(
        get_i2c_dev_from_typec_port("/sys/devices/i2c-3/3-003f"),
        Some(("/dev/i2c-3".to_string(), 0x3f))
    );
    assert_eq!(get_i2c_dev_from_typec_port("/sys/devices/i2c-3/4-003f"), None);
    assert_eq!(get_i2c_dev_from_typec_port("/sys/devices/spi-3/3-003f"), None);
    assert_eq!(get_i2c_dev_from_typec_port("/sys/devices/i2c-3/port"), None);
    assert_eq!(get_i2c_dev_from_typec_port("/"), None);
    assert_eq!(get_i2c_dev_from_typec_port("/sys/devices/i2c-0/0-zz"), None);
    assert_eq!(get_i2c_dev_from_typec_port("/sys/devices/i2c-3/3-"), None);
    assert_eq!(get_i2c_dev_from_typec_port("/sys/devices/i2c-3/3-12345"), None);
}

#[test]
fn a_port_found_in_sysfs_is_found_again() {
    for addr in [0u16, 0x38, 0xabc, 0xffff] {
        let device = get_i2c_sysfs_device("/dev/i2c-7", addr).unwrap();
        let name = file_name(&device).unwrap();
        let path = format!("/sys/devices/x/i2c-7/{}", name);
        assert_eq!(
            get_i2c_dev_from_typec_port(&path),
            Some(("/dev/i2c-7".to_string(), addr))
        );
    }
}

fn connector(port: &str, label: Option<&str>) -> Connector {
    Connector {
        port: port.to_string(),
        label: label.map(|s| s.to_string()),
    }
}

#[test]
fn the_shortest_label_is_chosen() {
    let connectors = vec![
        connector("port0", Some("USB-C Back Left Middle")),
        connector("port1", Some("USB-C Back Left")),
        connector("port2", Some("USB-C Back Right")),
        connector("port3", Some("usb-c BACK LEFT")),
    ];
    let port = |c: &str| get_typec_port_from_connector(&connectors, c);
    assert_eq!(port("back left"), Ok("port1"));
    assert_eq!(port("middle"), Ok("port0"));
    assert_eq!(port("right"), Ok("port2"));
    assert_eq!(port(""), Ok("port1"));
    assert_eq!(port("Back"), Err(Error::DeviceNotFound));
    assert_eq!(port("front"), Err(Error::DeviceNotFound));
}

#[test]
fn only_ports_with_usb_c_labels_count() {
    let connectors = vec![
        connector("port0-partner", Some("USB-C A")),
        connector("usb0", Some("USB-C A")),
        connector("port1", None),
        connector("port2", Some("HDMI A")),
        connector("port3", Some("x USB-C A")),
    ];
    assert_eq!(
        get_typec_port_from_connector(&connectors, "a"),
        Err(Error::DeviceNotFound)
    );
    let odd = vec![connector("port\u{661}", Some("USB-C A"))];
    assert_eq!(get_typec_port_from_connector(&odd, "a"), Ok("port\u{661}"));
    let bare = vec![connector("port", Some("USB-C A"))];
    assert_eq!(get_typec_port_from_connector(&bare, "a"), Ok("port"));
}

#[test]
fn a_partner_is_told_by_its_name() {
    let port = |names: &[&str]| names.iter().map(|s| s.to_string()).collect::<Vec<String>>();
    assert!(!has_typec_partner(&None));
    assert!(!has_typec_partner(&Some(vec![])));
    assert!(!has_typec_partner(&Some(vec![
        port(&["power"]),
        port(&["port0-partner.0"])
    ])));
    assert!(has_typec_partner(&Some(vec![
        port(&[]),
        port(&["power", "port0-partner"])
    ])));
}
