use delray::interfaces::{
    collect_local_ips, default_interface, format_interface_list, interface_catalog_from_devices,
    select_device, DeviceSummary,
};
use delray::net::IpAddress;

fn device(name: &str, desc: Option<&str>) -> DeviceSummary {
    DeviceSummary {
        name: name.to_string(),
        description: desc.map(str::to_string),
        addresses: Vec::new(),
    }
}

#[test]
fn interface_list_has_numbers_descriptions_and_full_names() {
    let devices = vec![device("eth0", Some("Wired Ethernet")), device(r"\Device\NPF_{1234}", None)];

    let rendered = format_interface_list(&interface_catalog_from_devices(&devices, Some("eth0")));

    assert_eq!(
        rendered,
        [
            "Available interfaces:\n",
            "  1. Wired Ethernet  [default route]\n",
            "     Name: eth0\n",
            "  2. No description\n",
            "     Name: \\Device\\NPF_{1234}\n",
            "\nUsage: delray <interface-or-number> [OPTIONS]\n",
            "Run delray --help for full usage\n",
        ]
        .concat()
    );
}

#[test]
fn interface_catalog_keeps_names_descriptions_and_default_marker() {
    let catalog = interface_catalog_from_devices(
        &vec![device("eth0", Some("Wired Ethernet")), device("lo", None)],
        Some("eth0"),
    );

    assert_eq!(catalog.len(), 2);
    assert_eq!(catalog[0].name, "eth0");
    assert_eq!(catalog[0].description, "Wired Ethernet");
    assert!(catalog[0].is_default_route);
    assert_eq!(catalog[1].description, "No description");
    assert!(!catalog[1].is_default_route);
}

#[test]
fn interface_selection_accepts_current_number_or_full_name() {
    let devices = vec![
        device("eth0", Some("Wired Ethernet")),
        device(r"\Device\NPF_{1234}", Some("Npcap Adapter")),
    ];
    let by_number = select_device("2", &devices).expect("current interface number");
    assert_eq!(devices[by_number].name, r"\Device\NPF_{1234}");

    let by_name = select_device(r"\Device\NPF_{1234}", &devices).expect("full pcap device name");
    assert_eq!(devices[by_name].name, r"\Device\NPF_{1234}");

    let numeric = vec![device("eth0", None), device("lo", None), device("2", Some("Numeric device name"))];
    let numeric_name = select_device("2", &numeric).expect("numeric full pcap device name");
    assert_eq!(numeric[numeric_name].name, "2");
}

#[test]
fn invalid_interface_selection_returns_clear_errors() {
    for number in ["0", "3"] {
        let devices = vec![device("eth0", None), device("lo", None)];
        let error = select_device(number, &devices).expect_err("invalid interface number");
        assert_eq!(error.message(), format!("Invalid interface number: {number} (choose 1-2)"));
    }

    let error = select_device("missing", &vec![device("eth0", None)])
        .expect_err("missing interface name");
    assert_eq!(error.message(), "Interface not found: missing");

    let error = select_device("1", &Vec::new()).expect_err("no interfaces");
    assert_eq!(error.message(), "Invalid interface number: 1 (no interfaces available)");
}

#[test]
fn local_ips_include_addresses_from_all_interfaces() {
    let mut eth0 = device("eth0", None);
    eth0.addresses.push(IpAddress::V4(u32::from_be_bytes([192, 0, 2, 10])));
    let any = device("any", Some("All interfaces"));
    let mut lo = device("lo", None);
    lo.addresses.push(IpAddress::V6(1));
    lo.addresses.push(IpAddress::V4(u32::from_be_bytes([192, 0, 2, 10])));

    let local_ips = collect_local_ips(&vec![eth0, any, lo]);

    assert_eq!(local_ips, vec![IpAddress::V4(u32::from_be_bytes([192, 0, 2, 10])), IpAddress::V6(1)]);
}

const ROUTE_TABLE: &str = "Iface\tDestination\tGateway \tFlags\tRefCnt\tUse\tMetric\tMask\t\tMTU\tWindow\tIRTT\n\
eth0\t0002000A\t00000000\t0001\t0\t0\t100\t00FFFFFF\t0\t0\t0\n\
wlan0\t00000000\t0102A8C0\t0003\t0\t0\t600\t00000000\t0\t0\t0\n";

#[test]
fn default_route_is_the_row_with_a_zero_destination() {
    assert_eq!(default_interface(ROUTE_TABLE), Some("wlan0".to_string()));
    assert_eq!(default_interface(""), None);
    assert_eq!(default_interface("Iface\tDestination\n"), None);
}

#[test]
fn short_rows_are_skipped_and_a_bad_destination_ends_the_scan() {
    let short = "Iface\tDestination\nlo\t00000000\t0\n";
    assert_eq!(default_interface(short), None);
    let bad = "h\nbad\tzz\t0\t0\t0\t0\t0\t0\t0\t0\t0\neth1\t00000000\t0\t0\t0\t0\t0\t0\t0\t0\t0\n";
    assert_eq!(default_interface(bad), None);
    let crlf = "h\r\neth2\t+0\t0\t0\t0\t0\t0\t0\t0\t0\t0\r\n";
    assert_eq!(default_interface(crlf), Some("eth2".to_string()));
}
