use thesis::dpdk::config::{
    CoreConfig, DPDKConfig, IOVAMode, PCIAddress, PCIOptions, VirtualDevice,
};
use thesis::dpdk::render::{push_number, push_signed};

#[test]
fn numbers_as_text() {
    let mut out = String::from(">");
    push_number(&mut out, 0, 10, 0);
    push_number(&mut out, 0, 16, 3);
    push_number(&mut out, 255, 16, 0);
    push_number(&mut out, 255, 10, 0);
    push_number(&mut out, 0xabc, 16, 2);
    push_number(&mut out, 7, 10, 4);
    assert_eq!(out, ">0000ff255abc0007");
    let mut out = String::new();
    push_number(&mut out, u64::MAX, 16, 0);
    assert_eq!(out, "ffffffffffffffff");
    let mut out = String::new();
    push_number(&mut out, u64::MAX, 10, 0);
    assert_eq!(out, "18446744073709551615");
    let mut out = String::new();
    push_signed(&mut out, -12);
    push_signed(&mut out, 34);
    push_signed(&mut out, i32::MIN);
    push_signed(&mut out, 0);
    assert_eq!(out, "-1234-21474836480");
}

#[test]
fn pci_addresses_as_text() {
    let address = PCIAddress { domain: 0, bus: 2, device: 0, function: 0 };
    assert_eq!(address.to_string(), "0000:02:00.0");
    let address = PCIAddress { domain: 0xabcd, bus: 0xff, device: 0x1f, function: 7 };
    assert_eq!(address.to_string(), "abcd:ff:1f.7");
    let address = PCIAddress { domain: 1, bus: 0, device: 0, function: 0x10 };
    assert_eq!(address.to_string(), "0001:00:00.10");
}

#[test]
fn virtual_devices_as_text() {
    let device = VirtualDevice::with_driver("event_sw".to_string());
    assert_eq!(device.to_string(), "event_sw0");
    let device = VirtualDevice {
        driver: "net_pcap".to_string(),
        id: 12,
        options: vec![
            ("rx_pcap".to_string(), "./inputs/a.pcap".to_string()),
            ("infinite_rx".to_string(), "1".to_string()),
        ],
    };
    assert_eq!(device.to_string(), "net_pcap12,rx_pcap=./inputs/a.pcap,infinite_rx=1");
}

#[test]
fn default_configuration_as_text() {
    assert_eq!(DPDKConfig::default().to_string(), "-c 1 --no-telemetry ");
}

#[test]
fn store_configuration_as_text() {
    let config = DPDKConfig {
        cores: CoreConfig::List(vec![1, 2, 3]),
        main_lcore: None,
        service_core_mask: Some(0b11),
        pci_options: PCIOptions::PCI {
            blocked_devices: vec![],
            allowed_devices: vec![PCIAddress { domain: 0, bus: 2, device: 0, function: 0 }],
        },
        virtual_devices: vec![VirtualDevice::with_driver("event_sw".to_string())],
        num_memory_channels: None,
        enable_telemetry: true,
        trace: None,
        iova_mode: Some(IOVAMode::PA),
    };
    assert_eq!(
        config.to_string(),
        "-l 1,2,3 -s 3 -a 0000:02:00.0 --vdev=event_sw0 --telemetry --iova-mode pa "
    );
}

#[test]
fn every_argument_as_text() {
    let config = DPDKConfig {
        cores: CoreConfig::Mask(0xf0),
        main_lcore: Some(4),
        service_core_mask: Some(0x100),
        pci_options: PCIOptions::PCI {
            blocked_devices: vec![
                PCIAddress { domain: 0, bus: 1, device: 2, function: 3 },
                PCIAddress { domain: 4, bus: 5, device: 6, function: 7 },
            ],
            allowed_devices: vec![PCIAddress { domain: 8, bus: 9, device: 10, function: 1 }],
        },
        virtual_devices: vec![
            VirtualDevice::with_driver("a".to_string()),
            VirtualDevice {
                driver: "b".to_string(),
                id: 1,
                options: vec![("k".to_string(), "v".to_string())],
            },
        ],
        num_memory_channels: Some(4),
        enable_telemetry: false,
        trace: Some(".*".to_string()),
        iova_mode: Some(IOVAMode::VA),
    };
    assert_eq!(
        config.to_string(),
        "-c f0 --main-lcore 4 -s 100 -b 0000:01:02.3 -b 0004:05:06.7 -a 0008:09:0a.1 \
         --vdev=a0 --vdev=b1,k=v -n 4 --no-telemetry --trace=.* --iova-mode va "
    );
    let none = DPDKConfig {
        cores: CoreConfig::List(vec![]),
        pci_options: PCIOptions::NoPCI,
        ..config
    };
    assert!(none.to_string().starts_with("-l  --main-lcore 4 -s 100 --vdev=a0 "));
}
