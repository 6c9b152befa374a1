use propolis_server::config::{
    driver_kind, plan_device, BlockDevice, Config, ConfigValue, Device, DeviceError, DevicePlan,
    DriverKind, FileBackendParams, ParseError, FILE_BACKEND_WORKERS,
};
use propolis_server::initializer::{
    check_bootrom_len, check_rom_read, disk_attach, rom_offset, DiskAttach, RomError,
};

fn s(v: &str) -> ConfigValue {
    ConfigValue::Str(v.to_string())
}

fn opts(entries: &[(&str, ConfigValue)]) -> Vec<(String, ConfigValue)> {
    entries.iter().map(|(k, v)| (k.to_string(), v.clone())).collect()
}

fn file_dev(path: Option<ConfigValue>, readonly: Option<ConfigValue>) -> BlockDevice {
    let mut options = Vec::new();
    if let Some(p) = path {
        options.push(("path".to_string(), p));
    }
    if let Some(r) = readonly {
        options.push(("readonly".to_string(), r));
    }
    BlockDevice { bdtype: "file".to_string(), options }
}

fn sample_config() -> Config {
    Config::new(
        "/usr/share/OVMF_CODE.fd".to_string(),
        vec![
            (
                "block0".to_string(),
                Device {
                    driver: "pci-virtio-block".to_string(),
                    options: opts(&[("block_dev", s("disk0")), ("pci-path", s("0.4.0"))]),
                },
            ),
            (
                "net0".to_string(),
                Device {
                    driver: "pci-virtio-viona".to_string(),
                    options: opts(&[("vnic", s("vnic0")), ("pci-path", s("0.5.0"))]),
                },
            ),
        ],
        vec![("disk0".to_string(), file_dev(Some(s("/tmp/disk.img")), Some(s("true"))))],
    )
}

#[test]
fn device_options() {
    let dev = Device {
        driver: "pci-virtio-viona".to_string(),
        options: opts(&[("vnic", s("vnic0")), ("slot", ConfigValue::Other)]),
    };
    assert_eq!(dev.get_string("vnic"), Some("vnic0"));
    assert_eq!(dev.get_string("slot"), None);
    assert_eq!(dev.get_string("missing"), None);
    let dev = Device { driver: "x".to_string(), options: opts(&[("n", s("42")), ("b", s("no"))]) };
    assert_eq!(dev.get::<u32>("n"), Some(42));
    assert_eq!(dev.get::<u32>("b"), None);
    assert_eq!(dev.get::<bool>("missing"), None);
}

#[test]
fn file_backends() {
    let p = file_dev(Some(s("/a.img")), None).create_block_backend();
    assert_eq!(
        p,
        Ok(FileBackendParams { path: "/a.img".to_string(), readonly: false, nworkers: FILE_BACKEND_WORKERS })
    );
    assert_eq!(FILE_BACKEND_WORKERS, 8);
    assert_eq!(file_dev(Some(s("/a.img")), Some(s("true"))).create_block_backend().unwrap().readonly, true);
    assert_eq!(file_dev(Some(s("/a.img")), Some(s("yes"))).create_block_backend().unwrap().readonly, false);
    assert_eq!(
        file_dev(Some(s("/a.img")), Some(ConfigValue::Other)).create_block_backend().unwrap().readonly,
        false
    );
    assert_eq!(
        file_dev(None, None).create_block_backend(),
        Err(ParseError::KeyNotFound("path".to_string(), "options".to_string()))
    );
    assert_eq!(
        file_dev(Some(ConfigValue::Other), None).create_block_backend(),
        Err(ParseError::AsError("path".to_string(), "as_str".to_string()))
    );
}

#[test]
fn config_lookups() {
    let c = sample_config();
    assert_eq!(c.get_bootrom(), "/usr/share/OVMF_CODE.fd");
    assert_eq!(c.devs().len(), 2);
    assert_eq!(c.devs()[0].0, "block0");
    assert_eq!(c.create_block_backend("disk0").unwrap().path, "/tmp/disk.img");
    assert_eq!(
        c.create_block_backend("disk9"),
        Err(ParseError::KeyNotFound("disk9".to_string(), "block_dev".to_string()))
    );
}

#[test]
fn drivers() {
    assert_eq!(driver_kind("pci-virtio-block"), Some(DriverKind::VirtioBlock));
    assert_eq!(driver_kind("pci-nvme"), Some(DriverKind::Nvme));
    assert_eq!(driver_kind("pci-virtio-viona"), Some(DriverKind::Viona));
    assert_eq!(driver_kind("pci-virtio-9p"), None);
}

#[test]
fn device_plans() {
    let c = sample_config();
    match plan_device(&c, "block0", &c.devs()[0].1).unwrap() {
        DevicePlan::Disk { kind, block_dev, backend, pci_path } => {
            assert_eq!(kind, DriverKind::VirtioBlock);
            assert_eq!(block_dev, "disk0");
            assert_eq!(backend.path, "/tmp/disk.img");
            assert!(backend.readonly);
            assert_eq!(pci_path.as_deref(), Some("0.4.0"));
        }
        other => panic!("unexpected {:?}", other),
    }
    match plan_device(&c, "net0", &c.devs()[1].1).unwrap() {
        DevicePlan::Vnic { vnic, pci_path } => {
            assert_eq!(vnic, "vnic0");
            assert_eq!(pci_path.as_deref(), Some("0.5.0"));
        }
        other => panic!("unexpected {:?}", other),
    }
}

#[test]
fn device_plan_refusals() {
    let c = sample_config();
    let nvme = |options| Device { driver: "pci-nvme".to_string(), options };
    assert!(matches!(
        plan_device(&c, "d1", &nvme(opts(&[]))),
        Err(DeviceError::NoBlockDev(n)) if n == "d1"
    ));
    assert!(matches!(
        plan_device(&c, "d2", &nvme(opts(&[("block_dev", ConfigValue::Other)]))),
        Err(DeviceError::BlockDevNotString(n)) if n == "d2"
    ));
    assert!(matches!(
        plan_device(&c, "d3", &nvme(opts(&[("block_dev", s("nope"))]))),
        Err(DeviceError::Backend(ParseError::KeyNotFound(k, t))) if k == "nope" && t == "block_dev"
    ));
    match plan_device(&c, "d4", &nvme(opts(&[("block_dev", s("disk0"))]))) {
        Ok(DevicePlan::Disk { kind: DriverKind::Nvme, pci_path: None, .. }) => {}
        other => panic!("unexpected {:?}", other),
    }
    let viona = Device { driver: "pci-virtio-viona".to_string(), options: opts(&[]) };
    assert!(matches!(plan_device(&c, "n", &viona), Err(DeviceError::NoVnic)));
    let unknown = Device { driver: "floppy".to_string(), options: opts(&[]) };
    assert!(matches!(plan_device(&c, "f", &unknown), Err(DeviceError::UnknownDriver(d)) if d == "floppy"));
}

#[test]
fn rom_checks() {
    assert_eq!(check_bootrom_len(0x20_0000), Ok(0x20_0000));
    assert_eq!(check_bootrom_len(0x20_0001), Err(RomError::NotAligned(0x20_0001)));
    assert_eq!(rom_offset(0x100_0000, 0x20_0000), Ok(0xe0_0000));
    assert_eq!(rom_offset(0x1000, 0x2000), Err(RomError::TooLong));
    assert_eq!(check_rom_read(4096, 4096), Ok(()));
    assert_eq!(check_rom_read(100, 4096), Err(RomError::ShortRead));
}

#[test]
fn disk_attachments() {
    assert_eq!(disk_attach("virtio"), Some(DiskAttach::Virtio));
    assert_eq!(disk_attach("nvme"), Some(DiskAttach::Nvme));
    assert_eq!(disk_attach("scsi"), None);
}
