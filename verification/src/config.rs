//! The server's configuration as the instance setup reads it: the boot ROM,
//! the configured devices with their options, and the block devices that
//! back the disks.  Reading the TOML file is the caller's; here each table
//! is a list of `(key, value)` entries.

use vstd::prelude::*;

verus! {

/// Errors which may be returned when reading the server configuration.
#[derive(Debug, PartialEq, Eq, Clone)]
pub enum ParseError {
    /// The file is not valid TOML for a configuration (the parser's message).
    Toml(String),
    /// The file could not be read (the I/O error's message).
    Io(String),
    /// A key is missing from a table: the key, then the table.
    KeyNotFound(String, String),
    /// A value could not be read as the kind asked for: the key, then the
    /// conversion.
    AsError(String, String),
}

/// The text of a [`ParseError`].
pub enum ParseErrorView {
    Toml(Seq<char>),
    Io(Seq<char>),
    KeyNotFound(Seq<char>, Seq<char>),
    AsError(Seq<char>, Seq<char>),
}

impl View for ParseError {
    type V = ParseErrorView;

    open spec fn view(&self) -> ParseErrorView {
        match self {
            ParseError::Toml(m) => ParseErrorView::Toml(m@),
            ParseError::Io(m) => ParseErrorView::Io(m@),
            ParseError::KeyNotFound(k, t) => ParseErrorView::KeyNotFound(k@, t@),
            ParseError::AsError(k, c) => ParseErrorView::AsError(k@, c@),
        }
    }
}

/// A configuration value, as far as the setup reads it: a string, or
/// anything else TOML allows.
#[derive(Debug, PartialEq, Eq, Clone)]
pub enum ConfigValue {
    Str(String),
    Other,
}

/// `i` is the first entry of `entries` under `key`.
pub open spec fn first_key_index<V>(entries: Seq<(String, V)>, key: Seq<char>, i: int) -> bool {
    &&& 0 <= i < entries.len()
    &&& entries[i].0@ == key
    &&& forall|j: int| 0 <= j < i ==> entries[j].0@ != key
}

/// The value of `key` in a table: that of its first entry.
pub open spec fn spec_lookup<V>(entries: Seq<(String, V)>, key: Seq<char>) -> Option<V> {
    if exists|i: int| first_key_index(entries, key, i) {
        Some(entries[choose|i: int| first_key_index(entries, key, i)].1)
    } else {
        None
    }
}

/// A table holds each key once, as a TOML table does.
pub open spec fn keys_distinct<V>(entries: Seq<(String, V)>) -> bool {
    forall|i: int, j: int|
        0 <= i < entries.len() && 0 <= j < entries.len() && i != j ==> entries[i].0@
            != entries[j].0@
}

/// In a table that holds each key once, the value of a key is that of the
/// entry holding it.
pub proof fn lemma_lookup_distinct<V>(entries: Seq<(String, V)>, i: int)
    requires
        keys_distinct(entries),
        0 <= i < entries.len(),
    ensures
        spec_lookup(entries, entries[i].0@) == Some(entries[i].1),
{
    assert(first_key_index(entries, entries[i].0@, i));
}

/// The string held by a value, if it is one.
pub open spec fn value_str(v: Option<ConfigValue>) -> Option<Seq<char>> {
    match v {
        Some(ConfigValue::Str(s)) => Some(s@),
        _ => None,
    }
}

/// Finds the first entry under `key`.
fn find_entry<'a, V>(entries: &'a Vec<(String, V)>, key: &str) -> (r: Option<&'a V>)
    ensures
        r matches Some(v) ==> spec_lookup(entries@, key@) == Some(*v),
        r is None ==> spec_lookup(entries@, key@) is None,
{
    let wanted = key.to_owned();
    let mut i: usize = 0;
    while i < entries.len()
        invariant
            i <= entries@.len(),
            wanted@ == key@,
            forall|j: int| 0 <= j < i ==> entries@[j].0@ != key@,
        decreases entries@.len() - i,
    {
        if entries[i].0 == wanted {
            proof {
                assert(first_key_index(entries@, key@, i as int));
                let k = choose|k: int| first_key_index(entries@, key@, k);
                assert(k == i) by {
                    if k < i {
                        assert(entries@[k].0@ != key@);
                    } else if k > i {
                        assert(entries@[i as int].0@ != key@);
                    }
                }
            }
            return Some(&entries[i].1);
        }
        i += 1;
    }
    proof {
        assert forall|k: int| !first_key_index(entries@, key@, k) by {
            if 0 <= k < entries@.len() {
                assert(entries@[k].0@ != key@);
            }
        }
    }
    None
}

/// The string held under `key`, if any.
fn find_str<'a>(entries: &'a Vec<(String, ConfigValue)>, key: &str) -> (r: Option<&'a str>)
    ensures
        r matches Some(s) ==> value_str(spec_lookup(entries@, key@)) == Some(s@),
        r is None ==> value_str(spec_lookup(entries@, key@)) is None,
{
    match find_entry(entries, key) {
        Some(ConfigValue::Str(s)) => Some(s.as_str()),
        _ => None,
    }
}

/// A string read as a boolean, as `str::parse::<bool>` reads one: `true`
/// and `false`, and nothing else (see [`spec_bool`]).
fn parse_bool(s: &str) -> (r: Option<bool>)
    ensures
        r == spec_bool(s@),
{
    proof {
        reveal_strlit("true");
        reveal_strlit("false");
        assert("true"@ =~= seq!['t', 'r', 'u', 'e']);
        assert("false"@ =~= seq!['f', 'a', 'l', 's', 'e']);
    }
    let t = s.to_owned();
    if t == "true".to_owned() {
        Some(true)
    } else if t == "false".to_owned() {
        Some(false)
    } else {
        None
    }
}

/// The boolean a string spells, as std parses one.
pub open spec fn spec_bool(s: Seq<char>) -> Option<bool> {
    if s == seq!['t', 'r', 'u', 'e'] {
        Some(true)
    } else if s == seq!['f', 'a', 'l', 's', 'e'] {
        Some(false)
    } else {
        None
    }
}

/// A hard-coded device, either enabled by default or accessible locally on
/// a machine: its driver and its options.
#[derive(Debug, Clone)]
pub struct Device {
    pub driver: String,
    pub options: Vec<(String, ConfigValue)>,
}

impl Device {
    /// The string option `key`, if the device has it and it is a string.
    pub fn get_string(&self, key: &str) -> (r: Option<&str>)
        ensures
            r matches Some(s) ==> value_str(spec_lookup(self.options@, key@)) == Some(s@),
            r is None ==> value_str(spec_lookup(self.options@, key@)) is None,
    {
        find_str(&self.options, key)
    }

    /// The option `key` parsed as a `T`; none if the device has no string
    /// under `key` or `T` does not parse it.
    pub fn get<T: std::str::FromStr>(&self, key: &str) -> (r: Option<T>)
        ensures
            value_str(spec_lookup(self.options@, key@)) is None ==> r is None,
    {
        match self.get_string(key) {
            Some(s) => parse_as::<T>(s),
            None => None,
        }
    }
}

/// `str::parse`: what it gives depends on `T`'s `FromStr`, of which nothing
/// is stated here.
#[verifier::external_body]
fn parse_as<T: std::str::FromStr>(s: &str) -> Option<T> {
    s.parse::<T>().ok()
}

/// What a file-backed block device is created with.
#[derive(Debug, PartialEq, Eq, Clone)]
pub struct FileBackendParams {
    /// The file backing the device.
    pub path: String,
    /// Whether the guest may only read it.
    pub readonly: bool,
    /// How many workers serve its requests.
    pub nworkers: usize,
}

/// The workers of every file-backed block device.
pub const FILE_BACKEND_WORKERS: usize = 8;

/// The type name of file-backed block devices.
pub open spec fn file_type() -> Seq<char> {
    seq!['f', 'i', 'l', 'e']
}

/// A block device: its type and options.
#[derive(Debug, Clone)]
pub struct BlockDevice {
    pub bdtype: String,
    pub options: Vec<(String, ConfigValue)>,
}

/// What creating a file-backed block device with `options` gives: its
/// path must be a string; it is writable unless `readonly` spells `true`.
pub open spec fn spec_file_backend(options: Seq<(String, ConfigValue)>) -> Result<
    (Seq<char>, bool),
    ParseErrorView,
> {
    match spec_lookup(options, seq!['p', 'a', 't', 'h']) {
        None => Err(
            ParseErrorView::KeyNotFound(
                seq!['p', 'a', 't', 'h'],
                seq!['o', 'p', 't', 'i', 'o', 'n', 's'],
            ),
        ),
        Some(ConfigValue::Other) => Err(
            ParseErrorView::AsError(seq!['p', 'a', 't', 'h'], seq!['a', 's', '_', 's', 't', 'r']),
        ),
        Some(ConfigValue::Str(p)) => Ok(
            (
                p@,
                match value_str(spec_lookup(options, seq!['r', 'e', 'a', 'd', 'o', 'n', 'l', 'y'])) {
                    Some(s) => spec_bool(s) == Some(true),
                    None => false,
                },
            ),
        ),
    }
}

/// A file device whose `path` is a string is created on that path, and is
/// read-only exactly when its options hold the string `true` under
/// `readonly`: the string `false`, any other string, a value that is no
/// string, or no entry at all leave it writable.
pub proof fn lemma_file_backend_readonly(options: Seq<(String, ConfigValue)>)
    requires
        value_str(spec_lookup(options, seq!['p', 'a', 't', 'h'])) is Some,
    ensures
        spec_file_backend(options) matches Ok((path, readonly)) && path == value_str(
            spec_lookup(options, seq!['p', 'a', 't', 'h']),
        )->0 && (readonly <==> value_str(
            spec_lookup(options, seq!['r', 'e', 'a', 'd', 'o', 'n', 'l', 'y']),
        ) == Some(seq!['t', 'r', 'u', 'e'])),
        value_str(spec_lookup(options, seq!['r', 'e', 'a', 'd', 'o', 'n', 'l', 'y'])) == Some(
            seq!['f', 'a', 'l', 's', 'e'],
        ) ==> spec_file_backend(options) == Ok::<(Seq<char>, bool), ParseErrorView>(
            (value_str(spec_lookup(options, seq!['p', 'a', 't', 'h']))->0, false),
        ),
{
    let ro = value_str(spec_lookup(options, seq!['r', 'e', 'a', 'd', 'o', 'n', 'l', 'y']));
    if ro == Some(seq!['f', 'a', 'l', 's', 'e']) {
        assert(seq!['f', 'a', 'l', 's', 'e'] != seq!['t', 'r', 'u', 'e']) by {
            assert(seq!['f', 'a', 'l', 's', 'e'][0] != seq!['t', 'r', 'u', 'e'][0]);
        }
    }
}

impl BlockDevice {
    /// The file backend this block device is created with.  Only file
    /// devices exist; another type is a configuration the server cannot
    /// run with.
    pub fn create_block_backend(&self) -> (r: Result<FileBackendParams, ParseError>)
        requires
            self.bdtype@ == file_type(),
        ensures
            match spec_file_backend(self.options@) {
                Ok((path, readonly)) => r matches Ok(p) && p.path@ == path && p.readonly
                    == readonly && p.nworkers == FILE_BACKEND_WORKERS,
                Err(e) => r matches Err(e2) && e2@ == e,
            },
    {
        proof {
            reveal_strlit("path");
            reveal_strlit("options");
            reveal_strlit("as_str");
            reveal_strlit("readonly");
            assert("path"@ =~= seq!['p', 'a', 't', 'h']);
            assert("options"@ =~= seq!['o', 'p', 't', 'i', 'o', 'n', 's']);
            assert("as_str"@ =~= seq!['a', 's', '_', 's', 't', 'r']);
            assert("readonly"@ =~= seq!['r', 'e', 'a', 'd', 'o', 'n', 'l', 'y']);
        }
        let path = match find_entry(&self.options, "path") {
            None => {
                let e = ParseError::KeyNotFound("path".to_owned(), "options".to_owned());
                return Err(e);
            },
            Some(ConfigValue::Other) => {
                let e = ParseError::AsError("path".to_owned(), "as_str".to_owned());
                return Err(e);
            },
            Some(ConfigValue::Str(p)) => p.clone(),
        };
        let readonly = match find_str(&self.options, "readonly") {
            Some(s) => match parse_bool(s) {
                Some(b) => b,
                None => false,
            },
            None => false,
        };
        Ok(FileBackendParams { path, readonly, nworkers: FILE_BACKEND_WORKERS })
    }
}

/// `a` comes before `b` in the order of names: at the first place where
/// they differ, `a` has the smaller character, or `a` is a proper prefix of
/// `b` (the order of a `BTreeMap` keyed by `String`).
pub open spec fn name_lt(a: Seq<char>, b: Seq<char>) -> bool {
    ||| exists|k: int|
        0 <= k < a.len() && k < b.len() && a.take(k) == b.take(k) && (a[k] as u32) < (
        b[k] as u32)
    ||| a.len() < b.len() && b.take(a.len() as int) == a
}

/// The names of a table, in strictly increasing order: each name once.
pub open spec fn names_increasing<V>(entries: Seq<(String, V)>) -> bool {
    forall|i: int, j: int|
        0 <= i < j < entries.len() ==> name_lt(#[trigger] entries[i].0@, #[trigger] entries[j].0@)
}

/// No name comes before itself.
pub proof fn lemma_name_lt_irreflexive(a: Seq<char>)
    ensures
        !name_lt(a, a),
{
}

/// A table whose names increase holds each name once, so a lookup finds
/// the one entry of a name.
pub proof fn lemma_increasing_names_distinct<V>(entries: Seq<(String, V)>)
    requires
        names_increasing(entries),
    ensures
        keys_distinct(entries),
{
    assert forall|i: int, j: int|
        0 <= i < entries.len() && 0 <= j < entries.len() && i != j implies entries[i].0@
        != entries[j].0@ by {
        if i < j {
            assert(name_lt(entries[i].0@, entries[j].0@));
        } else {
            assert(name_lt(entries[j].0@, entries[i].0@));
        }
        lemma_name_lt_irreflexive(entries[i].0@);
    }
}

/// The server configuration: the boot ROM, and the devices and the block
/// devices, each table by name in increasing order, each name once.
#[derive(Debug)]
pub struct Config {
    bootrom: String,
    devices: Vec<(String, Device)>,
    block_devs: Vec<(String, BlockDevice)>,
}

/// The parts of a [`Config`].
pub struct ConfigView {
    pub bootrom: Seq<char>,
    pub devices: Seq<(String, Device)>,
    pub block_devs: Seq<(String, BlockDevice)>,
}

impl View for Config {
    type V = ConfigView;

    closed spec fn view(&self) -> ConfigView {
        ConfigView { bootrom: self.bootrom@, devices: self.devices@, block_devs: self.block_devs@ }
    }
}

impl Config {
    /// The tables' names increase.
    #[verifier::type_invariant]
    closed spec fn wf(self) -> bool {
        names_increasing(self.devices@) && names_increasing(self.block_devs@)
    }

    /// A configuration from its parts; each table lists its names in
    /// increasing order, each once, as a TOML table read into a map does.
    pub fn new(
        bootrom: String,
        devices: Vec<(String, Device)>,
        block_devs: Vec<(String, BlockDevice)>,
    ) -> (c: Config)
        requires
            names_increasing(devices@),
            names_increasing(block_devs@),
        ensures
            c@.bootrom == bootrom@,
            c@.devices == devices@,
            c@.block_devs == block_devs@,
    {
        Config { bootrom, devices, block_devs }
    }

    /// The path of the boot ROM.
    pub fn get_bootrom(&self) -> (p: &str)
        ensures
            p@ == self@.bootrom,
    {
        self.bootrom.as_str()
    }

    /// The configured devices with their names, by name in increasing
    /// order, each name once.
    pub fn devs(&self) -> (d: &[(String, Device)])
        ensures
            d@ == self@.devices,
            names_increasing(d@),
    {
        proof {
            use_type_invariant(self);
        }
        self.devices.as_slice()
    }

    /// The block devices with their names, by name in increasing order,
    /// each name once.
    pub fn block_devs(&self) -> (d: &[(String, BlockDevice)])
        ensures
            d@ == self@.block_devs,
            names_increasing(d@),
    {
        proof {
            use_type_invariant(self);
        }
        self.block_devs.as_slice()
    }

    /// The file backend of the block device `name`.
    pub fn create_block_backend(&self, name: &str) -> (r: Result<FileBackendParams, ParseError>)
        requires
            spec_lookup(self@.block_devs, name@) matches Some(b) ==> b.bdtype@ == file_type(),
        ensures
            match spec_block_backend(self@.block_devs, name@) {
                Ok((path, readonly)) => r matches Ok(p) && p.path@ == path && p.readonly
                    == readonly && p.nworkers == FILE_BACKEND_WORKERS,
                Err(e) => r matches Err(e2) && e2@ == e,
            },
    {
        match find_entry(&self.block_devs, name) {
            None => {
                proof {
                    reveal_strlit("block_dev");
                    assert("block_dev"@ =~= seq!['b', 'l', 'o', 'c', 'k', '_', 'd', 'e', 'v']);
                }
                Err(ParseError::KeyNotFound(name.to_owned(), "block_dev".to_owned()))
            },
            Some(entry) => entry.create_block_backend(),
        }
    }
}

/// What creating the block device `name` of a configuration gives.
pub open spec fn spec_block_backend(block_devs: Seq<(String, BlockDevice)>, name: Seq<char>) -> Result<
    (Seq<char>, bool),
    ParseErrorView,
> {
    match spec_lookup(block_devs, name) {
        None => Err(
            ParseErrorView::KeyNotFound(name, seq!['b', 'l', 'o', 'c', 'k', '_', 'd', 'e', 'v']),
        ),
        Some(b) => spec_file_backend(b.options@),
    }
}

/// The drivers the server can attach.
#[derive(Debug, PartialEq, Eq, Structural, Clone, Copy)]
pub enum DriverKind {
    /// `pci-virtio-block`: a virtio disk.
    VirtioBlock,
    /// `pci-nvme`: an NVMe disk.
    Nvme,
    /// `pci-virtio-viona`: a virtio network device on a vnic.
    Viona,
}

/// The driver a driver name stands for.
pub open spec fn spec_driver(name: Seq<char>) -> Option<DriverKind> {
    if name == "pci-virtio-block"@ {
        Some(DriverKind::VirtioBlock)
    } else if name == "pci-nvme"@ {
        Some(DriverKind::Nvme)
    } else if name == "pci-virtio-viona"@ {
        Some(DriverKind::Viona)
    } else {
        None
    }
}

/// The driver of a driver name, if the server knows it.
pub fn driver_kind(name: &str) -> (r: Option<DriverKind>)
    ensures
        r == spec_driver(name@),
{
    let n = name.to_owned();
    if n == "pci-virtio-block".to_owned() {
        Some(DriverKind::VirtioBlock)
    } else if n == "pci-nvme".to_owned() {
        Some(DriverKind::Nvme)
    } else if n == "pci-virtio-viona".to_owned() {
        Some(DriverKind::Viona)
    } else {
        None
    }
}

/// How a configured device is attached.
#[derive(Debug, Clone)]
pub enum DevicePlan {
    /// A disk (virtio or NVMe, by `kind`) on the file backend of the block
    /// device `block_dev`, at the PCI path given, if one is.
    Disk { kind: DriverKind, block_dev: String, backend: FileBackendParams, pci_path: Option<String> },
    /// A network device on the vnic `vnic`, at the PCI path given, if one is.
    Vnic { vnic: String, pci_path: Option<String> },
}

/// Why a configured device cannot be attached.
#[derive(Debug, Clone)]
pub enum DeviceError {
    /// The disk names no block device (the disk's name).
    NoBlockDev(String),
    /// The disk's block device is not given by a string (the disk's name).
    BlockDevNotString(String),
    /// The disk's block device cannot be created.
    Backend(ParseError),
    /// The network device names no vnic.
    NoVnic,
    /// The driver is unknown (its name).
    UnknownDriver(String),
}

/// The keys of a device's options that the setup reads.
pub open spec fn block_dev_key() -> Seq<char> {
    "block_dev"@
}

pub open spec fn vnic_key() -> Seq<char> {
    "vnic"@
}

pub open spec fn pci_path_key() -> Seq<char> {
    "pci-path"@
}

/// The optional string `o` holds `v`, as an optional string.
pub open spec fn same_opt_str(o: Option<String>, v: Option<Seq<char>>) -> bool {
    match (o, v) {
        (Some(a), Some(b)) => a@ == b,
        (None, None) => true,
        _ => false,
    }
}

/// The server can attach a device only if the block device it names, if
/// any, is a file.
pub open spec fn plan_device_ok(config: Config, dev: Device) -> bool {
    match (spec_driver(dev.driver@), spec_lookup(dev.options@, block_dev_key())) {
        (Some(DriverKind::VirtioBlock), Some(ConfigValue::Str(b))) | (
            Some(DriverKind::Nvme),
            Some(ConfigValue::Str(b)),
        ) => spec_lookup(config@.block_devs, b@) matches Some(bd) ==> bd.bdtype@ == file_type(),
        _ => true,
    }
}

/// How the configured device `devname` is attached: a disk needs a block
/// device named by a string whose backend can be created; a network device
/// needs a vnic; the PCI path is passed on as given.
pub fn plan_device(config: &Config, devname: &str, dev: &Device) -> (r: Result<
    DevicePlan,
    DeviceError,
>)
    requires
        plan_device_ok(*config, *dev),
    ensures
        match spec_driver(dev.driver@) {
            None => r matches Err(DeviceError::UnknownDriver(d)) && d@ == dev.driver@,
            Some(DriverKind::Viona) => match value_str(spec_lookup(dev.options@, vnic_key())) {
                None => r matches Err(DeviceError::NoVnic),
                Some(v) => r matches Ok(DevicePlan::Vnic { vnic, pci_path }) && vnic@ == v
                    && same_opt_str(pci_path, value_str(spec_lookup(dev.options@, pci_path_key()))),
            },
            Some(k) => match spec_lookup(dev.options@, block_dev_key()) {
                None => r matches Err(DeviceError::NoBlockDev(n)) && n@ == devname@,
                Some(ConfigValue::Other) => r matches Err(DeviceError::BlockDevNotString(n)) && n@
                    == devname@,
                Some(ConfigValue::Str(b)) => match spec_block_backend(config@.block_devs, b@) {
                    Err(e) => r matches Err(DeviceError::Backend(e2)) && e2@ == e,
                    Ok((path, readonly)) => r matches Ok(
                        DevicePlan::Disk { kind, block_dev, backend, pci_path },
                    ) && kind == k && block_dev@ == b@ && backend.path@ == path && backend.readonly
                        == readonly && backend.nworkers == FILE_BACKEND_WORKERS && same_opt_str(
                        pci_path,
                        value_str(spec_lookup(dev.options@, pci_path_key())),
                    ),
                },
            },
        },
{
    proof {
        reveal_strlit("block_dev");
        reveal_strlit("vnic");
        reveal_strlit("pci-path");
    }
    let kind = match driver_kind(dev.driver.as_str()) {
        None => {
            return Err(DeviceError::UnknownDriver(dev.driver.clone()));
        },
        Some(k) => k,
    };
    match kind {
        DriverKind::Viona => {
            let vnic = match dev.get_string("vnic") {
                None => {
                    return Err(DeviceError::NoVnic);
                },
                Some(v) => v.to_owned(),
            };
            let pci_path = match dev.get_string("pci-path") {
                None => None,
                Some(p) => Some(p.to_owned()),
            };
            Ok(DevicePlan::Vnic { vnic, pci_path })
        },
        DriverKind::VirtioBlock | DriverKind::Nvme => {
            let block_dev = match find_entry(&dev.options, "block_dev") {
                None => {
                    return Err(DeviceError::NoBlockDev(devname.to_owned()));
                },
                Some(ConfigValue::Other) => {
                    return Err(DeviceError::BlockDevNotString(devname.to_owned()));
                },
                Some(ConfigValue::Str(b)) => b,
            };
            let backend = match config.create_block_backend(block_dev.as_str()) {
                Err(e) => {
                    return Err(DeviceError::Backend(e));
                },
                Ok(p) => p,
            };
            let pci_path = match dev.get_string("pci-path") {
                None => None,
                Some(p) => Some(p.to_owned()),
            };
            Ok(DevicePlan::Disk { kind, block_dev: block_dev.clone(), backend, pci_path })
        },
    }
}

} // verus!
