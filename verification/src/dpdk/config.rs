//! The configuration of the driver's environment.

use vstd::prelude::*;
use super::render::{
    decimal_digits, hex_digits, push_number, push_signed, signed_decimal, zero_padded,
};

verus! {

/// The number of a core.
pub type LCoreId = i32;

/// The cores that the driver may use.
#[derive(Debug, Clone)]
pub enum CoreConfig {
    Mask(u64),
    List(Vec<LCoreId>),
}

/// The address of a device on the PCI bus.
#[derive(Debug, Clone, Copy, PartialEq, Eq, Structural)]
pub struct PCIAddress {
    pub domain: u16,
    pub bus: u8,
    pub device: u8,
    pub function: u8,
}

/// A device that exists in software only.
#[derive(Debug, Clone)]
pub struct VirtualDevice {
    pub driver: String,
    pub id: u64,
    pub options: Vec<(String, String)>,
}

impl VirtualDevice {
    /// The first device of `driver`, without options.
    pub fn with_driver(driver: String) -> (device: VirtualDevice)
        ensures
            device.driver == driver,
            device.id == 0,
            device.options@.len() == 0,
    {
        VirtualDevice { driver, id: 0, options: Vec::new() }
    }
}

/// Which PCI devices the driver may use.
#[derive(Debug, Clone)]
pub enum PCIOptions {
    NoPCI,
    PCI { blocked_devices: Vec<PCIAddress>, allowed_devices: Vec<PCIAddress> },
}

impl Default for PCIOptions {
    fn default() -> (options: Self)
        ensures
            options is NoPCI,
    {
        PCIOptions::NoPCI
    }
}

/// The part that a process plays among the processes of the driver.
#[derive(Debug, Clone, Copy, PartialEq, Eq, Structural)]
pub enum MultiprocessingProcType {
    Primary,
    Secondary,
    Auto,
}

impl Default for MultiprocessingProcType {
    fn default() -> (kind: Self)
        ensures
            kind == MultiprocessingProcType::Auto,
    {
        MultiprocessingProcType::Auto
    }
}

/// How the driver addresses memory for input and output.
#[derive(Debug, Clone, Copy, PartialEq, Eq, Structural)]
pub enum IOVAMode {
    PA,
    VA,
}

/// The configuration of the driver's environment.
#[derive(Debug)]
pub struct DPDKConfig {
    pub cores: CoreConfig,
    pub main_lcore: Option<LCoreId>,
    pub service_core_mask: Option<u64>,
    pub pci_options: PCIOptions,
    pub virtual_devices: Vec<VirtualDevice>,
    pub num_memory_channels: Option<u64>,
    pub enable_telemetry: bool,
    pub trace: Option<String>,
    pub iova_mode: Option<IOVAMode>,
}

impl Default for DPDKConfig {
    fn default() -> (config: Self)
        ensures
            config.cores == CoreConfig::Mask(1),
            config.main_lcore is None,
            config.service_core_mask is None,
            config.pci_options is NoPCI,
            config.virtual_devices@.len() == 0,
            config.num_memory_channels is None,
            !config.enable_telemetry,
            config.trace is None,
            config.iova_mode is None,
    {
        DPDKConfig {
            cores: CoreConfig::Mask(1),
            main_lcore: None,
            service_core_mask: None,
            pci_options: PCIOptions::NoPCI,
            virtual_devices: Vec::new(),
            num_memory_channels: None,
            enable_telemetry: false,
            trace: None,
            iova_mode: None,
        }
    }
}

/// The text of a PCI address: domain, bus, device and function in
/// hexadecimal, of four, two, two and one digits at least.
pub open spec fn pci_address_text(address: PCIAddress) -> Seq<char> {
    zero_padded(hex_digits(address.domain as nat), 4) + seq![':'] + zero_padded(
        hex_digits(address.bus as nat),
        2,
    ) + seq![':'] + zero_padded(hex_digits(address.device as nat), 2) + seq!['.'] + zero_padded(
        hex_digits(address.function as nat),
        1,
    )
}

/// The text of the options of a virtual device: each one as `,key=value`.
pub open spec fn options_text(options: Seq<(String, String)>) -> Seq<char>
    decreases options.len(),
{
    if options.len() == 0 {
        Seq::empty()
    } else {
        options_text(options.drop_last()) + seq![','] + options.last().0@ + seq!['=']
            + options.last().1@
    }
}

/// The text of a virtual device: its driver, its number and its options.
pub open spec fn virtual_device_text(device: VirtualDevice) -> Seq<char> {
    device.driver@ + decimal_digits(device.id as nat) + options_text(device.options@)
}

/// The numbers of `cores` in decimal, separated by commas.
pub open spec fn core_list_text(cores: Seq<LCoreId>) -> Seq<char>
    decreases cores.len(),
{
    if cores.len() == 0 {
        Seq::empty()
    } else if cores.len() == 1 {
        signed_decimal(cores[0] as int)
    } else {
        core_list_text(cores.drop_last()) + seq![','] + signed_decimal(cores.last() as int)
    }
}

/// The argument that names the cores: a mask in hexadecimal, or a list.
pub open spec fn cores_text(cores: CoreConfig) -> Seq<char> {
    match cores {
        CoreConfig::Mask(mask) => seq!['-', 'c', ' '] + hex_digits(mask as nat) + seq![' '],
        CoreConfig::List(list) => seq!['-', 'l', ' '] + core_list_text(list@) + seq![' '],
    }
}

/// One argument per address of `addresses`, each behind the flag `flag`.
pub open spec fn address_arguments(flag: char, addresses: Seq<PCIAddress>) -> Seq<char>
    decreases addresses.len(),
{
    if addresses.len() == 0 {
        Seq::empty()
    } else {
        address_arguments(flag, addresses.drop_last()) + seq!['-', flag, ' '] + pci_address_text(
            addresses.last(),
        ) + seq![' ']
    }
}

/// The arguments that block and allow PCI devices; none where PCI is not
/// used.
pub open spec fn pci_text(options: PCIOptions) -> Seq<char> {
    match options {
        PCIOptions::NoPCI => Seq::empty(),
        PCIOptions::PCI { blocked_devices, allowed_devices } => address_arguments(
            'b',
            blocked_devices@,
        ) + address_arguments('a', allowed_devices@),
    }
}

/// One `--vdev=` argument per device.
pub open spec fn virtual_devices_text(devices: Seq<VirtualDevice>) -> Seq<char>
    decreases devices.len(),
{
    if devices.len() == 0 {
        Seq::empty()
    } else {
        virtual_devices_text(devices.drop_last()) + "--vdev="@ + virtual_device_text(
            devices.last(),
        ) + seq![' ']
    }
}

/// The argument that names the main core, where one is given.
pub open spec fn main_core_text(core: Option<LCoreId>) -> Seq<char> {
    match core {
        Some(core) => "--main-lcore "@ + signed_decimal(core as int) + seq![' '],
        None => Seq::empty(),
    }
}

/// The argument that names the service cores, where a mask is given.
pub open spec fn service_cores_text(mask: Option<u64>) -> Seq<char> {
    match mask {
        Some(mask) => "-s "@ + hex_digits(mask as nat) + seq![' '],
        None => Seq::empty(),
    }
}

/// The argument that gives the number of memory channels, where one is
/// given.
pub open spec fn memory_channels_text(channels: Option<u64>) -> Seq<char> {
    match channels {
        Some(channels) => "-n "@ + decimal_digits(channels as nat) + seq![' '],
        None => Seq::empty(),
    }
}

/// The argument that turns telemetry on or off.
pub open spec fn telemetry_text(enabled: bool) -> Seq<char> {
    if enabled {
        "--telemetry "@
    } else {
        "--no-telemetry "@
    }
}

/// The argument that gives the trace pattern, where one is given.
pub open spec fn trace_text(trace: Option<String>) -> Seq<char> {
    match trace {
        Some(pattern) => "--trace="@ + pattern@ + seq![' '],
        None => Seq::empty(),
    }
}

/// The argument that gives the addressing mode, where one is given.
pub open spec fn iova_mode_text(mode: Option<IOVAMode>) -> Seq<char> {
    match mode {
        Some(IOVAMode::PA) => "--iova-mode pa "@,
        Some(IOVAMode::VA) => "--iova-mode va "@,
        None => Seq::empty(),
    }
}

/// The arguments of the environment that `config` describes, each followed
/// by a blank: the cores; the main core, the service cores, the PCI devices,
/// the virtual devices and the memory channels, as far as they are given;
/// whether telemetry is on; and the trace pattern and the addressing mode,
/// where they are given.
pub open spec fn config_text(config: DPDKConfig) -> Seq<char> {
    cores_text(config.cores) + main_core_text(config.main_lcore) + service_cores_text(
        config.service_core_mask,
    ) + pci_text(config.pci_options) + virtual_devices_text(config.virtual_devices@)
        + memory_channels_text(config.num_memory_channels) + telemetry_text(
        config.enable_telemetry,
    ) + trace_text(config.trace) + iova_mode_text(config.iova_mode)
}

fn push_one(out: &mut String, text: &str, c: char)
    requires
        text@.len() == 1,
        text@[0] == c,
    ensures
        final(out)@ == old(out)@ + seq![c],
{
    assert(text@ =~= seq![c]);
    out.append(text);
}

impl PCIAddress {
    /// Appends the text of the address.
    pub fn push_to(&self, out: &mut String)
        ensures
            final(out)@ == old(out)@ + pci_address_text(*self),
    {
        proof {
            reveal_strlit(":");
            reveal_strlit(".");
        }
        push_number(out, self.domain as u64, 16, 4);
        push_one(out, ":", ':');
        push_number(out, self.bus as u64, 16, 2);
        push_one(out, ":", ':');
        push_number(out, self.device as u64, 16, 2);
        push_one(out, ".", '.');
        push_number(out, self.function as u64, 16, 1);
        assert(out@ =~= old(out)@ + pci_address_text(*self));
    }

    /// The text of the address.
    pub fn to_string(&self) -> (text: String)
        ensures
            text@ == pci_address_text(*self),
    {
        let mut text = String::new();
        self.push_to(&mut text);
        assert(text@ =~= pci_address_text(*self));
        text
    }
}

impl VirtualDevice {
    /// Appends the text of the device.
    pub fn push_to(&self, out: &mut String)
        ensures
            final(out)@ == old(out)@ + virtual_device_text(*self),
    {
        proof {
            reveal_strlit(",");
            reveal_strlit("=");
        }
        out.append(self.driver.as_str());
        push_number(out, self.id, 10, 0);
        let ghost start = out@;
        let mut i: usize = 0;
        assert(self.options@.take(0) =~= Seq::<(String, String)>::empty());
        assert(start + options_text(self.options@.take(0)) =~= start);
        while i < self.options.len()
            invariant
                i <= self.options@.len(),
                out@ == start + options_text(self.options@.take(i as int)),
            decreases self.options@.len() - i,
        {
            proof {
                reveal_strlit(",");
                reveal_strlit("=");
                assert(self.options@.take(i + 1).drop_last() =~= self.options@.take(i as int));
                assert(self.options@.take(i + 1).last() == self.options@[i as int]);
            }
            push_one(out, ",", ',');
            out.append(self.options[i].0.as_str());
            push_one(out, "=", '=');
            out.append(self.options[i].1.as_str());
            i = i + 1;
            assert(out@ =~= start + options_text(self.options@.take(i as int)));
        }
        assert(self.options@.take(self.options@.len() as int) =~= self.options@);
        assert(out@ =~= old(out)@ + virtual_device_text(*self));
    }

    /// The text of the device.
    pub fn to_string(&self) -> (text: String)
        ensures
            text@ == virtual_device_text(*self),
    {
        let mut text = String::new();
        self.push_to(&mut text);
        assert(text@ =~= virtual_device_text(*self));
        text
    }
}

fn push_core_list(out: &mut String, list: &Vec<LCoreId>)
    ensures
        final(out)@ == old(out)@ + core_list_text(list@),
{
    let ghost start = out@;
    let mut i: usize = 0;
    assert(list@.take(0) =~= Seq::<LCoreId>::empty());
    assert(start + core_list_text(list@.take(0)) =~= start);
    while i < list.len()
        invariant
            i <= list@.len(),
            start == old(out)@,
            out@ == start + core_list_text(list@.take(i as int)),
        decreases list@.len() - i,
    {
        proof {
            reveal_strlit(",");
            assert(list@.take(i + 1).drop_last() =~= list@.take(i as int));
            assert(list@.take(i + 1).last() == list@[i as int]);
            assert(list@.take(i + 1)[0] == list@[0]);
        }
        if i > 0 {
            push_one(out, ",", ',');
        }
        push_signed(out, list[i]);
        i = i + 1;
        assert(out@ =~= start + core_list_text(list@.take(i as int)));
    }
    assert(list@.take(list@.len() as int) =~= list@);
}

fn push_addresses(out: &mut String, flag: &str, flag_char: char, addresses: &Vec<PCIAddress>)
    requires
        flag@.len() == 3,
        flag@[0] == '-',
        flag@[1] == flag_char,
        flag@[2] == ' ',
    ensures
        final(out)@ == old(out)@ + address_arguments(flag_char, addresses@),
{
    let ghost start = out@;
    let mut i: usize = 0;
    assert(flag@ =~= seq!['-', flag_char, ' ']);
    assert(addresses@.take(0) =~= Seq::<PCIAddress>::empty());
    assert(start + address_arguments(flag_char, addresses@.take(0)) =~= start);
    while i < addresses.len()
        invariant
            i <= addresses@.len(),
            flag@ == seq!['-', flag_char, ' '],
            start == old(out)@,
            out@ == start + address_arguments(flag_char, addresses@.take(i as int)),
        decreases addresses@.len() - i,
    {
        proof {
            reveal_strlit(" ");
            assert(addresses@.take(i + 1).drop_last() =~= addresses@.take(i as int));
            assert(addresses@.take(i + 1).last() == addresses@[i as int]);
        }
        out.append(flag);
        addresses[i].push_to(out);
        push_one(out, " ", ' ');
        i = i + 1;
        assert(out@ =~= start + address_arguments(flag_char, addresses@.take(i as int)));
    }
    assert(addresses@.take(addresses@.len() as int) =~= addresses@);
}

fn push_cores(out: &mut String, cores: &CoreConfig)
    ensures
        final(out)@ == old(out)@ + cores_text(*cores),
{
    proof {
        reveal_strlit("-c ");
        reveal_strlit("-l ");
        reveal_strlit(" ");
        assert("-c "@ =~= seq!['-', 'c', ' ']);
        assert("-l "@ =~= seq!['-', 'l', ' ']);
    }
    match cores {
        CoreConfig::Mask(mask) => {
            out.append("-c ");
            push_number(out, *mask, 16, 0);
            push_one(out, " ", ' ');
        },
        CoreConfig::List(list) => {
            out.append("-l ");
            push_core_list(out, list);
            push_one(out, " ", ' ');
        },
    }
    assert(out@ =~= old(out)@ + cores_text(*cores));
}

fn push_main_core(out: &mut String, core: Option<LCoreId>)
    ensures
        final(out)@ == old(out)@ + main_core_text(core),
{
    proof {
        reveal_strlit(" ");
    }
    match core {
        Some(core) => {
            out.append("--main-lcore ");
            push_signed(out, core);
            push_one(out, " ", ' ');
        },
        None => {},
    }
    assert(out@ =~= old(out)@ + main_core_text(core));
}

fn push_service_cores(out: &mut String, mask: Option<u64>)
    ensures
        final(out)@ == old(out)@ + service_cores_text(mask),
{
    proof {
        reveal_strlit(" ");
    }
    match mask {
        Some(mask) => {
            out.append("-s ");
            push_number(out, mask, 16, 0);
            push_one(out, " ", ' ');
        },
        None => {},
    }
    assert(out@ =~= old(out)@ + service_cores_text(mask));
}

fn push_pci(out: &mut String, options: &PCIOptions)
    ensures
        final(out)@ == old(out)@ + pci_text(*options),
{
    proof {
        reveal_strlit("-b ");
        reveal_strlit("-a ");
    }
    match options {
        PCIOptions::NoPCI => {},
        PCIOptions::PCI { blocked_devices, allowed_devices } => {
            push_addresses(out, "-b ", 'b', blocked_devices);
            push_addresses(out, "-a ", 'a', allowed_devices);
        },
    }
    assert(out@ =~= old(out)@ + pci_text(*options));
}

fn push_virtual_devices(out: &mut String, devices: &Vec<VirtualDevice>)
    ensures
        final(out)@ == old(out)@ + virtual_devices_text(devices@),
{
    let ghost start = out@;
    let mut i: usize = 0;
    assert(devices@.take(0) =~= Seq::<VirtualDevice>::empty());
    assert(start + virtual_devices_text(devices@.take(0)) =~= start);
    while i < devices.len()
        invariant
            i <= devices@.len(),
            start == old(out)@,
            out@ == start + virtual_devices_text(devices@.take(i as int)),
        decreases devices@.len() - i,
    {
        proof {
            reveal_strlit(" ");
            assert(devices@.take(i + 1).drop_last() =~= devices@.take(i as int));
            assert(devices@.take(i + 1).last() == devices@[i as int]);
        }
        out.append("--vdev=");
        devices[i].push_to(out);
        push_one(out, " ", ' ');
        i = i + 1;
        assert(out@ =~= start + virtual_devices_text(devices@.take(i as int)));
    }
    assert(devices@.take(devices@.len() as int) =~= devices@);
}

fn push_memory_channels(out: &mut String, channels: Option<u64>)
    ensures
        final(out)@ == old(out)@ + memory_channels_text(channels),
{
    proof {
        reveal_strlit(" ");
    }
    match channels {
        Some(channels) => {
            out.append("-n ");
            push_number(out, channels, 10, 0);
            push_one(out, " ", ' ');
        },
        None => {},
    }
    assert(out@ =~= old(out)@ + memory_channels_text(channels));
}

fn push_trace(out: &mut String, trace: &Option<String>)
    ensures
        final(out)@ == old(out)@ + trace_text(*trace),
{
    proof {
        reveal_strlit(" ");
    }
    match trace {
        Some(pattern) => {
            out.append("--trace=");
            out.append(pattern.as_str());
            push_one(out, " ", ' ');
        },
        None => {},
    }
    assert(out@ =~= old(out)@ + trace_text(*trace));
}

fn push_iova_mode(out: &mut String, mode: &Option<IOVAMode>)
    ensures
        final(out)@ == old(out)@ + iova_mode_text(*mode),
{
    match mode {
        Some(IOVAMode::PA) => {
            out.append("--iova-mode pa ");
        },
        Some(IOVAMode::VA) => {
            out.append("--iova-mode va ");
        },
        None => {},
    }
    assert(out@ =~= old(out)@ + iova_mode_text(*mode));
}

impl DPDKConfig {
    /// The arguments of the environment, as [`config_text`] spells them.
    pub fn to_string(&self) -> (text: String)
        ensures
            text@ == config_text(*self),
    {
        let mut out = String::new();
        push_cores(&mut out, &self.cores);
        push_main_core(&mut out, self.main_lcore);
        push_service_cores(&mut out, self.service_core_mask);
        push_pci(&mut out, &self.pci_options);
        push_virtual_devices(&mut out, &self.virtual_devices);
        push_memory_channels(&mut out, self.num_memory_channels);
        if self.enable_telemetry {
            out.append("--telemetry ");
        } else {
            out.append("--no-telemetry ");
        }
        push_trace(&mut out, &self.trace);
        push_iova_mode(&mut out, &self.iova_mode);
        assert(out@ =~= config_text(*self));
        out
    }
}

} // verus!
