use vstd::prelude::*;
use vstd::string::StringExecFns;
use vstd::string::StringSliceAdditionalSpecFns;
use vstd::utf8::encode_utf8;
use crate::device::DeviceType;
use crate::errors::DeviceError;
use crate::text::contains_bytes;
use crate::text::contains_pattern_exact;
use crate::text::str_eq;

verus! {

/// One entry of the static driver catalog. The (vendor id, product id) pair
/// is the key used for matching, by exact equality.
#[derive(Debug)]
pub struct DriverInfo {
    pub name: String,
    pub version: Option<String>,
    pub vendor_id: u16,
    pub product_id: u16,
    pub description: String,
    pub installed: bool,
    pub required_for_devices: Vec<DeviceType>,
}

/// The mathematical model of one catalog entry.
pub ghost struct DriverInfoV {
    pub name: Seq<char>,
    pub version: Option<Seq<char>>,
    pub vendor_id: u16,
    pub product_id: u16,
    pub description: Seq<char>,
    pub installed: bool,
    pub required_for_devices: Seq<DeviceType>,
}

impl View for DriverInfo {
    type V = DriverInfoV;

    open spec fn view(&self) -> DriverInfoV {
        DriverInfoV {
            name: self.name@,
            version: match self.version {
                Some(v) => Some(v@),
                None => None,
            },
            vendor_id: self.vendor_id,
            product_id: self.product_id,
            description: self.description@,
            installed: self.installed,
            required_for_devices: self.required_for_devices@,
        }
    }
}

/// An exact copy of a list of device types.
fn clone_device_types(v: &Vec<DeviceType>) -> (r: Vec<DeviceType>)
    ensures
        r@ == v@,
{
    let n: usize = v.len();
    let mut out: Vec<DeviceType> = Vec::new();
    let mut i: usize = 0;
    while i < n
        invariant
            n == v@.len(),
            0 <= i <= n,
            out@ == v@.take(i as int),
        decreases n - i,
    {
        out.push(v[i]);
        proof {
            assert(out@ =~= v@.take(i + 1));
        }
        i += 1;
    }
    proof {
        assert(v@.take(n as int) =~= v@);
    }
    out
}

impl Clone for DriverInfo {
    /// A copy whose model equals the original's.
    fn clone(&self) -> (r: Self)
        ensures
            r@ == self@,
    {
        DriverInfo {
            name: self.name.clone(),
            version: crate::device::clone_opt_string(&self.version),
            vendor_id: self.vendor_id,
            product_id: self.product_id,
            description: self.description.clone(),
            installed: self.installed,
            required_for_devices: clone_device_types(&self.required_for_devices),
        }
    }
}

/// The catalog of drivers the library knows, keyed by a short driver key.
pub struct DriverManager {
    pub drivers: Vec<(String, DriverInfo)>,
}

/// The entry `e` has the given key and fields, no detected version, and is
/// not yet marked installed.
pub open spec fn driver_entry_is(
    e: (String, DriverInfo),
    key: Seq<char>,
    name: Seq<char>,
    vendor_id: u16,
    product_id: u16,
    description: Seq<char>,
    devices: Seq<DeviceType>,
) -> bool {
    &&& e.0@ == key
    &&& e.1@.name == name
    &&& e.1@.version is None
    &&& e.1@.vendor_id == vendor_id
    &&& e.1@.product_id == product_id
    &&& e.1@.description == description
    &&& !e.1@.installed
    &&& e.1@.required_for_devices == devices
}

impl DriverManager {
    /// The models of the catalog entries, in catalog order.
    pub open spec fn catalog(self) -> Seq<DriverInfoV> {
        self.drivers@.map_values(|e: (String, DriverInfo)| e.1@)
    }

    /// A driver for this (vendor id, product id) pair is known and marked
    /// installed.
    pub open spec fn pair_installed(self, vendor_id: u16, product_id: u16) -> bool {
        exists|i: int|
            0 <= i < self.drivers@.len() && (#[trigger] self.drivers@[i]).1.vendor_id == vendor_id
                && self.drivers@[i].1.product_id == product_id && self.drivers@[i].1.installed
    }

    /// A driver for this (vendor id, product id) pair is in the catalog.
    pub open spec fn pair_known(self, vendor_id: u16, product_id: u16) -> bool {
        exists|i: int|
            0 <= i < self.drivers@.len() && (#[trigger] self.drivers@[i]).1.vendor_id == vendor_id
                && self.drivers@[i].1.product_id == product_id
    }

    /// Keys are unique, and a (vendor id, product id) pair identifies at most
    /// one catalog entry.
    pub open spec fn wf(self) -> bool {
        &&& forall|i: int, j: int|
            0 <= i < j < self.drivers@.len() ==> self.drivers@[i].0@ != self.drivers@[j].0@
        &&& forall|i: int, j: int|
            0 <= i < j < self.drivers@.len() ==> !(self.drivers@[i].1.vendor_id
                == self.drivers@[j].1.vendor_id && self.drivers@[i].1.product_id
                == self.drivers@[j].1.product_id)
    }

    /// A manager holding the static catalog of the five known drivers.
    pub fn new() -> (r: DriverManager)
        ensures
            r.wf(),
            r.drivers@.len() == 5,
            driver_entry_is(
                r.drivers@[0],
                "ch340"@,
                "CH340/CH341 USB Serial Driver"@,
                0x1a86,
                0x7523,
                "CH340/CH341 USB to Serial converter driver"@,
                seq![DeviceType::Arduino, DeviceType::ESP32],
            ),
            driver_entry_is(
                r.drivers@[1],
                "arduino_usb"@,
                "Arduino USB Driver"@,
                0x2341,
                0x0043,
                "Official Arduino USB driver"@,
                seq![DeviceType::Arduino],
            ),
            driver_entry_is(
                r.drivers@[2],
                "cp210x"@,
                "Silicon Labs CP210x USB to UART Bridge"@,
                0x10c4,
                0xea60,
                "CP210x USB to Serial converter driver"@,
                seq![DeviceType::ESP32],
            ),
            driver_entry_is(
                r.drivers@[3],
                "microbit_usb"@,
                "micro:bit USB Driver"@,
                0x0d28,
                0x0204,
                "BBC micro:bit USB interface driver"@,
                seq![DeviceType::MicroBit],
            ),
            driver_entry_is(
                r.drivers@[4],
                "pico_usb"@,
                "Raspberry Pi Pico USB Driver"@,
                0x2e8a,
                0x0005,
                "Raspberry Pi Pico USB interface driver"@,
                seq![DeviceType::RaspberryPiPico],
            ),
    {
        let mut drivers: Vec<(String, DriverInfo)> = Vec::new();
        drivers.push((
            "ch340".to_owned(),
            DriverInfo {
                name: "CH340/CH341 USB Serial Driver".to_owned(),
                version: None,
                vendor_id: 0x1a86,
                product_id: 0x7523,
                description: "CH340/CH341 USB to Serial converter driver".to_owned(),
                installed: false,
                required_for_devices: vec![DeviceType::Arduino, DeviceType::ESP32],
            },
        ));
        drivers.push((
            "arduino_usb".to_owned(),
            DriverInfo {
                name: "Arduino USB Driver".to_owned(),
                version: None,
                vendor_id: 0x2341,
                product_id: 0x0043,
                description: "Official Arduino USB driver".to_owned(),
                installed: false,
                required_for_devices: vec![DeviceType::Arduino],
            },
        ));
        drivers.push((
            "cp210x".to_owned(),
            DriverInfo {
                name: "Silicon Labs CP210x USB to UART Bridge".to_owned(),
                version: None,
                vendor_id: 0x10c4,
                product_id: 0xea60,
                description: "CP210x USB to Serial converter driver".to_owned(),
                installed: false,
                required_for_devices: vec![DeviceType::ESP32],
            },
        ));
        drivers.push((
            "microbit_usb".to_owned(),
            DriverInfo {
                name: "micro:bit USB Driver".to_owned(),
                version: None,
                vendor_id: 0x0d28,
                product_id: 0x0204,
                description: "BBC micro:bit USB interface driver".to_owned(),
                installed: false,
                required_for_devices: vec![DeviceType::MicroBit],
            },
        ));
        drivers.push((
            "pico_usb".to_owned(),
            DriverInfo {
                name: "Raspberry Pi Pico USB Driver".to_owned(),
                version: None,
                vendor_id: 0x2e8a,
                product_id: 0x0005,
                description: "Raspberry Pi Pico USB interface driver".to_owned(),
                installed: false,
                required_for_devices: vec![DeviceType::RaspberryPiPico],
            },
        ));
        let r = DriverManager { drivers };
        proof {
            reveal_strlit("ch340");
            reveal_strlit("arduino_usb");
            reveal_strlit("cp210x");
            reveal_strlit("microbit_usb");
            reveal_strlit("pico_usb");
            assert(r.drivers@[0].1.required_for_devices@ =~= seq![
                DeviceType::Arduino,
                DeviceType::ESP32,
            ]);
            assert(r.drivers@[1].1.required_for_devices@ =~= seq![DeviceType::Arduino]);
            assert(r.drivers@[2].1.required_for_devices@ =~= seq![DeviceType::ESP32]);
            assert(r.drivers@[3].1.required_for_devices@ =~= seq![DeviceType::MicroBit]);
            assert(r.drivers@[4].1.required_for_devices@ =~= seq![DeviceType::RaspberryPiPico]);
            assert forall|i: int, j: int|
                0 <= i < j < r.drivers@.len() implies r.drivers@[i].0@ != r.drivers@[j].0@ by {
                assert(r.drivers@[0].0@.len() == 5);
                assert(r.drivers@[1].0@.len() == 11);
                assert(r.drivers@[2].0@.len() == 6);
                assert(r.drivers@[3].0@.len() == 12);
                assert(r.drivers@[4].0@.len() == 8);
            }
        }
        r
    }

    /// The catalog entry whose (vendor id, product id) pair equals the given
    /// one exactly, if any.
    pub fn get_required_driver(&self, vendor_id: u16, product_id: u16) -> (r: Option<&DriverInfo>)
        ensures
            match r {
                Some(d) => {
                    &&& d.vendor_id == vendor_id
                    &&& d.product_id == product_id
                    &&& exists|i: int|
                        0 <= i < self.drivers@.len() && self.drivers@[i].1 == *d
                },
                None => forall|i: int|
                    0 <= i < self.drivers@.len() ==> !(self.drivers@[i].1.vendor_id == vendor_id
                        && self.drivers@[i].1.product_id == product_id),
            },
    {
        let n: usize = self.drivers.len();
        let mut i: usize = 0;
        while i < n
            invariant
                n == self.drivers@.len(),
                0 <= i <= n,
                forall|k: int|
                    0 <= k < i ==> !(self.drivers@[k].1.vendor_id == vendor_id
                        && self.drivers@[k].1.product_id == product_id),
            decreases n - i,
        {
            if self.drivers[i].1.vendor_id == vendor_id && self.drivers[i].1.product_id
                == product_id {
                return Some(&self.drivers[i].1);
            }
            i += 1;
        }
        None
    }

    /// Whether a driver for the pair is known and installed, alongside the entry.
    pub fn check_device_driver(&self, vendor_id: u16, product_id: u16) -> (r: (
        bool,
        Option<&DriverInfo>,
    ))
        ensures
            match r.1 {
                Some(d) => {
                    &&& d.vendor_id == vendor_id
                    &&& d.product_id == product_id
                    &&& exists|i: int|
                        0 <= i < self.drivers@.len() && self.drivers@[i].1 == *d
                    &&& r.0 == d.installed
                },
                None => {
                    &&& !r.0
                    &&& forall|i: int|
                        0 <= i < self.drivers@.len() ==> !(self.drivers@[i].1.vendor_id
                            == vendor_id && self.drivers@[i].1.product_id == product_id)
                },
            },
    {
        match self.get_required_driver(vendor_id, product_id) {
            Some(driver) => (driver.installed, Some(driver)),
            None => (false, None),
        }
    }

    /// The catalog entries currently marked installed, in catalog order.
    pub fn get_installed_drivers(&self) -> (r: Vec<DriverInfo>)
        ensures
            r@.map_values(|d: DriverInfo| d@) == self.catalog().filter(
                |dv: DriverInfoV| dv.installed,
            ),
    {
        let ghost pred = |dv: DriverInfoV| dv.installed;
        let n: usize = self.drivers.len();
        let mut out: Vec<DriverInfo> = Vec::new();
        let mut i: usize = 0;
        while i < n
            invariant
                n == self.drivers@.len(),
                pred == (|dv: DriverInfoV| dv.installed),
                0 <= i <= n,
                out@.map_values(|d: DriverInfo| d@) == self.catalog().take(i as int).filter(pred),
            decreases n - i,
        {
            proof {
                reveal(Seq::filter);
                assert(self.catalog().take(i + 1).drop_last() =~= self.catalog().take(i as int));
                assert(self.catalog().take(i + 1).last() == self.catalog()[i as int]);
            }
            let ghost pre = out@.map_values(|d: DriverInfo| d@);
            if self.drivers[i].1.installed {
                out.push(self.drivers[i].1.clone());
                proof {
                    assert(out@.map_values(|d: DriverInfo| d@) =~= pre.push(
                        self.catalog()[i as int],
                    ));
                }
            }
            i += 1;
        }
        proof {
            assert(self.catalog().take(n as int) =~= self.catalog());
        }
        out
    }

    /// Every catalog entry, in catalog order.
    pub fn get_all_drivers(&self) -> (r: Vec<DriverInfo>)
        ensures
            r@.map_values(|d: DriverInfo| d@) == self.catalog(),
    {
        let n: usize = self.drivers.len();
        let mut out: Vec<DriverInfo> = Vec::new();
        let mut i: usize = 0;
        while i < n
            invariant
                n == self.drivers@.len(),
                0 <= i <= n,
                out@.len() == i,
                forall|k: int| 0 <= k < i ==> (#[trigger] out@[k])@ == self.drivers@[k].1@,
            decreases n - i,
        {
            out.push(self.drivers[i].1.clone());
            i += 1;
        }
        proof {
            assert(out@.map_values(|d: DriverInfo| d@) =~= self.catalog());
        }
        out
    }
}

/// One captured probe of the host's drivers: the raw text of a platform
/// device listing or module listing, to be matched for known driver names.
#[derive(Debug)]
pub enum ProbeOutput {
    WindowsDeviceListing(String),
    WindowsDriverQuery(String),
    MacUsbListing(String),
    MacKextListing(String),
    LinuxUsbListing(String),
    LinuxModuleListing(String),
}

/// The platform an install attempt runs on.
#[derive(Debug, Clone, Copy, PartialEq, Eq, Structural)]
pub enum OsKind {
    Windows,
    MacOs,
    Linux,
}

/// What the caller's best-effort install attempt observed: whether the
/// OS-level driver trigger ran, whether a rescan then saw the driver, and
/// whether the associated host tool answered.
#[derive(Debug, Clone, Copy)]
pub struct InstallProbe {
    pub trigger_ok: bool,
    pub installed_after_rescan: bool,
    pub tool_present: bool,
}

/// Whether one probe's text names the driver under this catalog key.
/// Matching is on known substrings, and absence of a match means "not
/// confirmed installed", never "confirmed absent".
pub open spec fn probe_marks(out: ProbeOutput, key: Seq<char>) -> bool {
    match out {
        ProbeOutput::WindowsDeviceListing(s) => {
            let b = encode_utf8(s@);
            ||| (key == "ch340"@ && (contains_bytes(b, "CH340".spec_bytes()) || contains_bytes(
                b,
                "CH341".spec_bytes(),
            )))
            ||| (key == "arduino_usb"@ && contains_bytes(b, "Arduino".spec_bytes()))
            ||| (key == "cp210x"@ && (contains_bytes(b, "CP210".spec_bytes()) || contains_bytes(
                b,
                "Silicon Labs".spec_bytes(),
            )))
        },
        ProbeOutput::WindowsDriverQuery(s) => key == "ch340"@ && contains_bytes(
            crate::text::lower_bytes(encode_utf8(s@)),
            "ch34".spec_bytes(),
        ),
        ProbeOutput::MacUsbListing(s) => {
            let b = encode_utf8(s@);
            ||| (key == "ch340"@ && contains_bytes(b, "1a86".spec_bytes()))
            ||| (key == "arduino_usb"@ && contains_bytes(b, "2341".spec_bytes()))
        },
        ProbeOutput::MacKextListing(s) => key == "ch340"@ && contains_bytes(
            encode_utf8(s@),
            "ch34".spec_bytes(),
        ),
        ProbeOutput::LinuxUsbListing(s) => {
            let b = encode_utf8(s@);
            ||| (key == "ch340"@ && contains_bytes(b, "1a86:7523".spec_bytes()))
            ||| (key == "arduino_usb"@ && contains_bytes(b, "2341:0043".spec_bytes()))
        },
        ProbeOutput::LinuxModuleListing(s) => {
            let b = encode_utf8(s@);
            ||| (key == "ch340"@ && (contains_bytes(b, "ch341".spec_bytes()) || contains_bytes(
                b,
                "ch340".spec_bytes(),
            )))
            ||| (key == "cp210x"@ && contains_bytes(b, "cp210x".spec_bytes()))
        },
    }
}

/// A probe's text names a key somewhere among the first `t` probes.
pub open spec fn any_probe_marks(outputs: Seq<ProbeOutput>, t: int, key: Seq<char>) -> bool {
    exists|j: int| 0 <= j < t && probe_marks(#[trigger] outputs[j], key)
}

impl DriverManager {
    /// Marks the entry under `key` installed when `cond` holds; every other
    /// field and entry is untouched.
    fn mark_if(&mut self, cond: bool, key: &str)
        ensures
            final(self).drivers@.len() == old(self).drivers@.len(),
            forall|i: int|
                0 <= i < old(self).drivers@.len() ==> {
                    &&& (#[trigger] final(self).drivers@[i]).0 == old(self).drivers@[i].0
                    &&& final(self).drivers@[i].1@ == (DriverInfoV {
                        installed: old(self).drivers@[i].1@.installed || (cond && old(
                            self,
                        ).drivers@[i].0@ == key@),
                        ..old(self).drivers@[i].1@
                    })
                },
    {
        if !cond {
            proof {
                assert forall|i: int|
                    0 <= i < self.drivers@.len() implies (#[trigger] self.drivers@[i]).1@
                    == (DriverInfoV {
                    installed: self.drivers@[i].1@.installed,
                    ..self.drivers@[i].1@
                }) by {
                    assert(self.drivers@[i].1@ =~= (DriverInfoV {
                        installed: self.drivers@[i].1@.installed,
                        ..self.drivers@[i].1@
                    }));
                }
            }
            return ;
        }
        let ghost pre = self.drivers@;
        let n: usize = self.drivers.len();
        let mut i: usize = 0;
        while i < n
            invariant
                n == self.drivers@.len(),
                n == pre.len(),
                0 <= i <= n,
                forall|k: int|
                    i <= k < n ==> #[trigger] self.drivers@[k] == pre[k],
                forall|k: int|
                    0 <= k < i ==> {
                        &&& (#[trigger] self.drivers@[k]).0 == pre[k].0
                        &&& self.drivers@[k].1@ == (DriverInfoV {
                            installed: pre[k].1@.installed || pre[k].0@ == key@,
                            ..pre[k].1@
                        })
                    },
            decreases n - i,
        {
            if str_eq(self.drivers[i].0.as_str(), key) {
                let ghost mid = self.drivers@;
                let mut entry = self.drivers.remove(i);
                entry.1.installed = true;
                self.drivers.insert(i, entry);
                proof {
                    assert(self.drivers@ =~= mid.update(i as int, self.drivers@[i as int]));
                    assert(self.drivers@[i as int].1@ =~= (DriverInfoV {
                        installed: true,
                        ..pre[i as int].1@
                    }));
                }
            } else {
                proof {
                    assert(self.drivers@[i as int].1@ =~= (DriverInfoV {
                        installed: pre[i as int].1@.installed || pre[i as int].0@ == key@,
                        ..pre[i as int].1@
                    }));
                }
            }
            i += 1;
        }
    }

    /// Applies one probe: every catalog entry whose key the probe's text
    /// names is marked installed; nothing else changes.
    pub fn apply_probe(&mut self, out: &ProbeOutput)
        ensures
            final(self).drivers@.len() == old(self).drivers@.len(),
            forall|i: int|
                0 <= i < old(self).drivers@.len() ==> {
                    &&& (#[trigger] final(self).drivers@[i]).0 == old(self).drivers@[i].0
                    &&& final(self).drivers@[i].1@ == (DriverInfoV {
                        installed: old(self).drivers@[i].1@.installed || probe_marks(
                            *out,
                            old(self).drivers@[i].0@,
                        ),
                        ..old(self).drivers@[i].1@
                    })
                },
    {
        let ghost pre = self.drivers@;
        match out {
            ProbeOutput::WindowsDeviceListing(s) => {
                let b = s.as_str().as_bytes();
                let ch = contains_pattern_exact(b, "CH340".as_bytes()) || contains_pattern_exact(
                    b,
                    "CH341".as_bytes(),
                );
                let ar = contains_pattern_exact(b, "Arduino".as_bytes());
                let cp = contains_pattern_exact(b, "CP210".as_bytes()) || contains_pattern_exact(
                    b,
                    "Silicon Labs".as_bytes(),
                );
                self.mark_if(ch, "ch340");
                self.mark_if(ar, "arduino_usb");
                self.mark_if(cp, "cp210x");
                proof {
                    reveal_strlit("ch340");
                    reveal_strlit("arduino_usb");
                    reveal_strlit("cp210x");
                }
            },
            ProbeOutput::WindowsDriverQuery(s) => {
                let b = s.as_str().as_bytes();
                let ch = crate::text::contains_pattern(b, "ch34".as_bytes());
                self.mark_if(ch, "ch340");
            },
            ProbeOutput::MacUsbListing(s) => {
                let b = s.as_str().as_bytes();
                let ch = contains_pattern_exact(b, "1a86".as_bytes());
                let ar = contains_pattern_exact(b, "2341".as_bytes());
                self.mark_if(ch, "ch340");
                self.mark_if(ar, "arduino_usb");
                proof {
                    reveal_strlit("ch340");
                    reveal_strlit("arduino_usb");
                }
            },
            ProbeOutput::MacKextListing(s) => {
                let b = s.as_str().as_bytes();
                let ch = contains_pattern_exact(b, "ch34".as_bytes());
                self.mark_if(ch, "ch340");
            },
            ProbeOutput::LinuxUsbListing(s) => {
                let b = s.as_str().as_bytes();
                let ch = contains_pattern_exact(b, "1a86:7523".as_bytes());
                let ar = contains_pattern_exact(b, "2341:0043".as_bytes());
                self.mark_if(ch, "ch340");
                self.mark_if(ar, "arduino_usb");
                proof {
                    reveal_strlit("ch340");
                    reveal_strlit("arduino_usb");
                }
            },
            ProbeOutput::LinuxModuleListing(s) => {
                let b = s.as_str().as_bytes();
                let ch = contains_pattern_exact(b, "ch341".as_bytes()) || contains_pattern_exact(
                    b,
                    "ch340".as_bytes(),
                );
                let cp = contains_pattern_exact(b, "cp210x".as_bytes());
                self.mark_if(ch, "ch340");
                self.mark_if(cp, "cp210x");
                proof {
                    reveal_strlit("ch340");
                    reveal_strlit("cp210x");
                }
            },
        }
    }

    /// Applies every captured probe in order and returns the entries now
    /// marked installed. A probe that saw nothing degrades to "not
    /// confirmed installed": it never clears a mark.
    pub fn scan_installed_drivers(&mut self, outputs: &Vec<ProbeOutput>) -> (r: Vec<DriverInfo>)
        ensures
            final(self).drivers@.len() == old(self).drivers@.len(),
            forall|i: int|
                0 <= i < old(self).drivers@.len() ==> {
                    &&& (#[trigger] final(self).drivers@[i]).0 == old(self).drivers@[i].0
                    &&& final(self).drivers@[i].1@ == (DriverInfoV {
                        installed: old(self).drivers@[i].1@.installed || any_probe_marks(
                            outputs@,
                            outputs@.len() as int,
                            old(self).drivers@[i].0@,
                        ),
                        ..old(self).drivers@[i].1@
                    })
                },
            r@.map_values(|d: DriverInfo| d@) == final(self).catalog().filter(
                |dv: DriverInfoV| dv.installed,
            ),
    {
        let n: usize = outputs.len();
        let mut t: usize = 0;
        while t < n
            invariant
                n == outputs@.len(),
                0 <= t <= n,
                self.drivers@.len() == old(self).drivers@.len(),
                forall|i: int|
                    0 <= i < old(self).drivers@.len() ==> {
                        &&& (#[trigger] self.drivers@[i]).0 == old(self).drivers@[i].0
                        &&& self.drivers@[i].1@ == (DriverInfoV {
                            installed: old(self).drivers@[i].1@.installed || any_probe_marks(
                                outputs@,
                                t as int,
                                old(self).drivers@[i].0@,
                            ),
                            ..old(self).drivers@[i].1@
                        })
                    },
            decreases n - t,
        {
            let ghost mid = self.drivers@;
            self.apply_probe(&outputs[t]);
            proof {
                assert forall|i: int|
                    0 <= i < old(self).drivers@.len() implies (#[trigger] self.drivers@[i]).1@
                    == (DriverInfoV {
                    installed: old(self).drivers@[i].1@.installed || any_probe_marks(
                        outputs@,
                        t + 1,
                        old(self).drivers@[i].0@,
                    ),
                    ..old(self).drivers@[i].1@
                }) by {
                    let key = old(self).drivers@[i].0@;
                    if any_probe_marks(outputs@, t + 1, key) && !any_probe_marks(
                        outputs@,
                        t as int,
                        key,
                    ) {
                        let j = choose|j: int| 0 <= j < t + 1 && probe_marks(#[trigger] outputs@[j], key);
                        assert(j == t as int);
                    }
                    if any_probe_marks(outputs@, t as int, key) {
                        let j = choose|j: int|
                            0 <= j < t && probe_marks(#[trigger] outputs@[j], key);
                        assert(probe_marks(outputs@[j], key));
                        assert(any_probe_marks(outputs@, t + 1, key));
                    }
                    assert(self.drivers@[i].1@ =~= (DriverInfoV {
                        installed: old(self).drivers@[i].1@.installed || any_probe_marks(
                            outputs@,
                            t + 1,
                            old(self).drivers@[i].0@,
                        ),
                        ..old(self).drivers@[i].1@
                    }));
                }
            }
            t += 1;
        }
        self.get_installed_drivers()
    }
}

/// Whether this best-effort install attempt confirms the driver under the
/// key as installed: an OS driver trigger that ran and a rescan that then
/// saw it, or a loaded kernel module.
pub open spec fn install_confirms(key: Seq<char>, os: OsKind, probe: InstallProbe) -> bool {
    ||| (os == OsKind::Windows && (key == "ch340"@ || key == "cp210x"@) && probe.trigger_ok
        && probe.installed_after_rescan)
    ||| (os == OsKind::Linux && key == "ch340"@ && probe.tool_present)
}

/// The advisory text a best-effort install attempt returns for the driver
/// under the key, given what the attempt observed.
pub open spec fn install_advice(key: Seq<char>, os: OsKind, probe: InstallProbe) -> Seq<char> {
    match os {
        OsKind::Windows => if key == "ch340"@ {
            if probe.trigger_ok && probe.installed_after_rescan {
                "CH340 driver installed successfully"@
            } else {
                "Download CH341SER from the WCH site and run it as administrator, or let Windows search for the driver from the device manager"@
            }
        } else if key == "arduino_usb"@ {
            if probe.tool_present {
                "Arduino driver is installed with the Arduino IDE"@
            } else {
                "Install the Arduino IDE for full driver support: https://www.arduino.cc/en/software"@
            }
        } else if key == "cp210x"@ {
            if probe.trigger_ok && probe.installed_after_rescan {
                "CP210x driver installed successfully"@
            } else {
                "Windows installs the CP210x driver automatically; if problems persist, download it from https://www.silabs.com/developers/usb-to-uart-bridge-vcp-drivers"@
            }
        } else {
            "Please download and install the driver from the device manufacturer"@
        },
        OsKind::MacOs => if key == "ch340"@ {
            "Download the CH340 macOS driver from the WCH site"@
        } else {
            "macOS recognizes most USB devices automatically; install the matching driver if needed"@
        },
        OsKind::Linux => if key == "ch340"@ {
            if probe.tool_present {
                "CH340 driver loaded"@
            } else {
                "Ensure the kernel supports the CH340 driver or build it manually"@
            }
        } else {
            "Linux ships most USB serial drivers; check the kernel modules if needed"@
        },
    }
}

impl DriverManager {
    /// Records a best-effort install attempt for the driver under the key:
    /// an attempt the probe confirms marks the entry installed, and the
    /// caller gets advisory text either way. An already-installed driver
    /// reports so at once; `NotFound` exactly when the key is unknown.
    pub fn install_driver(&mut self, driver_name: &str, os: OsKind, probe: &InstallProbe) -> (r:
        Result<String, DeviceError>)
        requires
            old(self).wf(),
        ensures
            final(self).wf(),
            match r {
                Err(e) => {
                    &&& e is NotFound
                    &&& *final(self) == *old(self)
                    &&& forall|i: int|
                        0 <= i < old(self).drivers@.len() ==> (#[trigger] old(
                            self,
                        ).drivers@[i]).0@ != driver_name@
                },
                Ok(m) => exists|i: int|
                    {
                        &&& 0 <= i < old(self).drivers@.len()
                        &&& (#[trigger] old(self).drivers@[i]).0@ == driver_name@
                        &&& if old(self).drivers@[i].1.installed {
                            m@ == "driver already installed: "@ + old(self).drivers@[i].1@.name
                                && *final(self) == *old(self)
                        } else {
                            &&& m@ == install_advice(driver_name@, os, *probe)
                            &&& final(self).drivers@.len() == old(self).drivers@.len()
                            &&& forall|k: int|
                                0 <= k < old(self).drivers@.len() ==> {
                                    &&& (#[trigger] final(self).drivers@[k]).0 == old(
                                        self,
                                    ).drivers@[k].0
                                    &&& final(self).drivers@[k].1@ == (DriverInfoV {
                                        installed: old(self).drivers@[k].1@.installed || (
                                        install_confirms(driver_name@, os, *probe) && old(
                                            self,
                                        ).drivers@[k].0@ == driver_name@),
                                        ..old(self).drivers@[k].1@
                                    })
                                }
                        }
                    },
            },
    {
        let n: usize = self.drivers.len();
        let mut i: usize = 0;
        while i < n
            invariant
                *self == *old(self),
                old(self).wf(),
                n == self.drivers@.len(),
                0 <= i <= n,
                forall|k: int| 0 <= k < i ==> (#[trigger] self.drivers@[k]).0@ != driver_name@,
            decreases n - i,
        {
            if str_eq(self.drivers[i].0.as_str(), driver_name) {
                if self.drivers[i].1.installed {
                    return Ok(
                        "driver already installed: ".to_owned().concat(
                            self.drivers[i].1.name.as_str(),
                        ),
                    );
                }
                let confirmed = self.install_attempt_confirmed(driver_name, os, probe);
                self.mark_if(confirmed, driver_name);
                let advice = self.install_attempt_advice(driver_name, os, probe);
                return Ok(advice);
            }
            i += 1;
        }
        Err(DeviceError::NotFound("driver not found: ".to_owned().concat(driver_name)))
    }

    /// Whether the attempt's observations confirm the driver as installed.
    fn install_attempt_confirmed(&self, driver_name: &str, os: OsKind, probe: &InstallProbe) -> (r:
        bool)
        ensures
            r == install_confirms(driver_name@, os, *probe),
    {
        match os {
            OsKind::Windows => (str_eq(driver_name, "ch340") || str_eq(driver_name, "cp210x"))
                && probe.trigger_ok && probe.installed_after_rescan,
            OsKind::MacOs => false,
            OsKind::Linux => str_eq(driver_name, "ch340") && probe.tool_present,
        }
    }

    /// The advisory text for the attempt's observations.
    fn install_attempt_advice(&self, driver_name: &str, os: OsKind, probe: &InstallProbe) -> (r:
        String)
        ensures
            r@ == install_advice(driver_name@, os, *probe),
    {
        match os {
            OsKind::Windows => {
                if str_eq(driver_name, "ch340") {
                    if probe.trigger_ok && probe.installed_after_rescan {
                        "CH340 driver installed successfully".to_owned()
                    } else {
                        "Download CH341SER from the WCH site and run it as administrator, or let Windows search for the driver from the device manager".to_owned()
                    }
                } else if str_eq(driver_name, "arduino_usb") {
                    if probe.tool_present {
                        "Arduino driver is installed with the Arduino IDE".to_owned()
                    } else {
                        "Install the Arduino IDE for full driver support: https://www.arduino.cc/en/software".to_owned()
                    }
                } else if str_eq(driver_name, "cp210x") {
                    if probe.trigger_ok && probe.installed_after_rescan {
                        "CP210x driver installed successfully".to_owned()
                    } else {
                        "Windows installs the CP210x driver automatically; if problems persist, download it from https://www.silabs.com/developers/usb-to-uart-bridge-vcp-drivers".to_owned()
                    }
                } else {
                    "Please download and install the driver from the device manufacturer".to_owned()
                }
            },
            OsKind::MacOs => {
                if str_eq(driver_name, "ch340") {
                    "Download the CH340 macOS driver from the WCH site".to_owned()
                } else {
                    "macOS recognizes most USB devices automatically; install the matching driver if needed".to_owned()
                }
            },
            OsKind::Linux => {
                if str_eq(driver_name, "ch340") {
                    if probe.tool_present {
                        "CH340 driver loaded".to_owned()
                    } else {
                        "Ensure the kernel supports the CH340 driver or build it manually".to_owned()
                    }
                } else {
                    "Linux ships most USB serial drivers; check the kernel modules if needed".to_owned()
                }
            },
        }
    }
}

} // verus!
