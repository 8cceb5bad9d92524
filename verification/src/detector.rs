use serialport::SerialPortType;
use vstd::prelude::*;
use vstd::string::StringSliceAdditionalSpecFns;
use vstd::string::StringExecFns;
use vstd::utf8::encode_utf8;
use crate::clock;
use crate::device::classify;
use crate::device::DeviceInfo;
use crate::device::DeviceType;
use crate::device::UploadOptions;
use crate::device::device_id_view;
use crate::device::device_name_view;
use crate::errors::DeviceError;
use crate::text::bytes_eq;
use crate::text::contains_bytes;
use crate::text::contains_pattern;
use crate::text::copy_bytes;
use crate::text::has_prefix;
use crate::text::hex4;
use crate::text::hex4_bytes;
use crate::text::lower_bytes;
use crate::text::push_bytes;
use crate::text::starts_with_bytes;
use crate::text::str_eq;

verus! {

/// How the OS reports a serial port to be attached.
#[derive(Debug, Clone, Copy, PartialEq, Eq, Structural)]
pub enum PortKind {
    Usb,
    Bluetooth,
    Pci,
    Unknown,
}

/// One enumerated serial port, as plain values. USB identity fields are
/// present exactly when the port is a USB device that reports them.
#[derive(Debug)]
pub struct PortRecord {
    pub port_name: String,
    pub kind: PortKind,
    pub vendor_id: Option<u16>,
    pub product_id: Option<u16>,
    pub serial_number: Option<String>,
    pub manufacturer: Option<String>,
    pub description: Option<String>,
}

impl PortRecord {
    /// A record for one enumerated port, from plain values.
    pub fn new(
        port_name: String,
        kind: PortKind,
        vendor_id: Option<u16>,
        product_id: Option<u16>,
        serial_number: Option<String>,
        manufacturer: Option<String>,
        description: Option<String>,
    ) -> (r: PortRecord)
        ensures
            r.port_name == port_name,
            r.kind == kind,
            r.vendor_id == vendor_id,
            r.product_id == product_id,
            r.serial_number == serial_number,
            r.manufacturer == manufacturer,
            r.description == description,
    {
        PortRecord { port_name, kind, vendor_id, product_id, serial_number, manufacturer, description }
    }

    /// A record for a port that reports no USB identity.
    pub fn bare(port_name: String, kind: PortKind) -> (r: PortRecord)
        ensures
            r.port_name == port_name,
            r.kind == kind,
            r.vendor_id is None,
            r.product_id is None,
            r.serial_number is None,
            r.manufacturer is None,
            r.description is None,
    {
        PortRecord {
            port_name,
            kind,
            vendor_id: None,
            product_id: None,
            serial_number: None,
            manufacturer: None,
            description: None,
        }
    }
}

/// Relies on serialport's `available_ports` and the shape of its port-info
/// types: the serial ports the OS reports at this moment, each moved field
/// for field into the library's record. The outcome depends on the machine,
/// so nothing is promised of the returned records.
#[verifier::external_body]
pub(crate) fn list_os_ports() -> Result<Vec<PortRecord>, String> {
    match serialport::available_ports() {
        Err(e) => Err(e.to_string()),
        Ok(ports) => Ok(ports.into_iter().map(|p| match p.port_type {
            SerialPortType::UsbPort(u) => PortRecord::new(
                p.port_name, PortKind::Usb, Some(u.vid), Some(u.pid),
                u.serial_number, u.manufacturer, u.product,
            ),
            SerialPortType::BluetoothPort => PortRecord::bare(p.port_name, PortKind::Bluetooth),
            SerialPortType::PciPort => PortRecord::bare(p.port_name, PortKind::Pci),
            SerialPortType::Unknown => PortRecord::bare(p.port_name, PortKind::Unknown),
        }).collect()),
    }
}

/// A port name that matches a known noise pattern: platform debug consoles,
/// Bluetooth "incoming" virtual ports, and OS accessory ports. Matching is
/// ASCII-case-insensitive on the UTF-8 bytes of the name.
pub open spec fn noise_port(port: Seq<char>) -> bool {
    ||| contains_bytes(lower_bytes(encode_utf8(port)), "debug-console".spec_bytes())
    ||| contains_bytes(lower_bytes(encode_utf8(port)), "bluetooth-incoming-port".spec_bytes())
    ||| contains_bytes(lower_bytes(encode_utf8(port)), "ams".spec_bytes())
    ||| contains_bytes(lower_bytes(encode_utf8(port)), "airpods".spec_bytes())
}

/// The teletype device-node prefix of platforms that expose call-up/teletype
/// node pairs for one physical port.
pub open spec fn tty_prefix() -> Seq<u8> {
    "/dev/tty.".spec_bytes()
}

/// The call-up device-node prefix paired with `tty_prefix`.
pub open spec fn cu_prefix() -> Seq<u8> {
    "/dev/cu.".spec_bytes()
}

/// The port name is a teletype node.
pub open spec fn is_tty_name(port: Seq<char>) -> bool {
    has_prefix(encode_utf8(port), tty_prefix())
}

/// The call-up sibling node name of a teletype port name, as UTF-8 bytes.
pub open spec fn cu_sibling(port: Seq<char>) -> Seq<u8> {
    cu_prefix() + encode_utf8(port).skip(tty_prefix().len() as int)
}

/// Some enumerated port carries the call-up sibling name of `port`.
pub open spec fn has_cu_sibling(port: Seq<char>, all: Seq<PortRecord>) -> bool {
    exists|j: int| 0 <= j < all.len() && encode_utf8(all[j].port_name@) == cu_sibling(port)
}

/// The base name of a port: its name with a leading call-up or teletype
/// device prefix stripped.
pub open spec fn base_name_bytes(b: Seq<u8>) -> Seq<u8> {
    if has_prefix(b, cu_prefix()) {
        b.skip(cu_prefix().len() as int)
    } else if has_prefix(b, tty_prefix()) {
        b.skip(tty_prefix().len() as int)
    } else {
        b
    }
}

/// The hardware identity key: the hex pair of the USB ids where both are
/// known, else the port's base name.
pub open spec fn hw_key_of(
    vendor_id: Option<u16>,
    product_id: Option<u16>,
    port: Seq<char>,
) -> Seq<u8> {
    match (vendor_id, product_id) {
        (Some(v), Some(p)) => hex4(v) + seq![58u8] + hex4(p),
        _ => base_name_bytes(encode_utf8(port)),
    }
}

/// The hardware identity key of a catalog entry.
pub open spec fn entry_key(d: DeviceInfo) -> Seq<u8> {
    hw_key_of(d.vendor_id, d.product_id, d.port@)
}

/// The hardware identity key of an enumerated port.
pub open spec fn port_key(p: PortRecord) -> Seq<u8> {
    hw_key_of(p.vendor_id, p.product_id, p.port_name@)
}

/// The hardware identity key of a catalog entry's model.
pub open spec fn entry_key_v(d: crate::device::DeviceInfoV) -> Seq<u8> {
    hw_key_of(d.vendor_id, d.product_id, d.port)
}

/// The model of the catalog entry built from one port in a scan stamped `ts`.
pub open spec fn device_of_port(p: PortRecord, ts: nat) -> crate::device::DeviceInfoV {
    crate::device::DeviceInfoV {
        id: device_id_view(p.port_name@, ts),
        name: device_name_view(classify(p.vendor_id, p.product_id), p.port_name@),
        device_type: classify(p.vendor_id, p.product_id),
        port: p.port_name@,
        vendor_id: p.vendor_id,
        product_id: p.product_id,
        manufacturer: crate::device::opt_str_view(p.manufacturer),
        description: crate::device::opt_str_view(p.description),
        connected: false,
    }
}

/// The scan keeps this port: it survives the filters, and neither its
/// hardware key nor the id it would generate is taken by an earlier entry.
pub open spec fn scan_keeps(
    p: PortRecord,
    all: Seq<PortRecord>,
    acc: Seq<crate::device::DeviceInfoV>,
    ts: nat,
) -> bool {
    &&& surviving(p, all)
    &&& forall|i: int| 0 <= i < acc.len() ==> #[trigger] entry_key_v(acc[i]) != port_key(p)
    &&& forall|i: int| 0 <= i < acc.len() ==> (#[trigger] acc[i]).id != device_id_view(
        p.port_name@,
        ts,
    )
}

/// The scan folded over the remaining ports, in enumeration order: of any
/// ports sharing one hardware key, the first survivor is the one kept.
pub open spec fn scan_fold(
    remaining: Seq<PortRecord>,
    all: Seq<PortRecord>,
    ts: nat,
    acc: Seq<crate::device::DeviceInfoV>,
) -> Seq<crate::device::DeviceInfoV>
    decreases remaining.len(),
{
    if remaining.len() == 0 {
        acc
    } else {
        let next = if scan_keeps(remaining[0], all, acc, ts) {
            acc.push(device_of_port(remaining[0], ts))
        } else {
            acc
        };
        scan_fold(remaining.drop_first(), all, ts, next)
    }
}

/// The whole catalog as a function of the enumeration and the stamp alone:
/// scanning the same port list with the same stamp yields the same catalog.
pub open spec fn scan_model(ports: Seq<PortRecord>, ts: nat) -> Seq<crate::device::DeviceInfoV> {
    scan_fold(ports, ports, ts, Seq::empty())
}

/// The port survives the scan filters: it is not noise, and it is not a
/// teletype node whose call-up sibling is also enumerated.
pub open spec fn surviving(p: PortRecord, all: Seq<PortRecord>) -> bool {
    &&& !noise_port(p.port_name@)
    &&& !(is_tty_name(p.port_name@) && has_cu_sibling(p.port_name@, all))
}

/// The catalog entry `d` was built from the enumerated port `p` in a scan
/// stamped `ts`: identity fields carried over, type classified from the USB
/// ids, id and display name generated, and not yet connected.
pub open spec fn built_from(d: DeviceInfo, p: PortRecord, ts: nat) -> bool {
    &&& d.port@ == p.port_name@
    &&& d.vendor_id == p.vendor_id
    &&& d.product_id == p.product_id
    &&& d.device_type == classify(p.vendor_id, p.product_id)
    &&& d.id@ == device_id_view(p.port_name@, ts)
    &&& d.name@ == device_name_view(classify(p.vendor_id, p.product_id), p.port_name@)
    &&& d.manufacturer == p.manufacturer
    &&& d.description == p.description
    &&& !d.connected
}

/// A well-formed device catalog: no noise ports, hardware identity keys and
/// generated ids pairwise distinct, no two entries sharing one (vendor id,
/// product id) pair, and every entry classified by the lookup table.
pub open spec fn catalog_wf(devs: Seq<DeviceInfo>) -> bool {
    &&& forall|i: int| 0 <= i < devs.len() ==> !noise_port(devs[i].port@)
    &&& forall|i: int, j: int|
        0 <= i < j < devs.len() ==> entry_key(devs[i]) != entry_key(devs[j])
    &&& forall|i: int, j: int|
        0 <= i < j < devs.len() && devs[i].vendor_id is Some && devs[i].product_id is Some
            ==> !(devs[j].vendor_id == devs[i].vendor_id && devs[j].product_id
            == devs[i].product_id)
    &&& forall|i: int|
        0 <= i < devs.len() ==> devs[i].device_type == classify(
            devs[i].vendor_id,
            devs[i].product_id,
        )
    &&& forall|i: int, j: int| 0 <= i < j < devs.len() ==> devs[i].id@ != devs[j].id@
}

/// Whether the port name matches a known noise pattern.
fn is_noise_port(port: &str) -> (r: bool)
    ensures
        r == noise_port(port@),
{
    let b = port.as_bytes();
    contains_pattern(b, "debug-console".as_bytes()) || contains_pattern(
        b,
        "bluetooth-incoming-port".as_bytes(),
    ) || contains_pattern(b, "ams".as_bytes()) || contains_pattern(b, "airpods".as_bytes())
}

/// Whether the port name is a teletype device node.
fn is_tty_port(port: &str) -> (r: bool)
    ensures
        r == is_tty_name(port@),
{
    starts_with_bytes(port.as_bytes(), "/dev/tty.".as_bytes())
}

/// Whether the call-up sibling of the teletype port name is enumerated.
fn port_has_cu_sibling(port: &str, ports: &Vec<PortRecord>) -> (r: bool)
    requires
        is_tty_name(port@),
    ensures
        r == has_cu_sibling(port@, ports@),
{
    let tty_pat = "/dev/tty.".as_bytes();
    let b = port.as_bytes();
    let mut want: Vec<u8> = Vec::new();
    push_bytes(&mut want, "/dev/cu.".as_bytes());
    push_bytes(&mut want, &b[tty_pat.len()..b.len()]);
    proof {
        assert(want@ =~= cu_sibling(port@));
    }
    let n: usize = ports.len();
    let mut j: usize = 0;
    while j < n
        invariant
            n == ports@.len(),
            0 <= j <= n,
            want@ == cu_sibling(port@),
            forall|k: int|
                0 <= k < j ==> encode_utf8(ports@[k].port_name@) != cu_sibling(port@),
        decreases n - j,
    {
        if bytes_eq(ports[j].port_name.as_str().as_bytes(), want.as_slice()) {
            return true;
        }
        j += 1;
    }
    false
}

/// The hardware identity key of one enumerated port.
fn hardware_key(p: &PortRecord) -> (r: Vec<u8>)
    ensures
        r@ == port_key(*p),
{
    match (p.vendor_id, p.product_id) {
        (Some(v), Some(pi)) => {
            let mut out = hex4_bytes(v);
            out.push(58u8);
            let tail = hex4_bytes(pi);
            push_bytes(&mut out, tail.as_slice());
            proof {
                assert(out@ =~= hex4(v) + seq![58u8] + hex4(pi));
            }
            out
        },
        _ => {
            let b = p.port_name.as_str().as_bytes();
            if starts_with_bytes(b, "/dev/cu.".as_bytes()) {
                copy_bytes(&b["/dev/cu.".as_bytes().len()..b.len()])
            } else if starts_with_bytes(b, "/dev/tty.".as_bytes()) {
                copy_bytes(&b["/dev/tty.".as_bytes().len()..b.len()])
            } else {
                copy_bytes(b)
            }
        },
    }
}

/// The index in `seen` of a key equal to `key`, if any.
fn find_key(seen: &Vec<Vec<u8>>, key: &Vec<u8>) -> (r: Option<usize>)
    ensures
        match r {
            Some(i) => 0 <= i < seen@.len() && seen@[i as int]@ == key@,
            None => forall|i: int| 0 <= i < seen@.len() ==> seen@[i]@ != key@,
        },
{
    let n: usize = seen.len();
    let mut i: usize = 0;
    while i < n
        invariant
            n == seen@.len(),
            0 <= i <= n,
            forall|k: int| 0 <= k < i ==> seen@[k]@ != key@,
        decreases n - i,
    {
        if bytes_eq(seen[i].as_slice(), key.as_slice()) {
            return Some(i);
        }
        i += 1;
    }
    None
}

/// The index of a catalog entry already carrying this generated id, if any.
fn find_id(devices: &Vec<DeviceInfo>, id: &str) -> (r: Option<usize>)
    ensures
        match r {
            Some(i) => 0 <= i < devices@.len() && devices@[i as int].id@ == id@,
            None => forall|i: int| 0 <= i < devices@.len() ==> devices@[i].id@ != id@,
        },
{
    let n: usize = devices.len();
    let mut i: usize = 0;
    while i < n
        invariant
            n == devices@.len(),
            0 <= i <= n,
            forall|k: int| 0 <= k < i ==> devices@[k].id@ != id@,
        decreases n - i,
    {
        if str_eq(devices[i].id.as_str(), id) {
            return Some(i);
        }
        i += 1;
    }
    None
}

/// Entry `i` of `devs` was built from some surviving enumerated port.
pub open spec fn from_surviving_port(
    devs: Seq<DeviceInfo>,
    i: int,
    ports: Seq<PortRecord>,
    ts: nat,
) -> bool {
    exists|j: int|
        0 <= j < ports.len() && surviving(#[trigger] ports[j], ports) && built_from(
            devs[i],
            ports[j],
            ts,
        )
}

/// Every catalog entry was built from some surviving enumerated port.
pub open spec fn scan_sound(devs: Seq<DeviceInfo>, ports: Seq<PortRecord>, ts: nat) -> bool {
    forall|i: int|
        0 <= i < devs.len() ==> #[trigger] from_surviving_port(devs, i, ports, ts)
}

/// The port at `k` is represented in `devs`: entry `i` carries its hardware
/// key, or carries the id that a device built from it would get.
pub open spec fn represents(
    devs: Seq<DeviceInfo>,
    i: int,
    p: PortRecord,
    ts: nat,
) -> bool {
    &&& 0 <= i < devs.len()
    &&& (entry_key(devs[i]) == port_key(p) || devs[i].id@ == device_id_view(p.port_name@, ts))
}

/// Builds the device catalog from one enumeration of serial ports, stamped
/// `timestamp`: noise ports are dropped, a teletype node is dropped when its
/// call-up sibling is present, and of any ports sharing one hardware identity
/// key only the first is kept. Every surviving hardware key is represented,
/// unless its generated id was already taken by an earlier port of the same
/// name.
pub fn scan_from_ports(ports: &Vec<PortRecord>, timestamp: u64) -> (r: Vec<DeviceInfo>)
    ensures
        catalog_wf(r@),
        scan_sound(r@, ports@, timestamp as nat),
        forall|j: int|
            0 <= j < ports@.len() && surviving(#[trigger] ports@[j], ports@) ==> exists|i: int|
                represents(r@, i, ports@[j], timestamp as nat),
        r@.map_values(|d: DeviceInfo| d@) == scan_model(ports@, timestamp as nat),
{
    let n: usize = ports.len();
    let mut out: Vec<DeviceInfo> = Vec::new();
    let mut seen: Vec<Vec<u8>> = Vec::new();
    let ghost ts = timestamp as nat;
    let ghost mut src: Seq<int> = Seq::empty();
    let ghost mut cov: Seq<int> = Seq::empty();
    proof {
        assert(ports@.skip(0) =~= ports@);
        assert(out@.map_values(|d: DeviceInfo| d@) =~= Seq::<crate::device::DeviceInfoV>::empty());
    }
    let mut j: usize = 0;
    while j < n
        invariant
            n == ports@.len(),
            0 <= j <= n,
            seen@.len() == out@.len(),
            ts == timestamp as nat,
            forall|k: int| 0 <= k < out@.len() ==> seen@[k]@ == entry_key(#[trigger] out@[k]),
            src.len() == out@.len(),
            forall|i: int|
                #![trigger src[i]]
                0 <= i < out@.len() ==> 0 <= src[i] < ports@.len() && surviving(
                    ports@[src[i]],
                    ports@,
                ) && built_from(out@[i], ports@[src[i]], ts),
            forall|i: int, k: int|
                0 <= i < k < out@.len() ==> entry_key(out@[i]) != entry_key(out@[k]),
            forall|i: int, k: int| 0 <= i < k < out@.len() ==> out@[i].id@ != out@[k].id@,
            cov.len() == j,
            forall|k: int|
                #![trigger cov[k]]
                0 <= k < j && surviving(ports@[k], ports@) ==> represents(
                    out@,
                    cov[k],
                    ports@[k],
                    ts,
                ),
            scan_model(ports@, ts) == scan_fold(
                ports@.skip(j as int),
                ports@,
                ts,
                out@.map_values(|d: DeviceInfo| d@),
            ),
        decreases n - j,
    {
        let ghost acc = out@.map_values(|d: DeviceInfo| d@);
        proof {
            assert(ports@.skip(j as int)[0] == ports@[j as int]);
            assert(ports@.skip(j as int).drop_first() =~= ports@.skip(j + 1));
        }
        let port = &ports[j];
        if is_noise_port(port.port_name.as_str()) {
            proof {
                cov = cov.push(-1);
                assert(!scan_keeps(ports@[j as int], ports@, acc, ts));
            }
            j += 1;
            continue;
        }
        if is_tty_port(port.port_name.as_str()) && port_has_cu_sibling(
            port.port_name.as_str(),
            ports,
        ) {
            proof {
                cov = cov.push(-1);
                assert(!scan_keeps(ports@[j as int], ports@, acc, ts));
            }
            j += 1;
            continue;
        }
        let key = hardware_key(port);
        if let Some(hit) = find_key(&seen, &key) {
            proof {
                cov = cov.push(hit as int);
                assert(acc[hit as int] == out@[hit as int]@);
                assert(entry_key_v(acc[hit as int]) == port_key(ports@[j as int]));
                assert(!scan_keeps(ports@[j as int], ports@, acc, ts));
            }
            j += 1;
            continue;
        }
        let mut device = DeviceInfo::new_at(
            port.port_name.clone(),
            port.vendor_id,
            port.product_id,
            timestamp,
        );
        device.manufacturer = crate::device::clone_opt_string(&port.manufacturer);
        device.description = crate::device::clone_opt_string(&port.description);
        if let Some(hit) = find_id(&out, device.id.as_str()) {
            proof {
                cov = cov.push(hit as int);
                assert(acc[hit as int] == out@[hit as int]@);
                assert(acc[hit as int].id == device_id_view(ports@[j as int].port_name@, ts));
                assert(!scan_keeps(ports@[j as int], ports@, acc, ts));
            }
            j += 1;
            continue;
        }
        proof {
            assert(built_from(device, ports@[j as int], ts));
            assert(entry_key(device) == port_key(ports@[j as int]));
            assert(scan_keeps(ports@[j as int], ports@, acc, ts)) by {
                assert forall|i: int|
                    0 <= i < acc.len() implies #[trigger] entry_key_v(acc[i]) != port_key(
                    ports@[j as int],
                ) by {
                    assert(acc[i] == out@[i]@);
                    assert(seen@[i]@ == entry_key(out@[i]));
                }
                assert forall|i: int|
                    0 <= i < acc.len() implies (#[trigger] acc[i]).id != device_id_view(
                    ports@[j as int].port_name@,
                    ts,
                ) by {
                    assert(acc[i] == out@[i]@);
                }
            }
            assert(device@ =~= device_of_port(ports@[j as int], ts));
        }
        out.push(device);
        seen.push(key);
        proof {
            src = src.push(j as int);
            cov = cov.push(out@.len() - 1);
            assert(out@.map_values(|d: DeviceInfo| d@) =~= acc.push(
                device_of_port(ports@[j as int], ts),
            ));
        }
        j += 1;
    }
    proof {
        assert(ports@.skip(n as int) =~= Seq::<PortRecord>::empty());
        assert(out@.map_values(|d: DeviceInfo| d@) == scan_model(ports@, ts));
        assert(catalog_wf(out@)) by {
            assert forall|i: int, k: int|
                0 <= i < k < out@.len() && out@[i].vendor_id is Some && out@[i].product_id
                    is Some implies !(out@[k].vendor_id == out@[i].vendor_id && out@[k].product_id
                == out@[i].product_id) by {
                if out@[k].vendor_id == out@[i].vendor_id && out@[k].product_id
                    == out@[i].product_id {
                    assert(entry_key(out@[i]) == entry_key(out@[k]));
                }
            }
            assert forall|i: int| 0 <= i < out@.len() implies !noise_port(out@[i].port@) by {
                assert(built_from(out@[i], ports@[src[i]], ts));
            }
            assert forall|i: int|
                0 <= i < out@.len() implies out@[i].device_type == classify(
                out@[i].vendor_id,
                out@[i].product_id,
            ) by {
                assert(built_from(out@[i], ports@[src[i]], ts));
            }
        }
        assert forall|i: int|
            0 <= i < out@.len() implies #[trigger] from_surviving_port(
            out@,
            i,
            ports@,
            timestamp as nat,
        ) by {
            let w = src[i];
            assert(0 <= w < ports@.len() && surviving(ports@[w], ports@) && built_from(
                out@[i],
                ports@[w],
                timestamp as nat,
            ));
        }
        assert(scan_sound(out@, ports@, timestamp as nat));
        assert forall|j2: int|
            0 <= j2 < ports@.len() && surviving(#[trigger] ports@[j2], ports@) implies exists|
                i: int,
            | represents(out@, i, ports@[j2], timestamp as nat) by {
            assert(represents(out@, cov[j2], ports@[j2], timestamp as nat));
        }
    }
    out
}

/// The default language the tool recommends for one device type.
pub open spec fn recommended_language(t: DeviceType) -> Seq<char> {
    match t {
        DeviceType::Arduino => "arduino"@,
        DeviceType::ESP32 => "arduino"@,
        DeviceType::MicroBit => "micropython"@,
        DeviceType::RaspberryPiPico => "micropython"@,
        DeviceType::Unknown => "arduino"@,
    }
}

/// The default serial baud rate for one device type.
pub open spec fn default_baud(t: DeviceType) -> u32 {
    match t {
        DeviceType::Arduino => 9600,
        DeviceType::ESP32 => 115200,
        DeviceType::MicroBit => 115200,
        DeviceType::RaspberryPiPico => 115200,
        DeviceType::Unknown => 9600,
    }
}

/// The language support matrix, per device type.
pub open spec fn languages_of(t: DeviceType) -> Seq<Seq<char>> {
    match t {
        DeviceType::Arduino => seq!["arduino"@],
        DeviceType::ESP32 => seq!["arduino"@, "micropython"@],
        DeviceType::MicroBit => seq!["micropython"@],
        DeviceType::RaspberryPiPico => seq!["micropython"@, "arduino"@],
        DeviceType::Unknown => seq!["arduino"@],
    }
}

/// The device type supports the language, by the support matrix.
pub open spec fn lang_supported(t: DeviceType, language: Seq<char>) -> bool {
    match t {
        DeviceType::Arduino => language == "arduino"@,
        DeviceType::ESP32 => language == "arduino"@ || language == "micropython"@,
        DeviceType::MicroBit => language == "micropython"@,
        DeviceType::RaspberryPiPico => language == "micropython"@ || language == "arduino"@,
        DeviceType::Unknown => language == "arduino"@,
    }
}

/// In a well-formed catalog, two distinct entries never share an id.
proof fn lemma_catalog_ids_unique(devs: Seq<DeviceInfo>, i: int, j: int)
    requires
        catalog_wf(devs),
        0 <= i < j < devs.len(),
    ensures
        devs[i].id@ != devs[j].id@,
{
}

/// An exact copy of a device catalog.
pub fn clone_devices(v: &Vec<DeviceInfo>) -> (r: Vec<DeviceInfo>)
    ensures
        r@ == v@,
{
    let n: usize = v.len();
    let mut out: Vec<DeviceInfo> = Vec::new();
    let mut i: usize = 0;
    while i < n
        invariant
            n == v@.len(),
            0 <= i <= n,
            out@ == v@.take(i as int),
        decreases n - i,
    {
        out.push(v[i].clone());
        proof {
            assert(out@ =~= v@.take(i + 1));
        }
        i += 1;
    }
    proof {
        assert(v@.take(n as int) =~= v@);
    }
    out
}

/// Driver readiness of one device, as reported by the registry.
#[derive(Debug)]
pub struct DriverStatus {
    pub installed: bool,
    pub driver_info: Option<crate::driver::DriverInfo>,
}

/// The composite status of one device: identity, driver readiness, and the
/// language support derived from its type.
#[derive(Debug)]
pub struct DeviceStatus {
    pub device_info: DeviceInfo,
    pub driver_status: Option<DriverStatus>,
    pub ready: bool,
    pub recommended_language: Option<String>,
    pub supported_languages: Vec<String>,
}

/// Owns the device catalog, replaced wholesale on each scan, and the driver
/// registry used to judge readiness.
pub struct DeviceDetector {
    pub devices: Vec<DeviceInfo>,
    pub driver_manager: crate::driver::DriverManager,
}

impl DeviceDetector {
    /// The catalog is well formed and the driver registry keyed uniquely.
    pub open spec fn wf(self) -> bool {
        &&& catalog_wf(self.devices@)
        &&& self.driver_manager.wf()
    }

    /// A detector with an empty catalog and the static driver registry.
    pub fn new() -> (r: DeviceDetector)
        ensures
            r.wf(),
            r.devices@ == Seq::<DeviceInfo>::empty(),
            r.driver_manager.drivers@.len() == 5,
    {
        let r = DeviceDetector { devices: Vec::new(), driver_manager: crate::driver::DriverManager::new() };
        proof {
            assert(r.devices@ =~= Seq::<DeviceInfo>::empty());
        }
        r
    }

    /// Scans the attached serial ports and replaces the catalog with the
    /// result. Fails only if the OS enumeration call itself fails; the
    /// catalog and the returned list then stay untouched.
    pub fn scan_devices(&mut self) -> (r: Result<Vec<DeviceInfo>, DeviceError>)
        requires
            old(self).wf(),
        ensures
            final(self).wf(),
            final(self).driver_manager == old(self).driver_manager,
            match r {
                Ok(devs) => {
                    &&& devs@ == final(self).devices@
                    &&& catalog_wf(devs@)
                    &&& forall|i: int| 0 <= i < devs@.len() ==> !(#[trigger] devs@[i]).connected
                },
                Err(e) => *final(self) == *old(self) && e is IoFailure,
            },
    {
        match list_os_ports() {
            Err(e) => Err(
                DeviceError::IoFailure(
                    "failed to enumerate serial ports: ".to_owned().concat(e.as_str()),
                ),
            ),
            Ok(ports) => {
                let t = clock::now_seconds();
                let ts: u64 = if t < 0 {
                    0
                } else {
                    t as u64
                };
                let devs = scan_from_ports(&ports, ts);
                let out = clone_devices(&devs);
                self.devices = devs;
                proof {
                    assert(out@ =~= self.devices@);
                    assert forall|i: int|
                        0 <= i < out@.len() implies !(#[trigger] out@[i]).connected by {
                        assert(from_surviving_port(out@, i, ports@, ts as nat));
                        let j = choose|j: int|
                            0 <= j < ports@.len() && surviving(#[trigger] ports@[j], ports@)
                                && built_from(out@[i], ports@[j], ts as nat);
                        assert(built_from(out@[i], ports@[j], ts as nat));
                    }
                }
                Ok(out)
            },
        }
    }

    /// The catalog entry carrying this generated id, if any. With a
    /// well-formed catalog the entry is unique.
    pub fn get_device(&self, device_id: &str) -> (r: Option<&DeviceInfo>)
        requires
            self.wf(),
        ensures
            match r {
                Some(d) => {
                    &&& d.id@ == device_id@
                    &&& exists|i: int| 0 <= i < self.devices@.len() && self.devices@[i] == *d
                    &&& forall|i: int|
                        0 <= i < self.devices@.len() && (#[trigger] self.devices@[i]).id@
                            == device_id@ ==> self.devices@[i] == *d
                },
                None => forall|i: int|
                    0 <= i < self.devices@.len() ==> (#[trigger] self.devices@[i]).id@
                        != device_id@,
            },
    {
        let n: usize = self.devices.len();
        let mut i: usize = 0;
        while i < n
            invariant
                self.wf(),
                n == self.devices@.len(),
                0 <= i <= n,
                forall|k: int|
                    0 <= k < i ==> (#[trigger] self.devices@[k]).id@ != device_id@,
            decreases n - i,
        {
            if str_eq(self.devices[i].id.as_str(), device_id) {
                proof {
                    assert forall|k: int|
                        0 <= k < self.devices@.len() && (#[trigger] self.devices@[k]).id@
                            == device_id@ implies self.devices@[k] == self.devices@[i as int] by {
                        if k < i as int {
                            assert(self.devices@[k].id@ != device_id@);
                        } else if k > i as int {
                            lemma_catalog_ids_unique(self.devices@, i as int, k);
                        }
                    }
                }
                return Some(&self.devices[i]);
            }
            i += 1;
        }
        None
    }

    /// Whether the device supports the language, by the support matrix of its
    /// type. Unknown ids support nothing.
    pub fn supports_language(&self, device_id: &str, language: &str) -> (r: bool)
        requires
            self.wf(),
        ensures
            forall|i: int|
                0 <= i < self.devices@.len() && (#[trigger] self.devices@[i]).id@ == device_id@
                    ==> r == lang_supported(self.devices@[i].device_type, language@),
            (forall|i: int|
                0 <= i < self.devices@.len() ==> (#[trigger] self.devices@[i]).id@ != device_id@)
                ==> !r,
    {
        match self.get_device(device_id) {
            Some(device) => {
                let r = type_supports_language(device.device_type, language);
                proof {
                    assert forall|i: int|
                        0 <= i < self.devices@.len() && (#[trigger] self.devices@[i]).id@
                            == device_id@ implies r == lang_supported(
                        self.devices@[i].device_type,
                        language@,
                    ) by {
                        assert(self.devices@[i] == *device);
                    }
                }
                r
            },
            None => false,
        }
    }

    /// The recommended default language of the device, if it is known.
    pub fn get_recommended_language(&self, device_id: &str) -> (r: Option<&str>)
        requires
            self.wf(),
        ensures
            match r {
                Some(s) => forall|i: int|
                    0 <= i < self.devices@.len() && (#[trigger] self.devices@[i]).id@ == device_id@
                        ==> s@ == recommended_language(self.devices@[i].device_type),
                None => forall|i: int|
                    0 <= i < self.devices@.len() ==> (#[trigger] self.devices@[i]).id@
                        != device_id@,
            },
            (exists|i: int|
                0 <= i < self.devices@.len() && (#[trigger] self.devices@[i]).id@ == device_id@)
                ==> r is Some,
            (forall|i: int|
                0 <= i < self.devices@.len() ==> (#[trigger] self.devices@[i]).id@ != device_id@)
                ==> r is None,
    {
        match self.get_device(device_id) {
            Some(device) => {
                let s = match device.device_type {
                    DeviceType::Arduino => "arduino",
                    DeviceType::ESP32 => "arduino",
                    DeviceType::MicroBit => "micropython",
                    DeviceType::RaspberryPiPico => "micropython",
                    DeviceType::Unknown => "arduino",
                };
                proof {
                    assert forall|i: int|
                        0 <= i < self.devices@.len() && (#[trigger] self.devices@[i]).id@
                            == device_id@ implies s@ == recommended_language(
                        self.devices@[i].device_type,
                    ) by {
                        assert(self.devices@[i] == *device);
                    }
                }
                Some(s)
            },
            None => None,
        }
    }

    /// The default baud rate of the device; 9600 when the id is unknown.
    pub fn get_baud_rate(&self, device_id: &str) -> (r: u32)
        requires
            self.wf(),
        ensures
            forall|i: int|
                0 <= i < self.devices@.len() && (#[trigger] self.devices@[i]).id@ == device_id@
                    ==> r == default_baud(self.devices@[i].device_type),
            (forall|i: int|
                0 <= i < self.devices@.len() ==> (#[trigger] self.devices@[i]).id@ != device_id@)
                ==> r == 9600,
    {
        match self.get_device(device_id) {
            Some(device) => {
                let r = match device.device_type {
                    DeviceType::Arduino => 9600,
                    DeviceType::ESP32 => 115200,
                    DeviceType::MicroBit => 115200,
                    DeviceType::RaspberryPiPico => 115200,
                    DeviceType::Unknown => 9600,
                };
                proof {
                    assert forall|i: int|
                        0 <= i < self.devices@.len() && (#[trigger] self.devices@[i]).id@
                            == device_id@ implies r == default_baud(self.devices@[i].device_type)
                        by {
                        assert(self.devices@[i] == *device);
                    }
                }
                r
            },
            None => 9600,
        }
    }

    /// The languages the device supports, by the matrix; empty when unknown.
    pub fn get_supported_languages(&self, device_id: &str) -> (r: Vec<String>)
        requires
            self.wf(),
        ensures
            forall|i: int|
                0 <= i < self.devices@.len() && (#[trigger] self.devices@[i]).id@ == device_id@
                    ==> r@.map_values(|s: String| s@) == languages_of(
                    self.devices@[i].device_type,
                ),
            (forall|i: int|
                0 <= i < self.devices@.len() ==> (#[trigger] self.devices@[i]).id@ != device_id@)
                ==> r@.len() == 0,
    {
        match self.get_device(device_id) {
            Some(device) => {
                let out = type_languages(device.device_type);
                proof {
                    assert forall|i: int|
                        0 <= i < self.devices@.len() && (#[trigger] self.devices@[i]).id@
                            == device_id@ implies out@.map_values(|s: String| s@) == languages_of(
                        self.devices@[i].device_type,
                    ) by {
                        assert(self.devices@[i] == *device);
                    }
                }
                out
            },
            None => Vec::new(),
        }
    }

    /// Whether the device is ready: it carries USB ids and the driver for
    /// that pair is confirmed installed.
    pub fn is_device_ready(&self, device_id: &str) -> (r: bool)
        requires
            self.wf(),
        ensures
            forall|i: int|
                0 <= i < self.devices@.len() && (#[trigger] self.devices@[i]).id@ == device_id@
                    ==> r == (self.devices@[i].vendor_id is Some && self.devices@[i].product_id
                    is Some && self.driver_manager.pair_installed(
                    self.devices@[i].vendor_id.unwrap(),
                    self.devices@[i].product_id.unwrap(),
                )),
            (forall|i: int|
                0 <= i < self.devices@.len() ==> (#[trigger] self.devices@[i]).id@ != device_id@)
                ==> !r,
    {
        let r = match self.get_device(device_id) {
            Some(device) => {
                match (device.vendor_id, device.product_id) {
                    (Some(vid), Some(pid)) => {
                        let (installed, _) = self.driver_manager.check_device_driver(vid, pid);
                        installed
                    },
                    _ => false,
                }
            },
            None => false,
        };
        r
    }
}

/// Whether one device type supports the language, by the support matrix.
pub fn type_supports_language(t: DeviceType, language: &str) -> (r: bool)
    ensures
        r == lang_supported(t, language@),
{
    let arduino = str_eq(language, "arduino");
    let micropython = str_eq(language, "micropython");
    match t {
        DeviceType::Arduino => arduino,
        DeviceType::ESP32 => arduino || micropython,
        DeviceType::MicroBit => micropython,
        DeviceType::RaspberryPiPico => micropython || arduino,
        DeviceType::Unknown => arduino,
    }
}

/// The support-matrix languages of one device type, as strings.
pub fn type_languages(t: DeviceType) -> (r: Vec<String>)
    ensures
        r@.map_values(|s: String| s@) == languages_of(t),
{
    let mut out: Vec<String> = Vec::new();
    match t {
        DeviceType::Arduino => {
            out.push("arduino".to_owned());
        },
        DeviceType::ESP32 => {
            out.push("arduino".to_owned());
            out.push("micropython".to_owned());
        },
        DeviceType::MicroBit => {
            out.push("micropython".to_owned());
        },
        DeviceType::RaspberryPiPico => {
            out.push("micropython".to_owned());
            out.push("arduino".to_owned());
        },
        DeviceType::Unknown => {
            out.push("arduino".to_owned());
        },
    }
    proof {
        assert(out@.map_values(|s: String| s@) =~= languages_of(t));
    }
    out
}

/// The driver key the installer uses for a USB vendor id.
pub open spec fn vendor_key(vendor_id: u16) -> Option<Seq<char>> {
    if vendor_id == 0x1a86 {
        Some("ch340"@)
    } else if vendor_id == 0x2341 {
        Some("arduino_usb"@)
    } else if vendor_id == 0x10c4 {
        Some("cp210x"@)
    } else if vendor_id == 0x0d28 {
        Some("microbit_usb"@)
    } else if vendor_id == 0x2e8a {
        Some("pico_usb"@)
    } else {
        None
    }
}

/// The driver key guessed from a device type when USB ids are missing.
pub open spec fn type_key(t: DeviceType) -> Option<Seq<char>> {
    match t {
        DeviceType::Arduino => Some("ch340"@),
        DeviceType::ESP32 => Some("cp210x"@),
        DeviceType::MicroBit => Some("microbit_usb"@),
        DeviceType::RaspberryPiPico => Some("pico_usb"@),
        DeviceType::Unknown => None,
    }
}

/// What an install request resolves to: nothing to do, a driver key for the
/// caller's installer, or manual guidance.
#[derive(Debug)]
pub enum InstallAction {
    AlreadyInstalled(String),
    RunInstaller(String),
    ManualGuidance(String),
}

impl DeviceDetector {
    /// Applies the captured driver probes and rescans the catalog. Fails
    /// only if the OS port enumeration fails; probe failures degrade to
    /// "not confirmed installed".
    pub fn check_device_drivers(&mut self, outputs: &Vec<crate::driver::ProbeOutput>) -> (r:
        Result<(), DeviceError>)
        requires
            old(self).wf(),
        ensures
            final(self).wf(),
            forall|i: int|
                0 <= i < old(self).driver_manager.drivers@.len() ==> {
                    &&& (#[trigger] final(self).driver_manager.drivers@[i]).0 == old(
                        self,
                    ).driver_manager.drivers@[i].0
                    &&& final(self).driver_manager.drivers@[i].1@
                        == (crate::driver::DriverInfoV {
                        installed: old(self).driver_manager.drivers@[i].1@.installed
                            || crate::driver::any_probe_marks(
                            outputs@,
                            outputs@.len() as int,
                            old(self).driver_manager.drivers@[i].0@,
                        ),
                        ..old(self).driver_manager.drivers@[i].1@
                    })
                },
            match r {
                Ok(()) => catalog_wf(final(self).devices@),
                Err(e) => e is IoFailure && final(self).devices == old(self).devices,
            },
    {
        let _ = self.driver_manager.scan_installed_drivers(outputs);
        proof {
            assert forall|i: int, j: int|
                0 <= i < j < self.driver_manager.drivers@.len() implies self.driver_manager
                .drivers@[i].0@ != self.driver_manager.drivers@[j].0@ by {
                assert(self.driver_manager.drivers@[i].0 == old(
                    self,
                ).driver_manager.drivers@[i].0);
                assert(self.driver_manager.drivers@[j].0 == old(
                    self,
                ).driver_manager.drivers@[j].0);
            }
            assert forall|i: int, j: int|
                0 <= i < j < self.driver_manager.drivers@.len() implies !(self.driver_manager
                .drivers@[i].1.vendor_id == self.driver_manager.drivers@[j].1.vendor_id && self
                .driver_manager.drivers@[i].1.product_id == self.driver_manager
                .drivers@[j].1.product_id) by {
                assert(self.driver_manager.drivers@[i].1@.vendor_id == old(
                    self,
                ).driver_manager.drivers@[i].1@.vendor_id);
                assert(self.driver_manager.drivers@[i].1@.product_id == old(
                    self,
                ).driver_manager.drivers@[i].1@.product_id);
                assert(self.driver_manager.drivers@[j].1@.vendor_id == old(
                    self,
                ).driver_manager.drivers@[j].1@.vendor_id);
                assert(self.driver_manager.drivers@[j].1@.product_id == old(
                    self,
                ).driver_manager.drivers@[j].1@.product_id);
            }
        }
        match self.scan_devices() {
            Ok(_) => Ok(()),
            Err(e) => Err(e),
        }
    }

    /// The driver readiness of one device: whether a driver for its USB id
    /// pair is installed, and the matching catalog entry. Absent when the
    /// device is unknown or carries no USB ids.
    pub fn get_device_driver_info(&self, device_id: &str) -> (r: Option<(
        bool,
        Option<crate::driver::DriverInfo>,
    )>)
        requires
            self.wf(),
        ensures
            match r {
                None => (forall|i: int|
                    0 <= i < self.devices@.len() ==> (#[trigger] self.devices@[i]).id@
                        != device_id@) || (exists|i: int|
                    0 <= i < self.devices@.len() && (#[trigger] self.devices@[i]).id@ == device_id@
                        && (self.devices@[i].vendor_id is None || self.devices@[i].product_id
                        is None)),
                Some((installed, info)) => exists|i: int|
                    {
                        &&& 0 <= i < self.devices@.len()
                        &&& (#[trigger] self.devices@[i]).id@ == device_id@
                        &&& self.devices@[i].vendor_id matches Some(v)
                        &&& self.devices@[i].product_id matches Some(p)
                        &&& match info {
                            Some(d) => {
                                &&& d.vendor_id == v
                                &&& d.product_id == p
                                &&& installed == d.installed
                                &&& exists|k: int|
                                    0 <= k < self.driver_manager.drivers@.len() && (
                                    #[trigger] self.driver_manager.drivers@[k]).1@ == d@
                            },
                            None => !installed && !self.driver_manager.pair_known(v, p),
                        }
                    },
            },
    {
        match self.get_device(device_id) {
            None => None,
            Some(device) => {
                match (device.vendor_id, device.product_id) {
                    (Some(vid), Some(pid)) => {
                        let (installed, info) = self.driver_manager.check_device_driver(vid, pid);
                        let cloned = match info {
                            Some(d) => Some(d.clone()),
                            None => None,
                        };
                        Some((installed, cloned))
                    },
                    _ => None,
                }
            },
        }
    }

    /// The catalog entries of every known driver, in catalog order.
    pub fn get_available_drivers(&self) -> (r: Vec<crate::driver::DriverInfo>)
        ensures
            r@.map_values(|d: crate::driver::DriverInfo| d@) == self.driver_manager.catalog(),
    {
        self.driver_manager.get_all_drivers()
    }

    /// The catalog entries currently marked installed, in catalog order.
    pub fn get_installed_drivers(&self) -> (r: Vec<crate::driver::DriverInfo>)
        ensures
            r@.map_values(|d: crate::driver::DriverInfo| d@) == self.driver_manager.catalog()
                .filter(|dv: crate::driver::DriverInfoV| dv.installed),
    {
        self.driver_manager.get_installed_drivers()
    }

    /// Resolves what installing the device's driver requires: nothing when a
    /// driver for its USB pair is already installed; the catalog key of the
    /// driver to install, picked by vendor id or guessed from the device
    /// type; or manual guidance for an unknown device. `NotFound` exactly
    /// when the device id is unknown, `Unsupported` when the USB vendor has
    /// no known driver key.
    pub fn install_device_driver(&self, device_id: &str) -> (r: Result<InstallAction, DeviceError>)
        requires
            self.wf(),
        ensures
            match r {
                Err(e) => (e is NotFound && forall|i: int|
                    0 <= i < self.devices@.len() ==> (#[trigger] self.devices@[i]).id@
                        != device_id@) || (e is Unsupported && exists|i: int|
                    0 <= i < self.devices@.len() && (#[trigger] self.devices@[i]).id@ == device_id@
                        && (self.devices@[i].vendor_id matches Some(v) && vendor_key(v) is None)),
                Ok(action) => exists|i: int|
                    {
                        &&& 0 <= i < self.devices@.len()
                        &&& (#[trigger] self.devices@[i]).id@ == device_id@
                        &&& match action {
                            InstallAction::AlreadyInstalled(m) => {
                                &&& self.devices@[i].vendor_id matches Some(v)
                                &&& self.devices@[i].product_id matches Some(p)
                                &&& self.driver_manager.pair_installed(v, p)
                                &&& m@ == "device driver already installed"@
                            },
                            InstallAction::RunInstaller(key) => {
                                ||| (self.devices@[i].vendor_id matches Some(v)
                                    && (self.devices@[i].product_id matches Some(p)
                                    && (!self.driver_manager.pair_installed(v, p)
                                    && (self.driver_manager.pair_known(v, p) && (vendor_key(v)
                                    matches Some(k) && key@ == k)))))
                                ||| ((self.devices@[i].vendor_id is None
                                    || self.devices@[i].product_id is None
                                    || !self.driver_manager.pair_known(
                                    self.devices@[i].vendor_id.unwrap(),
                                    self.devices@[i].product_id.unwrap(),
                                )) && (type_key(self.devices@[i].device_type) matches Some(k)
                                    && key@ == k))
                            },
                            InstallAction::ManualGuidance(m) => {
                                &&& self.devices@[i].device_type == DeviceType::Unknown
                                &&& m@
                                    == "unknown device type: try the CH340 driver for Arduino boards or the CP210x driver for ESP32 boards, or let the OS search for a driver"@
                            },
                        }
                    },
            },
    {
        let device = match self.get_device(device_id) {
            None => {
                return Err(
                    DeviceError::NotFound("device not found: ".to_owned().concat(device_id)),
                );
            },
            Some(d) => d,
        };
        if let (Some(vid), Some(pid)) = (device.vendor_id, device.product_id) {
            let (installed, info) = self.driver_manager.check_device_driver(vid, pid);
            if installed {
                return Ok(
                    InstallAction::AlreadyInstalled("device driver already installed".to_owned()),
                );
            }
            if let Some(_) = info {
                let key: &str = if vid == 0x1a86 {
                    "ch340"
                } else if vid == 0x2341 {
                    "arduino_usb"
                } else if vid == 0x10c4 {
                    "cp210x"
                } else if vid == 0x0d28 {
                    "microbit_usb"
                } else if vid == 0x2e8a {
                    "pico_usb"
                } else {
                    return Err(
                        DeviceError::Unsupported(
                            "unsupported device: no driver key for this vendor".to_owned(),
                        ),
                    );
                };
                return Ok(InstallAction::RunInstaller(key.to_owned()));
            }
        }
        match device.device_type {
            DeviceType::Arduino => Ok(InstallAction::RunInstaller("ch340".to_owned())),
            DeviceType::ESP32 => Ok(InstallAction::RunInstaller("cp210x".to_owned())),
            DeviceType::MicroBit => Ok(InstallAction::RunInstaller("microbit_usb".to_owned())),
            DeviceType::RaspberryPiPico => Ok(InstallAction::RunInstaller("pico_usb".to_owned())),
            DeviceType::Unknown => Ok(
                InstallAction::ManualGuidance(
                    "unknown device type: try the CH340 driver for Arduino boards or the CP210x driver for ESP32 boards, or let the OS search for a driver".to_owned(),
                ),
            ),
        }
    }

    /// The composite status of one device: its identity, driver readiness,
    /// and the language support derived from its type. Absent exactly when
    /// the device id is unknown.
    pub fn get_device_status(&self, device_id: &str) -> (r: Option<DeviceStatus>)
        requires
            self.wf(),
        ensures
            match r {
                None => forall|i: int|
                    0 <= i < self.devices@.len() ==> (#[trigger] self.devices@[i]).id@
                        != device_id@,
                Some(st) => exists|i: int|
                    {
                        &&& 0 <= i < self.devices@.len()
                        &&& (#[trigger] self.devices@[i]).id@ == device_id@
                        &&& st.device_info == self.devices@[i]
                        &&& (st.driver_status is Some <==> (self.devices@[i].vendor_id is Some
                            && self.devices@[i].product_id is Some))
                        &&& st.ready == (self.devices@[i].vendor_id is Some
                            && self.devices@[i].product_id is Some
                            && self.driver_manager.pair_installed(
                            self.devices@[i].vendor_id.unwrap(),
                            self.devices@[i].product_id.unwrap(),
                        ))
                        &&& (st.driver_status matches Some(ds) ==> ds.installed == st.ready)
                        &&& (st.recommended_language matches Some(s) && s@ == recommended_language(
                            self.devices@[i].device_type,
                        ))
                        &&& st.supported_languages@.map_values(|s: String| s@) == languages_of(
                            self.devices@[i].device_type,
                        )
                    },
            },
    {
        let device = match self.get_device(device_id) {
            None => {
                return None;
            },
            Some(d) => d,
        };
        let ghost i0 = choose|i: int|
            0 <= i < self.devices@.len() && self.devices@[i] == *device;
        let driver_status = match (device.vendor_id, device.product_id) {
            (Some(vid), Some(pid)) => {
                let (installed, info) = self.driver_manager.check_device_driver(vid, pid);
                let cloned = match info {
                    Some(d) => Some(d.clone()),
                    None => None,
                };
                Some(DriverStatus { installed, driver_info: cloned })
            },
            _ => None,
        };
        let ready = match &driver_status {
            Some(ds) => ds.installed,
            None => false,
        };
        let recommended = match self.get_recommended_language(device_id) {
            Some(s) => Some(s.to_owned()),
            None => None,
        };
        let supported = self.get_supported_languages(device_id);
        proof {
            if self.devices@[i0].vendor_id is Some && self.devices@[i0].product_id is Some {
                if ready {
                } else {
                    if self.driver_manager.pair_installed(
                        self.devices@[i0].vendor_id.unwrap(),
                        self.devices@[i0].product_id.unwrap(),
                    ) {
                        let k = choose|k: int|
                            0 <= k < self.driver_manager.drivers@.len() && (
                            #[trigger] self.driver_manager.drivers@[k]).1.vendor_id
                                == self.devices@[i0].vendor_id.unwrap()
                                && self.driver_manager.drivers@[k].1.product_id
                                == self.devices@[i0].product_id.unwrap()
                                && self.driver_manager.drivers@[k].1.installed;
                        assert(false);
                    }
                }
            }
        }
        Some(
            DeviceStatus {
                device_info: device.clone(),
                driver_status,
                ready,
                recommended_language: recommended,
                supported_languages: supported,
            },
        )
    }
}

/// The two toolchain families an upload can dispatch to.
#[derive(Debug, Clone, Copy, PartialEq, Eq, Structural)]
pub enum UploadFamily {
    Compiled,
    Interpreted,
}

/// Confirms an upload request against the catalog and dispatches it to a
/// toolchain family: the device must exist, its type must support the
/// requested language, and its driver must be confirmed installed —
/// failing fast with `NotFound`, `Unsupported` naming the recommended
/// language, or `NotReady`, in that order.
pub fn plan_upload(detector: &DeviceDetector, options: &UploadOptions) -> (r: Result<
    UploadFamily,
    DeviceError,
>)
    requires
        detector.wf(),
    ensures
        match r {
            Err(e) => {
                ||| (e is NotFound && forall|i: int|
                    0 <= i < detector.devices@.len() ==> (#[trigger] detector.devices@[i]).id@
                        != options.device_id@)
                ||| (e is Unsupported && exists|i: int|
                    0 <= i < detector.devices@.len() && (#[trigger] detector.devices@[i]).id@
                        == options.device_id@ && !lang_supported(
                        detector.devices@[i].device_type,
                        options.language@,
                    ) && e.message_view() == "device "@ + detector.devices@[i].name@
                        + " does not support "@ + options.language@
                        + "; recommended language: "@ + recommended_language(
                        detector.devices@[i].device_type,
                    ))
                ||| (e is NotReady && exists|i: int|
                    0 <= i < detector.devices@.len() && (#[trigger] detector.devices@[i]).id@
                        == options.device_id@ && lang_supported(
                        detector.devices@[i].device_type,
                        options.language@,
                    ) && !(detector.devices@[i].vendor_id is Some
                        && detector.devices@[i].product_id is Some
                        && detector.driver_manager.pair_installed(
                        detector.devices@[i].vendor_id.unwrap(),
                        detector.devices@[i].product_id.unwrap(),
                    )))
            },
            Ok(family) => exists|i: int|
                {
                    &&& 0 <= i < detector.devices@.len()
                    &&& (#[trigger] detector.devices@[i]).id@ == options.device_id@
                    &&& lang_supported(detector.devices@[i].device_type, options.language@)
                    &&& detector.devices@[i].vendor_id is Some
                    &&& detector.devices@[i].product_id is Some
                    &&& detector.driver_manager.pair_installed(
                        detector.devices@[i].vendor_id.unwrap(),
                        detector.devices@[i].product_id.unwrap(),
                    )
                    &&& family == (if options.language@ == "arduino"@ {
                        UploadFamily::Compiled
                    } else {
                        UploadFamily::Interpreted
                    })
                },
        },
{
    let device = match detector.get_device(options.device_id.as_str()) {
        None => {
            return Err(
                DeviceError::NotFound(
                    "device not found: ".to_owned().concat(options.device_id.as_str()),
                ),
            );
        },
        Some(d) => d,
    };
    if !detector.supports_language(options.device_id.as_str(), options.language.as_str()) {
        let ghost i0 = choose|i: int|
            0 <= i < detector.devices@.len() && detector.devices@[i] == *device;
        let recommended = match detector.get_recommended_language(options.device_id.as_str()) {
            Some(s) => s,
            None => {
                proof {
                    assert(detector.devices@[i0].id@ == options.device_id@);
                    assert(false);
                }
                "arduino"
            },
        };
        let message = "device ".to_owned().concat(device.name.as_str()).concat(
            " does not support ",
        ).concat(options.language.as_str()).concat("; recommended language: ").concat(
            recommended,
        );
        proof {
            assert(message@ =~= "device "@ + detector.devices@[i0].name@ + " does not support "@
                + options.language@ + "; recommended language: "@ + recommended_language(
                detector.devices@[i0].device_type,
            ));
        }
        return Err(DeviceError::Unsupported(message));
    }
    if !detector.is_device_ready(options.device_id.as_str()) {
        return Err(
            DeviceError::NotReady(
                "device driver not installed or not ready: ".to_owned().concat(
                    device.name.as_str(),
                ),
            ),
        );
    }
    let arduino = crate::text::str_eq(options.language.as_str(), "arduino");
    if arduino {
        Ok(UploadFamily::Compiled)
    } else {
        Ok(UploadFamily::Interpreted)
    }
}

} // verus!
