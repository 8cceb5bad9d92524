use vstd::prelude::*;
use vstd::string::StringExecFns;
use crate::clock;
use crate::text::dec_str;
use crate::text::u64_to_string;

verus! {

/// The closed set of board families the library knows how to handle.
#[derive(Debug, Clone, Copy, PartialEq, Eq, Hash, Structural)]
pub enum DeviceType {
    Arduino,
    MicroBit,
    ESP32,
    RaspberryPiPico,
    Unknown,
}

/// The classification table: an exact (vendor id, product id) lookup.
/// Pairs absent from the table, or missing ids, classify as `Unknown`.
pub open spec fn classify(vendor_id: Option<u16>, product_id: Option<u16>) -> DeviceType {
    if vendor_id == Some(0x2341u16) && product_id == Some(0x0043u16) {
        DeviceType::Arduino
    } else if vendor_id == Some(0x2341u16) && product_id == Some(0x0001u16) {
        DeviceType::Arduino
    } else if vendor_id == Some(0x1a86u16) && product_id == Some(0x7523u16) {
        DeviceType::Arduino
    } else if vendor_id == Some(0x0d28u16) && product_id == Some(0x0204u16) {
        DeviceType::MicroBit
    } else if vendor_id == Some(0x10c4u16) && product_id == Some(0xea60u16) {
        DeviceType::ESP32
    } else if vendor_id == Some(0x303au16) && product_id == Some(0x1001u16) {
        DeviceType::ESP32
    } else if vendor_id == Some(0x2e8au16) && product_id == Some(0x0005u16) {
        DeviceType::RaspberryPiPico
    } else if vendor_id == Some(0x2e8au16) && product_id == Some(0x000au16) {
        DeviceType::RaspberryPiPico
    } else {
        DeviceType::Unknown
    }
}

/// The display-name prefix used for boards of one type.
pub open spec fn name_prefix(t: DeviceType) -> Seq<char> {
    match t {
        DeviceType::Arduino => "Arduino on "@,
        DeviceType::MicroBit => "micro:bit on "@,
        DeviceType::ESP32 => "ESP32 on "@,
        DeviceType::RaspberryPiPico => "Raspberry Pi Pico on "@,
        DeviceType::Unknown => "Unknown Device on "@,
    }
}

/// The display name of a board of type `t` attached at `port`.
pub open spec fn device_name_view(t: DeviceType, port: Seq<char>) -> Seq<char> {
    name_prefix(t) + port
}

/// The generated id of a device discovered at `port` in a scan stamped `timestamp`.
pub open spec fn device_id_view(port: Seq<char>, timestamp: nat) -> Seq<char> {
    port + seq!['_'] + dec_str(timestamp)
}

/// The view of an optional string, as an optional character sequence.
pub open spec fn opt_str_view(o: Option<String>) -> Option<Seq<char>> {
    match o {
        Some(s) => Some(s@),
        None => None,
    }
}

/// Identity of one physically distinct attached board, built fresh on every scan.
#[derive(Debug)]
pub struct DeviceInfo {
    pub id: String,
    pub name: String,
    pub device_type: DeviceType,
    pub port: String,
    pub vendor_id: Option<u16>,
    pub product_id: Option<u16>,
    pub manufacturer: Option<String>,
    pub description: Option<String>,
    pub connected: bool,
}

/// An upload job request.
#[derive(Debug)]
pub struct UploadOptions {
    pub device_id: String,
    pub code: String,
    pub language: String,
    pub board_type: String,
}

/// The mathematical model of one catalog entry.
#[verifier::ext_equal]
pub ghost struct DeviceInfoV {
    pub id: Seq<char>,
    pub name: Seq<char>,
    pub device_type: DeviceType,
    pub port: Seq<char>,
    pub vendor_id: Option<u16>,
    pub product_id: Option<u16>,
    pub manufacturer: Option<Seq<char>>,
    pub description: Option<Seq<char>>,
    pub connected: bool,
}

impl View for DeviceInfo {
    type V = DeviceInfoV;

    open spec fn view(&self) -> DeviceInfoV {
        DeviceInfoV {
            id: self.id@,
            name: self.name@,
            device_type: self.device_type,
            port: self.port@,
            vendor_id: self.vendor_id,
            product_id: self.product_id,
            manufacturer: opt_str_view(self.manufacturer),
            description: opt_str_view(self.description),
            connected: self.connected,
        }
    }
}

impl Clone for DeviceInfo {
    /// An exact copy of the record.
    fn clone(&self) -> (r: Self)
        ensures
            r == *self,
    {
        DeviceInfo {
            id: self.id.clone(),
            name: self.name.clone(),
            device_type: self.device_type,
            port: self.port.clone(),
            vendor_id: self.vendor_id,
            product_id: self.product_id,
            manufacturer: clone_opt_string(&self.manufacturer),
            description: clone_opt_string(&self.description),
            connected: self.connected,
        }
    }
}

impl Clone for UploadOptions {
    /// An exact copy of the request.
    fn clone(&self) -> (r: Self)
        ensures
            r == *self,
    {
        UploadOptions {
            device_id: self.device_id.clone(),
            code: self.code.clone(),
            language: self.language.clone(),
            board_type: self.board_type.clone(),
        }
    }
}

/// An exact copy of an optional string.
pub fn clone_opt_string(s: &Option<String>) -> (r: Option<String>)
    ensures
        r == *s,
{
    match s {
        Some(v) => Some(v.clone()),
        None => None,
    }
}

impl DeviceInfo {
    /// A fresh record for a board at `port`, stamped with the current time.
    pub fn new(port: String, vendor_id: Option<u16>, product_id: Option<u16>) -> (r: DeviceInfo)
        ensures
            exists|ts: nat| r.id@ == device_id_view(port@, ts),
            r.name@ == device_name_view(classify(vendor_id, product_id), port@),
            r.device_type == classify(vendor_id, product_id),
            r.port == port,
            r.vendor_id == vendor_id,
            r.product_id == product_id,
            r.manufacturer is None,
            r.description is None,
            !r.connected,
    {
        let t = clock::now_seconds();
        let ts: u64 = if t < 0 {
            0
        } else {
            t as u64
        };
        Self::new_at(port, vendor_id, product_id, ts)
    }

    /// A fresh record for a board at `port`, stamped with the given scan time.
    pub fn new_at(port: String, vendor_id: Option<u16>, product_id: Option<u16>, timestamp: u64) -> (r: DeviceInfo)
        ensures
            r.id@ == device_id_view(port@, timestamp as nat),
            r.name@ == device_name_view(classify(vendor_id, product_id), port@),
            r.device_type == classify(vendor_id, product_id),
            r.port == port,
            r.vendor_id == vendor_id,
            r.product_id == product_id,
            r.manufacturer is None,
            r.description is None,
            !r.connected,
    {
        let device_type = Self::detect_device_type(vendor_id, product_id);
        let name = Self::generate_device_name(device_type, port.as_str());
        let stamp = u64_to_string(timestamp);
        let id = port.clone().concat("_").concat(stamp.as_str());
        proof {
            reveal_strlit("_");
            assert(id@ =~= device_id_view(port@, timestamp as nat));
        }
        DeviceInfo {
            id,
            name,
            device_type,
            port,
            vendor_id,
            product_id,
            manufacturer: None,
            description: None,
            connected: false,
        }
    }

    /// Classification of a board from its USB ids, by the exact lookup table.
    pub fn detect_device_type(vendor_id: Option<u16>, product_id: Option<u16>) -> (r: DeviceType)
        ensures
            r == classify(vendor_id, product_id),
    {
        match (vendor_id, product_id) {
            (Some(0x2341u16), Some(0x0043u16)) => DeviceType::Arduino,
            (Some(0x2341u16), Some(0x0001u16)) => DeviceType::Arduino,
            (Some(0x1a86u16), Some(0x7523u16)) => DeviceType::Arduino,
            (Some(0x0d28u16), Some(0x0204u16)) => DeviceType::MicroBit,
            (Some(0x10c4u16), Some(0xea60u16)) => DeviceType::ESP32,
            (Some(0x303au16), Some(0x1001u16)) => DeviceType::ESP32,
            (Some(0x2e8au16), Some(0x0005u16)) => DeviceType::RaspberryPiPico,
            (Some(0x2e8au16), Some(0x000au16)) => DeviceType::RaspberryPiPico,
            _ => DeviceType::Unknown,
        }
    }

    /// The display name of a board of type `device_type` attached at `port`.
    pub fn generate_device_name(device_type: DeviceType, port: &str) -> (r: String)
        ensures
            r@ == device_name_view(device_type, port@),
    {
        match device_type {
            DeviceType::Arduino => "Arduino on ".to_owned().concat(port),
            DeviceType::MicroBit => "micro:bit on ".to_owned().concat(port),
            DeviceType::ESP32 => "ESP32 on ".to_owned().concat(port),
            DeviceType::RaspberryPiPico => "Raspberry Pi Pico on ".to_owned().concat(port),
            DeviceType::Unknown => "Unknown Device on ".to_owned().concat(port),
        }
    }
}

} // verus!
