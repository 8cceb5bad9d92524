use vstd::prelude::*;
use vstd::string::StringExecFns;
use crate::detector::PortKind;
use crate::detector::PortRecord;
use crate::device::clone_opt_string;
use crate::errors::DeviceError;
use crate::text::str_eq;

verus! {

/// The number of data bits per character a serial link may use.
#[derive(Debug, Clone, Copy, PartialEq, Eq, Structural)]
pub enum DataBits {
    Five,
    Six,
    Seven,
    Eight,
}

/// The number of stop bits a serial link may use.
#[derive(Debug, Clone, Copy, PartialEq, Eq, Structural)]
pub enum StopBits {
    One,
    Two,
}

/// The parity scheme a serial link may use.
#[derive(Debug, Clone, Copy, PartialEq, Eq, Structural)]
pub enum Parity {
    NoParity,
    Odd,
    Even,
}

/// A validated set of serial parameters, ready to be applied to an open
/// connection. Absent fields are left unchanged on the port.
#[derive(Debug, Clone, Copy)]
pub struct SerialParams {
    pub baud_rate: Option<u32>,
    pub data_bits: Option<DataBits>,
    pub stop_bits: Option<StopBits>,
    pub parity: Option<Parity>,
}

/// The data-bits value a raw count names, if it is one of {5, 6, 7, 8}.
pub open spec fn data_bits_of(bits: u8) -> Option<DataBits> {
    if bits == 5 {
        Some(DataBits::Five)
    } else if bits == 6 {
        Some(DataBits::Six)
    } else if bits == 7 {
        Some(DataBits::Seven)
    } else if bits == 8 {
        Some(DataBits::Eight)
    } else {
        None
    }
}

/// The stop-bits value a raw count names, if it is one of {1, 2}.
pub open spec fn stop_bits_of(bits: u8) -> Option<StopBits> {
    if bits == 1 {
        Some(StopBits::One)
    } else if bits == 2 {
        Some(StopBits::Two)
    } else {
        None
    }
}

/// The parity scheme a name picks, if it is one of none, odd, even.
pub open spec fn parity_of(name: Seq<char>) -> Option<Parity> {
    if name == "none"@ {
        Some(Parity::NoParity)
    } else if name == "odd"@ {
        Some(Parity::Odd)
    } else if name == "even"@ {
        Some(Parity::Even)
    } else {
        None
    }
}

/// Validates raw serial parameters before they touch an open connection:
/// data bits outside {5,6,7,8}, stop bits outside {1,2}, or an unknown
/// parity name are rejected with `Unsupported`; absent fields pass through.
pub fn validate_serial_params(
    baud_rate: Option<u32>,
    data_bits: Option<u8>,
    stop_bits: Option<u8>,
    parity: Option<&str>,
) -> (r: Result<SerialParams, DeviceError>)
    ensures
        match r {
            Ok(p) => {
                &&& p.baud_rate == baud_rate
                &&& (match data_bits {
                    Some(b) => data_bits_of(b) is Some && p.data_bits == data_bits_of(b),
                    None => p.data_bits is None,
                })
                &&& (match stop_bits {
                    Some(b) => stop_bits_of(b) is Some && p.stop_bits == stop_bits_of(b),
                    None => p.stop_bits is None,
                })
                &&& (match parity {
                    Some(s) => parity_of(s@) is Some && p.parity == parity_of(s@),
                    None => p.parity is None,
                })
            },
            Err(e) => {
                &&& e is Unsupported
                &&& ((data_bits matches Some(b) && data_bits_of(b) is None) || (stop_bits
                    matches Some(b) && stop_bits_of(b) is None) || (parity matches Some(s)
                    && parity_of(s@) is None))
            },
        },
{
    let db: Option<DataBits> = match data_bits {
        Some(5) => Some(DataBits::Five),
        Some(6) => Some(DataBits::Six),
        Some(7) => Some(DataBits::Seven),
        Some(8) => Some(DataBits::Eight),
        Some(_) => {
            return Err(DeviceError::Unsupported("invalid data bits".to_owned()));
        },
        None => None,
    };
    let sb: Option<StopBits> = match stop_bits {
        Some(1) => Some(StopBits::One),
        Some(2) => Some(StopBits::Two),
        Some(_) => {
            return Err(DeviceError::Unsupported("invalid stop bits".to_owned()));
        },
        None => None,
    };
    let pa: Option<Parity> = match parity {
        Some(s) => {
            if str_eq(s, "none") {
                Some(Parity::NoParity)
            } else if str_eq(s, "odd") {
                Some(Parity::Odd)
            } else if str_eq(s, "even") {
                Some(Parity::Even)
            } else {
                return Err(DeviceError::Unsupported("invalid parity".to_owned()));
            }
        },
        None => None,
    };
    Ok(SerialParams { baud_rate, data_bits: db, stop_bits: sb, parity: pa })
}

/// Accumulates bytes read from a serial line until a line terminator
/// arrives: terminators before any content are skipped, and the first
/// terminator after content completes the line.
#[derive(Debug)]
pub struct LineBuffer {
    pub bytes: Vec<u8>,
}

impl LineBuffer {
    /// An empty accumulator.
    pub fn new() -> (r: LineBuffer)
        ensures
            r.bytes@.len() == 0,
    {
        LineBuffer { bytes: Vec::new() }
    }

    /// Feeds one byte; the result says whether the line is now complete.
    /// A newline or carriage return completes a nonempty line and is
    /// swallowed before one; any other byte is appended.
    pub fn push_byte(&mut self, b: u8) -> (complete: bool)
        ensures
            (b == 10 || b == 13) ==> final(self).bytes@ == old(self).bytes@ && complete == (old(self).bytes@.len() > 0),
            !(b == 10 || b == 13) ==> final(self).bytes@ == old(self).bytes@.push(b) && !complete,
    {
        if b == 10 || b == 13 {
            self.bytes.len() > 0
        } else {
            self.bytes.push(b);
            false
        }
    }

    /// The accumulated bytes, handed out for decoding.
    pub fn take_bytes(self) -> (r: Vec<u8>)
        ensures
            r@ == self.bytes@,
    {
        self.bytes
    }
}

/// The registry of open serial ports: at most one connection per port name.
/// The OS handles themselves live with the caller; the registry is what
/// enforces that a second open of the same port is refused.
pub struct SerialManager {
    pub ports: Vec<(String, u32)>,
}

impl SerialManager {
    /// Port names are unique.
    pub open spec fn wf(self) -> bool {
        forall|i: int, j: int|
            0 <= i < j < self.ports@.len() ==> self.ports@[i].0@ != self.ports@[j].0@
    }

    /// A port with this name is registered as connected.
    pub open spec fn connected(self, port_name: Seq<char>) -> bool {
        exists|i: int| 0 <= i < self.ports@.len() && (#[trigger] self.ports@[i]).0@ == port_name
    }

    /// An empty registry.
    pub fn new() -> (r: SerialManager)
        ensures
            r.wf(),
            r.ports@.len() == 0,
    {
        SerialManager { ports: Vec::new() }
    }

    /// The index of the registered port with this name, if any.
    fn find_port(&self, port_name: &str) -> (r: Option<usize>)
        ensures
            match r {
                Some(i) => 0 <= i < self.ports@.len() && self.ports@[i as int].0@ == port_name@,
                None => forall|i: int|
                    0 <= i < self.ports@.len() ==> (#[trigger] self.ports@[i]).0@ != port_name@,
            },
    {
        let n: usize = self.ports.len();
        let mut i: usize = 0;
        while i < n
            invariant
                n == self.ports@.len(),
                0 <= i <= n,
                forall|k: int| 0 <= k < i ==> (#[trigger] self.ports@[k]).0@ != port_name@,
            decreases n - i,
        {
            if str_eq(self.ports[i].0.as_str(), port_name) {
                return Some(i);
            }
            i += 1;
        }
        None
    }

    /// Registers the port as connected at the given baud rate.
    /// `AlreadyExists` exactly when the port is already registered: a second
    /// open must fail rather than share the handle.
    pub fn connect(&mut self, port_name: &str, baud_rate: u32) -> (r: Result<(), DeviceError>)
        requires
            old(self).wf(),
        ensures
            final(self).wf(),
            match r {
                Ok(()) => {
                    &&& !old(self).connected(port_name@)
                    &&& final(self).ports@.len() == old(self).ports@.len() + 1
                    &&& forall|i: int|
                        0 <= i < old(self).ports@.len() ==> final(self).ports@[i] == old(self).ports@[i]
                    &&& final(self).ports@.last().0@ == port_name@
                    &&& final(self).ports@.last().1 == baud_rate
                    &&& final(self).connected(port_name@)
                },
                Err(e) => {
                    &&& e is AlreadyExists
                    &&& old(self).connected(port_name@)
                    &&& *final(self) == *old(self)
                },
            },
    {
        let ghost pre = self.ports@;
        match self.find_port(port_name) {
            Some(_) => Err(
                DeviceError::AlreadyExists(
                    "port already connected: ".to_owned().concat(port_name),
                ),
            ),
            None => {
                self.ports.push((port_name.to_owned(), baud_rate));
                proof {
                    assert(self.ports@.last().0@ == port_name@);
                    assert forall|a: int, b: int|
                        0 <= a < b < self.ports@.len() implies (#[trigger] self.ports@[a]).0@ != (
                        #[trigger] self.ports@[b]).0@ by {
                        if b < pre.len() {
                            assert(self.ports@[a] == pre[a]);
                            assert(self.ports@[b] == pre[b]);
                        } else {
                            assert(self.ports@[a] == pre[a]);
                            assert(pre[a].0@ != port_name@);
                        }
                    }
                }
                Ok(())
            },
        }
    }

    /// Removes the port from the registry. `NotFound` exactly when it was
    /// not registered.
    pub fn disconnect(&mut self, port_name: &str) -> (r: Result<(), DeviceError>)
        requires
            old(self).wf(),
        ensures
            final(self).wf(),
            match r {
                Ok(()) => {
                    &&& old(self).connected(port_name@)
                    &&& exists|i: int|
                        0 <= i < old(self).ports@.len() && (#[trigger] old(self).ports@[i]).0@
                            == port_name@ && final(self).ports@ == old(self).ports@.remove(i)
                    &&& !final(self).connected(port_name@)
                },
                Err(e) => {
                    &&& e is NotFound
                    &&& !old(self).connected(port_name@)
                    &&& *final(self) == *old(self)
                },
            },
    {
        let ghost pre = self.ports@;
        match self.find_port(port_name) {
            None => Err(
                DeviceError::NotFound("port not connected: ".to_owned().concat(port_name)),
            ),
            Some(i) => {
                self.ports.remove(i);
                proof {
                    assert forall|a: int, b: int|
                        0 <= a < b < self.ports@.len() implies (#[trigger] self.ports@[a]).0@ != (
                        #[trigger] self.ports@[b]).0@ by {
                        let a0 = if a < i as int {
                            a
                        } else {
                            a + 1
                        };
                        let b0 = if b < i as int {
                            b
                        } else {
                            b + 1
                        };
                        assert(self.ports@[a] == pre[a0]);
                        assert(self.ports@[b] == pre[b0]);
                    }
                    assert forall|a: int|
                        0 <= a < self.ports@.len() implies (#[trigger] self.ports@[a]).0@
                        != port_name@ by {
                        if a < i as int {
                            assert(self.ports@[a] == pre[a]);
                            assert(pre[a].0@ != pre[i as int].0@);
                        } else {
                            assert(self.ports@[a] == pre[a + 1]);
                            assert(pre[i as int].0@ != pre[a + 1].0@);
                        }
                    }
                }
                Ok(())
            },
        }
    }

    /// Whether the port is registered as connected.
    pub fn is_connected(&self, port_name: &str) -> (r: bool)
        ensures
            r == self.connected(port_name@),
    {
        match self.find_port(port_name) {
            Some(_) => true,
            None => false,
        }
    }

    /// The names of every registered port, in registry order.
    pub fn connected_ports(&self) -> (r: Vec<String>)
        ensures
            r@.map_values(|s: String| s@) == self.ports@.map_values(|e: (String, u32)| e.0@),
    {
        let n: usize = self.ports.len();
        let mut out: Vec<String> = Vec::new();
        let mut i: usize = 0;
        while i < n
            invariant
                n == self.ports@.len(),
                0 <= i <= n,
                out@.len() == i,
                forall|k: int| 0 <= k < i ==> (#[trigger] out@[k])@ == self.ports@[k].0@,
            decreases n - i,
        {
            out.push(self.ports[i].0.clone());
            i += 1;
        }
        proof {
            assert(out@.map_values(|s: String| s@) =~= self.ports@.map_values(
                |e: (String, u32)| e.0@,
            ));
        }
        out
    }
}

/// One enumerated serial port as reported to the caller, with the hardware
/// type rendered as a short tag.
#[derive(Debug)]
pub struct SerialPortInfo {
    pub port_name: String,
    pub port_type: String,
    pub vid: Option<u16>,
    pub pid: Option<u16>,
    pub serial_number: Option<String>,
    pub manufacturer: Option<String>,
    pub product: Option<String>,
}

/// The short tag for one port kind.
pub open spec fn port_kind_tag(k: PortKind) -> Seq<char> {
    match k {
        PortKind::Usb => "USB"@,
        PortKind::Bluetooth => "Bluetooth"@,
        PortKind::Pci => "PCI"@,
        PortKind::Unknown => "Unknown"@,
    }
}

/// Renders one enumerated port for the caller.
pub fn port_info_of(rec: &PortRecord) -> (r: SerialPortInfo)
    ensures
        r.port_name == rec.port_name,
        r.port_type@ == port_kind_tag(rec.kind),
        r.vid == rec.vendor_id,
        r.pid == rec.product_id,
        r.serial_number == rec.serial_number,
        r.manufacturer == rec.manufacturer,
        r.product == rec.description,
{
    let port_type = match rec.kind {
        PortKind::Usb => "USB".to_owned(),
        PortKind::Bluetooth => "Bluetooth".to_owned(),
        PortKind::Pci => "PCI".to_owned(),
        PortKind::Unknown => "Unknown".to_owned(),
    };
    SerialPortInfo {
        port_name: rec.port_name.clone(),
        port_type,
        vid: rec.vendor_id,
        pid: rec.product_id,
        serial_number: clone_opt_string(&rec.serial_number),
        manufacturer: clone_opt_string(&rec.manufacturer),
        product: clone_opt_string(&rec.description),
    }
}

/// Enumerates the serial ports the OS reports, rendered for the caller.
/// Fails only if the OS enumeration call itself fails.
pub fn list_serial_ports() -> (r: Result<Vec<SerialPortInfo>, DeviceError>)
    ensures
        r matches Err(e) ==> e is IoFailure,
{
    match crate::detector::list_os_ports() {
        Err(e) => Err(
            DeviceError::IoFailure(
                "failed to enumerate serial ports: ".to_owned().concat(e.as_str()),
            ),
        ),
        Ok(records) => {
            let n: usize = records.len();
            let mut out: Vec<SerialPortInfo> = Vec::new();
            let mut i: usize = 0;
            while i < n
                invariant
                    n == records@.len(),
                    0 <= i <= n,
                decreases n - i,
            {
                out.push(port_info_of(&records[i]));
                i += 1;
            }
            Ok(out)
        },
    }
}

/// One attempt to connect a device, as kept in the rolling history.
#[derive(Debug)]
pub struct ConnectionHistory {
    pub device_id: String,
    pub port: String,
    pub timestamp: i64,
    pub success: bool,
    pub error: Option<String>,
}

impl Clone for ConnectionHistory {
    /// An exact copy of the record.
    fn clone(&self) -> (r: Self)
        ensures
            r == *self,
    {
        ConnectionHistory {
            device_id: self.device_id.clone(),
            port: self.port.clone(),
            timestamp: self.timestamp,
            success: self.success,
            error: clone_opt_string(&self.error),
        }
    }
}

/// The rolling log of connection attempts: the most recent hundred entries
/// are kept.
#[derive(Debug)]
pub struct HistoryLog {
    pub entries: Vec<ConnectionHistory>,
}

impl HistoryLog {
    /// The log never holds more than one hundred entries.
    pub open spec fn wf(self) -> bool {
        self.entries@.len() <= 100
    }

    /// An empty log.
    pub fn new() -> (r: HistoryLog)
        ensures
            r.wf(),
            r.entries@.len() == 0,
    {
        HistoryLog { entries: Vec::new() }
    }

    /// Appends one attempt record, dropping the oldest entry once the log
    /// is full.
    pub fn record_connection_history(&mut self, entry: ConnectionHistory)
        requires
            old(self).wf(),
        ensures
            final(self).wf(),
            old(self).entries@.len() < 100 ==> final(self).entries@ == old(self).entries@.push(
                entry,
            ),
            old(self).entries@.len() == 100 ==> final(self).entries@ == old(self).entries@.push(
                entry,
            ).skip(1),
    {
        if self.entries.len() == 100 {
            let ghost pre = self.entries@;
            self.entries.remove(0);
            self.entries.push(entry);
            proof {
                assert(self.entries@ =~= pre.push(entry).skip(1));
            }
        } else {
            self.entries.push(entry);
        }
    }

    /// The attempts recorded for one device id, or the whole log.
    pub fn get_connection_history(&self, device_id: Option<&str>) -> (r: Vec<ConnectionHistory>)
        ensures
            match device_id {
                Some(id) => r@ == self.entries@.filter(
                    |h: ConnectionHistory| h.device_id@ == id@,
                ),
                None => r@ == self.entries@,
            },
    {
        match device_id {
            None => {
                let n: usize = self.entries.len();
                let mut out: Vec<ConnectionHistory> = Vec::new();
                let mut i: usize = 0;
                while i < n
                    invariant
                        n == self.entries@.len(),
                        0 <= i <= n,
                        out@ == self.entries@.take(i as int),
                    decreases n - i,
                {
                    out.push(self.entries[i].clone());
                    proof {
                        assert(out@ =~= self.entries@.take(i + 1));
                    }
                    i += 1;
                }
                proof {
                    assert(self.entries@.take(n as int) =~= self.entries@);
                }
                out
            },
            Some(id) => {
                let ghost pred = |h: ConnectionHistory| h.device_id@ == id@;
                let n: usize = self.entries.len();
                let mut out: Vec<ConnectionHistory> = Vec::new();
                let mut i: usize = 0;
                while i < n
                    invariant
                        n == self.entries@.len(),
                        pred == (|h: ConnectionHistory| h.device_id@ == id@),
                        0 <= i <= n,
                        out@ == self.entries@.take(i as int).filter(pred),
                    decreases n - i,
                {
                    proof {
                        reveal(Seq::filter);
                        assert(self.entries@.take(i + 1).drop_last() =~= self.entries@.take(
                            i as int,
                        ));
                        assert(self.entries@.take(i + 1).last() == self.entries@[i as int]);
                    }
                    if str_eq(self.entries[i].device_id.as_str(), id) {
                        out.push(self.entries[i].clone());
                    }
                    i += 1;
                }
                proof {
                    assert(self.entries@.take(n as int) =~= self.entries@);
                }
                out
            },
        }
    }
}

} // verus!
