use vstd::prelude::*;
use vstd::string::StringExecFns;
use vstd::string::StringSliceAdditionalSpecFns;
use vstd::utf8::encode_utf8;
use crate::device::DeviceType;
use crate::device::UploadOptions;
use crate::errors::DeviceError;
use crate::text::contains_bytes;
use crate::text::contains_pattern;
use crate::text::contains_pattern_exact;
use crate::text::dec_str;
use crate::text::has_prefix;
use crate::text::lower_bytes;
use crate::text::starts_with_bytes;
use crate::text::u64_to_string;

verus! {

/// A static board definition used by the uploader: the compiler toolchain's
/// board identifier, the upload protocol, speed and extra flags.
#[derive(Debug)]
pub struct BoardConfig {
    pub name: String,
    pub fqbn: String,
    pub upload_protocol: String,
    pub upload_speed: u32,
    pub extra_flags: Vec<String>,
}

/// The mathematical model of one board definition.
#[verifier::ext_equal]
pub ghost struct BoardConfigV {
    pub name: Seq<char>,
    pub fqbn: Seq<char>,
    pub upload_protocol: Seq<char>,
    pub upload_speed: u32,
    pub extra_flags: Seq<Seq<char>>,
}

impl View for BoardConfig {
    type V = BoardConfigV;

    open spec fn view(&self) -> BoardConfigV {
        BoardConfigV {
            name: self.name@,
            fqbn: self.fqbn@,
            upload_protocol: self.upload_protocol@,
            upload_speed: self.upload_speed,
            extra_flags: self.extra_flags@.map_values(|s: String| s@),
        }
    }
}

/// An exact copy of a list of strings, element views preserved.
pub fn clone_strings(v: &Vec<String>) -> (r: Vec<String>)
    ensures
        r@ == v@,
{
    let n: usize = v.len();
    let mut out: Vec<String> = Vec::new();
    let mut i: usize = 0;
    while i < n
        invariant
            n == v@.len(),
            0 <= i <= n,
            out@ == v@.take(i as int),
        decreases n - i,
    {
        out.push(v[i].clone());
        proof {
            assert(out@ =~= v@.take(i + 1));
        }
        i += 1;
    }
    proof {
        assert(v@.take(n as int) =~= v@);
    }
    out
}

impl Clone for BoardConfig {
    /// A copy whose model equals the original's.
    fn clone(&self) -> (r: Self)
        ensures
            r@ == self@,
    {
        let flags = clone_strings(&self.extra_flags);
        let r = BoardConfig {
            name: self.name.clone(),
            fqbn: self.fqbn.clone(),
            upload_protocol: self.upload_protocol.clone(),
            upload_speed: self.upload_speed,
            extra_flags: flags,
        };
        proof {
            assert(r@ =~= self@);
        }
        r
    }
}

/// The board `c` has the given name, board id, protocol and speed.
pub open spec fn board_is(
    c: BoardConfig,
    name: Seq<char>,
    fqbn: Seq<char>,
    upload_protocol: Seq<char>,
    upload_speed: u32,
) -> bool {
    &&& c@.name == name
    &&& c@.fqbn == fqbn
    &&& c@.upload_protocol == upload_protocol
    &&& c@.upload_speed == upload_speed
}

/// The file-push tools for interpreted uploads, in fallback priority order.
#[derive(Debug, Clone, Copy, PartialEq, Eq, Structural)]
pub enum PushTool {
    Mpremote,
    Ampy,
    Rshell,
}

/// Which compiled-family toolchain an upload will use: the primary CLI
/// compiler/uploader, or the secondary build-system fallback.
#[derive(Debug, Clone, Copy, PartialEq, Eq, Structural)]
pub enum ArduinoToolchain {
    ArduinoCli,
    PlatformIo,
}

/// Which upload tools the host has installed, as probed by the caller.
#[derive(Debug, Clone, Copy)]
pub struct ToolAvailability {
    pub arduino_cli: bool,
    pub platformio: bool,
    pub mpremote: bool,
    pub ampy: bool,
    pub rshell: bool,
    pub esptool: bool,
}

/// The plan for one compiled-family upload: which board definition to use
/// and which toolchain to run. Compilation must succeed before any upload
/// is attempted.
#[derive(Debug)]
pub struct ArduinoUploadPlan {
    pub board: BoardConfig,
    pub toolchain: ArduinoToolchain,
}

/// The plan for one interpreted-family upload: which file-push tool to run.
#[derive(Debug)]
pub struct MicroPythonUploadPlan {
    pub tool: PushTool,
}

/// The device type named by a free-form board string, matched
/// case-insensitively in this order: an Arduino name, an ESP32 name, a
/// micro:bit name, a Pico name.
pub open spec fn parsed_device_type(board_type: Seq<char>) -> Option<DeviceType> {
    let b = lower_bytes(encode_utf8(board_type));
    if contains_bytes(b, "arduino".spec_bytes()) {
        Some(DeviceType::Arduino)
    } else if contains_bytes(b, "esp32".spec_bytes()) {
        Some(DeviceType::ESP32)
    } else if contains_bytes(b, "microbit".spec_bytes()) || contains_bytes(
        b,
        "micro:bit".spec_bytes(),
    ) {
        Some(DeviceType::MicroBit)
    } else if contains_bytes(b, "pico".spec_bytes()) {
        Some(DeviceType::RaspberryPiPico)
    } else {
        None
    }
}

/// The platform name the secondary build system uses for a board id.
pub open spec fn platform_for(fqbn: Seq<char>) -> Seq<char> {
    if has_prefix(encode_utf8(fqbn), "arduino:avr".spec_bytes()) {
        "atmelavr"@
    } else if has_prefix(encode_utf8(fqbn), "esp32:".spec_bytes()) {
        "espressif32"@
    } else if has_prefix(encode_utf8(fqbn), "rp2040:".spec_bytes()) {
        "raspberrypi"@
    } else {
        "arduino"@
    }
}

/// The board name the secondary build system uses for a board id.
pub open spec fn pio_board_for(fqbn: Seq<char>) -> Seq<char> {
    let b = encode_utf8(fqbn);
    if contains_bytes(b, "uno".spec_bytes()) {
        "uno"@
    } else if contains_bytes(b, "nano".spec_bytes()) {
        "nanoatmega328"@
    } else if contains_bytes(b, "esp32".spec_bytes()) {
        "esp32dev"@
    } else if contains_bytes(b, "rpipico".spec_bytes()) {
        "pico"@
    } else {
        "uno"@
    }
}

/// The project descriptor text the secondary build system is given: its
/// platform and board derived from the board id, the upload port, and the
/// upload speed.
pub open spec fn pio_descriptor(fqbn: Seq<char>, port: Seq<char>, speed: u32) -> Seq<char> {
    "[env:default]\nplatform = "@ + platform_for(fqbn) + "\nboard = "@ + pio_board_for(fqbn)
        + "\nupload_port = "@ + port + "\nupload_speed = "@ + dec_str(speed as nat)
        + "\nmonitor_speed = 9600\n"@
}

/// Dispatches compiled and interpreted uploads: holds the per-device-type
/// board definitions and selects toolchains in their fallback order.
pub struct DeviceUploader {
    pub board_configs: Vec<(DeviceType, Vec<BoardConfig>)>,
}

impl DeviceUploader {
    /// Each device type has at most one entry in the board table.
    pub open spec fn wf(self) -> bool {
        forall|i: int, j: int|
            0 <= i < j < self.board_configs@.len() ==> self.board_configs@[i].0
                != self.board_configs@[j].0
    }

    /// An uploader holding the static board table: three Arduino boards,
    /// two ESP32 boards, the micro:bit, and the Pico.
    pub fn new() -> (r: DeviceUploader)
        ensures
            r.wf(),
            r.board_configs@.len() == 4,
            r.board_configs@[0].0 == DeviceType::Arduino,
            r.board_configs@[0].1@.len() == 3,
            board_is(
                r.board_configs@[0].1@[0],
                "Arduino Uno"@,
                "arduino:avr:uno"@,
                "arduino"@,
                115200,
            ),
            board_is(
                r.board_configs@[0].1@[1],
                "Arduino Nano"@,
                "arduino:avr:nano"@,
                "arduino"@,
                57600,
            ),
            board_is(
                r.board_configs@[0].1@[2],
                "Arduino Leonardo"@,
                "arduino:avr:leonardo"@,
                "avr109"@,
                57600,
            ),
            r.board_configs@[1].0 == DeviceType::ESP32,
            r.board_configs@[1].1@.len() == 2,
            board_is(
                r.board_configs@[1].1@[0],
                "ESP32 Dev Module"@,
                "esp32:esp32:esp32"@,
                "esptool"@,
                921600,
            ),
            board_is(
                r.board_configs@[1].1@[1],
                "ESP32-S2"@,
                "esp32:esp32:esp32s2"@,
                "esptool"@,
                460800,
            ),
            r.board_configs@[2].0 == DeviceType::MicroBit,
            r.board_configs@[2].1@.len() == 1,
            board_is(r.board_configs@[2].1@[0], "BBC micro:bit"@, "microbit"@, "copy"@, 115200),
            r.board_configs@[3].0 == DeviceType::RaspberryPiPico,
            r.board_configs@[3].1@.len() == 1,
            board_is(
                r.board_configs@[3].1@[0],
                "Raspberry Pi Pico"@,
                "rp2040:rp2040:rpipico"@,
                "picotool"@,
                115200,
            ),
            forall|j: int|
                0 <= j < 2 ==> (#[trigger] r.board_configs@[1].1@[j])@.extra_flags == seq![
                    "--before=default_reset"@,
                    "--after=hard_reset"@,
                ],
            r.board_configs@[0].1@[0]@.extra_flags.len() == 0,
            r.board_configs@[2].1@[0]@.extra_flags.len() == 0,
            r.board_configs@[3].1@[0]@.extra_flags.len() == 0,
    {
        let mut arduino: Vec<BoardConfig> = Vec::new();
        arduino.push(BoardConfig {
            name: "Arduino Uno".to_owned(),
            fqbn: "arduino:avr:uno".to_owned(),
            upload_protocol: "arduino".to_owned(),
            upload_speed: 115200,
            extra_flags: Vec::new(),
        });
        arduino.push(BoardConfig {
            name: "Arduino Nano".to_owned(),
            fqbn: "arduino:avr:nano".to_owned(),
            upload_protocol: "arduino".to_owned(),
            upload_speed: 57600,
            extra_flags: Vec::new(),
        });
        arduino.push(BoardConfig {
            name: "Arduino Leonardo".to_owned(),
            fqbn: "arduino:avr:leonardo".to_owned(),
            upload_protocol: "avr109".to_owned(),
            upload_speed: 57600,
            extra_flags: Vec::new(),
        });
        let mut esp32: Vec<BoardConfig> = Vec::new();
        esp32.push(BoardConfig {
            name: "ESP32 Dev Module".to_owned(),
            fqbn: "esp32:esp32:esp32".to_owned(),
            upload_protocol: "esptool".to_owned(),
            upload_speed: 921600,
            extra_flags: vec!["--before=default_reset".to_owned(), "--after=hard_reset".to_owned()],
        });
        esp32.push(BoardConfig {
            name: "ESP32-S2".to_owned(),
            fqbn: "esp32:esp32:esp32s2".to_owned(),
            upload_protocol: "esptool".to_owned(),
            upload_speed: 460800,
            extra_flags: vec!["--before=default_reset".to_owned(), "--after=hard_reset".to_owned()],
        });
        let mut microbit: Vec<BoardConfig> = Vec::new();
        microbit.push(BoardConfig {
            name: "BBC micro:bit".to_owned(),
            fqbn: "microbit".to_owned(),
            upload_protocol: "copy".to_owned(),
            upload_speed: 115200,
            extra_flags: Vec::new(),
        });
        let mut pico: Vec<BoardConfig> = Vec::new();
        pico.push(BoardConfig {
            name: "Raspberry Pi Pico".to_owned(),
            fqbn: "rp2040:rp2040:rpipico".to_owned(),
            upload_protocol: "picotool".to_owned(),
            upload_speed: 115200,
            extra_flags: Vec::new(),
        });
        let mut board_configs: Vec<(DeviceType, Vec<BoardConfig>)> = Vec::new();
        board_configs.push((DeviceType::Arduino, arduino));
        board_configs.push((DeviceType::ESP32, esp32));
        board_configs.push((DeviceType::MicroBit, microbit));
        board_configs.push((DeviceType::RaspberryPiPico, pico));
        let r = DeviceUploader { board_configs };
        proof {
            assert forall|j: int|
                0 <= j < 2 implies (#[trigger] r.board_configs@[1].1@[j])@.extra_flags == seq![
                "--before=default_reset"@,
                "--after=hard_reset"@,
            ] by {
                assert(r.board_configs@[1].1@[j]@.extra_flags =~= seq![
                    "--before=default_reset"@,
                    "--after=hard_reset"@,
                ]);
            }
        }
        r
    }

    /// The board definitions for one device type; empty when the table has
    /// none.
    pub fn get_board_configs(&self, device_type: &DeviceType) -> (r: Vec<BoardConfig>)
        requires
            self.wf(),
        ensures
            forall|k: int|
                0 <= k < self.board_configs@.len() && (#[trigger] self.board_configs@[k]).0
                    == *device_type ==> r@.map_values(|c: BoardConfig| c@)
                    == self.board_configs@[k].1@.map_values(|c: BoardConfig| c@),
            (forall|k: int|
                0 <= k < self.board_configs@.len() ==> (#[trigger] self.board_configs@[k]).0
                    != *device_type) ==> r@.len() == 0,
    {
        let n: usize = self.board_configs.len();
        let mut i: usize = 0;
        while i < n
            invariant
                self.wf(),
                n == self.board_configs@.len(),
                0 <= i <= n,
                forall|k: int|
                    0 <= k < i ==> (#[trigger] self.board_configs@[k]).0 != *device_type,
            decreases n - i,
        {
            if self.board_configs[i].0 == *device_type {
                let list = &self.board_configs[i].1;
                let m: usize = list.len();
                let mut out: Vec<BoardConfig> = Vec::new();
                let mut j: usize = 0;
                while j < m
                    invariant
                        m == list@.len(),
                        0 <= j <= m,
                        out@.len() == j,
                        forall|a: int| 0 <= a < j ==> (#[trigger] out@[a])@ == list@[a]@,
                    decreases m - j,
                {
                    out.push(list[j].clone());
                    j += 1;
                }
                proof {
                    assert(out@.map_values(|c: BoardConfig| c@) =~= list@.map_values(
                        |c: BoardConfig| c@,
                    ));
                    assert forall|k: int|
                        0 <= k < self.board_configs@.len() && (#[trigger] self.board_configs@[
                        k
                    ]).0 == *device_type implies out@.map_values(|c: BoardConfig| c@)
                        == self.board_configs@[k].1@.map_values(|c: BoardConfig| c@) by {
                        if k != i as int {
                            assert(self.board_configs@[k].0 != self.board_configs@[i as int].0);
                        }
                    }
                }
                return out;
            }
            i += 1;
        }
        Vec::new()
    }

    /// The device type named by a free-form board string; `Unsupported`
    /// exactly when no known family name occurs in it.
    pub fn parse_device_type(&self, board_type: &str) -> (r: Result<DeviceType, DeviceError>)
        ensures
            match r {
                Ok(t) => parsed_device_type(board_type@) == Some(t),
                Err(e) => e is Unsupported && parsed_device_type(board_type@) is None,
            },
    {
        let b = board_type.as_bytes();
        if contains_pattern(b, "arduino".as_bytes()) {
            Ok(DeviceType::Arduino)
        } else if contains_pattern(b, "esp32".as_bytes()) {
            Ok(DeviceType::ESP32)
        } else if contains_pattern(b, "microbit".as_bytes()) || contains_pattern(
            b,
            "micro:bit".as_bytes(),
        ) {
            Ok(DeviceType::MicroBit)
        } else if contains_pattern(b, "pico".as_bytes()) {
            Ok(DeviceType::RaspberryPiPico)
        } else {
            Err(
                DeviceError::Unsupported(
                    "unsupported device type: ".to_owned().concat(board_type),
                ),
            )
        }
    }

    /// The first board definition for the device type; `NotFound` exactly
    /// when the table has no entry or an empty list for it.
    pub fn get_default_board_config(&self, device_type: &DeviceType) -> (r: Result<
        BoardConfig,
        DeviceError,
    >)
        requires
            self.wf(),
        ensures
            match r {
                Ok(c) => exists|k: int|
                    0 <= k < self.board_configs@.len() && (#[trigger] self.board_configs@[k]).0
                        == *device_type && self.board_configs@[k].1@.len() > 0 && c@
                        == self.board_configs@[k].1@[0]@,
                Err(e) => e is NotFound && forall|k: int|
                    0 <= k < self.board_configs@.len() ==> ((#[trigger] self.board_configs@[k]).0
                        != *device_type || self.board_configs@[k].1@.len() == 0),
            },
    {
        let n: usize = self.board_configs.len();
        let mut i: usize = 0;
        while i < n
            invariant
                self.wf(),
                n == self.board_configs@.len(),
                0 <= i <= n,
                forall|k: int|
                    0 <= k < i ==> (#[trigger] self.board_configs@[k]).0 != *device_type,
            decreases n - i,
        {
            if self.board_configs[i].0 == *device_type {
                if self.board_configs[i].1.len() > 0 {
                    return Ok(self.board_configs[i].1[0].clone());
                } else {
                    return Err(
                        DeviceError::NotFound("no board configuration for device type".to_owned()),
                    );
                }
            }
            i += 1;
        }
        Err(DeviceError::NotFound("no board configuration for device type".to_owned()))
    }

    /// Plans one compiled-family upload: resolves the board from the
    /// requested board string and picks the primary CLI toolchain when it is
    /// installed, else the secondary build-system fallback — before any
    /// error can come from running either.
    pub fn upload_arduino_code(&self, options: &UploadOptions, arduino_cli_available: bool) -> (r:
        Result<ArduinoUploadPlan, DeviceError>)
        requires
            self.wf(),
        ensures
            match r {
                Ok(plan) => {
                    &&& plan.toolchain == (if arduino_cli_available {
                        ArduinoToolchain::ArduinoCli
                    } else {
                        ArduinoToolchain::PlatformIo
                    })
                    &&& exists|t: DeviceType|
                        #![auto]
                        parsed_device_type(options.board_type@) == Some(t) && exists|k: int|
                            0 <= k < self.board_configs@.len() && (#[trigger] self.board_configs@[
                                k
                            ]).0 == t && self.board_configs@[k].1@.len() > 0 && plan.board@
                                == self.board_configs@[k].1@[0]@
                },
                Err(e) => {
                    ||| (e is Unsupported && parsed_device_type(options.board_type@) is None)
                    ||| (e is NotFound && (parsed_device_type(options.board_type@) matches Some(t)
                        && forall|k: int|
                            0 <= k < self.board_configs@.len() ==> ((
                            #[trigger] self.board_configs@[k]).0 != t
                                || self.board_configs@[k].1@.len() == 0)))
                },
            },
    {
        let device_type = match self.parse_device_type(self.board_type_of(options)) {
            Ok(t) => t,
            Err(e) => {
                return Err(e);
            },
        };
        let board = match self.get_default_board_config(&device_type) {
            Ok(c) => c,
            Err(e) => {
                return Err(e);
            },
        };
        let toolchain = if arduino_cli_available {
            ArduinoToolchain::ArduinoCli
        } else {
            ArduinoToolchain::PlatformIo
        };
        Ok(ArduinoUploadPlan { board, toolchain })
    }

    /// The board string of an upload request.
    fn board_type_of<'a>(&self, options: &'a UploadOptions) -> (r: &'a str)
        ensures
            r@ == options.board_type@,
    {
        options.board_type.as_str()
    }

    /// Plans one interpreted-family upload: the first installed file-push
    /// tool in the fixed priority order; `ToolMissing`, naming all three
    /// tools, exactly when none of them is installed.
    pub fn upload_micropython_code(&self, options: &UploadOptions, tools: &ToolAvailability) -> (r:
        Result<MicroPythonUploadPlan, DeviceError>)
        ensures
            match r {
                Ok(plan) => plan.tool == (if tools.mpremote {
                    PushTool::Mpremote
                } else if tools.ampy {
                    PushTool::Ampy
                } else {
                    PushTool::Rshell
                }) && (tools.mpremote || tools.ampy || tools.rshell),
                Err(e) => {
                    &&& e is ToolMissing
                    &&& !tools.mpremote
                    &&& !tools.ampy
                    &&& !tools.rshell
                    &&& e.message_view()
                        == "MicroPython upload tool not found (mpremote, ampy, rshell)"@
                },
            },
    {
        if tools.mpremote {
            Ok(MicroPythonUploadPlan { tool: PushTool::Mpremote })
        } else if tools.ampy {
            Ok(MicroPythonUploadPlan { tool: PushTool::Ampy })
        } else if tools.rshell {
            Ok(MicroPythonUploadPlan { tool: PushTool::Rshell })
        } else {
            Err(
                DeviceError::ToolMissing(
                    "MicroPython upload tool not found (mpremote, ampy, rshell)".to_owned(),
                ),
            )
        }
    }

    /// The secondary build system's platform name for a board id.
    pub fn get_platform_for_board<'a>(&self, fqbn: &'a str) -> (r: &'static str)
        ensures
            r@ == platform_for(fqbn@),
    {
        let b = fqbn.as_bytes();
        if starts_with_bytes(b, "arduino:avr".as_bytes()) {
            "atmelavr"
        } else if starts_with_bytes(b, "esp32:".as_bytes()) {
            "espressif32"
        } else if starts_with_bytes(b, "rp2040:".as_bytes()) {
            "raspberrypi"
        } else {
            "arduino"
        }
    }

    /// The secondary build system's board name for a board id.
    pub fn get_board_for_fqbn<'a>(&self, fqbn: &'a str) -> (r: &'static str)
        ensures
            r@ == pio_board_for(fqbn@),
    {
        let b = fqbn.as_bytes();
        if contains_pattern_exact(b, "uno".as_bytes()) {
            "uno"
        } else if contains_pattern_exact(b, "nano".as_bytes()) {
            "nanoatmega328"
        } else if contains_pattern_exact(b, "esp32".as_bytes()) {
            "esp32dev"
        } else if contains_pattern_exact(b, "rpipico".as_bytes()) {
            "pico"
        } else {
            "uno"
        }
    }

    /// The project descriptor handed to the secondary build system.
    pub fn generate_platformio_ini(&self, board_config: &BoardConfig, port: &str) -> (r: String)
        ensures
            r@ == pio_descriptor(board_config.fqbn@, port@, board_config.upload_speed),
    {
        let platform = self.get_platform_for_board(board_config.fqbn.as_str());
        let board = self.get_board_for_fqbn(board_config.fqbn.as_str());
        let speed = u64_to_string(board_config.upload_speed as u64);
        let r = "[env:default]\nplatform = ".to_owned().concat(platform).concat(
            "\nboard = ",
        ).concat(board).concat("\nupload_port = ").concat(port).concat(
            "\nupload_speed = ",
        ).concat(speed.as_str()).concat("\nmonitor_speed = 9600\n");
        proof {
            assert(r@ =~= pio_descriptor(
                board_config.fqbn@,
                port@,
                board_config.upload_speed,
            ));
        }
        r
    }
}

/// The installed state of each upload tool, by tool name, as the caller
/// reports it.
pub fn check_tools(avail: &ToolAvailability) -> (r: Vec<(String, bool)>)
    ensures
        r@.len() == 6,
        r@[0].0@ == "arduino-cli"@ && r@[0].1 == avail.arduino_cli,
        r@[1].0@ == "platformio"@ && r@[1].1 == avail.platformio,
        r@[2].0@ == "mpremote"@ && r@[2].1 == avail.mpremote,
        r@[3].0@ == "ampy"@ && r@[3].1 == avail.ampy,
        r@[4].0@ == "rshell"@ && r@[4].1 == avail.rshell,
        r@[5].0@ == "esptool"@ && r@[5].1 == avail.esptool,
{
    let mut out: Vec<(String, bool)> = Vec::new();
    out.push(("arduino-cli".to_owned(), avail.arduino_cli));
    out.push(("platformio".to_owned(), avail.platformio));
    out.push(("mpremote".to_owned(), avail.mpremote));
    out.push(("ampy".to_owned(), avail.ampy));
    out.push(("rshell".to_owned(), avail.rshell));
    out.push(("esptool".to_owned(), avail.esptool));
    out
}

/// The outcome rule after the compile step: a compile failure hard-stops the
/// pipeline, surfacing the compiler's error text, before any upload attempt.
pub fn after_compile(compile_ok: bool, stderr: &str) -> (r: Result<(), DeviceError>)
    ensures
        compile_ok <==> r is Ok,
        !compile_ok ==> (r matches Err(e) && e is CompileFailed && e.message_view()
            == "Arduino compile failed: "@ + stderr@),
{
    if compile_ok {
        Ok(())
    } else {
        Err(DeviceError::CompileFailed("Arduino compile failed: ".to_owned().concat(stderr)))
    }
}

/// The outcome rule after the primary toolchain's upload step.
pub fn after_upload(upload_ok: bool, stderr: &str, port: &str) -> (r: Result<String, DeviceError>)
    ensures
        upload_ok <==> r is Ok,
        upload_ok ==> (r matches Ok(m) && m@ == "Arduino code uploaded to port "@ + port@),
        !upload_ok ==> (r matches Err(e) && e is UploadFailed && e.message_view()
            == "Arduino upload failed: "@ + stderr@),
{
    if upload_ok {
        Ok("Arduino code uploaded to port ".to_owned().concat(port))
    } else {
        Err(DeviceError::UploadFailed("Arduino upload failed: ".to_owned().concat(stderr)))
    }
}

/// The outcome rule after the secondary build system's combined
/// build-and-upload step.
pub fn after_platformio(ok: bool, stderr: &str, port: &str) -> (r: Result<String, DeviceError>)
    ensures
        ok <==> r is Ok,
        ok ==> (r matches Ok(m) && m@ == "code uploaded through PlatformIO to port "@ + port@),
        !ok ==> (r matches Err(e) && e is UploadFailed && e.message_view()
            == "PlatformIO upload failed: "@ + stderr@),
{
    if ok {
        Ok("code uploaded through PlatformIO to port ".to_owned().concat(port))
    } else {
        Err(DeviceError::UploadFailed("PlatformIO upload failed: ".to_owned().concat(stderr)))
    }
}

/// The name of one file-push tool.
pub open spec fn push_tool_name(t: PushTool) -> Seq<char> {
    match t {
        PushTool::Mpremote => "mpremote"@,
        PushTool::Ampy => "ampy"@,
        PushTool::Rshell => "rshell"@,
    }
}

/// The outcome rule after one file-push tool ran.
pub fn after_push(tool: PushTool, ok: bool, stderr: &str, port: &str) -> (r: Result<
    String,
    DeviceError,
>)
    ensures
        ok <==> r is Ok,
        ok ==> (r matches Ok(m) && m@ == "MicroPython code uploaded through "@ + push_tool_name(
            tool,
        ) + " to port "@ + port@),
        !ok ==> (r matches Err(e) && e is UploadFailed && e.message_view() == push_tool_name(tool)
            + " upload failed: "@ + stderr@),
{
    let name = match tool {
        PushTool::Mpremote => "mpremote",
        PushTool::Ampy => "ampy",
        PushTool::Rshell => "rshell",
    };
    if ok {
        Ok(
            "MicroPython code uploaded through ".to_owned().concat(name).concat(
                " to port ",
            ).concat(port),
        )
    } else {
        Err(
            DeviceError::UploadFailed(
                name.to_owned().concat(" upload failed: ").concat(stderr),
            ),
        )
    }
}

} // verus!
