use vstd::prelude::*;
use vstd::string::StringExecFns;
use crate::errors::DeviceError;
use crate::text::str_eq;
use vstd::string::StringSliceAdditionalSpecFns;

verus! {

/// The probed state of one host tool: whether it answered a version probe,
/// and where it was found.
#[derive(Debug)]
pub struct ToolInfo {
    pub installed: bool,
    pub version: Option<String>,
    pub path: Option<String>,
}

/// Summarizes one tool probe: a tool that answered its version probe counts
/// as installed, and its answer and location are carried through.
pub fn describe_tool(version: Option<String>, path: Option<String>) -> (r: ToolInfo)
    ensures
        r.installed == (version is Some),
        r.version == version,
        r.path == path,
{
    ToolInfo { installed: version.is_some(), version, path }
}

/// The outcome of one compile request.
#[derive(Debug)]
pub struct CompileResult {
    pub success: bool,
    pub binary_size: Option<usize>,
    pub firmware_path: Option<String>,
    pub error: Option<String>,
    pub warnings: Vec<String>,
}

/// What a compile request resolves to: interpreted code is ready as it
/// stands, compiled code needs the CLI toolchain run against a board id.
#[derive(Debug)]
pub enum CompilePlan {
    RunArduinoCli(String),
    Ready(CompileResult),
}

/// The compiler board id used for a device-type name; an unknown name falls
/// back to the Arduino Uno id.
pub open spec fn fqbn_for(device_type: Seq<char>) -> Seq<char> {
    if device_type == "Arduino"@ {
        "arduino:avr:uno"@
    } else if device_type == "ESP32"@ {
        "esp32:esp32:esp32"@
    } else if device_type == "MicroBit"@ {
        "sandeepmistry:nRF5:BBCmicrobit"@
    } else if device_type == "RaspberryPiPico"@ {
        "rp2040:rp2040:rpipico"@
    } else {
        "arduino:avr:uno"@
    }
}

/// The compiler board id for a device-type name.
pub fn fqbn_for_device_type(device_type: &str) -> (r: &'static str)
    ensures
        r@ == fqbn_for(device_type@),
{
    if str_eq(device_type, "Arduino") {
        "arduino:avr:uno"
    } else if str_eq(device_type, "ESP32") {
        "esp32:esp32:esp32"
    } else if str_eq(device_type, "MicroBit") {
        "sandeepmistry:nRF5:BBCmicrobit"
    } else if str_eq(device_type, "RaspberryPiPico") {
        "rp2040:rp2040:rpipico"
    } else {
        "arduino:avr:uno"
    }
}

/// Resolves a compile request: interpreted code succeeds as it stands with
/// its size reported; compiled code is handed to the CLI toolchain with the
/// board id for the device type; any other language is `Unsupported`.
pub fn compile_code(code: &str, language: &str, device_type: &str) -> (r: Result<
    CompilePlan,
    DeviceError,
>)
    ensures
        language@ == "arduino"@ ==> (r matches Ok(p) && p matches CompilePlan::RunArduinoCli(f)
            && f@ == fqbn_for(device_type@)),
        language@ == "micropython"@ ==> (r matches Ok(p) && p matches CompilePlan::Ready(c)
            && c.success && c.binary_size == Some(code.len()) && c.firmware_path is None
            && c.error is None && c.warnings@.len() == 0),
        !(language@ == "arduino"@ || language@ == "micropython"@) ==> (r matches Err(e) && e
            is Unsupported),
{
    proof {
        reveal_strlit("arduino");
        reveal_strlit("micropython");
        assert("arduino"@.len() == 7 && "micropython"@.len() == 11);
    }
    if str_eq(language, "arduino") {
        Ok(CompilePlan::RunArduinoCli(fqbn_for_device_type(device_type).to_owned()))
    } else if str_eq(language, "micropython") {
        Ok(
            CompilePlan::Ready(
                CompileResult {
                    success: true,
                    binary_size: Some(code.len()),
                    firmware_path: None,
                    error: None,
                    warnings: Vec::new(),
                },
            ),
        )
    } else {
        Err(DeviceError::Unsupported("unsupported language: ".to_owned().concat(language)))
    }
}

/// Interprets what the compiler subprocess produced: on success the
/// firmware location and size found by the caller; on failure the
/// compiler's error text, surfaced as `CompileFailed`.
pub fn compile_outcome(
    success: bool,
    stderr: &str,
    firmware_path: Option<String>,
    binary_size: Option<usize>,
) -> (r: Result<CompileResult, DeviceError>)
    ensures
        success <==> r is Ok,
        success ==> (r matches Ok(c) && c.success && c.binary_size == binary_size
            && c.firmware_path == firmware_path && c.error is None && c.warnings@.len() == 0),
        !success ==> (r matches Err(e) && e is CompileFailed && e.message_view() == stderr@),
{
    if success {
        Ok(
            CompileResult {
                success: true,
                binary_size,
                firmware_path,
                error: None,
                warnings: Vec::new(),
            },
        )
    } else {
        Err(DeviceError::CompileFailed(stderr.to_owned()))
    }
}

/// The outcome of one firmware upload.
#[derive(Debug)]
pub struct UploadResult {
    pub success: bool,
    pub error: Option<String>,
}

/// Interprets what the uploader subprocess produced: its success flag, and
/// its error text when it failed.
pub fn upload_outcome(success: bool, stderr: &str) -> (r: UploadResult)
    ensures
        r.success == success,
        success ==> r.error is None,
        !success ==> (r.error matches Some(m) && m@ == stderr@),
{
    if success {
        UploadResult { success: true, error: None }
    } else {
        UploadResult { success: false, error: Some(stderr.to_owned()) }
    }
}

} // verus!
