//! Lifecycle management for USB-serial-attached microcontroller boards:
//! discovering attached boards and resolving their identity, tracking driver
//! readiness, persisting per-board connection profiles, reconnect planning,
//! and dispatching program text to the right upload toolchain.

pub mod cache;
mod clock;
pub mod detector;
pub mod device;
pub mod driver;
pub mod errors;
pub mod profile;
pub mod serial;
pub mod text;
pub mod tools;
pub mod uploader;
pub mod utils;

pub use cache::CacheItem;
pub use cache::LRUCache;
pub use detector::DeviceDetector;
pub use detector::InstallAction;
pub use detector::UploadFamily;
pub use detector::plan_upload;
pub use detector::DeviceStatus;
pub use detector::DriverStatus;
pub use detector::PortKind;
pub use detector::PortRecord;
pub use device::DeviceInfo;
pub use device::DeviceType;
pub use device::UploadOptions;
pub use driver::DriverInfo;
pub use driver::DriverManager;
pub use errors::DeviceError;
pub use profile::ConnectionStatus;
pub use profile::DeviceProfile;
pub use profile::SettingValue;
pub use serial::ConnectionHistory;
pub use serial::HistoryLog;
pub use serial::LineBuffer;
pub use serial::SerialManager;
pub use serial::SerialParams;
pub use serial::SerialPortInfo;
pub use tools::CompileResult;
pub use tools::ToolInfo;
pub use tools::UploadResult;
pub use utils::format_file_size;
pub use uploader::ArduinoToolchain;
pub use uploader::BoardConfig;
pub use uploader::DeviceUploader;
pub use uploader::PushTool;
pub use uploader::ToolAvailability;
