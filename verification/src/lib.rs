//! Decoding of the GPMF telemetry container format: nested, self-describing,
//! 32-bit-aligned tag/length/value records embedded in action-camera video and
//! photo files, turned into a typed tree and then into GPS and sensor records.

pub mod bytes;
pub mod chars;
pub mod data_types;
pub mod device_id;
pub mod device_name;
pub mod errors;
pub mod filetype;
pub mod fourcc;
pub mod gopro;
pub mod gpmf;
pub mod gps;
pub mod header;
pub mod sensor;
pub mod stream;
pub mod timestamp;
pub mod util;
pub mod value;

pub use data_types::DataType;
pub use device_id::Dvid;
pub use device_name::DeviceName;
pub use errors::GpmfError;
pub use filetype::GoProFileType;
pub use fourcc::FourCC;
pub use gpmf::Gpmf;
pub use gps::{GoProPoint, Gps};
pub use sensor::{SensorData, SensorType};
pub use stream::{Stream, StreamType};
pub use timestamp::Timestamp;
