//! Read access to the metadata of a VMware hosted sparse extent: the binary
//! extent header at the start of the file and the text descriptor embedded in it.

pub mod container;
pub mod descriptor;
pub mod endian;
pub mod error;
pub mod header;
pub mod sector;
pub mod text;


pub use container::Vmdk;
pub use error::VmdkError;
pub use header::ExtentHeader;
pub use sector::SectorType;
