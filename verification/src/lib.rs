//! Verified codec and consistency engine for the GUID Partition Table:
//! byte-exact record layouts, the zlib-variant CRC32, mixed-endian GUID
//! formatting, and the load / validate / regenerate / store pipeline.

pub mod gpt;
pub mod header;
pub mod mbr;
pub mod part;
pub mod util;

pub use gpt::Gpt;
pub use gpt::GptValidation;
pub use gpt::LoadError;
pub use gpt::load;
pub use gpt::store;
pub use gpt::validate;
pub use header::GptHeader;
pub use mbr::MbrPartitionRecord;
pub use mbr::ProtectiveMBR;
pub use part::GptPart;
pub use part::table_crc32;
pub use util::crc32;
pub use util::guid_to_string;
