//! Decoder for the NTFS change journal (`$J`): record scanning, record
//! decoding, and best-effort path resolution against a master file table.

pub mod codec;
pub mod entry;
pub mod error;
pub mod flags;
pub mod journal;
pub mod resolve;
pub mod stream;
pub mod table;
pub mod time;

pub use entry::Entry;
pub use error::UsnError;
pub use flags::{Attributes, Reason};
pub use journal::{Phase, Usn};
pub use resolve::MftTable;
pub use stream::{ByteStream, Skip};
pub use time::CivilTime;
