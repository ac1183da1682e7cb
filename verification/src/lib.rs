//! Reading and writing project containers: a document of pages, notes and
//! texts, stored as a value tree beside the binary assets it refers to.

pub mod asset;
pub mod binary;
pub mod channel;
pub mod codec;
pub mod credit;
pub mod date;
pub mod error;
pub mod file;
pub mod image;
pub mod manifest;
pub mod positional;
pub mod project;
pub mod round_trip;
pub mod tags;
pub mod texts;
pub mod value;
pub mod version;

pub use asset::Asset;
pub use codec::Codec;
pub use credit::Credit;
pub use date::Date;
pub use positional::ExportArguments;
pub use positional::File;
pub use project::Note;
pub use project::Page;
pub use project::Project;
pub use project::Text;
pub use version::Version;
