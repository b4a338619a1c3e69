pub mod handle;
pub mod meta_data;
pub mod virtual_path;

pub use self::handle::Handle;
pub use self::meta_data::{Availability, MetaData, MetaDataExtractor};
pub use self::virtual_path::VirtualPath;
