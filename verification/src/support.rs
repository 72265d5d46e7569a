pub mod brender;
pub mod error;
pub mod texture;

pub use self::error::Error;
