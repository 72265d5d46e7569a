pub mod layout;
pub mod material;
pub mod model;
pub mod pixelmap;
pub mod resource;
pub mod stream;
