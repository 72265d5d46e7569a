//! Loaders for BRender binary resource files: models, materials and
//! pixelmaps stored as sequences of big-endian chunks.
pub mod support;
