//! Management of customisation assets for a racing simulation: grouping loose
//! files into liveries, classifying what an installation would overwrite,
//! packing liveries into archives and toggling a fixed group of settings.

pub mod app_data;
pub mod archive;
pub mod archive_laws;
pub mod cli;
pub mod document;
pub mod laws;
pub mod livery_ops;
pub mod menu_changer;
pub mod settings_laws;
pub mod text;
pub mod transfer;

