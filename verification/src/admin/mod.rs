//! Admin CRUD descriptors: resources with their fields and paths, a registry,
//! route registration and list/show HTML.

pub mod error;
pub mod field;
pub mod row;
pub mod resource;
pub mod registry;
pub mod routes;
pub mod html;
pub mod forms;
pub mod handler;
