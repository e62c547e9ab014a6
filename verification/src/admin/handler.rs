//! Persistence hooks for one admin resource (implemented by apps).

use vstd::prelude::*;

use crate::admin::error::AdminError;
use crate::admin::row::AdminRow;
use crate::session::map::StringMap;

verus! {

/// Load, save and delete for one resource.
pub trait AdminResourceHandler {
    /// Rows for the index page.
    fn list(&self) -> Result<Vec<AdminRow>, AdminError>;

    /// One row by id.
    fn get(&self, id: &str) -> Result<Option<AdminRow>, AdminError>;

    /// Creates a row from bound form data.
    fn create(&self, data: &StringMap) -> Result<AdminRow, AdminError>;

    /// Updates a row from bound form data.
    fn update(&self, id: &str, data: &StringMap) -> Result<AdminRow, AdminError>;

    /// Deletes a row; whether one was removed.
    fn delete(&self, id: &str) -> Result<bool, AdminError>;
}

} // verus!
