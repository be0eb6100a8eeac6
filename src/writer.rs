//! The sink that final account states are handed to.
use vstd::prelude::*;

use crate::model::{Client, Error};

verus! {

/// An output for account states, implemented by the program around the
/// library (for instance one that renders them as CSV).
pub trait ClientWriter: Sized {
    /// Appends one account to the output.
    fn append_client(&mut self, client: Client) -> Result<(), Error>;

    /// Closes the output, flushing what it still holds.
    fn close(self) -> Result<(), Error>;
}

} // verus!
