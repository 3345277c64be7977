//! Errors raised while building vehicle geometry.

use vstd::prelude::*;
use vstd::string::StringExecFns;

verus! {

/// Error returned when vehicle geometry cannot be built.
#[derive(Debug)]
pub struct GeometryError(pub String);

impl GeometryError {
    /// Human-readable description: "geometry build failed: " followed by the
    /// error's detail.
    pub fn message(&self) -> (text: String)
        ensures
            text@ == "geometry build failed: "@ + self.0@,
    {
        let mut text = String::from_str("geometry build failed: ");
        text.append(self.0.as_str());
        text
    }
}

} // verus!
