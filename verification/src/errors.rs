//! The service's error taxonomy.  Every failure of a request or of a
//! conversion job is one of these variants; none is retried automatically.

use vstd::prelude::*;

verus! {

/// Why a request or a conversion job stopped.
pub enum ShapeError {
    /// A leaf referenced a solid that was not among the resolved dependencies.
    MissingDependency(String),
    /// The graph used a node kind the evaluator does not implement.
    UnsupportedOperation(String),
    /// A kernel boolean or transform call failed.
    GeometryOpFailed(String),
    /// The stretch pipeline failed on one axis; no partial result is kept.
    StretchFailed(String),
    /// Uploaded bytes did not match the declared content hash.
    IntegrityMismatch(String),
    /// A store read or write failed.
    StoreIO(String),
    /// A value could not be serialized canonically.
    SerializationFailure(String),
}

impl ShapeError {
    /// The plain-text diagnostic shown to callers for this error.
    pub fn message(&self) -> (r: String)
        ensures
            r@ == self.spec_message(),
    {
        match self {
            ShapeError::MissingDependency(k) => {
                let mut m = String::new();
                m.append("BRep data for '");
                m.append(k.as_str());
                m.append("' not found in collected map");
                m
            },
            ShapeError::UnsupportedOperation(_) => {
                let mut m = String::new();
                m.append("Only StepNode is currently supported");
                m
            },
            ShapeError::GeometryOpFailed(d) => {
                let mut m = String::new();
                m.append("geometry operation failed: ");
                m.append(d.as_str());
                m
            },
            ShapeError::StretchFailed(d) => {
                let mut m = String::new();
                m.append("stretch failed: ");
                m.append(d.as_str());
                m
            },
            ShapeError::IntegrityMismatch(d) => {
                let mut m = String::new();
                m.append("content hash mismatch: ");
                m.append(d.as_str());
                m
            },
            ShapeError::StoreIO(d) => {
                let mut m = String::new();
                m.append("store I/O failed: ");
                m.append(d.as_str());
                m
            },
            ShapeError::SerializationFailure(d) => {
                let mut m = String::new();
                m.append("serialization failed: ");
                m.append(d.as_str());
                m
            },
        }
    }

    /// What `message` returns, for each variant.
    pub open spec fn spec_message(&self) -> Seq<char> {
        match self {
            ShapeError::MissingDependency(k) => "BRep data for '"@ + k@
                + "' not found in collected map"@,
            ShapeError::UnsupportedOperation(_) => "Only StepNode is currently supported"@,
            ShapeError::GeometryOpFailed(d) => "geometry operation failed: "@ + d@,
            ShapeError::StretchFailed(d) => "stretch failed: "@ + d@,
            ShapeError::IntegrityMismatch(d) => "content hash mismatch: "@ + d@,
            ShapeError::StoreIO(d) => "store I/O failed: "@ + d@,
            ShapeError::SerializationFailure(d) => "serialization failed: "@ + d@,
        }
    }
}

} // verus!
