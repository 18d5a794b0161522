//! What can go wrong in the store, and how each failure is described.

use vstd::prelude::*;
use vstd::string::StringExecFns;

verus! {

/// One of the two collections that the store keeps.
#[derive(Clone, Copy, Debug, PartialEq, Eq)]
pub enum Collection {
    Notes,
    Categories,
}

/// A step on the file system that can fail.
#[derive(Clone, Copy, Debug, PartialEq, Eq)]
pub enum IoOperation {
    /// Creating the data directory.
    CreateDirectory,
    /// Reading the file of a collection.
    Read(Collection),
    /// Writing the file of a collection.
    Write(Collection),
}

/// A failure of the store. Each one is handed to the caller; none is
/// recovered from silently.
#[derive(Debug, PartialEq, Eq)]
pub enum StoreError {
    /// The home directory could not be determined.
    Environment,
    /// A step on the file system failed; `detail` is the system's own
    /// description of the failure.
    Io { operation: IoOperation, detail: String },
    /// The stored text of a collection is not a list of its records;
    /// `detail` is the decoder's description of the fault.
    Decode { collection: Collection, detail: String },
    /// A note carries the largest id there is, so no id is left for a new
    /// note.
    IdsExhausted,
}

impl IoOperation {
    /// The words that introduce a failure of this step.
    pub open spec fn headline(self) -> Seq<char> {
        match self {
            IoOperation::CreateDirectory => "Failed to create app directory: "@,
            IoOperation::Read(Collection::Notes) => "Failed to read notes file: "@,
            IoOperation::Read(Collection::Categories) => "Failed to read categories file: "@,
            IoOperation::Write(Collection::Notes) => "Failed to write notes file: "@,
            IoOperation::Write(Collection::Categories) => "Failed to write categories file: "@,
        }
    }
}

impl Collection {
    /// The words that introduce a decoding failure of this collection.
    pub open spec fn decode_headline(self) -> Seq<char> {
        match self {
            Collection::Notes => "Failed to parse notes: "@,
            Collection::Categories => "Failed to parse categories: "@,
        }
    }
}

impl Clone for StoreError {
    /// A copy that is the same failure with the same detail.
    fn clone(&self) -> (r: Self)
        ensures
            r == *self,
    {
        match self {
            StoreError::Environment => StoreError::Environment,
            StoreError::Io { operation, detail } => StoreError::Io {
                operation: *operation,
                detail: detail.clone(),
            },
            StoreError::Decode { collection, detail } => StoreError::Decode {
                collection: *collection,
                detail: detail.clone(),
            },
            StoreError::IdsExhausted => StoreError::IdsExhausted,
        }
    }
}

impl StoreError {
    /// The text that describes this failure to the caller.
    pub open spec fn description(self) -> Seq<char> {
        match self {
            StoreError::Environment => "Failed to get home directory"@,
            StoreError::Io { operation, detail } => operation.headline() + detail@,
            StoreError::Decode { collection, detail } => collection.decode_headline() + detail@,
            StoreError::IdsExhausted => "No id is left for a new note"@,
        }
    }

    /// Describes this failure in words: what failed, followed by the detail
    /// that came with it.
    pub fn describe(&self) -> (r: String)
        ensures
            r@ == self.description(),
    {
        match self {
            StoreError::Environment => String::from_str("Failed to get home directory"),
            StoreError::Io { operation, detail } => {
                let headline = match operation {
                    IoOperation::CreateDirectory => "Failed to create app directory: ",
                    IoOperation::Read(Collection::Notes) => "Failed to read notes file: ",
                    IoOperation::Read(Collection::Categories) => "Failed to read categories file: ",
                    IoOperation::Write(Collection::Notes) => "Failed to write notes file: ",
                    IoOperation::Write(Collection::Categories) => "Failed to write categories file: ",
                };
                String::from_str(headline).concat(detail.as_str())
            },
            StoreError::Decode { collection, detail } => {
                let headline = match collection {
                    Collection::Notes => "Failed to parse notes: ",
                    Collection::Categories => "Failed to parse categories: ",
                };
                String::from_str(headline).concat(detail.as_str())
            },
            StoreError::IdsExhausted => String::from_str("No id is left for a new note"),
        }
    }
}

} // verus!
