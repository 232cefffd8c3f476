use vstd::prelude::*;

use crate::snapshot::TrackedPath;
use crate::store::StoreError;

verus! {

/// Everything that ends a command unsuccessfully.
#[derive(Debug)]
pub enum Failure {
    NotARepository,
    MissingDescriptor,
    RefNotFound,
    AuthenticationFailed,
    ConflictDetected(Vec<TrackedPath>),
    IOFailure,
    RemoteUnreachable,
    /// A tag name that is already taken.
    TagExists,
    /// Histories without a common commit cannot be merged.
    NoCommonAncestor,
}

impl Failure {
    /// The failure that a store error ends a command with.
    pub fn from_store(e: StoreError) -> (r: Failure)
        ensures
            e is RefNotFound ==> r is RefNotFound,
            e is TagExists ==> r is TagExists,
            e is NoCommonAncestor ==> r is NoCommonAncestor,
            e matches StoreError::ConflictDetected(ps) ==> (r matches Failure::ConflictDetected(qs) && qs@ == ps@),
    {
        match e {
            StoreError::RefNotFound => Failure::RefNotFound,
            StoreError::TagExists => Failure::TagExists,
            StoreError::NoCommonAncestor => Failure::NoCommonAncestor,
            StoreError::ConflictDetected(ps) => Failure::ConflictDetected(ps),
        }
    }

    /// Every failure exits with status 1.
    pub fn exit_code(&self) -> (r: i32)
        ensures
            r == 1,
    {
        1
    }
}

} // verus!
