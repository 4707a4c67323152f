//! The remote calls on the permanent storage, their errors and the policy that gates them.

use vstd::prelude::*;

verus! {

/// Base error code of the errors of these calls.
pub const BASE_ERROR: i64 = 5000;

/// Says that a call that is unsafe to offer to strangers was refused.
#[derive(Debug, Clone, Copy, PartialEq, Eq, Structural)]
pub struct UnsafeRpcError;

/// Whether calls that are unsafe to offer to strangers are refused.
#[derive(Debug, Clone, Copy, PartialEq, Eq, Structural)]
pub enum DenyUnsafe {
    /// They are refused.
    Yes,
    /// They are allowed.
    No,
}

impl DenyUnsafe {
    /// Allows the call, or refuses it, as the policy says.
    pub fn check_if_safe(self) -> (checked: Result<(), UnsafeRpcError>)
        ensures
            checked is Err <==> self == DenyUnsafe::Yes,
    {
        match self {
            DenyUnsafe::Yes => Err(UnsafeRpcError),
            DenyUnsafe::No => Ok(()),
        }
    }
}

/// The errors of the calls on the permanent storage.
#[derive(Debug, Clone, Copy, PartialEq, Eq, Structural)]
pub enum Error {
    /// The call was refused as unsafe.
    UnsafeRpcCalled(UnsafeRpcError),
    /// The database refused the commit, and the store is as it was.
    StorageCommitFailed,
}

impl From<UnsafeRpcError> for Error {
    fn from(refused: UnsafeRpcError) -> (error: Error) {
        Error::UnsafeRpcCalled(refused)
    }
}

impl vstd::std_specs::convert::FromSpecImpl<UnsafeRpcError> for Error {
    open spec fn obeys_from_spec() -> bool {
        true
    }

    open spec fn from_spec(refused: UnsafeRpcError) -> Error {
        Error::UnsafeRpcCalled(refused)
    }
}

impl Error {
    /// The error underneath, where there is one.
    pub fn source(&self) -> (cause: Option<UnsafeRpcError>)
        ensures
            cause is Some <==> *self is UnsafeRpcCalled,
            cause matches Some(refused) ==> *self == Error::UnsafeRpcCalled(refused),
    {
        match self {
            Error::UnsafeRpcCalled(refused) => Some(*refused),
            Error::StorageCommitFailed => None,
        }
    }

    /// The error in words.
    pub fn message(&self) -> (text: &'static str)
        ensures
            *self is UnsafeRpcCalled ==> text@ == "RPC call is unsafe to be called externally"@,
            *self is StorageCommitFailed ==> text@ == "Commit to the perma storage failed"@,
    {
        match self {
            Error::UnsafeRpcCalled(_) => "RPC call is unsafe to be called externally",
            Error::StorageCommitFailed => "Commit to the perma storage failed",
        }
    }
}

/// The remote calls on the permanent storage.
pub trait DataStorageApi {
    /// Whether this end refuses unsafe calls.
    spec fn denies_unsafe(&self) -> bool;

    /// Puts `value` under `key`, unless the policy refuses the call. The refusal is the
    /// only failure: a write that the store could not commit has no effect and is not
    /// reported.
    fn set_data_storage(&self, key: Vec<u8>, value: Vec<u8>) -> (reply: Result<(), Error>)
        ensures
            self.denies_unsafe() <==> reply is Err,
            reply matches Err(e) ==> e == Error::UnsafeRpcCalled(UnsafeRpcError),
    ;

    /// The value under `key`, if there is one, unless the policy refuses the call.
    fn get_data_storage(&self, key: Vec<u8>) -> (reply: Result<Option<Vec<u8>>, Error>)
        ensures
            self.denies_unsafe() <==> reply is Err,
            reply matches Err(e) ==> e == Error::UnsafeRpcCalled(UnsafeRpcError),
    ;
}

} // verus!
