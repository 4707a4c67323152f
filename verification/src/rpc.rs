//! The gateway through which remote callers reach the permanent storage.

use crate::perma_storage::{PermaStorage, StorageError};
use crate::rpc_api::{DataStorageApi, DenyUnsafe, Error, UnsafeRpcError};
use parking_lot::lock_api::{RwLock, RwLockReadGuard, RwLockWriteGuard};
use parking_lot::RawRwLock;
use std::sync::Arc;
use vstd::prelude::*;

verus! {

/// The raw lock of `parking_lot`.
#[verifier::external_type_specification]
#[verifier::external_body]
pub struct ExRawRwLock<const RECURSIVE: bool>(RawRwLock<RECURSIVE>);

/// The readers-writer lock of `parking_lot`.
#[verifier::external_type_specification]
#[verifier::external_body]
#[verifier::reject_recursive_types(R)]
#[verifier::reject_recursive_types(T)]
pub struct ExRwLock<R, T: ?Sized>(RwLock<R, T>);

/// A lock held for writing, until the value is dropped.
#[verifier::external_body]
#[verifier::reject_recursive_types(T)]
pub struct WriteHeld<'a, T> {
    guard: RwLockWriteGuard<'a, RawRwLock<false>, T>,
}

/// A lock held for reading, until the value is dropped.
#[verifier::external_body]
#[verifier::reject_recursive_types(T)]
pub struct ReadHeld<'a, T> {
    guard: RwLockReadGuard<'a, RawRwLock<false>, T>,
}

/// Calls `RwLock::new`. Nothing is claimed of the lock.
#[verifier::external_body]
fn new_lock<T>(value: T) -> (lock: RwLock<RawRwLock<false>, T>) {
    RwLock::new(value)
}

/// Calls `RwLock::write`, which waits until no one else holds the lock. Nothing is claimed
/// of what the lock guards: other holders may have changed it. The call does not come back
/// where the calling thread holds the lock already; the gateway lets go of the lock before
/// each of its calls ends, and a store must not call back into the gateway that holds it.
#[verifier::external_body]
fn write_lock<'a, T>(lock: &'a RwLock<RawRwLock<false>, T>) -> (held: WriteHeld<'a, T>) {
    WriteHeld { guard: lock.write() }
}

/// Calls `RwLock::read`, which waits until no one holds the lock for writing. Nothing is
/// claimed of what the lock guards. The call may panic where the lock has as many readers
/// as it can count, and may not come back where the calling thread holds the lock already.
#[verifier::external_body]
fn read_lock<'a, T>(lock: &'a RwLock<RawRwLock<false>, T>) -> (held: ReadHeld<'a, T>) {
    ReadHeld { guard: lock.read() }
}

/// Borrows what a lock held for writing guards, through the guard's `DerefMut`.
#[verifier::external_body]
fn guarded_mut<'a, 'b, T>(held: &'b mut WriteHeld<'a, T>) -> (store: &'b mut T) {
    &mut *held.guard
}

/// Borrows what a lock held for reading guards, through the guard's `Deref`.
#[verifier::external_body]
fn guarded<'a, 'b, T>(held: &'b ReadHeld<'a, T>) -> (store: &'b T) {
    &*held.guard
}

/// The reply to a write that the policy allowed, from what the store said of it.
pub fn set_reply(stored: Result<(), StorageError>) -> (reply: Result<(), Error>)
    ensures
        reply is Ok <==> stored is Ok,
        reply is Err ==> reply == Err::<(), Error>(Error::StorageCommitFailed),
{
    match stored {
        Ok(()) => Ok(()),
        Err(_) => Err(Error::StorageCommitFailed),
    }
}

/// A write to `store` under the policy `deny_unsafe`. A refused write does not touch the
/// store; an allowed one takes effect as a whole, or fails and leaves the store as it was.
pub fn gated_set<T: PermaStorage>(
    deny_unsafe: DenyUnsafe,
    store: &mut T,
    key: &[u8],
    value: &[u8],
) -> (reply: Result<(), Error>)
    requires
        old(store).usable(),
    ensures
        final(store).usable(),
        deny_unsafe == DenyUnsafe::Yes ==> reply == Err::<(), Error>(
            Error::UnsafeRpcCalled(UnsafeRpcError),
        ) && *final(store) == *old(store),
        deny_unsafe == DenyUnsafe::No && reply is Ok ==> final(store).contents() == old(
            store,
        ).contents().insert(key@, value@),
        deny_unsafe == DenyUnsafe::No && reply is Err ==> reply == Err::<(), Error>(
            Error::StorageCommitFailed,
        ) && final(store).contents() == old(store).contents(),
{
    match deny_unsafe.check_if_safe() {
        Err(refused) => Err(Error::from(refused)),
        Ok(()) => set_reply(store.set(key, value)),
    }
}

/// A read of `store` under the policy `deny_unsafe`. A refused read does not touch the
/// store; an allowed one gives the value under `key`, if there is one.
pub fn gated_get<T: PermaStorage>(deny_unsafe: DenyUnsafe, store: &T, key: &[u8]) -> (reply:
    Result<Option<Vec<u8>>, Error>)
    requires
        store.usable(),
    ensures
        deny_unsafe == DenyUnsafe::Yes ==> reply == Err::<Option<Vec<u8>>, Error>(
            Error::UnsafeRpcCalled(UnsafeRpcError),
        ),
        deny_unsafe == DenyUnsafe::No ==> (reply matches Ok(found) && (found is Some
            <==> store.contents().contains_key(key@)) && (found matches Some(value)
            ==> value@ == store.contents()[key@])),
{
    match deny_unsafe.check_if_safe() {
        Err(refused) => Err(Error::from(refused)),
        Ok(()) => Ok(store.get(key)),
    }
}

/// The reply that a remote caller gets to a write: the refusal is passed on, and a commit
/// that failed is absorbed.
pub fn absorbed_reply(reply: Result<(), Error>) -> (absorbed: Result<(), Error>)
    ensures
        absorbed is Err <==> reply == Err::<(), Error>(Error::UnsafeRpcCalled(UnsafeRpcError)),
        absorbed is Err ==> absorbed == reply,
{
    match reply {
        Err(Error::UnsafeRpcCalled(refused)) => Err(Error::UnsafeRpcCalled(refused)),
        Err(Error::StorageCommitFailed) => Ok(()),
        Ok(()) => Ok(()),
    }
}

/// What the gateway's lock guards: a store that can be read and written. A write takes the
/// store out for as long as it works on it and puts it back; the place is empty only where
/// a write did not come back.
#[derive(Debug)]
pub struct Guarded<T: PermaStorage> {
    store: Option<T>,
}

impl<T: PermaStorage> Guarded<T> {
    #[verifier::type_invariant]
    spec fn holds_usable_store(self) -> bool {
        self.store matches Some(store) ==> store.usable()
    }
}

/// The gateway: the store behind a lock that its callers share, and the policy, which is
/// checked before the lock is taken.
#[verifier::reject_recursive_types(T)]
#[derive(Debug)]
pub struct DataStorage<T: PermaStorage> {
    storage: Arc<RwLock<RawRwLock<false>, Guarded<T>>>,
    deny_unsafe: DenyUnsafe,
}

impl<T: PermaStorage> DataStorage<T> {
    /// A gateway to `storage` with the given policy.
    pub fn new(storage: T, deny_unsafe: DenyUnsafe) -> (gateway: DataStorage<T>)
        requires
            storage.usable(),
        ensures
            gateway.denies_unsafe() == (deny_unsafe == DenyUnsafe::Yes),
    {
        DataStorage { storage: Arc::new(new_lock(Guarded { store: Some(storage) })), deny_unsafe }
    }

    /// Checks the policy, then writes with the lock held for writing, and says whether the
    /// store committed the write.
    pub fn write(&self, key: Vec<u8>, value: Vec<u8>) -> (reply: Result<(), Error>)
        ensures
            self.denies_unsafe() ==> reply == Err::<(), Error>(
                Error::UnsafeRpcCalled(UnsafeRpcError),
            ),
            !self.denies_unsafe() ==> reply is Ok || reply == Err::<(), Error>(
                Error::StorageCommitFailed,
            ),
    {
        match self.deny_unsafe.check_if_safe() {
            Err(refused) => Err(Error::from(refused)),
            Ok(()) => {
                let mut held = write_lock(&self.storage);
                let guarded = guarded_mut(&mut held);
                proof {
                    use_type_invariant(&*guarded);
                }
                let mut taken: Option<T> = None;
                std::mem::swap(&mut taken, &mut guarded.store);
                match taken {
                    Some(mut store) => {
                        let reply = gated_set(
                            self.deny_unsafe,
                            &mut store,
                            key.as_slice(),
                            value.as_slice(),
                        );
                        guarded.store = Some(store);
                        reply
                    },
                    None => Err(Error::StorageCommitFailed),
                }
            },
        }
    }
}

impl<T: PermaStorage> DataStorageApi for DataStorage<T> {
    closed spec fn denies_unsafe(&self) -> bool {
        self.deny_unsafe == DenyUnsafe::Yes
    }

    /// Writes as `write` does, and absorbs a commit that failed.
    fn set_data_storage(&self, key: Vec<u8>, value: Vec<u8>) -> (reply: Result<(), Error>) {
        absorbed_reply(self.write(key, value))
    }

    /// Checks the policy, then reads with the lock held for reading.
    fn get_data_storage(&self, key: Vec<u8>) -> (reply: Result<Option<Vec<u8>>, Error>) {
        match self.deny_unsafe.check_if_safe() {
            Err(refused) => Err(Error::from(refused)),
            Ok(()) => {
                let held = read_lock(&self.storage);
                let guarded = guarded(&held);
                proof {
                    use_type_invariant(guarded);
                }
                match &guarded.store {
                    Some(store) => gated_get(self.deny_unsafe, store, key.as_slice()),
                    None => Ok(None),
                }
            },
        }
    }
}

} // verus!
