use perma_data::db;
use perma_data::perma_storage::{InMemoryPermaStorage, PermaStorage, StorageError};
use perma_data::rpc::{absorbed_reply, gated_get, gated_set, set_reply, DataStorage};
use perma_data::rpc_api::{DataStorageApi, DenyUnsafe, Error, UnsafeRpcError, BASE_ERROR};

#[test]
fn policy_refuses_or_allows() {
    assert_eq!(DenyUnsafe::Yes.check_if_safe(), Err(UnsafeRpcError));
    assert_eq!(DenyUnsafe::No.check_if_safe(), Ok(()));
}

#[test]
fn denied_calls_fail_and_leave_the_store_alone() {
    let mut store = InMemoryPermaStorage::default();
    assert_eq!(store.set(b"old", b"kept"), Ok(()));
    let before = store.iter().to_vec();
    assert_eq!(
        gated_set(DenyUnsafe::Yes, &mut store, b"key", b"value"),
        Err(Error::UnsafeRpcCalled(UnsafeRpcError))
    );
    assert_eq!(
        gated_get(DenyUnsafe::Yes, &store, b"old"),
        Err(Error::UnsafeRpcCalled(UnsafeRpcError))
    );
    assert_eq!(store.iter().to_vec(), before);
    assert_eq!(store.get(b"key"), None);
}

#[test]
fn allowed_calls_reach_the_store() {
    let mut store = InMemoryPermaStorage::default();
    assert_eq!(gated_get(DenyUnsafe::No, &store, b"key"), Ok(None));
    assert_eq!(gated_set(DenyUnsafe::No, &mut store, b"key", b"value"), Ok(()));
    assert_eq!(
        gated_get(DenyUnsafe::No, &store, b"key"),
        Ok(Some(b"value".to_vec()))
    );
    assert_eq!(store.get(b"key"), Some(b"value".to_vec()));
}

#[test]
fn gateway_that_denies_refuses_both_calls() {
    let gateway = DataStorage::new(InMemoryPermaStorage::default(), DenyUnsafe::Yes);
    assert_eq!(
        gateway.set_data_storage(b"key".to_vec(), b"value".to_vec()),
        Err(Error::UnsafeRpcCalled(UnsafeRpcError))
    );
    assert_eq!(
        gateway.get_data_storage(b"key".to_vec()),
        Err(Error::UnsafeRpcCalled(UnsafeRpcError))
    );
}

#[test]
fn gateway_that_allows_writes_and_reads() {
    let gateway = DataStorage::new(InMemoryPermaStorage::default(), DenyUnsafe::No);
    assert_eq!(gateway.get_data_storage(b"key".to_vec()), Ok(None));
    assert_eq!(
        gateway.set_data_storage(b"key".to_vec(), b"value".to_vec()),
        Ok(())
    );
    assert_eq!(
        gateway.get_data_storage(b"key".to_vec()),
        Ok(Some(b"value".to_vec()))
    );
    assert_eq!(
        gateway.set_data_storage(b"key".to_vec(), b"other".to_vec()),
        Ok(())
    );
    assert_eq!(
        gateway.get_data_storage(b"key".to_vec()),
        Ok(Some(b"other".to_vec()))
    );
    assert_eq!(gateway.get_data_storage(b"ke".to_vec()), Ok(None));
}

#[test]
fn gateway_on_the_database_store() {
    let mut store = db::DataStorage::new_test();
    assert_eq!(store.set(b"old", b"kept"), Ok(()));
    let gateway = DataStorage::new(store, DenyUnsafe::No);
    assert_eq!(
        gateway.get_data_storage(b"old".to_vec()),
        Ok(Some(b"kept".to_vec()))
    );
    assert_eq!(
        gateway.set_data_storage(b"key".to_vec(), b"value".to_vec()),
        Ok(())
    );
    assert_eq!(
        gateway.get_data_storage(b"key".to_vec()),
        Ok(Some(b"value".to_vec()))
    );
}

#[test]
fn gateway_write_reports_what_the_store_did() {
    let gateway = DataStorage::new(InMemoryPermaStorage::default(), DenyUnsafe::No);
    assert_eq!(gateway.write(b"key".to_vec(), b"value".to_vec()), Ok(()));
    assert_eq!(
        gateway.get_data_storage(b"key".to_vec()),
        Ok(Some(b"value".to_vec()))
    );
    let denied = DataStorage::new(InMemoryPermaStorage::default(), DenyUnsafe::Yes);
    assert_eq!(
        denied.write(b"key".to_vec(), b"value".to_vec()),
        Err(Error::UnsafeRpcCalled(UnsafeRpcError))
    );
}

#[test]
fn a_failed_commit_is_absorbed_and_a_refusal_is_not() {
    assert_eq!(absorbed_reply(Ok(())), Ok(()));
    assert_eq!(absorbed_reply(Err(Error::StorageCommitFailed)), Ok(()));
    assert_eq!(
        absorbed_reply(Err(Error::UnsafeRpcCalled(UnsafeRpcError))),
        Err(Error::UnsafeRpcCalled(UnsafeRpcError))
    );
}

#[test]
fn reply_to_a_write_follows_the_store() {
    assert_eq!(set_reply(Ok(())), Ok(()));
    assert_eq!(
        set_reply(Err(StorageError::CommitFailed)),
        Err(Error::StorageCommitFailed)
    );
}

#[test]
fn errors_convert_and_describe_themselves() {
    let error = Error::from(UnsafeRpcError);
    assert_eq!(error, Error::UnsafeRpcCalled(UnsafeRpcError));
    assert_eq!(error.source(), Some(UnsafeRpcError));
    assert_eq!(error.message(), "RPC call is unsafe to be called externally");
    assert_eq!(Error::StorageCommitFailed.source(), None);
    assert_eq!(
        Error::StorageCommitFailed.message(),
        "Commit to the perma storage failed"
    );
    assert_eq!(BASE_ERROR, 5000);
}
