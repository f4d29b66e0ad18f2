use nfs::clientmanager::{ClientCallback, ClientManager};
use nfs::proto::NfsStat4;

#[test]
fn test_upsert_clients_no_principals() {
    let mut manager = ClientManager::new();

    let verifier = [0; 8];
    let id = "test".to_string();
    let callback = ClientCallback {
        program: 0,
        rnetid: "tcp".to_string(),
        raddr: "".to_string(),
        callback_ident: 0,
    };

    let client = manager
        .upsert_client(verifier, id.clone(), callback.clone(), None)
        .unwrap();
    assert_eq!(client.id, id);
    assert_eq!(client.verifier, verifier);
    assert_eq!(client.callback, callback);

    let updated_callback = ClientCallback {
        program: 10,
        rnetid: "tcp".to_string(),
        raddr: "".to_string(),
        callback_ident: 2,
    };

    let same_client = manager
        .upsert_client(verifier, id.clone(), updated_callback.clone(), None)
        .unwrap();
    assert_eq!(same_client.id, id);
    assert_eq!(same_client.verifier, verifier);
    assert_eq!(same_client.callback, updated_callback);
    assert_eq!(same_client.clientid, client.clientid);

    // confirm after update
    let err_confirm = manager.confirm_client(client.clientid, client.setclientid_confirm, None);
    assert_eq!(
        err_confirm.unwrap_err().nfs_error,
        NfsStat4::Nfs4errStaleClientid
    );

    let confirmed_client = manager
        .confirm_client(client.clientid, same_client.setclientid_confirm, None)
        .unwrap();
    assert!(confirmed_client.confirmed);
    assert_eq!(confirmed_client.clientid, client.clientid);

    let other_callback = ClientCallback {
        program: 1,
        rnetid: "tcp".to_string(),
        raddr: "".to_string(),
        callback_ident: 0,
    };
    let err_client = manager.upsert_client(
        verifier,
        id,
        other_callback.clone(),
        Some("LINUX".to_string()),
    );
    assert_eq!(
        err_client.unwrap_err().nfs_error,
        NfsStat4::Nfs4errClidInuse
    );

    let stale_client = manager.confirm_client(1234, client.setclientid_confirm, None);
    assert_eq!(
        stale_client.unwrap_err().nfs_error,
        NfsStat4::Nfs4errStaleClientid
    );

    let confirmed = manager.get_client_confirmed(client.clientid);
    assert_eq!(confirmed.unwrap().clientid, client.clientid);
    assert!(confirmed.unwrap().confirmed);

    let c = manager.get_record_count();
    assert_eq!(c, 1);
    manager.remove_client(client.clientid);
    let c = manager.get_record_count();
    assert_eq!(c, 0);
}

#[test]
fn test_upsert_clients_double_confirm() {
    let mut manager = ClientManager::new();

    let verifier = [0; 8];
    let id = "test".to_string();
    let callback = ClientCallback {
        program: 0,
        rnetid: "tcp".to_string(),
        raddr: "".to_string(),
        callback_ident: 0,
    };

    let client = manager
        .upsert_client(verifier, id.clone(), callback.clone(), None)
        .unwrap();

    let confirmed_client = manager
        .confirm_client(client.clientid, client.setclientid_confirm, None)
        .unwrap();
    assert!(confirmed_client.confirmed);
    assert_eq!(confirmed_client.clientid, client.clientid);
    let confirmed_client = manager
        .confirm_client(client.clientid, client.setclientid_confirm, None)
        .unwrap();
    assert!(confirmed_client.confirmed);
    assert_eq!(confirmed_client.clientid, client.clientid);
}

#[test]
fn test_renew_leases_valid_client() {
    let mut manager = ClientManager::new();

    let verifier = [0; 8];
    let callback = ClientCallback {
        program: 0,
        rnetid: "tcp".to_string(),
        raddr: "".to_string(),
        callback_ident: 0,
    };

    let client = manager
        .upsert_client(verifier, "renew_test".to_string(), callback, None)
        .unwrap();
    let result = manager.renew_leases(client.clientid);
    assert!(result.is_ok());
}

#[test]
fn test_renew_leases_stale_client() {
    let mut manager = ClientManager::new();
    let result = manager.renew_leases(99999);
    assert_eq!(
        result.unwrap_err().nfs_error,
        NfsStat4::Nfs4errStaleClientid
    );
}

#[test]
fn test_set_current_filehandle() {
    let mut manager = ClientManager::new();
    manager.set_current_fh("192.168.1.1:1234".to_string(), vec![1, 2, 3]);
    // Verify it was stored (no panic)
    manager.set_current_fh("192.168.1.1:1234".to_string(), vec![4, 5, 6]);
}

#[test]
fn test_sweep_no_clients() {
    let mut manager = ClientManager::new();
    let expired = manager.sweep_leases();
    assert!(expired.is_empty());
}

#[test]
fn test_sweep_fresh_client_not_expired() {
    let mut manager = ClientManager::new();
    let callback = ClientCallback {
        program: 0,
        rnetid: "tcp".to_string(),
        raddr: "".to_string(),
        callback_ident: 0,
    };
    let client = manager
        .upsert_client([0; 8], "fresh".to_string(), callback, None)
        .unwrap();
    manager
        .confirm_client(client.clientid, client.setclientid_confirm, None)
        .unwrap();
    let expired = manager.sweep_leases();
    assert!(expired.is_empty());
    // Client should not be in courtesy state
    assert!(!manager.is_courtesy_client(client.clientid));
}

#[test]
fn test_courtesy_client_flag() {
    let mut manager = ClientManager::new();
    // Set lease time to 0 so it expires immediately
    manager.lease_time = 0;
    let callback = ClientCallback {
        program: 0,
        rnetid: "tcp".to_string(),
        raddr: "".to_string(),
        callback_ident: 0,
    };
    let client = manager
        .upsert_client([0; 8], "courtesy".to_string(), callback, None)
        .unwrap();
    manager
        .confirm_client(client.clientid, client.setclientid_confirm, None)
        .unwrap();
    // First sweep marks as courtesy
    let expired = manager.sweep_leases();
    assert!(expired.is_empty()); // not purged yet
    assert!(manager.is_courtesy_client(client.clientid));
}

#[test]
fn test_revoke_courtesy_client() {
    let mut manager = ClientManager::new();
    manager.lease_time = 0;
    let callback = ClientCallback {
        program: 0,
        rnetid: "tcp".to_string(),
        raddr: "".to_string(),
        callback_ident: 0,
    };
    let client = manager
        .upsert_client([0; 8], "revoke".to_string(), callback, None)
        .unwrap();
    manager
        .confirm_client(client.clientid, client.setclientid_confirm, None)
        .unwrap();
    manager.sweep_leases(); // mark courtesy
    assert!(manager.is_courtesy_client(client.clientid));
    manager.revoke_courtesy_client(client.clientid);
    assert_eq!(manager.get_record_count(), 0);
}

#[test]
fn test_renew_clears_courtesy() {
    let mut manager = ClientManager::new();
    manager.lease_time = 0;
    let callback = ClientCallback {
        program: 0,
        rnetid: "tcp".to_string(),
        raddr: "".to_string(),
        callback_ident: 0,
    };
    let client = manager
        .upsert_client([0; 8], "renew_courtesy".to_string(), callback, None)
        .unwrap();
    manager
        .confirm_client(client.clientid, client.setclientid_confirm, None)
        .unwrap();
    // Make courtesy
    manager.sweep_leases();
    assert!(manager.is_courtesy_client(client.clientid));
    // Renew should clear courtesy and succeed
    manager.lease_time = 90; // restore normal lease time
    let result = manager.renew_leases(client.clientid);
    assert!(result.is_ok());
    assert!(!manager.is_courtesy_client(client.clientid));
}

#[test]
fn test_multiple_clients_unique_ids() {
    let mut manager = ClientManager::new();
    let callback = ClientCallback {
        program: 0,
        rnetid: "tcp".to_string(),
        raddr: "".to_string(),
        callback_ident: 0,
    };

    let c1 = manager
        .upsert_client([1; 8], "client1".to_string(), callback.clone(), None)
        .unwrap();
    let c2 = manager
        .upsert_client([2; 8], "client2".to_string(), callback.clone(), None)
        .unwrap();
    assert_ne!(c1.clientid, c2.clientid);
    assert_eq!(manager.get_record_count(), 2);
}

#[test]
fn test_confirm_wrong_principal() {
    let mut manager = ClientManager::new();
    let callback = ClientCallback {
        program: 0,
        rnetid: "tcp".to_string(),
        raddr: "".to_string(),
        callback_ident: 0,
    };

    let client = manager
        .upsert_client([0; 8], "test".to_string(), callback, Some("Linux".to_string()))
        .unwrap();

    // Confirm with wrong principal
    let result = manager.confirm_client(
        client.clientid,
        client.setclientid_confirm,
        Some("FreeBSD".to_string()),
    );
    assert_eq!(result.unwrap_err().nfs_error, NfsStat4::Nfs4errClidInuse);
}

#[test]
fn test_get_client_confirmed_not_found() {
    let mut manager = ClientManager::new();
    assert!(manager.get_client_confirmed(9999).is_none());
}

#[test]
fn test_get_client_unconfirmed_not_returned() {
    let mut manager = ClientManager::new();
    let callback = ClientCallback {
        program: 0,
        rnetid: "tcp".to_string(),
        raddr: "".to_string(),
        callback_ident: 0,
    };

    let client = manager
        .upsert_client([0; 8], "unconf".to_string(), callback, None)
        .unwrap();
    // Not confirmed yet
    assert!(manager.get_client_confirmed(client.clientid).is_none());
}

#[test]
fn test_upsert_clients_principals() {
    let mut manager = ClientManager::new();

    let verifier = [0; 8];
    let id = "test".to_string();
    let callback = ClientCallback {
        program: 0,
        rnetid: "tcp".to_string(),
        raddr: "".to_string(),
        callback_ident: 0,
    };

    let client = manager
        .upsert_client(
            verifier,
            id.clone(),
            callback.clone(),
            Some("Linux".to_string()),
        )
        .unwrap();

    let same_client = manager
        .confirm_client(
            client.clientid,
            client.setclientid_confirm,
            Some("Linux".to_string()),
        )
        .unwrap();

    assert_eq!(same_client.id, id);
    assert_eq!(same_client.verifier, verifier);
    assert_eq!(same_client.callback, callback);
    assert_eq!(same_client.clientid, client.clientid);
    assert_eq!(same_client.principal, Some("Linux".to_string()));
    assert!(same_client.confirmed);
}
