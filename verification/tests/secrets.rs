use dban::secrets::{
    add_vault_entry, delete_outcome, delete_secret, get_secret, has_vault_entry, missing_secret_message,
    read_outcome, readback_verdict, remove_vault_item, save_secret, should_clear_clipboard, write_outcome,
    CredentialError, VaultItem, delete_credential, entry, read_secret, write_and_verify,
};

fn item(id: &str) -> VaultItem {
    VaultItem { id: id.into(), site: format!("{id}.example"), account: "me".into() }
}

fn err(no_entry: bool, message: &str) -> CredentialError {
    CredentialError { no_entry, message: message.into() }
}

#[test]
fn vault_ids_are_unique_and_removable() {
    let vaults = add_vault_entry(vec![], item("a")).unwrap();
    let vaults = add_vault_entry(vaults, item("b")).unwrap();
    assert_eq!(add_vault_entry(vaults, item("a")).err().unwrap(), "密码条目已存在");
    let vaults = add_vault_entry(vec![item("a")], item("b")).unwrap();
    assert!(has_vault_entry(&vaults, &"b".to_string()));
    let left = remove_vault_item(&vaults, &"a".to_string());
    assert_eq!(left.len(), 1);
    assert_eq!(left[0].id, "b");
    assert_eq!(left[0].site, "b.example");
    assert!(!has_vault_entry(&left, &"a".to_string()));
    assert_eq!(remove_vault_item(&left, &"zzz".to_string()).len(), 1);
}

#[test]
fn read_back_must_match() {
    let secret = "s3cret".to_string();
    assert_eq!(readback_verdict(&Ok("s3cret".to_string()), &secret), Ok(()));
    assert_eq!(readback_verdict(&Ok("other".to_string()), &secret), Err("密码写入校验失败".to_string()));
    assert_eq!(
        readback_verdict(&Err(err(true, "gone")), &secret),
        Err("密码已写入但回读失败：gone".to_string())
    );
}

#[test]
fn store_failures_become_messages() {
    assert_eq!(write_outcome(Ok(())), Ok(()));
    assert_eq!(write_outcome(Err(err(false, "denied"))), Err("写入 Windows 凭据管理器失败：denied".to_string()));
    assert_eq!(read_outcome(Ok("p".to_string())), Ok(Some("p".to_string())));
    assert_eq!(read_outcome(Err(err(true, "none"))), Ok(None));
    assert_eq!(read_outcome(Err(err(false, "locked"))), Err("读取 Windows 凭据管理器失败：locked".to_string()));
    assert_eq!(delete_outcome(Ok(())), Ok(()));
    assert_eq!(delete_outcome(Err(err(true, "none"))), Ok(()));
    assert_eq!(delete_outcome(Err(err(false, "locked"))), Err("删除 Windows 凭据失败：locked".to_string()));
}

#[test]
fn clipboard_is_cleared_only_when_it_still_holds_the_secret() {
    let secret = "pw".to_string();
    assert!(should_clear_clipboard(&Some("pw".to_string()), &secret));
    assert!(!should_clear_clipboard(&Some("other".to_string()), &secret));
    assert!(!should_clear_clipboard(&None, &secret));
    assert_eq!(missing_secret_message(), "条目不存在");
}

#[test]
fn credential_store_calls_report_missing_credentials() {
    // With no platform store configured, each entry keeps its own credential.
    assert_eq!(get_secret("dban-test-missing".to_string()), Ok(None));
    assert_eq!(delete_secret("dban-test-missing".to_string()), Ok(()));
    assert_eq!(save_secret("dban-test-save".to_string(), "pw".to_string()), Ok(()));
}

#[test]
fn one_credential_handle_reads_back_what_it_wrote() {
    let mut c = entry("dban-handle-test").expect("open credential");
    assert_eq!(read_secret(&mut c), Ok(None));
    assert_eq!(write_and_verify(&mut c, &"hunter2".to_string()), Ok(()));
    assert_eq!(read_secret(&mut c), Ok(Some("hunter2".to_string())));
    assert_eq!(delete_credential(&mut c), Ok(()));
    assert_eq!(read_secret(&mut c), Ok(None));
    assert_eq!(delete_credential(&mut c), Ok(()));
}
