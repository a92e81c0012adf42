use fingerbrow::keychain::{
    delete_outcome, delete_password_args, find_password_args, read_outcome, save_outcome,
    save_password_args, save_password_input,
};

#[test]
fn security_command_arguments() {
    let args = save_password_args("svc", "bob");
    assert_eq!(args, vec!["add-generic-password", "-a", "bob", "-s", "svc", "-U", "-w"]);
    assert!(!args.contains(&"s3cret-pw".to_string()));
    assert_eq!(save_password_input("s3cret-pw"), Ok("s3cret-pw\ns3cret-pw\n".to_string()));
    assert_eq!(
        save_password_input("two\nlines"),
        Err("Proxy passwords with line breaks cannot be saved to Keychain.".to_string())
    );
    assert_eq!(delete_password_args("svc"), vec!["delete-generic-password", "-s", "svc"]);
    assert_eq!(find_password_args("svc"), vec!["find-generic-password", "-s", "svc", "-w"]);
}

#[test]
fn keychain_outcomes() {
    assert_eq!(save_outcome(true, "svc".to_string()), Ok("svc".to_string()));
    assert_eq!(save_outcome(false, "svc".to_string()), Err("Failed to write proxy password to Keychain.".to_string()));
    assert_eq!(read_outcome(true, "pw\n"), Ok("pw".to_string()));
    assert_eq!(read_outcome(false, "pw"), Err("Failed to read proxy password from Keychain.".to_string()));
    assert_eq!(delete_outcome(true, "anything"), Ok(()));
    assert_eq!(
        delete_outcome(false, "security: SecKeychainSearchCopyNext: The specified item could not be found in the keychain.\n"),
        Ok(())
    );
    assert_eq!(delete_outcome(false, "error -25300"), Ok(()));
    assert_eq!(
        delete_outcome(false, "  permission denied \n"),
        Err("Failed to delete proxy password from Keychain: permission denied".to_string())
    );
}
