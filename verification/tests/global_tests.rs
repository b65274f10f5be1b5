use lite_session::{ConfidentialityMode, Role, SessionTokenRng};

#[test]
fn sessiontoken_rng_tests() {
    let alphanumeric = SessionTokenRng::alphanumeric();
    let nonce = SessionTokenRng::nonce();
    assert_eq!(alphanumeric.len(), 32_usize);
    assert_eq!(nonce.len(), 12_usize);
}

#[test]
fn alphanumeric_chars_are_lowercase_alphanumeric() {
    let alphanumeric = SessionTokenRng::alphanumeric();
    for c in alphanumeric.chars() {
        assert!(c.is_ascii_lowercase() || c.is_ascii_digit());
    }
    // A generator that left the alphabet unshuffled would always hand back
    // the alphabet's own prefix.
    let unshuffled = "abcdefghijklmnopqrstuvwxyz012345";
    assert_ne!(SessionTokenRng::alphanumeric(), unshuffled);
}

#[test]
fn role_tests() {
    let slavenode = Role::SlaveNode;
    let masternode = Role::MasterNode;
    let supernode = Role::SuperNode;
    let superuser = Role::SuperUser;
    let admin = Role::Admin;
    let user = Role::User;
    let custom_role = Role::Custom("Foo".into());

    assert_eq!(slavenode, Role::SlaveNode);
    assert_eq!(masternode, Role::MasterNode);
    assert_eq!(supernode, Role::SuperNode);
    assert_eq!(superuser, Role::SuperUser);
    assert_eq!(admin, Role::Admin);
    assert_eq!(user, Role::User);
    assert_eq!(custom_role, Role::Custom("Foo".into()));
    assert_ne!(custom_role, Role::Custom("Bar".into()));
    assert_ne!(user, Role::SuperUser);
}

#[test]
fn role_text_round_trip() {
    let names = [
        "SlaveNode",
        "MasterNode",
        "SuperNode",
        "VerifierNode",
        "RegistryNode",
        "StorageNode",
        "FirewallNode",
        "RouterNode",
        "SuperUser",
        "Admin",
        "User",
    ];
    for name in names {
        let role = Role::from_str(name);
        assert_eq!(Role::to_string(&role), name.to_owned());
        assert_ne!(role, Role::Custom(name.into()));
    }
    assert_eq!(Role::from_str("Watcher"), Role::Custom("Watcher".into()));
}

#[test]
fn confidentiality_tests() {
    let low = ConfidentialityMode::from_string("ConfidentialityMode::Low");
    let high = ConfidentialityMode::from_string("ConfidentialityMode::High");
    let invalid = ConfidentialityMode::from_string("ConfidentialityMode::Foo");

    assert_eq!(ConfidentialityMode::Low, low);
    assert_eq!(ConfidentialityMode::High, high);
    assert_eq!(ConfidentialityMode::High, invalid);
    assert_ne!(ConfidentialityMode::Low, high);
    assert_ne!(ConfidentialityMode::High, low);
}
