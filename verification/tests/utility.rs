use solarance::identity::{is_system_identity, Identity};

/// An identity whose most significant byte is `lead` and all others zero.
fn ident(lead: u8) -> Identity {
    let mut bytes = [0u8; 32];
    bytes[0] = lead;
    Identity::from_be_byte_array(bytes)
}

fn zero() -> Identity {
    Identity::default()
}

#[test]
fn test_default_identity_is_system_caller() {
    let (module, server) = (ident(1), ident(2));
    assert!(is_system_identity(zero(), module, Some(server)));
}

#[test]
fn test_module_identity_is_system_caller() {
    let m = ident(1);
    let other = ident(2);
    assert!(is_system_identity(m, m, None));
    assert!(is_system_identity(m, m, Some(other)));
}

#[test]
fn test_server_identity_is_system_caller() {
    let publisher = ident(1);
    let module = ident(2);
    assert!(is_system_identity(publisher, module, Some(publisher)));
}

#[test]
fn test_unknown_identity_is_denied_even_without_player_row() {
    let caller = ident(1);
    let module = ident(2);
    assert!(!is_system_identity(caller, module, None));
    assert!(!is_system_identity(caller, module, Some(module)));
}

#[test]
fn test_none_server_identity_denies_non_system() {
    assert_eq!(is_system_identity(ident(1), ident(2), None), false);
}

#[test]
fn test_identity_one_denied_when_not_in_allowlist() {
    let one = Identity::from_be_byte_array(spacetimedb::Identity::ONE.to_be_byte_array());
    assert_eq!(is_system_identity(one, ident(1), Some(ident(2))), false);
}

#[test]
fn default_identity_matches_the_database_default() {
    let ours = Identity::default().to_be_byte_array();
    assert_eq!(ours, spacetimedb::Identity::default().to_be_byte_array());
}
