use solarance::identity::{get_username, is_server_or_ship_owner, is_server_or_sobj_owner, try_server_only, AccessError, Identity};

fn id_with(first: u8, last: u8) -> Identity {
    let mut bytes = [0u8; 32];
    bytes[0] = first;
    bytes[31] = last;
    Identity::from_be_byte_array(bytes)
}

#[test]
fn server_only_admits_module_and_publisher() {
    let module = id_with(7, 0);
    let publisher = id_with(8, 0);
    assert_eq!(try_server_only(module, module, Some(publisher)), Ok(()));
    assert_eq!(try_server_only(publisher, module, Some(publisher)), Ok(()));
    assert_eq!(try_server_only(Identity::default(), module, None), Ok(()));
}

#[test]
fn server_only_refuses_players() {
    let r = try_server_only(id_with(1, 1), id_with(7, 0), Some(id_with(8, 0)));
    assert_eq!(r, Err(AccessError::ServerOnly));
    assert_eq!(AccessError::ServerOnly.message(), "This reducer can only be called by SpacetimeDB!");
}

#[test]
fn identities_differing_in_last_byte_are_distinct() {
    let module = id_with(7, 0);
    assert_eq!(try_server_only(id_with(7, 1), module, None), Err(AccessError::ServerOnly));
}

#[test]
fn ship_owner_check_orders_its_errors() {
    let me = id_with(1, 0);
    let other = id_with(2, 0);
    let module = id_with(9, 0);
    assert_eq!(is_server_or_ship_owner(me, module, None, None, None), Err(AccessError::MissingShipId));
    assert_eq!(is_server_or_ship_owner(me, module, None, Some(5), None), Err(AccessError::ShipNotFound));
    assert_eq!(is_server_or_ship_owner(me, module, None, Some(5), Some(other)), Err(AccessError::NotShipOwner));
    assert_eq!(is_server_or_ship_owner(me, module, None, Some(5), Some(me)), Ok(()));
    assert_eq!(is_server_or_ship_owner(module, module, None, None, None), Ok(()));
    assert_eq!(
        AccessError::NotShipOwner.message(),
        "This reducer can only be called by SpacetimeDB or the ship owner!"
    );
}

#[test]
fn sobj_owner_check_admits_owner_and_server() {
    let me = id_with(1, 0);
    let module = id_with(9, 0);
    assert_eq!(is_server_or_sobj_owner(me, module, None, None, Some(me)), Err(AccessError::MissingSobjId));
    assert_eq!(is_server_or_sobj_owner(me, module, None, Some(3), None), Err(AccessError::NotSobjOwner));
    assert_eq!(is_server_or_sobj_owner(me, module, None, Some(3), Some(me)), Ok(()));
    assert_eq!(is_server_or_sobj_owner(module, module, None, None, None), Ok(()));
    assert_eq!(AccessError::MissingSobjId.message(), "Given a missing SOBJ ID");
}

#[test]
fn username_prefers_the_player_row() {
    assert_eq!(get_username(Some("Ada".to_string()), id_with(1, 0)), "Ada");
    assert_eq!(get_username(None, Identity::default()), "Server");
}

#[test]
fn username_falls_back_to_abbreviated_hex() {
    let mut bytes = [0u8; 32];
    for (i, b) in bytes.iter_mut().enumerate() {
        *b = (i as u8) * 17;
    }
    let id = Identity::from_be_byte_array(bytes);
    assert_eq!(get_username(None, id), "0011223344556677");
}
