//! Caller identities and the authorisation rules built on them.

use vstd::prelude::*;
use vstd::string::*;

verus! {

/// A 256-bit caller identity, held as its big-endian byte array.
///
/// This is exactly the information of the database's identity type: two
/// identities are the same caller iff their byte arrays agree.
#[derive(Clone, Copy, Debug)]
pub struct Identity {
    bytes: [u8; 32],
}

impl View for Identity {
    type V = Seq<u8>;

    closed spec fn view(&self) -> Seq<u8> {
        self.bytes@
    }
}

/// The all-zero identity: the caller of scheduled reducers in older hosts.
pub open spec fn zero_identity() -> Seq<u8> {
    Seq::new(32, |i: int| 0u8)
}

impl Identity {
    /// Builds an identity from its big-endian byte array.
    pub fn from_be_byte_array(bytes: [u8; 32]) -> (id: Identity)
        ensures
            id@ == bytes@,
    {
        Identity { bytes }
    }

    /// The big-endian byte array of this identity.
    pub fn to_be_byte_array(&self) -> (bytes: [u8; 32])
        ensures
            bytes@ == self@,
    {
        self.bytes
    }

    /// Whether two identities name the same caller.
    pub fn same_as(&self, other: &Identity) -> (r: bool)
        ensures
            r == (self@ == other@),
    {
        let mut i: usize = 0;
        while i < 32
            invariant
                0 <= i <= 32,
                self@.len() == 32,
                other@.len() == 32,
                forall|j: int| 0 <= j < i ==> self@[j] == other@[j],
            decreases 32 - i,
        {
            if self.bytes[i] != other.bytes[i] {
                return false;
            }
            i = i + 1;
        }
        assert(self@ =~= other@);
        true
    }
}

impl Default for Identity {
    fn default() -> (id: Identity)
        ensures
            id@ == zero_identity(),
    {
        let id = Identity { bytes: [0u8; 32] };
        assert(id@ =~= zero_identity());
        id
    }
}

/// The byte view of an optional identity.
pub open spec fn identity_option_view(o: Option<Identity>) -> Option<Seq<u8>> {
    match o {
        Some(id) => Some(id@),
        None => None,
    }
}

/// Is `sender` one of the three system callers: the all-zero identity, the
/// module's own identity, or the stored server (publisher) identity?
pub open spec fn system_caller(sender: Seq<u8>, module_identity: Seq<u8>, server_identity: Option<Seq<u8>>) -> bool {
    ||| sender == zero_identity()
    ||| sender == module_identity
    ||| server_identity == Some(sender)
}

/// Pure predicate: is `sender` an authorised system caller?
///
/// System callers are exactly the default (all-zero) identity, the module
/// identity, and the stored server identity; every player identity is denied.
pub fn is_system_identity(sender: Identity, module_identity: Identity, server_identity: Option<Identity>) -> (r: bool)
    ensures
        r == system_caller(sender@, module_identity@, identity_option_view(server_identity)),
{
    let zero = Identity::default();
    if sender.same_as(&zero) {
        return true;
    }
    if sender.same_as(&module_identity) {
        return true;
    }
    match server_identity {
        Some(sid) => sid.same_as(&sender),
        None => false,
    }
}

/// The lower-case hexadecimal digit of a nibble.
pub open spec fn hex_digit(nibble: int) -> char {
    if nibble < 10 {
        (('0' as int) + nibble) as char
    } else {
        (('a' as int) + nibble - 10) as char
    }
}

/// Lower-case hexadecimal text of a byte sequence, two digits per byte, most
/// significant nibble first.
pub open spec fn lower_hex(bytes: Seq<u8>) -> Seq<char> {
    Seq::new(
        2 * bytes.len(),
        |i: int|
            if i % 2 == 0 {
                hex_digit(bytes[i / 2] as int / 16)
            } else {
                hex_digit(bytes[i / 2] as int % 16)
            },
    )
}

/// Calls the database identity's `to_abbreviated_hex`: the lower-case hex
/// text of the first eight (most significant) bytes of the identity.
#[verifier::external_body]
fn abbreviated_hex(id: &Identity) -> (text: String)
    ensures
        text@ == lower_hex(id@.take(8)),
{
    spacetimedb::Identity::from_be_byte_array(id.bytes).to_abbreviated_hex().to_string()
}

/// The display name of a caller: the player's username when the player row
/// exists (`username`), "Server" for the all-zero identity, otherwise the
/// abbreviated hex of the identity.
pub fn get_username(username: Option<String>, id: Identity) -> (name: String)
    ensures
        name@ == match username {
            Some(u) => u@,
            None => if id@ == zero_identity() {
                "Server"@
            } else {
                lower_hex(id@.take(8))
            },
        },
{
    match username {
        Some(u) => u,
        None => {
            if id.same_as(&Identity::default()) {
                String::from_str("Server")
            } else {
                abbreviated_hex(&id)
            }
        },
    }
}

/// Why a caller was refused.
#[derive(Clone, Copy, Debug, PartialEq, Eq, Structural)]
pub enum AccessError {
    /// Only a system caller may call this.
    ServerOnly,
    /// The stellar object to check ownership of was not given.
    MissingSobjId,
    /// The caller does not own the ship behind the stellar object.
    NotSobjOwner,
    /// The ship to check ownership of was not given.
    MissingShipId,
    /// The ship to check ownership of does not exist.
    ShipNotFound,
    /// The caller does not own the ship.
    NotShipOwner,
}

impl AccessError {
    /// The message returned to the caller.
    pub fn message(&self) -> (text: String)
        ensures
            text@ == match *self {
                AccessError::ServerOnly => "This reducer can only be called by SpacetimeDB!"@,
                AccessError::MissingSobjId => "Given a missing SOBJ ID"@,
                AccessError::NotSobjOwner => "This reducer can only be called by SpacetimeDB or the owner!"@,
                AccessError::MissingShipId => "Missing ship ID"@,
                AccessError::ShipNotFound => "Ship not found"@,
                AccessError::NotShipOwner => "This reducer can only be called by SpacetimeDB or the ship owner!"@,
            },
    {
        match self {
            AccessError::ServerOnly => String::from_str("This reducer can only be called by SpacetimeDB!"),
            AccessError::MissingSobjId => String::from_str("Given a missing SOBJ ID"),
            AccessError::NotSobjOwner => String::from_str("This reducer can only be called by SpacetimeDB or the owner!"),
            AccessError::MissingShipId => String::from_str("Missing ship ID"),
            AccessError::ShipNotFound => String::from_str("Ship not found"),
            AccessError::NotShipOwner => String::from_str("This reducer can only be called by SpacetimeDB or the ship owner!"),
        }
    }
}

/// Admits only system callers (see [`is_system_identity`]).
///
/// `server_identity` is the publisher identity stored in the global
/// configuration, `None` when there is no configuration row.
pub fn try_server_only(sender: Identity, module_identity: Identity, server_identity: Option<Identity>) -> (r: Result<(), AccessError>)
    ensures
        r is Ok <==> system_caller(sender@, module_identity@, identity_option_view(server_identity)),
        r is Err ==> r == Err::<(), AccessError>(AccessError::ServerOnly),
{
    if is_system_identity(sender, module_identity, server_identity) {
        Ok(())
    } else {
        Err(AccessError::ServerOnly)
    }
}

/// Admits system callers and the owner of the ship behind a stellar object.
///
/// `sobj_owner` is the player of the ship whose stellar object is `sobj_id`
/// (`None` when no ship has it).
pub fn is_server_or_sobj_owner(
    sender: Identity,
    module_identity: Identity,
    server_identity: Option<Identity>,
    sobj_id: Option<u64>,
    sobj_owner: Option<Identity>,
) -> (r: Result<(), AccessError>)
    ensures
        r == if system_caller(sender@, module_identity@, identity_option_view(server_identity)) {
            Ok::<(), AccessError>(())
        } else if sobj_id is None {
            Err(AccessError::MissingSobjId)
        } else if identity_option_view(sobj_owner) == Some(sender@) {
            Ok(())
        } else {
            Err(AccessError::NotSobjOwner)
        },
{
    if is_system_identity(sender, module_identity, server_identity) {
        return Ok(());
    }
    if sobj_id.is_none() {
        return Err(AccessError::MissingSobjId);
    }
    match sobj_owner {
        Some(owner) => {
            if owner.same_as(&sender) {
                Ok(())
            } else {
                Err(AccessError::NotSobjOwner)
            }
        },
        None => Err(AccessError::NotSobjOwner),
    }
}

/// Admits system callers and the owner of the given ship.
///
/// `ship_owner` is the player of ship `ship_id` (`None` when the ship row
/// does not exist).
pub fn is_server_or_ship_owner(
    sender: Identity,
    module_identity: Identity,
    server_identity: Option<Identity>,
    ship_id: Option<u64>,
    ship_owner: Option<Identity>,
) -> (r: Result<(), AccessError>)
    ensures
        r == if system_caller(sender@, module_identity@, identity_option_view(server_identity)) {
            Ok::<(), AccessError>(())
        } else if ship_id is None {
            Err(AccessError::MissingShipId)
        } else if ship_owner is None {
            Err(AccessError::ShipNotFound)
        } else if ship_owner->0@ == sender@ {
            Ok(())
        } else {
            Err(AccessError::NotShipOwner)
        },
{
    if try_server_only(sender, module_identity, server_identity).is_ok() {
        return Ok(());
    }
    if ship_id.is_none() {
        return Err(AccessError::MissingShipId);
    }
    match ship_owner {
        None => Err(AccessError::ShipNotFound),
        Some(owner) => {
            if owner.same_as(&sender) {
                Ok(())
            } else {
                Err(AccessError::NotShipOwner)
            }
        },
    }
}

} // verus!
