//! Identities of accounts and contracts, and their form on the wire.
//!
//! On the wire an address is a tagged value: four bytes that say that the
//! value is an address, four bytes that say whether it names an account or a
//! contract, for an account four bytes that say what sort of key it has, and
//! then the 32 bytes of the key.

use vstd::prelude::*;
use vstd::bytes::{
    lemma_auto_spec_u128_to_from_le_bytes,
    spec_u128_from_le_bytes,
    spec_u128_to_le_bytes,
    u128_from_le_bytes,
    u128_to_le_bytes,
};
use vstd::slice::slice_subrange;

verus! {

/// What an address names.
#[derive(Clone, Copy, Debug, PartialEq, Eq, Structural)]
pub enum AddressKind {
    Account,
    Contract,
}

/// The identity of an account or of a contract: its kind and its 32-byte key.
/// The key is held as two numbers, its first and its second sixteen bytes,
/// each read with the lowest byte first.
#[derive(Clone, Copy, Debug, PartialEq, Eq, Structural)]
pub struct Address {
    pub kind: AddressKind,
    pub key_head: u128,
    pub key_tail: u128,
}

/// The bytes that stand before the key of an address of the given kind.
pub open spec fn wire_prefix(kind: AddressKind) -> Seq<u8> {
    match kind {
        AddressKind::Account => seq![0u8, 0u8, 0u8, 18u8, 0u8, 0u8, 0u8, 0u8, 0u8, 0u8, 0u8, 0u8],
        AddressKind::Contract => seq![0u8, 0u8, 0u8, 18u8, 0u8, 0u8, 0u8, 1u8],
    }
}

impl Address {
    /// The address on the wire.
    pub open spec fn serialized(self) -> Seq<u8> {
        wire_prefix(self.kind) + spec_u128_to_le_bytes(self.key_head) + spec_u128_to_le_bytes(
            self.key_tail,
        )
    }

    /// The address that the bytes are the wire form of, if they are one.
    pub open spec fn parse(bytes: Seq<u8>) -> Option<Address> {
        if bytes.len() == 44 && bytes.subrange(0, 12) == wire_prefix(AddressKind::Account) {
            Some(
                Address {
                    kind: AddressKind::Account,
                    key_head: spec_u128_from_le_bytes(bytes.subrange(12, 28)),
                    key_tail: spec_u128_from_le_bytes(bytes.subrange(28, 44)),
                },
            )
        } else if bytes.len() == 40 && bytes.subrange(0, 8) == wire_prefix(AddressKind::Contract) {
            Some(
                Address {
                    kind: AddressKind::Contract,
                    key_head: spec_u128_from_le_bytes(bytes.subrange(8, 24)),
                    key_tail: spec_u128_from_le_bytes(bytes.subrange(24, 40)),
                },
            )
        } else {
            None
        }
    }

    /// The address of the account with the given key.
    pub fn account(key_head: u128, key_tail: u128) -> (a: Address)
        ensures
            a == (Address { kind: AddressKind::Account, key_head, key_tail }),
    {
        Address { kind: AddressKind::Account, key_head, key_tail }
    }

    /// The address of the contract with the given key.
    pub fn contract(key_head: u128, key_tail: u128) -> (a: Address)
        ensures
            a == (Address { kind: AddressKind::Contract, key_head, key_tail }),
    {
        Address { kind: AddressKind::Contract, key_head, key_tail }
    }

    /// Whether both addresses name the same party.
    pub fn same_as(&self, other: &Address) -> (same: bool)
        ensures
            same == (*self == *other),
    {
        *self == *other
    }

    /// Writes the address as it stands on the wire.
    pub fn to_bytes(&self) -> (bytes: Vec<u8>)
        ensures
            bytes@ == self.serialized(),
            Address::parse(bytes@) == Some(*self),
    {
        let mut bytes: Vec<u8> = Vec::new();
        bytes.push(0);
        bytes.push(0);
        bytes.push(0);
        bytes.push(18);
        bytes.push(0);
        bytes.push(0);
        bytes.push(0);
        match self.kind {
            AddressKind::Account => {
                bytes.push(0);
                bytes.push(0);
                bytes.push(0);
                bytes.push(0);
                bytes.push(0);
            },
            AddressKind::Contract => {
                bytes.push(1);
            },
        }
        assert(bytes@ =~= wire_prefix(self.kind));
        let mut head = u128_to_le_bytes(self.key_head);
        let mut tail = u128_to_le_bytes(self.key_tail);
        bytes.append(&mut head);
        bytes.append(&mut tail);
        proof {
            assert(bytes@ =~= self.serialized());
            lemma_parse_inverts_serialized(*self);
        }
        bytes
    }

    /// Reads an address from its wire form. Returns `None` for bytes that
    /// are not the wire form of an address.
    pub fn from_bytes(bytes: &[u8]) -> (r: Option<Address>)
        ensures
            r == Address::parse(bytes@),
            r matches Some(a) ==> a.serialized() == bytes@,
    {
        let len = bytes.len();
        if len != 40 && len != 44 {
            return None;
        }
        if bytes[0] != 0 || bytes[1] != 0 || bytes[2] != 0 || bytes[3] != 18 || bytes[4] != 0
            || bytes[5] != 0 || bytes[6] != 0 {
            return None;
        }
        if len == 44 {
            if bytes[7] != 0 || bytes[8] != 0 || bytes[9] != 0 || bytes[10] != 0 || bytes[11] != 0 {
                return None;
            }
            assert(bytes@.subrange(0, 12) =~= wire_prefix(AddressKind::Account));
            let key_head = u128_from_le_bytes(slice_subrange(bytes, 12, 28));
            let key_tail = u128_from_le_bytes(slice_subrange(bytes, 28, 44));
            let found = Address { kind: AddressKind::Account, key_head, key_tail };
            proof {
                lemma_serialized_inverts_parse(bytes@);
            }
            Some(found)
        } else {
            if bytes[7] != 1 {
                return None;
            }
            assert(bytes@.subrange(0, 8) =~= wire_prefix(AddressKind::Contract));
            let key_head = u128_from_le_bytes(slice_subrange(bytes, 8, 24));
            let key_tail = u128_from_le_bytes(slice_subrange(bytes, 24, 40));
            let found = Address { kind: AddressKind::Contract, key_head, key_tail };
            proof {
                lemma_serialized_inverts_parse(bytes@);
            }
            Some(found)
        }
    }
}

/// Reading what was written gives the address back.
pub proof fn lemma_parse_inverts_serialized(a: Address)
    ensures
        Address::parse(a.serialized()) == Some(a),
{
    lemma_auto_spec_u128_to_from_le_bytes();
    let bytes = a.serialized();
    let head = spec_u128_to_le_bytes(a.key_head);
    let tail = spec_u128_to_le_bytes(a.key_tail);
    match a.kind {
        AddressKind::Account => {
            assert(bytes.len() == 44);
            assert(bytes.subrange(0, 12) =~= wire_prefix(AddressKind::Account));
            assert(bytes.subrange(12, 28) =~= head);
            assert(bytes.subrange(28, 44) =~= tail);
        },
        AddressKind::Contract => {
            assert(bytes.len() == 40);
            assert(bytes.subrange(0, 8) =~= wire_prefix(AddressKind::Contract));
            assert(bytes.subrange(8, 24) =~= head);
            assert(bytes.subrange(24, 40) =~= tail);
        },
    }
}

/// Writing what was read gives the bytes back: no two sequences of bytes are
/// the wire form of one address.
pub proof fn lemma_serialized_inverts_parse(bytes: Seq<u8>)
    requires
        Address::parse(bytes) is Some,
    ensures
        Address::parse(bytes)->Some_0.serialized() == bytes,
{
    lemma_auto_spec_u128_to_from_le_bytes();
    let a = Address::parse(bytes)->Some_0;
    if bytes.len() == 44 && bytes.subrange(0, 12) == wire_prefix(AddressKind::Account) {
        assert(bytes.subrange(12, 28).len() == 16);
        assert(bytes.subrange(28, 44).len() == 16);
        assert(a.serialized() =~= bytes.subrange(0, 12) + bytes.subrange(12, 28) + bytes.subrange(
            28,
            44,
        ));
        assert(a.serialized() =~= bytes);
    } else {
        assert(bytes.subrange(8, 24).len() == 16);
        assert(bytes.subrange(24, 40).len() == 16);
        assert(a.serialized() =~= bytes.subrange(0, 8) + bytes.subrange(8, 24) + bytes.subrange(
            24,
            40,
        ));
        assert(a.serialized() =~= bytes);
    }
}

} // verus!
