use vstd::prelude::*;

verus! {

/// The class of an address.
#[derive(Clone, Copy, Debug, PartialEq, Eq, Structural)]
pub enum Protocol {
    /// A numeric actor id: already resolved.
    Id,
    /// Derived from a secp256k1 public key.
    Secp256k1,
    /// Derived from the creation of an actor.
    Actor,
    /// A BLS public key.
    Bls,
}

/// The length of a BLS public key.
pub const BLS_PUB_LEN: usize = 48;

/// The first byte of the BLS key that stands for nobody.
pub const BLS_ZERO_LEAD: u8 = 192;

/// What an address is: its class, its id (0 unless of class `Id`) and its
/// payload (empty for class `Id`).
pub struct AddressView {
    pub protocol: Protocol,
    pub id: u64,
    pub payload: Seq<u8>,
}

/// A logical address of an actor.
#[derive(Debug)]
pub struct Address {
    protocol: Protocol,
    id: u64,
    payload: Vec<u8>,
}

impl View for Address {
    type V = AddressView;

    closed spec fn view(&self) -> AddressView {
        AddressView { protocol: self.protocol, id: self.id, payload: self.payload@ }
    }
}

/// The number that stands for a class at the head of an address's bytes.
pub open spec fn protocol_tag(p: Protocol) -> u8 {
    match p {
        Protocol::Id => 0u8,
        Protocol::Secp256k1 => 1u8,
        Protocol::Actor => 2u8,
        Protocol::Bls => 3u8,
    }
}

/// Whether a payload is the BLS key that stands for nobody: 192, then zeros.
pub open spec fn is_zero_key(payload: Seq<u8>) -> bool {
    payload.len() == BLS_PUB_LEN && payload[0] == BLS_ZERO_LEAD && forall|i: int|
        1 <= i < payload.len() ==> payload[i] == 0
}

impl AddressView {
    /// Whether the class is derived from a public key.
    pub open spec fn is_key(&self) -> bool {
        self.protocol == Protocol::Secp256k1 || self.protocol == Protocol::Bls
    }

    /// The class's tag, then the payload.
    pub open spec fn key_bytes(&self) -> Seq<u8> {
        seq![protocol_tag(self.protocol)] + self.payload
    }
}

impl Address {
    /// The address of the actor with the given id.
    pub fn new_id(id: u64) -> (r: Address)
        ensures
            r@ == (AddressView { protocol: Protocol::Id, id, payload: Seq::empty() }),
    {
        Address { protocol: Protocol::Id, id, payload: Vec::new() }
    }

    /// The address of a secp256k1 key, given by its hash.
    pub fn new_secp256k1(payload: Vec<u8>) -> (r: Address)
        ensures
            r@ == (AddressView { protocol: Protocol::Secp256k1, id: 0, payload: payload@ }),
    {
        Address { protocol: Protocol::Secp256k1, id: 0, payload }
    }

    /// The address of an actor, given by the hash of its creation.
    pub fn new_actor(payload: Vec<u8>) -> (r: Address)
        ensures
            r@ == (AddressView { protocol: Protocol::Actor, id: 0, payload: payload@ }),
    {
        Address { protocol: Protocol::Actor, id: 0, payload }
    }

    /// The address of a BLS public key.
    pub fn new_bls(payload: Vec<u8>) -> (r: Address)
        ensures
            r@ == (AddressView { protocol: Protocol::Bls, id: 0, payload: payload@ }),
    {
        Address { protocol: Protocol::Bls, id: 0, payload }
    }

    /// The address's class.
    pub fn protocol(&self) -> (r: Protocol)
        ensures
            r == self@.protocol,
    {
        self.protocol
    }

    /// The actor id, where the address is one.
    pub fn id(&self) -> (r: Option<u64>)
        ensures
            r == if self@.protocol == Protocol::Id {
                Some(self@.id)
            } else {
                None::<u64>
            },
    {
        match self.protocol {
            Protocol::Id => Some(self.id),
            _ => None,
        }
    }

    /// Whether this is the BLS address that stands for nobody.
    pub fn is_bls_zero_address(&self) -> (r: bool)
        ensures
            r == (self@.protocol == Protocol::Bls && is_zero_key(self@.payload)),
    {
        match self.protocol {
            Protocol::Bls => {},
            _ => {
                return false;
            },
        }
        if self.payload.len() != BLS_PUB_LEN || self.payload[0] != BLS_ZERO_LEAD {
            return false;
        }
        let mut i: usize = 1;
        while i < BLS_PUB_LEN
            invariant
                1 <= i <= BLS_PUB_LEN,
                self.payload.len() == BLS_PUB_LEN,
                forall|j: int| 1 <= j < i ==> self.payload@[j] == 0,
            decreases BLS_PUB_LEN - i,
        {
            if self.payload[i] != 0 {
                return false;
            }
            i += 1;
        }
        true
    }

    /// Whether two addresses are the same address.
    pub fn same(&self, other: &Address) -> (r: bool)
        ensures
            r == (self@ == other@),
    {
        let tags_agree: bool = match (self.protocol, other.protocol) {
            (Protocol::Id, Protocol::Id) => true,
            (Protocol::Secp256k1, Protocol::Secp256k1) => true,
            (Protocol::Actor, Protocol::Actor) => true,
            (Protocol::Bls, Protocol::Bls) => true,
            _ => false,
        };
        if !tags_agree || self.id != other.id || self.payload.len() != other.payload.len() {
            return false;
        }
        let mut i: usize = 0;
        while i < self.payload.len()
            invariant
                0 <= i <= self.payload.len(),
                self.payload.len() == other.payload.len(),
                forall|j: int| 0 <= j < i ==> self.payload@[j] == other.payload@[j],
            decreases self.payload.len() - i,
        {
            if self.payload[i] != other.payload[i] {
                return false;
            }
            i += 1;
        }
        proof {
            assert(self.payload@ =~= other.payload@);
        }
        true
    }

    /// A copy of the address.
    pub fn duplicate(&self) -> (r: Address)
        ensures
            r@ == self@,
    {
        let mut payload: Vec<u8> = Vec::new();
        let mut i: usize = 0;
        while i < self.payload.len()
            invariant
                0 <= i <= self.payload.len(),
                payload@ == self.payload@.take(i as int),
            decreases self.payload.len() - i,
        {
            payload.push(self.payload[i]);
            proof {
                assert(payload@ =~= self.payload@.take(i + 1));
            }
            i += 1;
        }
        proof {
            assert(self.payload@.take(self.payload@.len() as int) =~= self.payload@);
        }
        Address { protocol: self.protocol, id: self.id, payload }
    }

    /// The address as bytes: the class's tag, then the payload. This is
    /// what the constructor of an account actor is handed.
    pub fn key_bytes(&self) -> (r: Vec<u8>)
        ensures
            r@ == self@.key_bytes(),
    {
        let tag: u8 = match self.protocol {
            Protocol::Id => 0,
            Protocol::Secp256k1 => 1,
            Protocol::Actor => 2,
            Protocol::Bls => 3,
        };
        let mut out: Vec<u8> = Vec::new();
        out.push(tag);
        let mut i: usize = 0;
        while i < self.payload.len()
            invariant
                0 <= i <= self.payload.len(),
                out@ == seq![tag] + self.payload@.take(i as int),
            decreases self.payload.len() - i,
        {
            out.push(self.payload[i]);
            proof {
                assert(out@ =~= seq![tag] + self.payload@.take(i + 1));
            }
            i += 1;
        }
        proof {
            assert(self.payload@.take(self.payload@.len() as int) =~= self.payload@);
        }
        out
    }
}

} // verus!
