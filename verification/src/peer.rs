//! Identities of peers and the addresses under which they may be reached.

use vstd::prelude::*;

use crate::base58::{
    base58, base58_digits, big_endian, law_base58_injective, leading_zeros, lemma_base58_length,
};

verus! {

/// The code of the identity multihash: the digest is the public key itself.
pub const IDENTITY_CODE: u8 = 0x00;

/// The code of the SHA2-256 multihash: the digest is a hash of the public key.
pub const SHA256_CODE: u8 = 0x12;

/// The longest public key that an identity multihash may carry.
pub const MAX_INLINE_KEY_LENGTH: usize = 42;

/// The longest digest that a multihash may carry.
pub const MAX_DIGEST_LENGTH: usize = 64;

/// What the bytes of a peer identity look like: the code of the hash, the length of
/// the digest, and the digest. Both numbers are below 128, so each takes one byte, in the
/// shortest form.
pub open spec fn is_peer_id(bytes: Seq<u8>) -> bool {
    &&& bytes.len() >= 2
    &&& bytes[1] == bytes.len() - 2
    &&& {
        ||| bytes[0] == SHA256_CODE && bytes[1] <= MAX_DIGEST_LENGTH
        ||| bytes[0] == IDENTITY_CODE && bytes[1] <= MAX_INLINE_KEY_LENGTH
    }
}

/// The base 58 text of a peer identity, made by `libp2p::PeerId::to_base58` on the
/// identity that `libp2p::PeerId::from_bytes` reads from the bytes.
///
/// Trusted: the text is that of the bytes in base 58, with the alphabet of Bitcoin.
#[verifier::external_body]
fn libp2p_base58(bytes: &Vec<u8>) -> (text: String)
    requires
        is_peer_id(bytes@),
    ensures
        text@ == base58(bytes@),
{
    libp2p::PeerId::from_bytes(bytes).unwrap().to_base58()
}

/// The bytes of the identity that a text stands for, or the complaint about it, by the rules
/// of `libp2p::PeerId`.
pub uninterp spec fn peer_id_of_text(text: Seq<char>) -> Result<Seq<u8>, Seq<char>>;

/// Reads the text of a peer identity by the `from_str` of `libp2p::PeerId`, and gives the
/// bytes of the identity by its `to_bytes`, or its complaint as text.
///
/// Trusted: the result depends on the text alone. What is read has the form of an identity,
/// and the text in base 58 of the bytes of an identity is read, as those bytes. Left open is
/// which other texts are read, such as that of an identity whose code or length takes more
/// bytes than it needs, and what a complaint says.
#[verifier::external_body]
fn libp2p_parse_peer_id(text: &String) -> (parsed: Result<Vec<u8>, String>)
    ensures
        match parsed {
            Ok(bytes) => {
                &&& is_peer_id(bytes@)
                &&& peer_id_of_text(text@) == Ok::<Seq<u8>, Seq<char>>(bytes@)
                &&& forall|other: Seq<u8>|
                    is_peer_id(other) && #[trigger] base58(other) == text@ ==> other == bytes@
            },
            Err(complaint) => {
                &&& peer_id_of_text(text@) == Err::<Seq<u8>, Seq<char>>(complaint@)
                &&& forall|bytes: Seq<u8>| is_peer_id(bytes) ==> #[trigger] base58(bytes) != text@
            },
        },
{
    match text.parse::<libp2p::PeerId>() {
        Ok(peer_id) => Ok(peer_id.to_bytes()),
        Err(complaint) => Err(complaint.to_string()),
    }
}

/// The binary form of the address that a text stands for, or the complaint about it, by the
/// rules of `libp2p::Multiaddr`.
pub uninterp spec fn multiaddr_of_text(text: Seq<char>) -> Result<Seq<u8>, Seq<char>>;

/// Reads the text of an address by the `from_str` of `libp2p::Multiaddr`, and gives the
/// binary form of the address by its `to_vec`, or its complaint as text.
///
/// Trusted: the result depends on the text alone.
#[verifier::external_body]
fn libp2p_parse_multiaddr(text: &String) -> (parsed: Result<Vec<u8>, String>)
    ensures
        match parsed {
            Ok(bytes) => multiaddr_of_text(text@) == Ok::<Seq<u8>, Seq<char>>(bytes@),
            Err(complaint) => multiaddr_of_text(text@) == Err::<Seq<u8>, Seq<char>>(complaint@),
        },
{
    match text.parse::<libp2p::Multiaddr>() {
        Ok(addr) => Ok(addr.to_vec()),
        Err(complaint) => Err(complaint.to_string()),
    }
}

/// The identity multihash of no bytes at all is the one peer identity with a text
/// that is shorter than three characters.
pub proof fn lemma_peer_id_base58_length(bytes: Seq<u8>)
    requires
        is_peer_id(bytes),
    ensures
        base58(bytes).len() < 3 <==> bytes == seq![0u8, 0u8],
{
    lemma_base58_length(bytes);
    if bytes.len() == 2 {
        assert(bytes =~= seq![bytes[0], 0u8]);
        reveal_with_fuel(big_endian, 3);
        reveal_with_fuel(leading_zeros, 3);
        reveal_with_fuel(base58_digits, 4);
        assert(bytes.drop_last() =~= seq![bytes[0]]);
        assert(bytes.drop_last().drop_last() =~= Seq::<u8>::empty());
        assert(bytes.drop_first() =~= seq![0u8]);
        assert(bytes.drop_first().drop_first() =~= Seq::<u8>::empty());
    }
}

/// Whether a text that is the base 58 text of an identity is read as that identity.
pub open spec fn reads_back(text: Seq<char>) -> bool {
    forall|bytes: Seq<u8>|
        is_peer_id(bytes) && #[trigger] base58(bytes) == text ==> peer_id_of_text(text) == Ok::<
            Seq<u8>,
            Seq<char>,
        >(bytes)
}

/// Different identities have different texts.
pub proof fn law_peer_id_text(a: Seq<u8>, b: Seq<u8>)
    requires
        is_peer_id(a),
        is_peer_id(b),
    ensures
        base58(a) == base58(b) <==> a == b,
{
    if base58(a) == base58(b) {
        law_base58_injective(a, b);
    }
}

/// The identity of a peer: a multihash of its public key.
#[derive(Debug, PartialEq, Eq, Hash)]
pub struct PeerId {
    bytes: Vec<u8>,
}

impl View for PeerId {
    type V = Seq<u8>;

    closed spec fn view(&self) -> Seq<u8> {
        self.bytes@
    }
}

impl PeerId {
    #[verifier::type_invariant]
    closed spec fn valid(self) -> bool {
        is_peer_id(self.bytes@)
    }

    /// The bytes of a peer identity are valid by construction.
    pub fn to_bytes(&self) -> (bytes: &Vec<u8>)
        ensures
            bytes@ == self@,
            is_peer_id(self@),
    {
        proof {
            use_type_invariant(self);
        }
        &self.bytes
    }

    /// Takes the bytes of a peer identity, unless they do not have its form.
    pub fn from_bytes(bytes: Vec<u8>) -> (peer_id: Option<PeerId>)
        ensures
            peer_id is Some <==> is_peer_id(bytes@),
            peer_id matches Some(p) ==> p@ == bytes@,
    {
        if bytes.len() < 2 || bytes.len() - 2 > 255 {
            return None;
        }
        let size: usize = bytes[1] as usize;
        if size != bytes.len() - 2 {
            return None;
        }
        if (bytes[0] == SHA256_CODE && size <= MAX_DIGEST_LENGTH) || (bytes[0] == IDENTITY_CODE
            && size <= MAX_INLINE_KEY_LENGTH) {
            Some(PeerId { bytes })
        } else {
            None
        }
    }

    /// The base 58 text of the identity.
    pub fn to_base58(&self) -> (text: String)
        ensures
            text@ == base58(self@),
            is_peer_id(self@),
    {
        proof {
            use_type_invariant(self);
        }
        libp2p_base58(&self.bytes)
    }

    /// Reads the text of an identity. Fails with a complaint if it is not one. The base 58
    /// text of an identity is read as that identity.
    pub fn from_str(text: &String) -> (peer_id: Result<PeerId, String>)
        ensures
            match peer_id {
                Ok(peer_id) => {
                    &&& is_peer_id(peer_id@)
                    &&& peer_id_of_text(text@) == Ok::<Seq<u8>, Seq<char>>(peer_id@)
                },
                Err(complaint) => peer_id_of_text(text@) == Err::<Seq<u8>, Seq<char>>(complaint@),
            },
            reads_back(text@),
    {
        match libp2p_parse_peer_id(text) {
            Ok(bytes) => Ok(PeerId { bytes }),
            Err(complaint) => Err(complaint),
        }
    }

    /// Whether two identities are those of one peer.
    pub fn same(&self, other: &PeerId) -> (same: bool)
        ensures
            same == (self@ == other@),
    {
        if self.bytes.len() != other.bytes.len() {
            return false;
        }
        let mut i: usize = 0;
        while i < self.bytes.len()
            invariant
                i <= self.bytes.len(),
                self.bytes.len() == other.bytes.len(),
                forall|j: int| 0 <= j < i ==> self.bytes@[j] == other.bytes@[j],
            decreases self.bytes.len() - i,
        {
            if self.bytes[i] != other.bytes[i] {
                return false;
            }
            i += 1;
        }
        assert(self.bytes@ =~= other.bytes@);
        true
    }
}

impl Clone for PeerId {
    fn clone(&self) -> (peer_id: PeerId)
        ensures
            peer_id@ == self@,
    {
        proof {
            use_type_invariant(self);
        }
        let bytes: Vec<u8> = self.bytes.clone();
        assert(bytes@ =~= self.bytes@);
        PeerId { bytes }
    }
}

/// An address of the network, in its binary form.
#[derive(Debug, PartialEq, Eq, Hash)]
pub struct Multiaddr {
    pub bytes: Vec<u8>,
}

impl View for Multiaddr {
    type V = Seq<u8>;

    open spec fn view(&self) -> Seq<u8> {
        self.bytes@
    }
}

impl Multiaddr {
    /// Reads the text of an address. Fails with a complaint if it is not one.
    pub fn from_str(text: &String) -> (addr: Result<Multiaddr, String>)
        ensures
            match addr {
                Ok(addr) => multiaddr_of_text(text@) == Ok::<Seq<u8>, Seq<char>>(addr@),
                Err(complaint) => multiaddr_of_text(text@) == Err::<Seq<u8>, Seq<char>>(complaint@),
            },
    {
        match libp2p_parse_multiaddr(text) {
            Ok(bytes) => Ok(Multiaddr { bytes }),
            Err(complaint) => Err(complaint),
        }
    }
}

/// The binary forms of a list of addresses.
pub open spec fn addresses(addrs: Seq<Multiaddr>) -> Seq<Seq<u8>> {
    addrs.map_values(|addr: Multiaddr| addr@)
}

} // verus!
