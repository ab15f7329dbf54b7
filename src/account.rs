use vstd::prelude::*;

verus! {

/// The compressed secp256k1 public key that belongs to a secret key.
pub uninterp spec fn public_key_of(secret: Seq<u8>) -> Seq<u8>;

/// A named keypair. The public key is the account's identity in the ledger;
/// the secret key is never handed to a peer.
pub struct Account {
    pub name: String,
    pub private_key: [u8; 32],
    pub public_key: [u8; 33],
}

/// Relies on secp256k1::Secp256k1::generate_keypair, fed by rand's OsRng: a
/// fresh secret key from the operating system's randomness, and the public
/// key derived from it, serialized in compressed form.
#[verifier::external_body]
fn generate_keypair() -> (r: ([u8; 32], [u8; 33]))
    ensures
        r.1@ == public_key_of(r.0@),
{
    let secp = secp256k1::Secp256k1::new();
    let (secret, public) = secp.generate_keypair(&mut rand::rngs::OsRng);
    (secret.secret_bytes(), public.serialize())
}

impl Account {
    /// A fresh account under `name`, with a newly drawn keypair.
    pub fn new(name: String) -> (r: Self)
        ensures
            r.name@ == name@,
            r.public_key@ == public_key_of(r.private_key@),
    {
        let (private_key, public_key) = generate_keypair();
        Account { name, private_key, public_key }
    }
}

} // verus!
