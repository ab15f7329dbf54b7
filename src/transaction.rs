use vstd::prelude::*;

verus! {

/// A transfer of `amount` from `sender` to `recipient`, both named by their
/// compressed public keys. It carries no fee, nonce or signature, and nothing
/// about it is validated.
#[derive(Clone, Copy, Debug)]
pub struct Transaction {
    pub recipient: [u8; 33],
    pub sender: [u8; 33],
    pub amount: u64,
}

impl Transaction {
    pub fn new(recipient: [u8; 33], sender: [u8; 33], amount: u64) -> (r: Self)
        ensures
            r.recipient == recipient,
            r.sender == sender,
            r.amount == amount,
    {
        Transaction { recipient, sender, amount }
    }
}

} // verus!
