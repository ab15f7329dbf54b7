use vstd::prelude::*;

verus! {

/// The envelope that peers may exchange: a liveness probe, its answer, or
/// the announcement of a transfer between two hex-encoded keys.
#[derive(Debug)]
pub enum Message {
    Ping,
    Pong,
    Transaction { from: String, to: String, amount: u64 },
}

} // verus!
