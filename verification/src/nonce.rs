//! Nonces of an established channel: each message of one direction carries
//! the next number, and no number is ever taken twice.

use vstd::prelude::*;
use crate::cbor::{be_value, pow256};
use crate::error::IdentityError;

verus! {

/// The counter of the sending end of a channel.
#[derive(Debug)]
pub struct NonceCounter {
    next: u64,
}

impl View for NonceCounter {
    type V = nat;

    /// The nonce that the next message gets.
    closed spec fn view(&self) -> nat {
        self.next as nat
    }
}

impl NonceCounter {
    /// The counter of a channel that has sent nothing.
    pub fn new() -> (counter: Self)
        ensures
            counter@ == 0,
    {
        NonceCounter { next: 0 }
    }

    /// The counter of a channel that is taken up again, whose next message
    /// gets the nonce `next`.
    pub fn resume(next: u64) -> (counter: Self)
        ensures
            counter@ == next,
    {
        NonceCounter { next }
    }

    /// The nonce for the next message. The last number is never given out:
    /// once the counter has reached it, the channel cannot send any more
    /// and the overflow error is returned.
    pub fn next_nonce(&mut self) -> (r: Result<u64, IdentityError>)
        ensures
            match r {
                Ok(nonce) => {
                    &&& old(self)@ < u64::MAX
                    &&& nonce == old(self)@
                    &&& final(self)@ == old(self)@ + 1
                },
                Err(e) => {
                    &&& old(self)@ == u64::MAX
                    &&& e == IdentityError::NonceOverflow
                    &&& final(self)@ == old(self)@
                },
            },
    {
        if self.next == u64::MAX {
            Err(IdentityError::NonceOverflow)
        } else {
            let nonce = self.next;
            self.next = self.next + 1;
            Ok(nonce)
        }
    }
}

/// The window of the receiving end of a channel: the nonce it expects next.
#[derive(Debug)]
pub struct NonceWindow {
    expected: u64,
}

impl View for NonceWindow {
    type V = nat;

    /// Every nonce below this number was accepted or passed over.
    closed spec fn view(&self) -> nat {
        self.expected as nat
    }
}

impl NonceWindow {
    /// The window of a channel that has received nothing.
    pub fn new() -> (window: Self)
        ensures
            window@ == 0,
    {
        NonceWindow { expected: 0 }
    }

    /// Takes the nonce of a received message. A nonce that was accepted
    /// before, or that lies before one that was, is refused as invalid, and
    /// so is the last number, which no sender gives out; any other is
    /// accepted, and with it all before it count as passed.
    pub fn accept(&mut self, nonce: u64) -> (r: Result<(), IdentityError>)
        ensures
            match r {
                Ok(_) => {
                    &&& old(self)@ <= nonce < u64::MAX
                    &&& final(self)@ == nonce + 1
                },
                Err(e) => {
                    &&& (nonce < old(self)@ || nonce == u64::MAX)
                    &&& e == IdentityError::InvalidNonce
                    &&& final(self)@ == old(self)@
                },
            },
    {
        if nonce < self.expected || nonce == u64::MAX {
            Err(IdentityError::InvalidNonce)
        } else {
            self.expected = nonce + 1;
            Ok(())
        }
    }
}

/// The nonce that eight bytes spell in big-endian order; any other number
/// of bytes is no nonce.
pub fn nonce_from_bytes(bytes: &[u8]) -> (r: Result<u64, IdentityError>)
    ensures
        match r {
            Ok(nonce) => bytes@.len() == 8 && nonce == be_value(bytes@),
            Err(e) => bytes@.len() != 8 && e == IdentityError::InvalidNonce,
        },
{
    if bytes.len() != 8 {
        return Err(IdentityError::InvalidNonce);
    }
    let mut nonce: u64 = 0;
    let mut i: usize = 0;
    assert(bytes@.take(0) =~= Seq::<u8>::empty());
    while i < 8
        invariant
            i <= 8,
            bytes@.len() == 8,
            nonce == be_value(bytes@.take(i as int)),
            nonce < pow256(i as nat),
        decreases 8 - i,
    {
        let ghost upto = bytes@.take(i + 1);
        assert(upto.drop_last() =~= bytes@.take(i as int));
        assert(upto.last() == bytes@[i as int]);
        proof {
            lemma_pow256(i as nat);
        }
        nonce = nonce * 256 + bytes[i] as u64;
        i = i + 1;
    }
    assert(bytes@.take(8) =~= bytes@);
    Ok(nonce)
}

proof fn lemma_pow256(n: nat)
    requires
        n < 8,
    ensures
        pow256(n) * 256 == pow256(n + 1),
        pow256(n + 1) <= 0x1_0000_0000_0000_0000,
        pow256(n) >= 1,
{
    reveal_with_fuel(pow256, 10);
}

} // verus!
