//! The Sponge: a single-slot rendezvous cache correlating the raw-protocol
//! stream with the host's print stream.
//!
//! `put` unconditionally replaces the slot (last write wins); `pop` returns
//! and clears the stored message only when the stored signature equals the
//! one asked for, and otherwise leaves the slot untouched.

use vstd::prelude::*;

use crate::irc::{spec_signature, Message, MessageV};
use crate::strutil::str_eq;

verus! {

/// Mathematical model of the slot: the stored signature and message, if any.
pub ghost struct SpongeV {
    pub signature: Option<Seq<char>>,
    pub value: Option<MessageV>,
}

/// What `put` does to the slot: both halves are replaced.
pub open spec fn spec_put(s: SpongeV, m: MessageV) -> SpongeV {
    SpongeV { signature: Some(spec_signature(m)), value: Some(m) }
}

/// What `pop` does to the slot and returns: the stored message exactly when
/// the stored signature matches, and nothing otherwise, the slot unchanged.
pub open spec fn spec_pop(s: SpongeV, sig: Seq<char>) -> (SpongeV, Option<MessageV>) {
    match s.signature {
        Some(stored) => if stored == sig {
            (SpongeV { signature: s.signature, value: None }, s.value)
        } else {
            (s, None)
        },
        None => (s, None),
    }
}

/// Sponge correlation laws: a message put under its signature is returned
/// by a pop with that signature; a pop with any other signature returns
/// nothing and leaves the message retrievable; a second put discards the
/// first message irrecoverably, whatever was stored before.
pub proof fn lemma_sponge_correlation(s: SpongeV, m: MessageV, m2: MessageV, other: Seq<char>)
    ensures
        spec_pop(spec_put(s, m), spec_signature(m)).1 == Some(m),
        other != spec_signature(m) ==> spec_pop(spec_put(s, m), other).1 is None
            && spec_pop(spec_pop(spec_put(s, m), other).0, spec_signature(m)).1 == Some(m),
        spec_put(spec_put(s, m), m2) == spec_put(s, m2),
{
}

/// The single-slot rendezvous cache.
pub struct Sponge {
    pub signature: Option<String>,
    pub value: Option<Message>,
}

impl View for Sponge {
    type V = SpongeV;

    open spec fn view(&self) -> SpongeV {
        SpongeV {
            signature: match self.signature {
                Some(s) => Some(s@),
                None => None,
            },
            value: match self.value {
                Some(m) => Some(m@),
                None => None,
            },
        }
    }
}

impl Sponge {
    /// The empty slot, as at process start.
    pub fn new() -> (r: Sponge)
        ensures
            r@.signature is None,
            r@.value is None,
    {
        Sponge { signature: None, value: None }
    }

    /// Place a message into the slot.  The previous message, if any, is
    /// discarded.
    pub fn put(&mut self, new: Message)
        ensures
            final(self)@ == spec_put(old(self)@, new@),
    {
        let sig = new.get_signature();
        self.signature = Some(sig);
        self.value = Some(new);
    }

    /// Remove and return the stored message, but only if the stored
    /// signature equals `signature`; otherwise leave the slot untouched.
    pub fn pop(&mut self, signature: &str) -> (r: Option<Message>)
        ensures
            final(self)@ == spec_pop(old(self)@, signature@).0,
            match r {
                Some(m) => spec_pop(old(self)@, signature@).1 == Some(m@),
                None => spec_pop(old(self)@, signature@).1 is None,
            },
    {
        let matched = match &self.signature {
            Some(stored) => str_eq(stored.as_str(), signature),
            None => false,
        };
        if matched {
            self.value.take()
        } else {
            None
        }
    }
}

} // verus!
