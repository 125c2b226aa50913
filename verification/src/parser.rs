//! A consumer-side hook for turning a reply into a caller-chosen value.
use crate::message::Message;
use vstd::prelude::*;

verus! {

/// Turns a message into a value of the implementor's choosing.
pub trait Parser<ReturnType> {
    /// Read `message` and produce the extracted value.
    fn parse(&self, message: Message) -> ReturnType;
}

} // verus!
