//! The capability a provider backend offers: one blocking exchange that
//! takes the outgoing message and yields the provider's reply. Any
//! backend implementing it is substitutable wherever a `Model` is
//! expected; this is the one deliberate extension point of the design.
use crate::errors::LlmError;
use crate::message::Message;
use vstd::prelude::*;

verus! {

/// A chat backend: send one message, receive the next reply.
pub trait Model {
    /// Perform one exchange; every failure is surfaced to the caller.
    fn invoke(&mut self, message: Message) -> Result<Message, LlmError>;
}

} // verus!
