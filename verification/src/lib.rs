//! A minimal client for a remote chat completion API: a message and role
//! model, a request configuration mirroring the provider's schema, a
//! response model, and a client that holds the running conversation.
//!
//! The client itself performs no transport work: `prepare_request` yields
//! the exact body to post to the endpoint, and `accept_response` decodes
//! the body that came back, picks the reply, and appends it to the
//! conversation. The caller owns the HTTP exchange in between and maps a
//! transport failure to `LlmError::NetworkError`.
pub mod chat_completion;
pub mod chat_config;
pub mod errors;
pub mod json;
pub mod message;
pub mod model;
pub mod parser;

use crate::chat_completion::{ChatCompletion, Choice};
use crate::chat_config::{spec_config_json, GroqChatOptions, GroqModelType};
use crate::errors::LlmError;
use crate::message::{Message, Role};
use vstd::prelude::*;

verus! {

/// What the reply selected from a completion must be: the message of the
/// last choice, or, when the choice list is empty, the sentinel assistant
/// message with empty content.
pub open spec fn spec_is_reply(c: ChatCompletion, m: Message) -> bool {
    if c.choices@.len() == 0 {
        m.content@ == Seq::<char>::empty() && m.role == Role::Assistant
    } else {
        m == c.choices@.last().message
    }
}

/// One invocation appends the outgoing message and then the selected
/// reply to the history.
pub open spec fn spec_invoke_history(h: Seq<Message>, sent: Message, reply: Message) -> Seq<
    Message,
> {
    h.push(sent).push(reply)
}

/// The history after a run of invocations, one `(sent, reply)` pair each.
pub open spec fn spec_run_history(h: Seq<Message>, turns: Seq<(Message, Message)>) -> Seq<Message>
    decreases turns.len(),
{
    if turns.len() == 0 {
        h
    } else {
        spec_run_history(spec_invoke_history(h, turns[0].0, turns[0].1), turns.drop_first())
    }
}

/// The conversation grows by exactly two messages per invocation: after
/// any run of invocations the history holds its old length plus twice the
/// number of exchanges. `prepare_request` contributes the first push of
/// `spec_invoke_history` and a successful `accept_response` the second.
pub proof fn lemma_history_growth(h: Seq<Message>, turns: Seq<(Message, Message)>)
    ensures
        spec_run_history(h, turns).len() == h.len() + 2 * turns.len(),
    decreases turns.len(),
{
    if turns.len() > 0 {
        lemma_history_growth(spec_invoke_history(h, turns[0].0, turns[0].1), turns.drop_first());
    }
}

/// Select the reply from a decoded completion: the last choice's message,
/// or the empty-choice sentinel's message when no choice came back.
pub fn take_reply(completion: ChatCompletion) -> (m: Message)
    ensures
        spec_is_reply(completion, m),
{
    let mut completion = completion;
    match completion.choices.pop() {
        Some(choice) => choice.message,
        None => Choice::empty().message,
    }
}

/// The client for the provider: endpoint, credential, and the mutable
/// conversation state, one blocking exchange per invocation.
#[derive(Debug)]
pub struct GroqModel {
    pub model: GroqModelType,
    pub chat_options: GroqChatOptions,
    chat_completion_url: String,
    api_key: String,
}

impl GroqModel {
    /// The model identifier the client was built for.
    pub closed spec fn model_view(self) -> GroqModelType {
        self.model
    }

    /// The configuration, conversation included, as the next request
    /// will send it.
    pub closed spec fn options_view(self) -> GroqChatOptions {
        self.chat_options
    }

    /// The fixed completions endpoint this client posts to.
    pub closed spec fn endpoint_view(self) -> Seq<char> {
        self.chat_completion_url@
    }

    /// The bearer credential the client was built with.
    pub closed spec fn credential_view(self) -> Seq<char> {
        self.api_key@
    }

    /// The fixed endpoint, and the credential the caller looked up;
    /// an absent credential is the one construction failure.
    fn link_and_api(api_key: Option<String>) -> (r: Result<(String, String), LlmError>)
        ensures
            match r {
                Ok(p) => {
                    &&& p.0@ == "https://api.groq.com/openai/v1/chat/completions"@
                    &&& api_key == Some(p.1)
                },
                Err(e) => api_key is None && e matches LlmError::ConfigurationError,
            },
    {
        match api_key {
            Some(key) => Ok(
                (String::from_str("https://api.groq.com/openai/v1/chat/completions"), key),
            ),
            None => Err(LlmError::ConfigurationError),
        }
    }

    /// Build a client over the default configuration with `model`
    /// substituted in. The caller passes the credential it looked up;
    /// `None` fails with `ConfigurationError`, and construction performs
    /// no network access.
    pub fn build(model: GroqModelType, api_key: Option<String>) -> (r: Result<GroqModel, LlmError>)
        ensures
            match r {
                Ok(m) => {
                    &&& api_key matches Some(k) && m.credential_view() == k@
                    &&& m.endpoint_view() == "https://api.groq.com/openai/v1/chat/completions"@
                    &&& m.model_view() == model
                    &&& m.options_view().model == model
                    &&& m.options_view().is_default_but_model()
                    &&& m.options_view().wf()
                },
                Err(e) => api_key is None && e matches LlmError::ConfigurationError,
            },
    {
        let mut chat_options = GroqChatOptions::default();
        chat_options.model = model;
        match GroqModel::link_and_api(api_key) {
            Ok((chat_completion_url, api_key)) => Ok(
                GroqModel { model, chat_options, chat_completion_url, api_key },
            ),
            Err(e) => Err(e),
        }
    }

    /// Build a client over a caller-supplied configuration. The `model`
    /// argument sets only the client's own `model` field and is not
    /// copied into `chat_options`, so the two may diverge; the contract
    /// states the divergence rather than resolving it.
    pub fn build_with_options(
        model: GroqModelType,
        chat_options: GroqChatOptions,
        api_key: Option<String>,
    ) -> (r: Result<GroqModel, LlmError>)
        ensures
            match r {
                Ok(m) => {
                    &&& api_key matches Some(k) && m.credential_view() == k@
                    &&& m.endpoint_view() == "https://api.groq.com/openai/v1/chat/completions"@
                    &&& m.model_view() == model
                    &&& m.options_view() == chat_options
                },
                Err(e) => api_key is None && e matches LlmError::ConfigurationError,
            },
    {
        match GroqModel::link_and_api(api_key) {
            Ok((chat_completion_url, api_key)) => Ok(
                GroqModel { model, chat_options, chat_completion_url, api_key },
            ),
            Err(e) => Err(e),
        }
    }

    /// The URL to post the next request to.
    pub fn endpoint(&self) -> (r: &String)
        ensures
            r@ == self.endpoint_view(),
    {
        &self.chat_completion_url
    }

    /// The bearer credential for the request's authorization header.
    pub fn credential(&self) -> (r: &String)
        ensures
            r@ == self.credential_view(),
    {
        &self.api_key
    }

    /// Start an invocation: append the outgoing message to the history
    /// and serialize the whole configuration as the request body, which
    /// is returned exactly as `spec_config_json` renders the updated
    /// configuration.
    pub fn prepare_request(&mut self, message: Message) -> (r: String)
        requires
            old(self).options_view().wf(),
        ensures
            final(self).options_view().messages@ == old(self).options_view().messages@.push(
                message,
            ),
            final(self).options_view().same_params(old(self).options_view()),
            final(self).endpoint_view() == old(self).endpoint_view(),
            final(self).credential_view() == old(self).credential_view(),
            final(self).model_view() == old(self).model_view(),
            r@ == spec_config_json(final(self).options_view()),
    {
        self.chat_options.messages.push(message);
        self.chat_options.to_json()
    }

    /// Finish an invocation on an already decoded response: select the
    /// reply (the last choice, or the sentinel when the choice list is
    /// empty — a substitution, never an error), append it to the history
    /// and return it.
    pub fn accept_completion(&mut self, completion: ChatCompletion) -> (reply: Message)
        ensures
            spec_is_reply(completion, reply),
            final(self).options_view().messages@ == old(self).options_view().messages@.push(reply),
            final(self).options_view().same_params(old(self).options_view()),
            final(self).endpoint_view() == old(self).endpoint_view(),
            final(self).credential_view() == old(self).credential_view(),
            final(self).model_view() == old(self).model_view(),
    {
        let reply: Message = take_reply(completion);
        self.chat_options.messages.push(reply.clone());
        reply
    }

    /// Finish an invocation: decode the response body, select the reply
    /// (the last choice, or the sentinel when no choice came back),
    /// append it to the history and return it. The decoder accepts the
    /// canonical compact rendering only (see `ChatCompletion::from_json`):
    /// any other body fails with `ProviderError` carrying the body, and
    /// leaves the client unchanged.
    ///
    /// The success contract identifies the decoded completion only up to
    /// its rendering; a caller that needs the completion itself should
    /// call `ChatCompletion::from_json` and then `accept_completion`,
    /// whose contracts name the value directly.
    pub fn accept_response(&mut self, body: &str) -> (r: Result<Message, LlmError>)
        ensures
            match r {
                Ok(reply) => {
                    &&& exists|c: ChatCompletion|
                        body@ == chat_completion::spec_completion_json(c) && spec_is_reply(c, reply)
                    &&& final(self).options_view().messages@ == old(
                        self,
                    ).options_view().messages@.push(reply)
                    &&& final(self).options_view().same_params(old(self).options_view())
                    &&& final(self).endpoint_view() == old(self).endpoint_view()
                    &&& final(self).credential_view() == old(self).credential_view()
                    &&& final(self).model_view() == old(self).model_view()
                },
                Err(e) => {
                    &&& e matches LlmError::ProviderError(b) && b@ == body@
                    &&& *final(self) == *old(self)
                },
            },
    {
        let completion: ChatCompletion = match ChatCompletion::from_json(body) {
            Some(c) => c,
            None => { return Err(LlmError::ProviderError(body.to_owned())); },
        };
        let ghost parsed = completion;
        let reply: Message = self.accept_completion(completion);
        proof {
            assert(body@ == chat_completion::spec_completion_json(parsed) && spec_is_reply(
                parsed,
                reply,
            ));
        }
        Ok(reply)
    }
}

} // verus!
