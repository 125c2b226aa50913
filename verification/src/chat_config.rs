//! The request configuration sent to the provider: the running
//! conversation plus the sampling and generation parameters. Optional
//! parameters are omitted from the serialized body when absent, never
//! written as `null`.
use crate::errors::LlmError;
use crate::json::{
    chars_to_string, eat_lit, lemma_items_push, parse_decimal, parse_string_field, parse_u32,
    push_decimal, push_json_string, push_lit, push_u64, spec_array, spec_decimal_chars, spec_items,
    spec_json_string, spec_u64_chars, str_eq, str_to_chars, DecimalNumber,
};
use crate::message::{spec_message_json, Message};
use vstd::prelude::*;
use vstd::seq_lib::lemma_concat_associative;

verus! {

/// The closed set of model identifiers this client can ask for.
#[derive(Clone, Copy, Debug, PartialEq, Eq, Structural)]
pub enum GroqModelType {
    Llama3_70b8192,
    Llama3_8b8192,
}

/// The provider's exact name for a model.
pub open spec fn spec_model_str(m: GroqModelType) -> Seq<char> {
    match m {
        GroqModelType::Llama3_70b8192 => "llama3-70b-8192"@,
        GroqModelType::Llama3_8b8192 => "llama3-8b-8192"@,
    }
}

/// The total decoder for model names: the two known names decode to their
/// model, everything else to `None`.
pub open spec fn spec_model_of(s: Seq<char>) -> Option<GroqModelType> {
    if s == "llama3-8b-8192"@ {
        Some(GroqModelType::Llama3_8b8192)
    } else if s == "llama3-70b-8192"@ {
        Some(GroqModelType::Llama3_70b8192)
    } else {
        None
    }
}

/// The round-trip law for model identifiers: encoding a model and
/// decoding the result is the identity, and every unrecognized name fails
/// to decode.
pub proof fn lemma_model_round_trip(m: GroqModelType)
    ensures
        spec_model_of(spec_model_str(m)) == Some(m),
        forall|s: Seq<char>|
            !(s == "llama3-8b-8192"@ || s == "llama3-70b-8192"@) ==> spec_model_of(s) is None,
{
    reveal_strlit("llama3-8b-8192");
    reveal_strlit("llama3-70b-8192");
    assert("llama3-8b-8192"@.len() == 14);
    assert("llama3-70b-8192"@.len() == 15);
}

impl GroqModelType {
    /// The provider's exact name for this model.
    pub fn to_string(&self) -> (r: String)
        ensures
            r@ == spec_model_str(*self),
    {
        match self {
            GroqModelType::Llama3_8b8192 => String::from_str("llama3-8b-8192"),
            GroqModelType::Llama3_70b8192 => String::from_str("llama3-70b-8192"),
        }
    }

    /// Decode a model name; an unrecognized name fails with a
    /// `SerializationError` naming it.
    pub fn from_str(s: &str) -> (r: Result<GroqModelType, LlmError>)
        ensures
            match r {
                Ok(m) => spec_model_of(s@) == Some(m),
                Err(e) => spec_model_of(s@) is None && (e matches LlmError::SerializationError(m)
                    && m@ == s@),
            },
    {
        if str_eq(s, "llama3-8b-8192") {
            Ok(GroqModelType::Llama3_8b8192)
        } else if str_eq(s, "llama3-70b-8192") {
            Ok(GroqModelType::Llama3_70b8192)
        } else {
            Err(LlmError::SerializationError(s.to_owned()))
        }
    }
}

/// The full request body: conversation history and generation parameters.
/// Out-of-range parameter values are accepted and forwarded unchecked; the
/// provider is the authority on rejecting them.
#[derive(Debug)]
pub struct GroqChatOptions {
    /// The conversation so far, oldest first; grows by one outgoing and
    /// one returned message per invocation.
    pub messages: Vec<Message>,
    pub model: GroqModelType,
    /// Repetition penalty by frequency, between -2.0 and 2.0.
    pub frequency_penalty: Option<DecimalNumber>,
    /// Whether to return log probabilities.
    pub logprobs: Option<bool>,
    /// Cap on generated tokens.
    pub max_tokens: Option<u32>,
    /// How many completions to ask for.
    pub n: Option<u32>,
    /// Whether the provider may call tools in parallel.
    pub parallel_tool_calls: Option<bool>,
    /// Repetition penalty by presence, between -2.0 and 2.0.
    pub presence_penalty: Option<DecimalNumber>,
    /// Best-effort deterministic sampling seed.
    pub seed: Option<u32>,
    /// Up to four sequences at which generation stops.
    pub stop: Option<Vec<String>>,
    /// Whether to stream partial deltas.
    pub stream: Option<bool>,
    /// Sampling temperature.
    pub temperature: Option<DecimalNumber>,
    /// How many top tokens to report, between 0 and 20.
    pub top_logprobs: Option<u32>,
    /// Nucleus sampling mass.
    pub top_p: Option<DecimalNumber>,
    /// An identifier for the end user.
    pub user: Option<String>,
}

/// An optional decimal-valued field: the key and numeral when present,
/// nothing when absent.
pub open spec fn spec_opt_decimal(key: Seq<char>, o: Option<DecimalNumber>) -> Seq<char> {
    match o {
        Option::None => Seq::<char>::empty(),
        Option::Some(d) => key + spec_decimal_chars(d),
    }
}

/// An optional boolean field.
pub open spec fn spec_opt_bool(key: Seq<char>, o: Option<bool>) -> Seq<char> {
    match o {
        Option::None => Seq::<char>::empty(),
        Option::Some(b) => key + if b {
            "true"@
        } else {
            "false"@
        },
    }
}

/// An optional unsigned integer field.
pub open spec fn spec_opt_u32(key: Seq<char>, o: Option<u32>) -> Seq<char> {
    match o {
        Option::None => Seq::<char>::empty(),
        Option::Some(v) => key + spec_u64_chars(v as nat),
    }
}

/// An optional string field.
pub open spec fn spec_opt_string(key: Seq<char>, o: Option<String>) -> Seq<char> {
    match o {
        Option::None => Seq::<char>::empty(),
        Option::Some(s) => key + spec_json_string(s@),
    }
}

/// An optional array-of-strings field.
pub open spec fn spec_opt_string_array(key: Seq<char>, o: Option<Vec<String>>) -> Seq<char> {
    match o {
        Option::None => Seq::<char>::empty(),
        Option::Some(v) => key + spec_array(
            v.deep_view().map_values(|s: Seq<char>| spec_json_string(s)),
        ),
    }
}

/// The JSON array holding the conversation.
pub open spec fn spec_messages_json(ms: Seq<Message>) -> Seq<char> {
    spec_array(ms.map_values(|m: Message| spec_message_json(m)))
}

/// The serialized request body: the two required fields first, then every
/// optional field that is set, in this fixed order, each rendered by its
/// field helper; absent fields leave no trace.
pub open spec fn spec_config_json(c: GroqChatOptions) -> Seq<char> {
    "{\"messages\":"@ + spec_messages_json(c.messages@) + ",\"model\":"@ + spec_json_string(
        spec_model_str(c.model),
    ) + spec_opt_decimal(",\"frequency_penalty\":"@, c.frequency_penalty) + spec_opt_bool(
        ",\"logprobs\":"@,
        c.logprobs,
    ) + spec_opt_u32(",\"max_tokens\":"@, c.max_tokens) + spec_opt_u32(",\"n\":"@, c.n)
        + spec_opt_bool(",\"parallel_tool_calls\":"@, c.parallel_tool_calls) + spec_opt_decimal(
        ",\"presence_penalty\":"@,
        c.presence_penalty,
    ) + spec_opt_u32(",\"seed\":"@, c.seed) + spec_opt_string_array(",\"stop\":"@, c.stop)
        + spec_opt_bool(",\"stream\":"@, c.stream) + spec_opt_decimal(
        ",\"temperature\":"@,
        c.temperature,
    ) + spec_opt_u32(",\"top_logprobs\":"@, c.top_logprobs) + spec_opt_decimal(
        ",\"top_p\":"@,
        c.top_p,
    ) + spec_opt_string(",\"user\":"@, c.user) + "}"@
}

impl GroqChatOptions {
    /// Machine limit: every decimal parameter that is set must be
    /// representable (its scale fits the fixed-point form).
    pub open spec fn wf(self) -> bool {
        &&& (self.frequency_penalty matches Option::Some(d) ==> d.wf())
        &&& (self.presence_penalty matches Option::Some(d) ==> d.wf())
        &&& (self.temperature matches Option::Some(d) ==> d.wf())
        &&& (self.top_p matches Option::Some(d) ==> d.wf())
    }

    /// Whether every parameter of `self` other than `model` holds its
    /// default: an empty conversation, both penalties 0.0, one completion,
    /// no log probabilities, no streaming, temperature and nucleus mass
    /// 1.0, parallel tool calls off (the provider defaults to on; this
    /// default deliberately overrides it), and every other parameter
    /// unset.
    pub open spec fn is_default_but_model(self) -> bool {
        &&& self.messages@ == Seq::<Message>::empty()
        &&& self.frequency_penalty == Some(
            DecimalNumber { mantissa: 0u64, scale: 1u32, neg: false },
        )
        &&& self.logprobs == Some(false)
        &&& self.max_tokens is None
        &&& self.n == Some(1u32)
        &&& self.parallel_tool_calls == Some(false)
        &&& self.presence_penalty == Some(
            DecimalNumber { mantissa: 0u64, scale: 1u32, neg: false },
        )
        &&& self.seed is None
        &&& self.stop is None
        &&& self.stream == Some(false)
        &&& self.temperature == Some(DecimalNumber { mantissa: 10u64, scale: 1u32, neg: false })
        &&& self.top_logprobs is None
        &&& self.top_p == Some(DecimalNumber { mantissa: 10u64, scale: 1u32, neg: false })
        &&& self.user is None
    }

    /// Whether `self` and `other` agree on every generation parameter,
    /// that is on every field except the conversation itself.
    pub open spec fn same_params(self, other: GroqChatOptions) -> bool {
        &&& self.model == other.model
        &&& self.frequency_penalty == other.frequency_penalty
        &&& self.logprobs == other.logprobs
        &&& self.max_tokens == other.max_tokens
        &&& self.n == other.n
        &&& self.parallel_tool_calls == other.parallel_tool_calls
        &&& self.presence_penalty == other.presence_penalty
        &&& self.seed == other.seed
        &&& self.stop == other.stop
        &&& self.stream == other.stream
        &&& self.temperature == other.temperature
        &&& self.top_logprobs == other.top_logprobs
        &&& self.top_p == other.top_p
        &&& self.user == other.user
    }

    /// The default configuration, as `is_default_but_model` describes,
    /// with the small Llama 3 model.
    pub fn default() -> (c: GroqChatOptions)
        ensures
            c.is_default_but_model(),
            c.model == GroqModelType::Llama3_8b8192,
            c.wf(),
    {
        GroqChatOptions {
            messages: Vec::new(),
            model: GroqModelType::Llama3_8b8192,
            frequency_penalty: Some(DecimalNumber::from_units(0)),
            logprobs: Some(false),
            max_tokens: None,
            n: Some(1),
            parallel_tool_calls: Some(false),
            presence_penalty: Some(DecimalNumber::from_units(0)),
            seed: None,
            stop: None,
            stream: Some(false),
            temperature: Some(DecimalNumber::from_units(1)),
            top_logprobs: None,
            top_p: Some(DecimalNumber::from_units(1)),
            user: None,
        }
    }

    /// Append the conversation as a JSON array of message objects.
    fn push_messages(&self, out: &mut Vec<char>)
        ensures
            final(out)@ == old(out)@ + spec_messages_json(self.messages@),
    {
        let ghost rendered = self.messages@.map_values(|m: Message| spec_message_json(m));
        out.push('[');
        let mut i: usize = 0;
        while i < self.messages.len()
            invariant
                i <= self.messages.len(),
                rendered == self.messages@.map_values(|m: Message| spec_message_json(m)),
                rendered.len() == self.messages.len(),
                out@ == old(out)@ + seq!['['] + spec_items(rendered.take(i as int)),
            decreases self.messages.len() - i,
        {
            if i > 0 {
                out.push(',');
            }
            self.messages[i].push_json(out);
            proof {
                lemma_items_push(rendered.take(i as int), rendered[i as int]);
                assert(rendered.take(i + 1) =~= rendered.take(i as int).push(rendered[i as int]));
                assert(out@ =~= old(out)@ + seq!['['] + spec_items(rendered.take(i + 1)));
            }
            i = i + 1;
        }
        out.push(']');
        proof {
            assert(rendered.take(self.messages.len() as int) =~= rendered);
            assert(out@ =~= old(out)@ + spec_messages_json(self.messages@));
        }
    }

    /// Serialize this configuration to the exact request body of
    /// `spec_config_json`: required fields first, set optionals in order,
    /// unset optionals omitted.
    #[verifier::rlimit(100)]
    #[verifier::spinoff_prover]
    pub fn to_json(&self) -> (r: String)
        requires
            self.wf(),
        ensures
            r@ == spec_config_json(*self),
    {
        let mut out: Vec<char> = Vec::new();
        push_lit(&mut out, "{\"messages\":");
        self.push_messages(&mut out);
        push_lit(&mut out, ",\"model\":");
        let model_str: String = self.model.to_string();
        push_json_string(&mut out, model_str.as_str());
        let ghost mut g: Seq<char> = "{\"messages\":"@ + spec_messages_json(self.messages@)
            + ",\"model\":"@ + spec_json_string(spec_model_str(self.model));
        proof {
            assert(out@ =~= g);
        }
        if let Some(d) = &self.frequency_penalty {
            push_lit(&mut out, ",\"frequency_penalty\":");
            push_decimal(&mut out, d);
            proof {
                lemma_concat_associative(g, ",\"frequency_penalty\":"@, spec_decimal_chars(*d));
                g = g + spec_opt_decimal(",\"frequency_penalty\":"@, self.frequency_penalty);
                assert(out@ == g);
            }
        } else {
            proof {
                Seq::<char>::add_empty_right(g, spec_opt_decimal(",\"frequency_penalty\":"@, self.frequency_penalty));
                g = g + spec_opt_decimal(",\"frequency_penalty\":"@, self.frequency_penalty);
                assert(out@ == g);
            }
        }
        if let Some(b) = self.logprobs {
            push_lit(&mut out, ",\"logprobs\":");
            push_lit(&mut out, if b { "true" } else { "false" });
            proof {
                lemma_concat_associative(g, ",\"logprobs\":"@, if b { "true"@ } else { "false"@ });
                g = g + spec_opt_bool(",\"logprobs\":"@, self.logprobs);
                assert(out@ == g);
            }
        } else {
            proof {
                Seq::<char>::add_empty_right(g, spec_opt_bool(",\"logprobs\":"@, self.logprobs));
                g = g + spec_opt_bool(",\"logprobs\":"@, self.logprobs);
                assert(out@ == g);
            }
        }
        if let Some(v) = self.max_tokens {
            push_lit(&mut out, ",\"max_tokens\":");
            push_u64(&mut out, v as u64);
            proof {
                lemma_concat_associative(g, ",\"max_tokens\":"@, spec_u64_chars(v as nat));
                g = g + spec_opt_u32(",\"max_tokens\":"@, self.max_tokens);
                assert(out@ == g);
            }
        } else {
            proof {
                Seq::<char>::add_empty_right(g, spec_opt_u32(",\"max_tokens\":"@, self.max_tokens));
                g = g + spec_opt_u32(",\"max_tokens\":"@, self.max_tokens);
                assert(out@ == g);
            }
        }
        if let Some(v) = self.n {
            push_lit(&mut out, ",\"n\":");
            push_u64(&mut out, v as u64);
            proof {
                lemma_concat_associative(g, ",\"n\":"@, spec_u64_chars(v as nat));
                g = g + spec_opt_u32(",\"n\":"@, self.n);
                assert(out@ == g);
            }
        } else {
            proof {
                Seq::<char>::add_empty_right(g, spec_opt_u32(",\"n\":"@, self.n));
                g = g + spec_opt_u32(",\"n\":"@, self.n);
                assert(out@ == g);
            }
        }
        if let Some(b) = self.parallel_tool_calls {
            push_lit(&mut out, ",\"parallel_tool_calls\":");
            push_lit(&mut out, if b { "true" } else { "false" });
            proof {
                lemma_concat_associative(g, ",\"parallel_tool_calls\":"@, if b { "true"@ } else { "false"@ });
                g = g + spec_opt_bool(",\"parallel_tool_calls\":"@, self.parallel_tool_calls);
                assert(out@ == g);
            }
        } else {
            proof {
                Seq::<char>::add_empty_right(g, spec_opt_bool(",\"parallel_tool_calls\":"@, self.parallel_tool_calls));
                g = g + spec_opt_bool(",\"parallel_tool_calls\":"@, self.parallel_tool_calls);
                assert(out@ == g);
            }
        }
        if let Some(d) = &self.presence_penalty {
            push_lit(&mut out, ",\"presence_penalty\":");
            push_decimal(&mut out, d);
            proof {
                lemma_concat_associative(g, ",\"presence_penalty\":"@, spec_decimal_chars(*d));
                g = g + spec_opt_decimal(",\"presence_penalty\":"@, self.presence_penalty);
                assert(out@ == g);
            }
        } else {
            proof {
                Seq::<char>::add_empty_right(g, spec_opt_decimal(",\"presence_penalty\":"@, self.presence_penalty));
                g = g + spec_opt_decimal(",\"presence_penalty\":"@, self.presence_penalty);
                assert(out@ == g);
            }
        }
        if let Some(v) = self.seed {
            push_lit(&mut out, ",\"seed\":");
            push_u64(&mut out, v as u64);
            proof {
                lemma_concat_associative(g, ",\"seed\":"@, spec_u64_chars(v as nat));
                g = g + spec_opt_u32(",\"seed\":"@, self.seed);
                assert(out@ == g);
            }
        } else {
            proof {
                Seq::<char>::add_empty_right(g, spec_opt_u32(",\"seed\":"@, self.seed));
                g = g + spec_opt_u32(",\"seed\":"@, self.seed);
                assert(out@ == g);
            }
        }
        if let Some(list) = &self.stop {
            push_lit(&mut out, ",\"stop\":");
            crate::json::push_string_array(&mut out, list);
            proof {
                lemma_concat_associative(g, ",\"stop\":"@, spec_array(
                    list.deep_view().map_values(|s: Seq<char>| spec_json_string(s)),
                ));
                g = g + spec_opt_string_array(",\"stop\":"@, self.stop);
                assert(out@ == g);
            }
        } else {
            proof {
                Seq::<char>::add_empty_right(g, spec_opt_string_array(",\"stop\":"@, self.stop));
                g = g + spec_opt_string_array(",\"stop\":"@, self.stop);
                assert(out@ == g);
            }
        }
        if let Some(b) = self.stream {
            push_lit(&mut out, ",\"stream\":");
            push_lit(&mut out, if b { "true" } else { "false" });
            proof {
                lemma_concat_associative(g, ",\"stream\":"@, if b { "true"@ } else { "false"@ });
                g = g + spec_opt_bool(",\"stream\":"@, self.stream);
                assert(out@ == g);
            }
        } else {
            proof {
                Seq::<char>::add_empty_right(g, spec_opt_bool(",\"stream\":"@, self.stream));
                g = g + spec_opt_bool(",\"stream\":"@, self.stream);
                assert(out@ == g);
            }
        }
        if let Some(d) = &self.temperature {
            push_lit(&mut out, ",\"temperature\":");
            push_decimal(&mut out, d);
            proof {
                lemma_concat_associative(g, ",\"temperature\":"@, spec_decimal_chars(*d));
                g = g + spec_opt_decimal(",\"temperature\":"@, self.temperature);
                assert(out@ == g);
            }
        } else {
            proof {
                Seq::<char>::add_empty_right(g, spec_opt_decimal(",\"temperature\":"@, self.temperature));
                g = g + spec_opt_decimal(",\"temperature\":"@, self.temperature);
                assert(out@ == g);
            }
        }
        if let Some(v) = self.top_logprobs {
            push_lit(&mut out, ",\"top_logprobs\":");
            push_u64(&mut out, v as u64);
            proof {
                lemma_concat_associative(g, ",\"top_logprobs\":"@, spec_u64_chars(v as nat));
                g = g + spec_opt_u32(",\"top_logprobs\":"@, self.top_logprobs);
                assert(out@ == g);
            }
        } else {
            proof {
                Seq::<char>::add_empty_right(g, spec_opt_u32(",\"top_logprobs\":"@, self.top_logprobs));
                g = g + spec_opt_u32(",\"top_logprobs\":"@, self.top_logprobs);
                assert(out@ == g);
            }
        }
        if let Some(d) = &self.top_p {
            push_lit(&mut out, ",\"top_p\":");
            push_decimal(&mut out, d);
            proof {
                lemma_concat_associative(g, ",\"top_p\":"@, spec_decimal_chars(*d));
                g = g + spec_opt_decimal(",\"top_p\":"@, self.top_p);
                assert(out@ == g);
            }
        } else {
            proof {
                Seq::<char>::add_empty_right(g, spec_opt_decimal(",\"top_p\":"@, self.top_p));
                g = g + spec_opt_decimal(",\"top_p\":"@, self.top_p);
                assert(out@ == g);
            }
        }
        if let Some(s) = &self.user {
            push_lit(&mut out, ",\"user\":");
            push_json_string(&mut out, s.as_str());
            proof {
                lemma_concat_associative(g, ",\"user\":"@, spec_json_string(s@));
                g = g + spec_opt_string(",\"user\":"@, self.user);
                assert(out@ == g);
            }
        } else {
            proof {
                Seq::<char>::add_empty_right(g, spec_opt_string(",\"user\":"@, self.user));
                g = g + spec_opt_string(",\"user\":"@, self.user);
                assert(out@ == g);
            }
        }
        push_lit(&mut out, "}");
        proof {
            lemma_concat_associative(g, "}"@, Seq::<char>::empty());
            Seq::<char>::add_empty_right(g + "}"@, Seq::<char>::empty());
            g = g + "}"@;
            assert(out@ == g);
            assert(g == spec_config_json(*self));
        }
        chars_to_string(&out)
    }
}


/// Parse the conversation array; the consumed segment is exactly the
/// canonical array of the returned messages.
fn parse_messages(s: &Vec<char>, i: usize) -> (r: Option<(Vec<Message>, usize)>)
    ensures
        r matches Some(p) ==> {
            &&& i < p.1 <= s@.len()
            &&& s@.subrange(i as int, p.1 as int) == spec_messages_json(p.0@)
        },
{
    let j0 = match eat_lit(s, i, "[") {
        Some(j) => j,
        None => { return None; },
    };
    let mut messages: Vec<Message> = Vec::new();
    if let Some(j1) = eat_lit(s, j0, "]") {
        proof {
            reveal_strlit("[");
            reveal_strlit("]");
            assert(messages@.map_values(|m: Message| spec_message_json(m)) =~= Seq::<
                Seq<char>,
            >::empty());
            assert(spec_items(messages@.map_values(|m: Message| spec_message_json(m))) =~= Seq::<
                char,
            >::empty());
            assert(s@.subrange(i as int, j1 as int) =~= s@.subrange(i as int, j0 as int)
                + s@.subrange(j0 as int, j1 as int));
            assert(s@.subrange(i as int, j1 as int) =~= spec_messages_json(messages@));
        }
        return Some((messages, j1));
    }
    let mut k: usize;
    let (first, k0) = match Message::parse_json(s, j0) {
        Some(p) => p,
        None => { return None; },
    };
    messages.push(first);
    k = k0;
    proof {
        reveal_strlit("[");
        lemma_items_push(Seq::<Seq<char>>::empty(), spec_message_json(first));
        assert(messages@.map_values(|m: Message| spec_message_json(m)) =~= Seq::<
            Seq<char>,
        >::empty().push(spec_message_json(first)));
        assert(s@.subrange(i as int, k as int) =~= s@.subrange(i as int, j0 as int) + s@.subrange(
            j0 as int,
            k as int,
        ));
        assert(s@.subrange(i as int, k as int) =~= seq!['['] + spec_items(
            messages@.map_values(|m: Message| spec_message_json(m)),
        ));
    }
    loop
        invariant
            i < k <= s@.len(),
            messages@.len() > 0,
            s@.subrange(i as int, k as int) == seq!['['] + spec_items(
                messages@.map_values(|m: Message| spec_message_json(m)),
            ),
        decreases s@.len() - k,
    {
        if let Some(j2) = eat_lit(s, k, "]") {
            proof {
                reveal_strlit("]");
                assert(s@.subrange(i as int, j2 as int) =~= s@.subrange(i as int, k as int)
                    + s@.subrange(k as int, j2 as int));
                assert(s@.subrange(i as int, j2 as int) =~= spec_messages_json(messages@));
            }
            return Some((messages, j2));
        }
        let j3 = match eat_lit(s, k, ",") {
            Some(j) => j,
            None => { return None; },
        };
        let (next, j4) = match Message::parse_json(s, j3) {
            Some(p) => p,
            None => { return None; },
        };
        let ghost prev = messages@.map_values(|m: Message| spec_message_json(m));
        messages.push(next);
        proof {
            reveal_strlit(",");
            lemma_items_push(prev, spec_message_json(next));
            assert(messages@.map_values(|m: Message| spec_message_json(m)) =~= prev.push(
                spec_message_json(next),
            ));
            assert(s@.subrange(i as int, j4 as int) =~= s@.subrange(i as int, k as int)
                + s@.subrange(k as int, j3 as int) + s@.subrange(j3 as int, j4 as int));
            assert(s@.subrange(i as int, j4 as int) =~= seq!['['] + spec_items(
                messages@.map_values(|m: Message| spec_message_json(m)),
            ));
        }
        k = j4;
    }
}

/// Parse an array of string literals; the consumed segment is exactly the
/// canonical array of the returned strings.
fn parse_string_list(s: &Vec<char>, i: usize) -> (r: Option<(Vec<String>, usize)>)
    ensures
        r matches Some(p) ==> {
            &&& i < p.1 <= s@.len()
            &&& s@.subrange(i as int, p.1 as int) == spec_array(
                p.0.deep_view().map_values(|x: Seq<char>| spec_json_string(x)),
            )
        },
{
    let j0 = match eat_lit(s, i, "[") {
        Some(j) => j,
        None => { return None; },
    };
    let mut items: Vec<String> = Vec::new();
    if let Some(j1) = eat_lit(s, j0, "]") {
        proof {
            reveal_strlit("[");
            reveal_strlit("]");
            assert(items.deep_view().map_values(|x: Seq<char>| spec_json_string(x)) =~= Seq::<
                Seq<char>,
            >::empty());
            assert(spec_items(items.deep_view().map_values(|x: Seq<char>| spec_json_string(x)))
                =~= Seq::<char>::empty());
            assert(s@.subrange(i as int, j1 as int) =~= s@.subrange(i as int, j0 as int)
                + s@.subrange(j0 as int, j1 as int));
            assert(s@.subrange(i as int, j1 as int) =~= spec_array(
                items.deep_view().map_values(|x: Seq<char>| spec_json_string(x)),
            ));
        }
        return Some((items, j1));
    }
    let mut k: usize;
    let (first, k0) = match parse_string_field(s, j0) {
        Some(p) => p,
        None => { return None; },
    };
    let ghost first_view = first@;
    items.push(first);
    k = k0;
    proof {
        reveal_strlit("[");
        lemma_items_push(Seq::<Seq<char>>::empty(), spec_json_string(first_view));
        assert(items.deep_view() =~= Seq::<Seq<char>>::empty().push(first_view));
        assert(items.deep_view().map_values(|x: Seq<char>| spec_json_string(x)) =~= Seq::<
            Seq<char>,
        >::empty().push(spec_json_string(first_view)));
        assert(s@.subrange(i as int, k as int) =~= s@.subrange(i as int, j0 as int) + s@.subrange(
            j0 as int,
            k as int,
        ));
        assert(s@.subrange(i as int, k as int) =~= seq!['['] + spec_items(
            items.deep_view().map_values(|x: Seq<char>| spec_json_string(x)),
        ));
    }
    loop
        invariant
            i < k <= s@.len(),
            items@.len() > 0,
            s@.subrange(i as int, k as int) == seq!['['] + spec_items(
                items.deep_view().map_values(|x: Seq<char>| spec_json_string(x)),
            ),
        decreases s@.len() - k,
    {
        if let Some(j2) = eat_lit(s, k, "]") {
            proof {
                reveal_strlit("]");
                assert(s@.subrange(i as int, j2 as int) =~= s@.subrange(i as int, k as int)
                    + s@.subrange(k as int, j2 as int));
                assert(s@.subrange(i as int, j2 as int) =~= spec_array(
                    items.deep_view().map_values(|x: Seq<char>| spec_json_string(x)),
                ));
            }
            return Some((items, j2));
        }
        let j3 = match eat_lit(s, k, ",") {
            Some(j) => j,
            None => { return None; },
        };
        let (next, j4) = match parse_string_field(s, j3) {
            Some(p) => p,
            None => { return None; },
        };
        let ghost prev = items.deep_view().map_values(|x: Seq<char>| spec_json_string(x));
        let ghost next_view = next@;
        items.push(next);
        proof {
            reveal_strlit(",");
            lemma_items_push(prev, spec_json_string(next_view));
            assert(items.deep_view().map_values(|x: Seq<char>| spec_json_string(x)) =~= prev.push(
                spec_json_string(next_view),
            ));
            assert(s@.subrange(i as int, j4 as int) =~= s@.subrange(i as int, k as int)
                + s@.subrange(k as int, j3 as int) + s@.subrange(j3 as int, j4 as int));
            assert(s@.subrange(i as int, j4 as int) =~= seq!['['] + spec_items(
                items.deep_view().map_values(|x: Seq<char>| spec_json_string(x)),
            ));
        }
        k = j4;
    }
}

/// Parse one optional decimal field: absent key consumes nothing, a
/// present key must be followed by a decimal numeral. The consumed
/// segment is exactly the field's rendering.
fn parse_opt_decimal_field(s: &Vec<char>, j: usize, key: &str) -> (r: Option<
    (Option<DecimalNumber>, usize),
>)
    requires
        j <= s@.len(),
    ensures
        r matches Some(p) ==> {
            &&& j <= p.1 <= s@.len()
            &&& s@.subrange(j as int, p.1 as int) == spec_opt_decimal(key@, p.0)
            &&& (p.0 matches Some(d) ==> d.wf())
        },
{
    if let Some(ja) = eat_lit(s, j, key) {
        match parse_decimal(s, ja) {
            Some((d, jb)) => {
                proof {
                    crate::json::lemma_subrange_split(s@, j as int, ja as int, jb as int);
                }
                Some((Some(d), jb))
            },
            None => None,
        }
    } else {
        proof {
            assert(s@.subrange(j as int, j as int) =~= Seq::<char>::empty());
        }
        Some((None, j))
    }
}

/// Parse one optional boolean field; the consumed segment is exactly the
/// field's rendering.
fn parse_opt_bool_field(s: &Vec<char>, j: usize, key: &str) -> (r: Option<(Option<bool>, usize)>)
    requires
        j <= s@.len(),
    ensures
        r matches Some(p) ==> {
            &&& j <= p.1 <= s@.len()
            &&& s@.subrange(j as int, p.1 as int) == spec_opt_bool(key@, p.0)
        },
{
    if let Some(ja) = eat_lit(s, j, key) {
        if let Some(jt) = eat_lit(s, ja, "true") {
            proof {
                reveal_strlit("true");
                crate::json::lemma_subrange_split(s@, j as int, ja as int, jt as int);
            }
            Some((Some(true), jt))
        } else if let Some(jf) = eat_lit(s, ja, "false") {
            proof {
                reveal_strlit("false");
                crate::json::lemma_subrange_split(s@, j as int, ja as int, jf as int);
            }
            Some((Some(false), jf))
        } else {
            None
        }
    } else {
        proof {
            assert(s@.subrange(j as int, j as int) =~= Seq::<char>::empty());
        }
        Some((None, j))
    }
}

/// Parse one optional unsigned integer field; the consumed segment is
/// exactly the field's rendering.
fn parse_opt_u32_field(s: &Vec<char>, j: usize, key: &str) -> (r: Option<(Option<u32>, usize)>)
    requires
        j <= s@.len(),
    ensures
        r matches Some(p) ==> {
            &&& j <= p.1 <= s@.len()
            &&& s@.subrange(j as int, p.1 as int) == spec_opt_u32(key@, p.0)
        },
{
    if let Some(ja) = eat_lit(s, j, key) {
        match parse_u32(s, ja) {
            Some((v, jb)) => {
                proof {
                    crate::json::lemma_subrange_split(s@, j as int, ja as int, jb as int);
                }
                Some((Some(v), jb))
            },
            None => None,
        }
    } else {
        proof {
            assert(s@.subrange(j as int, j as int) =~= Seq::<char>::empty());
        }
        Some((None, j))
    }
}

/// Parse one optional string field; the consumed segment is exactly the
/// field's rendering.
fn parse_opt_string_field(s: &Vec<char>, j: usize, key: &str) -> (r: Option<
    (Option<String>, usize),
>)
    requires
        j <= s@.len(),
    ensures
        r matches Some(p) ==> {
            &&& j <= p.1 <= s@.len()
            &&& s@.subrange(j as int, p.1 as int) == spec_opt_string(key@, p.0)
        },
{
    if let Some(ja) = eat_lit(s, j, key) {
        match parse_string_field(s, ja) {
            Some((v, jb)) => {
                proof {
                    crate::json::lemma_subrange_split(s@, j as int, ja as int, jb as int);
                }
                Some((Some(v), jb))
            },
            None => None,
        }
    } else {
        proof {
            assert(s@.subrange(j as int, j as int) =~= Seq::<char>::empty());
        }
        Some((None, j))
    }
}

/// Parse the optional stop-sequence list; the consumed segment is exactly
/// the field's rendering.
fn parse_opt_string_list_field(s: &Vec<char>, j: usize, key: &str) -> (r: Option<
    (Option<Vec<String>>, usize),
>)
    requires
        j <= s@.len(),
    ensures
        r matches Some(p) ==> {
            &&& j <= p.1 <= s@.len()
            &&& s@.subrange(j as int, p.1 as int) == spec_opt_string_array(key@, p.0)
        },
{
    if let Some(ja) = eat_lit(s, j, key) {
        match parse_string_list(s, ja) {
            Some((v, jb)) => {
                proof {
                    crate::json::lemma_subrange_split(s@, j as int, ja as int, jb as int);
                }
                Some((Some(v), jb))
            },
            None => None,
        }
    } else {
        proof {
            assert(s@.subrange(j as int, j as int) =~= Seq::<char>::empty());
        }
        Some((None, j))
    }
}

impl GroqChatOptions {
    /// Decode a serialized configuration. Only the canonical compact
    /// rendering that `to_json` emits is accepted: no whitespace, the
    /// fields in serialization order, shortest escapes and numerals. On
    /// success the body is exactly the canonical request body of the
    /// returned configuration, so every recovered field is pinned by the
    /// text that was read; fields absent from the body come back unset.
    #[verifier::rlimit(100)]
    #[verifier::spinoff_prover]
    pub fn from_json(body: &str) -> (r: Option<GroqChatOptions>)
        ensures
            r matches Some(c) ==> body@ == spec_config_json(c) && c.wf(),
    {
        let s: Vec<char> = str_to_chars(body);
        let ghost t = s@;
        let j1 = match eat_lit(&s, 0, "{\"messages\":") {
            Some(j) => j,
            None => { return None; },
        };
        let (messages, j2) = match parse_messages(&s, j1) {
            Some(p) => p,
            None => { return None; },
        };
        let j3 = match eat_lit(&s, j2, ",\"model\":") {
            Some(j) => j,
            None => { return None; },
        };
        let (model_str, j4) = match parse_string_field(&s, j3) {
            Some(p) => p,
            None => { return None; },
        };
        let model: GroqModelType = match GroqModelType::from_str(model_str.as_str()) {
            Ok(m) => m,
            Err(_) => { return None; },
        };
        let ghost mut g: Seq<char> = "{\"messages\":"@;
        proof {
            g = g + spec_messages_json(messages@);
            crate::json::lemma_subrange_split(t, 0, j1 as int, j2 as int);
            assert(t.subrange(0, j2 as int) == g);
            g = g + ",\"model\":"@;
            crate::json::lemma_subrange_split(t, 0, j2 as int, j3 as int);
            assert(t.subrange(0, j3 as int) == g);
            assert(model_str@ == spec_model_str(model));
            g = g + spec_json_string(spec_model_str(model));
            crate::json::lemma_subrange_split(t, 0, j3 as int, j4 as int);
            assert(t.subrange(0, j4 as int) == g);
        }
        let (frequency_penalty, j5) = match parse_opt_decimal_field(&s, j4, ",\"frequency_penalty\":") {
            Some(p) => p,
            None => { return None; },
        };
        proof {
            crate::json::lemma_subrange_split(t, 0, j4 as int, j5 as int);
            g = g + spec_opt_decimal(",\"frequency_penalty\":"@, frequency_penalty);
            assert(t.subrange(0, j5 as int) == g);
        }
        let (logprobs, j6) = match parse_opt_bool_field(&s, j5, ",\"logprobs\":") {
            Some(p) => p,
            None => { return None; },
        };
        proof {
            crate::json::lemma_subrange_split(t, 0, j5 as int, j6 as int);
            g = g + spec_opt_bool(",\"logprobs\":"@, logprobs);
            assert(t.subrange(0, j6 as int) == g);
        }
        let (max_tokens, j7) = match parse_opt_u32_field(&s, j6, ",\"max_tokens\":") {
            Some(p) => p,
            None => { return None; },
        };
        proof {
            crate::json::lemma_subrange_split(t, 0, j6 as int, j7 as int);
            g = g + spec_opt_u32(",\"max_tokens\":"@, max_tokens);
            assert(t.subrange(0, j7 as int) == g);
        }
        let (n, j8) = match parse_opt_u32_field(&s, j7, ",\"n\":") {
            Some(p) => p,
            None => { return None; },
        };
        proof {
            crate::json::lemma_subrange_split(t, 0, j7 as int, j8 as int);
            g = g + spec_opt_u32(",\"n\":"@, n);
            assert(t.subrange(0, j8 as int) == g);
        }
        let (parallel_tool_calls, j9) = match parse_opt_bool_field(&s, j8, ",\"parallel_tool_calls\":") {
            Some(p) => p,
            None => { return None; },
        };
        proof {
            crate::json::lemma_subrange_split(t, 0, j8 as int, j9 as int);
            g = g + spec_opt_bool(",\"parallel_tool_calls\":"@, parallel_tool_calls);
            assert(t.subrange(0, j9 as int) == g);
        }
        let (presence_penalty, j10) = match parse_opt_decimal_field(&s, j9, ",\"presence_penalty\":") {
            Some(p) => p,
            None => { return None; },
        };
        proof {
            crate::json::lemma_subrange_split(t, 0, j9 as int, j10 as int);
            g = g + spec_opt_decimal(",\"presence_penalty\":"@, presence_penalty);
            assert(t.subrange(0, j10 as int) == g);
        }
        let (seed, j11) = match parse_opt_u32_field(&s, j10, ",\"seed\":") {
            Some(p) => p,
            None => { return None; },
        };
        proof {
            crate::json::lemma_subrange_split(t, 0, j10 as int, j11 as int);
            g = g + spec_opt_u32(",\"seed\":"@, seed);
            assert(t.subrange(0, j11 as int) == g);
        }
        let (stop, j12) = match parse_opt_string_list_field(&s, j11, ",\"stop\":") {
            Some(p) => p,
            None => { return None; },
        };
        proof {
            crate::json::lemma_subrange_split(t, 0, j11 as int, j12 as int);
            g = g + spec_opt_string_array(",\"stop\":"@, stop);
            assert(t.subrange(0, j12 as int) == g);
        }
        let (stream, j13) = match parse_opt_bool_field(&s, j12, ",\"stream\":") {
            Some(p) => p,
            None => { return None; },
        };
        proof {
            crate::json::lemma_subrange_split(t, 0, j12 as int, j13 as int);
            g = g + spec_opt_bool(",\"stream\":"@, stream);
            assert(t.subrange(0, j13 as int) == g);
        }
        let (temperature, j14) = match parse_opt_decimal_field(&s, j13, ",\"temperature\":") {
            Some(p) => p,
            None => { return None; },
        };
        proof {
            crate::json::lemma_subrange_split(t, 0, j13 as int, j14 as int);
            g = g + spec_opt_decimal(",\"temperature\":"@, temperature);
            assert(t.subrange(0, j14 as int) == g);
        }
        let (top_logprobs, j15) = match parse_opt_u32_field(&s, j14, ",\"top_logprobs\":") {
            Some(p) => p,
            None => { return None; },
        };
        proof {
            crate::json::lemma_subrange_split(t, 0, j14 as int, j15 as int);
            g = g + spec_opt_u32(",\"top_logprobs\":"@, top_logprobs);
            assert(t.subrange(0, j15 as int) == g);
        }
        let (top_p, j16) = match parse_opt_decimal_field(&s, j15, ",\"top_p\":") {
            Some(p) => p,
            None => { return None; },
        };
        proof {
            crate::json::lemma_subrange_split(t, 0, j15 as int, j16 as int);
            g = g + spec_opt_decimal(",\"top_p\":"@, top_p);
            assert(t.subrange(0, j16 as int) == g);
        }
        let (user, j17) = match parse_opt_string_field(&s, j16, ",\"user\":") {
            Some(p) => p,
            None => { return None; },
        };
        proof {
            crate::json::lemma_subrange_split(t, 0, j16 as int, j17 as int);
            g = g + spec_opt_string(",\"user\":"@, user);
            assert(t.subrange(0, j17 as int) == g);
        }
        let jend = match eat_lit(&s, j17, "}") {
            Some(jx) => jx,
            None => { return None; },
        };
        if jend != s.len() {
            return None;
        }
        let c = GroqChatOptions {
            messages,
            model,
            frequency_penalty,
            logprobs,
            max_tokens,
            n,
            parallel_tool_calls,
            presence_penalty,
            seed,
            stop,
            stream,
            temperature,
            top_logprobs,
            top_p,
            user,
        };
        proof {
            crate::json::lemma_subrange_split(t, 0, j17 as int, jend as int);
            g = g + "}"@;
            assert(t.subrange(0, jend as int) == g);
            assert(t.subrange(0, jend as int) =~= t);
            assert(body@ == g);
            assert(g == spec_config_json(c));
        }
        Some(c)
    }
}
} // verus!
