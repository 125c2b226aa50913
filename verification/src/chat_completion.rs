//! The provider's response body: completion metadata, the candidate
//! choices, and usage telemetry. Values of these types are only ever
//! built by decoding a response, and are discarded once the chosen
//! assistant message has been extracted.
use crate::json::{
    eat_lit, lemma_items_push, parse_decimal, parse_i32, parse_string_field, parse_u32, parse_u64,
    spec_decimal_chars, spec_i32_chars, spec_items, spec_json_string, spec_u64_chars,
    DecimalNumber,
};
use crate::message::{spec_message_json, Message, Role};
use vstd::prelude::*;

verus! {

/// Token and time accounting reported by the provider; read-only
/// telemetry.
#[derive(Debug)]
pub struct Usage {
    prompt_tokens: u32,
    completion_tokens: u32,
    total_tokens: u32,
    prompt_time: DecimalNumber,
    completion_time: DecimalNumber,
    total_time: DecimalNumber,
}

/// Log-probability data for a choice; a placeholder holding one optional
/// value until the provider documents the shape.
#[derive(Debug)]
pub struct LogProbs {
    value: Option<i32>,
}

/// One candidate completion returned by the provider.
#[derive(Debug)]
pub struct Choice {
    pub index: u32,
    pub message: Message,
    pub finish_reason: String,
    pub logprobs: Option<LogProbs>,
}

/// A full chat completion response.
#[derive(Debug)]
pub struct ChatCompletion {
    pub id: String,
    pub object: String,
    pub created: u64,
    pub model: String,
    pub system_fingerprint: Option<String>,
    pub choices: Vec<Choice>,
    pub usage: Usage,
}

impl Choice {
    /// The designated fallback when a response carries no choices: an
    /// assistant message with empty content and the sentinel finish
    /// reason.
    pub fn empty() -> (c: Choice)
        ensures
            c.index == 0,
            c.message.content@ == Seq::<char>::empty(),
            c.message.role == Role::Assistant,
            c.finish_reason@ == "No Result Returned"@,
            c.logprobs is None,
    {
        Choice {
            index: 0,
            message: Message::new(String::new(), Role::Assistant),
            finish_reason: String::from_str("No Result Returned"),
            logprobs: None,
        }
    }
}

/// A string field that the provider writes as `null` when absent.
pub open spec fn spec_nullable_string(o: Option<String>) -> Seq<char> {
    match o {
        Option::None => "null"@,
        Option::Some(s) => spec_json_string(s@),
    }
}

/// The wire object for the log-probability placeholder.
pub closed spec fn spec_logprobs_json(lp: LogProbs) -> Seq<char> {
    "{\"value\":"@ + match lp.value {
        Option::None => "null"@,
        Option::Some(v) => spec_i32_chars(v),
    } + "}"@
}

/// The `logprobs` field of a choice: an object or `null`.
pub open spec fn spec_opt_logprobs_json(o: Option<LogProbs>) -> Seq<char> {
    match o {
        Option::None => "null"@,
        Option::Some(lp) => spec_logprobs_json(lp),
    }
}

/// The wire object for one choice.
pub open spec fn spec_choice_json(c: Choice) -> Seq<char> {
    "{\"index\":"@ + spec_u64_chars(c.index as nat) + ",\"message\":"@ + spec_message_json(
        c.message,
    ) + ",\"finish_reason\":"@ + spec_json_string(c.finish_reason@) + ",\"logprobs\":"@
        + spec_opt_logprobs_json(c.logprobs) + "}"@
}

/// The wire object for the usage telemetry.
pub closed spec fn spec_usage_json(u: Usage) -> Seq<char> {
    "{\"prompt_tokens\":"@ + spec_u64_chars(u.prompt_tokens as nat) + ",\"completion_tokens\":"@
        + spec_u64_chars(u.completion_tokens as nat) + ",\"total_tokens\":"@ + spec_u64_chars(
        u.total_tokens as nat,
    ) + ",\"prompt_time\":"@ + spec_decimal_chars(u.prompt_time) + ",\"completion_time\":"@
        + spec_decimal_chars(u.completion_time) + ",\"total_time\":"@ + spec_decimal_chars(
        u.total_time,
    ) + "}"@
}

/// The choices array: the canonical array of the choices' wire objects.
pub open spec fn spec_choices_array(cs: Seq<Choice>) -> Seq<char> {
    seq!['['] + spec_items(cs.map_values(|ch: Choice| spec_choice_json(ch))) + seq![']']
}

/// The wire object for a whole completion response.
pub open spec fn spec_completion_json(c: ChatCompletion) -> Seq<char> {
    "{\"id\":"@ + spec_json_string(c.id@) + ",\"object\":"@ + spec_json_string(c.object@)
        + ",\"created\":"@ + spec_u64_chars(c.created as nat) + ",\"model\":"@ + spec_json_string(
        c.model@,
    ) + ",\"system_fingerprint\":"@ + spec_nullable_string(c.system_fingerprint) + ",\"choices\":"@
        + spec_choices_array(c.choices@) + ",\"usage\":"@ + spec_usage_json(c.usage) + "}"@
}

/// Parse the `logprobs` field of a choice: `null` or the placeholder
/// object.
fn parse_opt_logprobs(s: &Vec<char>, i: usize) -> (r: Option<(Option<LogProbs>, usize)>)
    ensures
        r matches Some(p) ==> {
            &&& i < p.1 <= s@.len()
            &&& s@.subrange(i as int, p.1 as int) == spec_opt_logprobs_json(p.0)
        },
{
    if let Some(j) = eat_lit(s, i, "null") {
        proof {
            reveal_strlit("null");
        }
        return Some((None, j));
    }
    let j = match eat_lit(s, i, "{\"value\":") {
        Some(j) => j,
        None => { return None; },
    };
    if let Some(j2) = eat_lit(s, j, "null") {
        let j3 = match eat_lit(s, j2, "}") {
            Some(j3) => j3,
            None => { return None; },
        };
        let lp = LogProbs { value: None };
        proof {
            reveal_strlit("null");
            assert(s@.subrange(i as int, j3 as int) =~= s@.subrange(i as int, j as int)
                + s@.subrange(j as int, j2 as int) + s@.subrange(j2 as int, j3 as int));
            assert(s@.subrange(i as int, j3 as int) =~= spec_logprobs_json(lp));
        }
        return Some((Some(lp), j3));
    }
    let (v, j2) = match parse_i32(s, j) {
        Some(p) => p,
        None => { return None; },
    };
    let j3 = match eat_lit(s, j2, "}") {
        Some(j3) => j3,
        None => { return None; },
    };
    let lp = LogProbs { value: Some(v) };
    proof {
        assert(s@.subrange(i as int, j3 as int) =~= s@.subrange(i as int, j as int) + s@.subrange(
            j as int,
            j2 as int,
        ) + s@.subrange(j2 as int, j3 as int));
        assert(s@.subrange(i as int, j3 as int) =~= spec_logprobs_json(lp));
    }
    Some((Some(lp), j3))
}

/// Parse one choice object; the consumed segment is exactly its canonical
/// wire object.
fn parse_choice(s: &Vec<char>, i: usize) -> (r: Option<(Choice, usize)>)
    ensures
        r matches Some(p) ==> {
            &&& i < p.1 <= s@.len()
            &&& s@.subrange(i as int, p.1 as int) == spec_choice_json(p.0)
        },
{
    let j1 = match eat_lit(s, i, "{\"index\":") {
        Some(j) => j,
        None => { return None; },
    };
    let (index, j2) = match parse_u32(s, j1) {
        Some(p) => p,
        None => { return None; },
    };
    let j3 = match eat_lit(s, j2, ",\"message\":") {
        Some(j) => j,
        None => { return None; },
    };
    let (message, j4) = match Message::parse_json(s, j3) {
        Some(p) => p,
        None => { return None; },
    };
    let j5 = match eat_lit(s, j4, ",\"finish_reason\":") {
        Some(j) => j,
        None => { return None; },
    };
    let (finish_reason, j6) = match parse_string_field(s, j5) {
        Some(p) => p,
        None => { return None; },
    };
    let j7 = match eat_lit(s, j6, ",\"logprobs\":") {
        Some(j) => j,
        None => { return None; },
    };
    let (logprobs, j8) = match parse_opt_logprobs(s, j7) {
        Some(p) => p,
        None => { return None; },
    };
    let j9 = match eat_lit(s, j8, "}") {
        Some(j) => j,
        None => { return None; },
    };
    let c = Choice { index, message, finish_reason, logprobs };
    proof {
        assert(s@.subrange(i as int, j9 as int) =~= s@.subrange(i as int, j1 as int) + s@.subrange(
            j1 as int,
            j2 as int,
        ) + s@.subrange(j2 as int, j3 as int) + s@.subrange(j3 as int, j4 as int) + s@.subrange(
            j4 as int,
            j5 as int,
        ) + s@.subrange(j5 as int, j6 as int) + s@.subrange(j6 as int, j7 as int) + s@.subrange(
            j7 as int,
            j8 as int,
        ) + s@.subrange(j8 as int, j9 as int));
        assert(s@.subrange(i as int, j9 as int) =~= spec_choice_json(c));
    }
    Some((c, j9))
}

/// Parse the usage object; the consumed segment is exactly its canonical
/// wire object.
#[verifier::rlimit(100)]
#[verifier::spinoff_prover]
fn parse_usage(s: &Vec<char>, i: usize) -> (r: Option<(Usage, usize)>)
    ensures
        r matches Some(p) ==> {
            &&& i < p.1 <= s@.len()
            &&& s@.subrange(i as int, p.1 as int) == spec_usage_json(p.0)
        },
{
    let j1 = match eat_lit(s, i, "{\"prompt_tokens\":") {
        Some(j) => j,
        None => { return None; },
    };
    let (prompt_tokens, j2) = match parse_u32(s, j1) {
        Some(p) => p,
        None => { return None; },
    };
    let j3 = match eat_lit(s, j2, ",\"completion_tokens\":") {
        Some(j) => j,
        None => { return None; },
    };
    let (completion_tokens, j4) = match parse_u32(s, j3) {
        Some(p) => p,
        None => { return None; },
    };
    let j5 = match eat_lit(s, j4, ",\"total_tokens\":") {
        Some(j) => j,
        None => { return None; },
    };
    let (total_tokens, j6) = match parse_u32(s, j5) {
        Some(p) => p,
        None => { return None; },
    };
    let j7 = match eat_lit(s, j6, ",\"prompt_time\":") {
        Some(j) => j,
        None => { return None; },
    };
    let (prompt_time, j8) = match parse_decimal(s, j7) {
        Some(p) => p,
        None => { return None; },
    };
    let j9 = match eat_lit(s, j8, ",\"completion_time\":") {
        Some(j) => j,
        None => { return None; },
    };
    let (completion_time, j10) = match parse_decimal(s, j9) {
        Some(p) => p,
        None => { return None; },
    };
    let j11 = match eat_lit(s, j10, ",\"total_time\":") {
        Some(j) => j,
        None => { return None; },
    };
    let (total_time, j12) = match parse_decimal(s, j11) {
        Some(p) => p,
        None => { return None; },
    };
    let j13 = match eat_lit(s, j12, "}") {
        Some(j) => j,
        None => { return None; },
    };
    let u = Usage {
        prompt_tokens,
        completion_tokens,
        total_tokens,
        prompt_time,
        completion_time,
        total_time,
    };
    proof {
        assert(s@.subrange(i as int, j13 as int) =~= s@.subrange(i as int, j1 as int) + s@.subrange(
            j1 as int,
            j2 as int,
        ) + s@.subrange(j2 as int, j3 as int) + s@.subrange(j3 as int, j4 as int) + s@.subrange(
            j4 as int,
            j5 as int,
        ) + s@.subrange(j5 as int, j6 as int) + s@.subrange(j6 as int, j7 as int) + s@.subrange(
            j7 as int,
            j8 as int,
        ) + s@.subrange(j8 as int, j9 as int) + s@.subrange(j9 as int, j10 as int) + s@.subrange(
            j10 as int,
            j11 as int,
        ) + s@.subrange(j11 as int, j12 as int) + s@.subrange(j12 as int, j13 as int));
        assert(s@.subrange(i as int, j13 as int) =~= spec_usage_json(u));
    }
    Some((u, j13))
}

/// Parse the choices array; the consumed segment is exactly the canonical
/// array of the returned choices.
fn parse_choices(s: &Vec<char>, i: usize) -> (r: Option<(Vec<Choice>, usize)>)
    ensures
        r matches Some(p) ==> {
            &&& i < p.1 <= s@.len()
            &&& s@.subrange(i as int, p.1 as int) == spec_choices_array(p.0@)
        },
{
    let j0 = match eat_lit(s, i, "[") {
        Some(j) => j,
        None => { return None; },
    };
    let mut choices: Vec<Choice> = Vec::new();
    if let Some(j1) = eat_lit(s, j0, "]") {
        proof {
            reveal_strlit("[");
            reveal_strlit("]");
            assert(choices@.map_values(|ch: Choice| spec_choice_json(ch)) =~= Seq::<
                Seq<char>,
            >::empty());
            assert(spec_items(choices@.map_values(|ch: Choice| spec_choice_json(ch))) =~= Seq::<
                char,
            >::empty());
            assert(s@.subrange(i as int, j1 as int) =~= s@.subrange(i as int, j0 as int)
                + s@.subrange(j0 as int, j1 as int));
            assert(s@.subrange(i as int, j1 as int) =~= spec_choices_array(choices@));
        }
        return Some((choices, j1));
    }
    let mut k: usize;
    let (first, k0) = match parse_choice(s, j0) {
        Some(p) => p,
        None => { return None; },
    };
    choices.push(first);
    k = k0;
    proof {
        reveal_strlit("[");
        lemma_items_push(Seq::<Seq<char>>::empty(), spec_choice_json(first));
        assert(choices@.map_values(|ch: Choice| spec_choice_json(ch)) =~= Seq::<
            Seq<char>,
        >::empty().push(spec_choice_json(first)));
        assert(s@.subrange(i as int, k as int) =~= s@.subrange(i as int, j0 as int) + s@.subrange(
            j0 as int,
            k as int,
        ));
        assert(s@.subrange(i as int, k as int) =~= seq!['['] + spec_items(
            choices@.map_values(|ch: Choice| spec_choice_json(ch)),
        ));
    }
    loop
        invariant
            i < k <= s@.len(),
            choices@.len() > 0,
            s@.subrange(i as int, k as int) == seq!['['] + spec_items(
                choices@.map_values(|ch: Choice| spec_choice_json(ch)),
            ),
        decreases s@.len() - k,
    {
        if let Some(j2) = eat_lit(s, k, "]") {
            proof {
                reveal_strlit("]");
                assert(s@.subrange(i as int, j2 as int) =~= s@.subrange(i as int, k as int)
                    + s@.subrange(k as int, j2 as int));
                assert(s@.subrange(i as int, j2 as int) =~= spec_choices_array(choices@));
            }
            return Some((choices, j2));
        }
        let j3 = match eat_lit(s, k, ",") {
            Some(j) => j,
            None => { return None; },
        };
        let (next, j4) = match parse_choice(s, j3) {
            Some(p) => p,
            None => { return None; },
        };
        let ghost prev = choices@.map_values(|ch: Choice| spec_choice_json(ch));
        choices.push(next);
        proof {
            reveal_strlit(",");
            lemma_items_push(prev, spec_choice_json(next));
            assert(choices@.map_values(|ch: Choice| spec_choice_json(ch)) =~= prev.push(
                spec_choice_json(next),
            ));
            assert(s@.subrange(i as int, j4 as int) =~= s@.subrange(i as int, k as int)
                + s@.subrange(k as int, j3 as int) + s@.subrange(j3 as int, j4 as int));
            assert(s@.subrange(i as int, j4 as int) =~= seq!['['] + spec_items(
                choices@.map_values(|ch: Choice| spec_choice_json(ch)),
            ));
        }
        k = j4;
    }
}

impl ChatCompletion {
    /// Decode a response body. Only the canonical compact rendering is
    /// accepted: no whitespace between tokens, the fields in the schema's
    /// order, no unknown fields, shortest escapes and numerals. A body in
    /// any other shape, even one a lenient JSON reader would take, is
    /// rejected. On success the body is exactly the canonical wire object
    /// of the returned completion, so every field of the result is pinned
    /// by the text that was read.
    #[verifier::rlimit(100)]
    #[verifier::spinoff_prover]
    pub fn from_json(body: &str) -> (r: Option<ChatCompletion>)
        ensures
            r matches Some(c) ==> body@ == spec_completion_json(c),
    {
        let s: Vec<char> = crate::json::str_to_chars(body);
        let j1 = match eat_lit(&s, 0, "{\"id\":") {
            Some(j) => j,
            None => { return None; },
        };
        let (id, j2) = match parse_string_field(&s, j1) {
            Some(p) => p,
            None => { return None; },
        };
        let j3 = match eat_lit(&s, j2, ",\"object\":") {
            Some(j) => j,
            None => { return None; },
        };
        let (object, j4) = match parse_string_field(&s, j3) {
            Some(p) => p,
            None => { return None; },
        };
        let j5 = match eat_lit(&s, j4, ",\"created\":") {
            Some(j) => j,
            None => { return None; },
        };
        let (created, j6) = match parse_u64(&s, j5) {
            Some(p) => p,
            None => { return None; },
        };
        let j7 = match eat_lit(&s, j6, ",\"model\":") {
            Some(j) => j,
            None => { return None; },
        };
        let (model, j8) = match parse_string_field(&s, j7) {
            Some(p) => p,
            None => { return None; },
        };
        let j9 = match eat_lit(&s, j8, ",\"system_fingerprint\":") {
            Some(j) => j,
            None => { return None; },
        };
        let system_fingerprint: Option<String>;
        let j10: usize;
        if let Some(jn) = eat_lit(&s, j9, "null") {
            system_fingerprint = None;
            j10 = jn;
            proof {
                reveal_strlit("null");
            }
        } else {
            let (fp, jf) = match parse_string_field(&s, j9) {
                Some(p) => p,
                None => { return None; },
            };
            system_fingerprint = Some(fp);
            j10 = jf;
        }
        let j11 = match eat_lit(&s, j10, ",\"choices\":") {
            Some(j) => j,
            None => { return None; },
        };
        let (choices, j12) = match parse_choices(&s, j11) {
            Some(p) => p,
            None => { return None; },
        };
        let j13 = match eat_lit(&s, j12, ",\"usage\":") {
            Some(j) => j,
            None => { return None; },
        };
        let (usage, j14) = match parse_usage(&s, j13) {
            Some(p) => p,
            None => { return None; },
        };
        let j15 = match eat_lit(&s, j14, "}") {
            Some(j) => j,
            None => { return None; },
        };
        if j15 != s.len() {
            return None;
        }
        let c = ChatCompletion { id, object, created, model, system_fingerprint, choices, usage };
        proof {
            let t = s@;
            let mut g: Seq<char> = "{\"id\":"@;
            assert(t.subrange(0, j2 as int) =~= t.subrange(0, j1 as int) + t.subrange(
                j1 as int,
                j2 as int,
            ));
            g = g + spec_json_string(id@);
            assert(t.subrange(0, j2 as int) == g);
            assert(t.subrange(0, j3 as int) =~= t.subrange(0, j2 as int) + t.subrange(
                j2 as int,
                j3 as int,
            ));
            g = g + ",\"object\":"@;
            assert(t.subrange(0, j3 as int) == g);
            assert(t.subrange(0, j4 as int) =~= t.subrange(0, j3 as int) + t.subrange(
                j3 as int,
                j4 as int,
            ));
            g = g + spec_json_string(object@);
            assert(t.subrange(0, j4 as int) == g);
            assert(t.subrange(0, j5 as int) =~= t.subrange(0, j4 as int) + t.subrange(
                j4 as int,
                j5 as int,
            ));
            g = g + ",\"created\":"@;
            assert(t.subrange(0, j5 as int) == g);
            assert(t.subrange(0, j6 as int) =~= t.subrange(0, j5 as int) + t.subrange(
                j5 as int,
                j6 as int,
            ));
            g = g + spec_u64_chars(created as nat);
            assert(t.subrange(0, j6 as int) == g);
            assert(t.subrange(0, j7 as int) =~= t.subrange(0, j6 as int) + t.subrange(
                j6 as int,
                j7 as int,
            ));
            g = g + ",\"model\":"@;
            assert(t.subrange(0, j7 as int) == g);
            assert(t.subrange(0, j8 as int) =~= t.subrange(0, j7 as int) + t.subrange(
                j7 as int,
                j8 as int,
            ));
            g = g + spec_json_string(model@);
            assert(t.subrange(0, j8 as int) == g);
            assert(t.subrange(0, j9 as int) =~= t.subrange(0, j8 as int) + t.subrange(
                j8 as int,
                j9 as int,
            ));
            g = g + ",\"system_fingerprint\":"@;
            assert(t.subrange(0, j9 as int) == g);
            assert(t.subrange(0, j10 as int) =~= t.subrange(0, j9 as int) + t.subrange(
                j9 as int,
                j10 as int,
            ));
            assert(t.subrange(j9 as int, j10 as int) == spec_nullable_string(
                c.system_fingerprint,
            ));
            g = g + spec_nullable_string(c.system_fingerprint);
            assert(t.subrange(0, j10 as int) == g);
            assert(t.subrange(0, j11 as int) =~= t.subrange(0, j10 as int) + t.subrange(
                j10 as int,
                j11 as int,
            ));
            g = g + ",\"choices\":"@;
            assert(t.subrange(0, j11 as int) == g);
            assert(t.subrange(0, j12 as int) =~= t.subrange(0, j11 as int) + t.subrange(
                j11 as int,
                j12 as int,
            ));
            g = g + spec_choices_array(choices@);
            assert(t.subrange(0, j12 as int) == g);
            assert(t.subrange(0, j13 as int) =~= t.subrange(0, j12 as int) + t.subrange(
                j12 as int,
                j13 as int,
            ));
            g = g + ",\"usage\":"@;
            assert(t.subrange(0, j13 as int) == g);
            assert(t.subrange(0, j14 as int) =~= t.subrange(0, j13 as int) + t.subrange(
                j13 as int,
                j14 as int,
            ));
            g = g + spec_usage_json(usage);
            assert(t.subrange(0, j14 as int) == g);
            assert(t.subrange(0, j15 as int) =~= t.subrange(0, j14 as int) + t.subrange(
                j14 as int,
                j15 as int,
            ));
            g = g + "}"@;
            assert(t.subrange(0, j15 as int) == g);
            assert(t.subrange(0, j15 as int) =~= t);
            assert(body@ == g);
            assert(g == spec_completion_json(c));
        }
        Some(c)
    }
}

} // verus!
