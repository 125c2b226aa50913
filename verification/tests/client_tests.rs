use groq::chat_completion::ChatCompletion;
use groq::chat_config::{GroqChatOptions, GroqModelType};
use groq::errors::LlmError;
use groq::json::DecimalNumber;
use groq::message::{Message, Role};
use groq::{take_reply, GroqModel};

fn body_with_choices(choices: &str) -> String {
    let mut b = String::from(
        "{\"id\":\"chatcmpl-1\",\"object\":\"chat.completion\",\"created\":123,\
         \"model\":\"llama3-8b-8192\",\"system_fingerprint\":null,\"choices\":",
    );
    b.push_str(choices);
    b.push_str(
        ",\"usage\":{\"prompt_tokens\":1,\"completion_tokens\":2,\"total_tokens\":3,\
         \"prompt_time\":0.001,\"completion_time\":0.002,\"total_time\":0.003}}",
    );
    b
}

#[test]
fn test_chat_options_to_json() {
    let chat_options = GroqChatOptions {
        frequency_penalty: Some(DecimalNumber::from_units(0)),
        logprobs: Some(false),
        max_tokens: Some(100),
        messages: vec![Message::new("Hello".to_string(), Role::User)],
        model: GroqModelType::Llama3_8b8192,
        n: Some(1),
        parallel_tool_calls: Some(true),
        presence_penalty: Some(DecimalNumber::from_units(0)),
        seed: None,
        stop: None,
        stream: Some(false),
        temperature: Some(DecimalNumber::from_units(1)),
        top_logprobs: None,
        top_p: Some(DecimalNumber::from_units(1)),
        user: Some("user_123".to_string()),
    };
    let json = chat_options.to_json();
    assert_eq!(json, String::from("{\"messages\":[{\"content\":\"Hello\",\"role\":\"user\"}],\"model\":\"llama3-8b-8192\",\"frequency_penalty\":0.0,\"logprobs\":false,\"max_tokens\":100,\"n\":1,\"parallel_tool_calls\":true,\"presence_penalty\":0.0,\"stream\":false,\"temperature\":1.0,\"top_p\":1.0,\"user\":\"user_123\"}"));
}

#[test]
fn role_round_trips() {
    for role in [Role::System, Role::User, Role::Assistant] {
        let s = role.to_string();
        let back = Role::from_str(&s).unwrap();
        assert_eq!(back, role);
    }
    assert_eq!(Role::System.to_string(), "system");
    assert_eq!(Role::User.to_string(), "user");
    assert_eq!(Role::Assistant.to_string(), "assistant");
}

#[test]
fn role_rejects_unknown_strings() {
    for bad in ["robot", "", "User", "assistant "] {
        let err = Role::from_str(bad).unwrap_err();
        assert!(matches!(err, LlmError::SerializationError(s) if s == bad));
    }
}

#[test]
fn model_type_round_trips() {
    for model in [GroqModelType::Llama3_8b8192, GroqModelType::Llama3_70b8192] {
        let s = model.to_string();
        let back = GroqModelType::from_str(&s).unwrap();
        assert_eq!(back, model);
    }
    assert_eq!(GroqModelType::Llama3_8b8192.to_string(), "llama3-8b-8192");
    assert_eq!(GroqModelType::Llama3_70b8192.to_string(), "llama3-70b-8192");
}

#[test]
fn model_type_rejects_unknown_strings() {
    let err = GroqModelType::from_str("gpt-4").unwrap_err();
    assert!(matches!(err, LlmError::SerializationError(s) if s == "gpt-4"));
}

#[test]
fn config_round_trip_with_all_optionals_set() {
    let config = GroqChatOptions {
        messages: vec![
            Message::new("You are terse.".to_string(), Role::System),
            Message::new("Hello".to_string(), Role::User),
        ],
        model: GroqModelType::Llama3_70b8192,
        frequency_penalty: Some(DecimalNumber::new(true, 5, 1)),
        logprobs: Some(true),
        max_tokens: Some(256),
        n: Some(2),
        parallel_tool_calls: Some(false),
        presence_penalty: Some(DecimalNumber::from_units(2)),
        seed: Some(42),
        stop: Some(vec!["END".to_string(), "\n".to_string()]),
        stream: Some(true),
        temperature: Some(DecimalNumber::new(false, 7, 1)),
        top_logprobs: Some(5),
        top_p: Some(DecimalNumber::new(false, 95, 2)),
        user: Some("user_123".to_string()),
    };
    let json = config.to_json();
    let back = GroqChatOptions::from_json(&json).unwrap();
    assert_eq!(back.messages.len(), 2);
    assert_eq!(back.messages[0].content, "You are terse.");
    assert_eq!(back.messages[0].role, Role::System);
    assert_eq!(back.messages[1].content, "Hello");
    assert_eq!(back.messages[1].role, Role::User);
    assert_eq!(back.model, GroqModelType::Llama3_70b8192);
    assert_eq!(back.frequency_penalty, Some(DecimalNumber::new(true, 5, 1)));
    assert_eq!(back.logprobs, Some(true));
    assert_eq!(back.max_tokens, Some(256));
    assert_eq!(back.n, Some(2));
    assert_eq!(back.parallel_tool_calls, Some(false));
    assert_eq!(back.presence_penalty, Some(DecimalNumber::from_units(2)));
    assert_eq!(back.seed, Some(42));
    assert_eq!(back.stop, Some(vec!["END".to_string(), "\n".to_string()]));
    assert_eq!(back.stream, Some(true));
    assert_eq!(back.temperature, Some(DecimalNumber::new(false, 7, 1)));
    assert_eq!(back.top_logprobs, Some(5));
    assert_eq!(back.top_p, Some(DecimalNumber::new(false, 95, 2)));
    assert_eq!(back.user, Some("user_123".to_string()));
    assert_eq!(back.to_json(), json);
}

#[test]
fn config_round_trip_with_optionals_unset() {
    let config = GroqChatOptions {
        messages: vec![],
        model: GroqModelType::Llama3_8b8192,
        frequency_penalty: None,
        logprobs: None,
        max_tokens: None,
        n: None,
        parallel_tool_calls: None,
        presence_penalty: None,
        seed: None,
        stop: None,
        stream: None,
        temperature: None,
        top_logprobs: None,
        top_p: None,
        user: None,
    };
    let json = config.to_json();
    assert_eq!(json, "{\"messages\":[],\"model\":\"llama3-8b-8192\"}");
    let back = GroqChatOptions::from_json(&json).unwrap();
    assert_eq!(back.messages.len(), 0);
    assert!(back.temperature.is_none());
    assert!(back.user.is_none());
}

#[test]
fn negative_and_fractional_decimals_render_exactly() {
    let mut config = GroqChatOptions::default();
    config.frequency_penalty = None;
    config.logprobs = None;
    config.n = None;
    config.parallel_tool_calls = None;
    config.presence_penalty = None;
    config.stream = None;
    config.top_p = None;
    config.temperature = Some(DecimalNumber::new(true, 5, 1));
    assert_eq!(
        config.to_json(),
        "{\"messages\":[],\"model\":\"llama3-8b-8192\",\"temperature\":-0.5}"
    );
    config.temperature = Some(DecimalNumber::new(false, 1001, 3));
    assert_eq!(
        config.to_json(),
        "{\"messages\":[],\"model\":\"llama3-8b-8192\",\"temperature\":1.001}"
    );
    config.temperature = Some(DecimalNumber::new(false, 3, 0));
    assert_eq!(
        config.to_json(),
        "{\"messages\":[],\"model\":\"llama3-8b-8192\",\"temperature\":3}"
    );
}

#[test]
fn message_content_is_escaped() {
    let mut config = GroqChatOptions::default();
    config.frequency_penalty = None;
    config.logprobs = None;
    config.n = None;
    config.parallel_tool_calls = None;
    config.presence_penalty = None;
    config.stream = None;
    config.temperature = None;
    config.top_p = None;
    config.messages.push(Message::new("a\"b\\c\nd\t\u{1}".to_string(), Role::User));
    let json = config.to_json();
    assert_eq!(
        json,
        "{\"messages\":[{\"content\":\"a\\\"b\\\\c\\nd\\t\\u0001\",\"role\":\"user\"}],\"model\":\"llama3-8b-8192\"}"
    );
    let back = GroqChatOptions::from_json(&json).unwrap();
    assert_eq!(back.messages[0].content, "a\"b\\c\nd\t\u{1}");
}

#[test]
fn default_config_matches_documented_defaults() {
    let c = GroqChatOptions::default();
    assert_eq!(c.messages.len(), 0);
    assert_eq!(c.model, GroqModelType::Llama3_8b8192);
    assert_eq!(c.frequency_penalty, Some(DecimalNumber::from_units(0)));
    assert_eq!(c.logprobs, Some(false));
    assert!(c.max_tokens.is_none());
    assert_eq!(c.n, Some(1));
    assert_eq!(c.parallel_tool_calls, Some(false));
    assert_eq!(c.presence_penalty, Some(DecimalNumber::from_units(0)));
    assert!(c.seed.is_none());
    assert!(c.stop.is_none());
    assert_eq!(c.stream, Some(false));
    assert_eq!(c.temperature, Some(DecimalNumber::from_units(1)));
    assert!(c.top_logprobs.is_none());
    assert_eq!(c.top_p, Some(DecimalNumber::from_units(1)));
    assert!(c.user.is_none());
}

#[test]
fn build_without_credential_fails_with_configuration_error() {
    let err = GroqModel::build(GroqModelType::Llama3_8b8192, None).unwrap_err();
    assert!(matches!(err, LlmError::ConfigurationError));
    let err =
        GroqModel::build_with_options(GroqModelType::Llama3_8b8192, GroqChatOptions::default(), None)
            .unwrap_err();
    assert!(matches!(err, LlmError::ConfigurationError));
}

#[test]
fn build_sets_model_and_credential() {
    let m = GroqModel::build(GroqModelType::Llama3_70b8192, Some("k-1".to_string())).unwrap();
    assert_eq!(m.model, GroqModelType::Llama3_70b8192);
    assert_eq!(m.chat_options.model, GroqModelType::Llama3_70b8192);
    assert_eq!(m.credential().as_str(), "k-1");
    assert_eq!(m.endpoint().as_str(), "https://api.groq.com/openai/v1/chat/completions");
}

#[test]
fn build_with_options_keeps_config_model_untouched() {
    let config = GroqChatOptions::default();
    let m = GroqModel::build_with_options(
        GroqModelType::Llama3_70b8192,
        config,
        Some("k-2".to_string()),
    )
    .unwrap();
    assert_eq!(m.model, GroqModelType::Llama3_70b8192);
    assert_eq!(m.chat_options.model, GroqModelType::Llama3_8b8192);
}

#[test]
fn completion_parses_and_take_reply_picks_last_choice() {
    let body = body_with_choices(
        "[{\"index\":0,\"message\":{\"content\":\"first\",\"role\":\"assistant\"},\
         \"finish_reason\":\"stop\",\"logprobs\":null},\
         {\"index\":1,\"message\":{\"content\":\"second\",\"role\":\"assistant\"},\
         \"finish_reason\":\"stop\",\"logprobs\":{\"value\":-3}}]",
    );
    let completion = ChatCompletion::from_json(&body).unwrap();
    assert_eq!(completion.id, "chatcmpl-1");
    assert_eq!(completion.object, "chat.completion");
    assert_eq!(completion.created, 123);
    assert_eq!(completion.model, "llama3-8b-8192");
    assert!(completion.system_fingerprint.is_none());
    assert_eq!(completion.choices.len(), 2);
    assert_eq!(completion.choices[1].index, 1);
    assert_eq!(completion.choices[1].finish_reason, "stop");
    let reply = take_reply(completion);
    assert_eq!(reply.content, "second");
    assert_eq!(reply.role, Role::Assistant);
}

#[test]
fn completion_parses_fingerprint_string() {
    let body = "{\"id\":\"c\",\"object\":\"chat.completion\",\"created\":0,\
                \"model\":\"m\",\"system_fingerprint\":\"fp_77\",\"choices\":[],\
                \"usage\":{\"prompt_tokens\":0,\"completion_tokens\":0,\"total_tokens\":0,\
                \"prompt_time\":0.0,\"completion_time\":0.0,\"total_time\":0.0}}";
    let completion = ChatCompletion::from_json(body).unwrap();
    assert_eq!(completion.system_fingerprint, Some("fp_77".to_string()));
}

#[test]
fn invoke_with_empty_choice_list_substitutes_sentinel() {
    let mut m = GroqModel::build(GroqModelType::Llama3_8b8192, Some("k".to_string())).unwrap();
    let _body = m.prepare_request(Message::new("Hi".to_string(), Role::User));
    let reply = m.accept_response(&body_with_choices("[]")).unwrap();
    assert_eq!(reply.content, "");
    assert_eq!(reply.role, Role::Assistant);
}

#[test]
fn empty_choice_sentinel_fields() {
    let c = groq::chat_completion::Choice::empty();
    assert_eq!(c.index, 0);
    assert_eq!(c.message.content, "");
    assert_eq!(c.message.role, Role::Assistant);
    assert_eq!(c.finish_reason, "No Result Returned");
    assert!(c.logprobs.is_none());
}

#[test]
fn history_grows_by_two_per_invocation() {
    let mut m = GroqModel::build(GroqModelType::Llama3_8b8192, Some("k".to_string())).unwrap();
    let before = m.chat_options.messages.len();
    let body = body_with_choices(
        "[{\"index\":0,\"message\":{\"content\":\"ok\",\"role\":\"assistant\"},\
         \"finish_reason\":\"stop\",\"logprobs\":null}]",
    );
    for turn in 0..3 {
        let request = m.prepare_request(Message::new(format!("turn {}", turn), Role::User));
        assert!(request.starts_with("{\"messages\":["));
        let reply = m.accept_response(&body).unwrap();
        assert_eq!(reply.content, "ok");
        assert_eq!(m.chat_options.messages.len(), before + 2 * (turn + 1));
    }
}

#[test]
fn malformed_body_fails_with_provider_error_and_keeps_history() {
    let mut m = GroqModel::build(GroqModelType::Llama3_8b8192, Some("k".to_string())).unwrap();
    let _ = m.prepare_request(Message::new("Hi".to_string(), Role::User));
    let len_after_send = m.chat_options.messages.len();
    let err = m.accept_response("not json at all").unwrap_err();
    assert!(matches!(err, LlmError::ProviderError(b) if b == "not json at all"));
    assert_eq!(m.chat_options.messages.len(), len_after_send);
}

#[test]
fn response_with_unknown_role_is_rejected() {
    let body = body_with_choices(
        "[{\"index\":0,\"message\":{\"content\":\"ok\",\"role\":\"narrator\"},\
         \"finish_reason\":\"stop\",\"logprobs\":null}]",
    );
    assert!(ChatCompletion::from_json(&body).is_none());
    let mut m = GroqModel::build(GroqModelType::Llama3_8b8192, Some("k".to_string())).unwrap();
    let err = m.accept_response(&body).unwrap_err();
    assert!(matches!(err, LlmError::ProviderError(_)));
}

#[test]
fn prepare_request_serializes_updated_history() {
    let mut m = GroqModel::build(GroqModelType::Llama3_8b8192, Some("k".to_string())).unwrap();
    let body = m.prepare_request(Message::new("Hello".to_string(), Role::User));
    assert_eq!(
        body,
        "{\"messages\":[{\"content\":\"Hello\",\"role\":\"user\"}],\
         \"model\":\"llama3-8b-8192\",\"frequency_penalty\":0.0,\"logprobs\":false,\
         \"n\":1,\"parallel_tool_calls\":false,\"presence_penalty\":0.0,\"stream\":false,\
         \"temperature\":1.0,\"top_p\":1.0}"
    );
}

#[test]
fn accept_completion_substitutes_sentinel_and_appends() {
    let mut m = GroqModel::build(GroqModelType::Llama3_8b8192, Some("k".to_string())).unwrap();
    let before = m.chat_options.messages.len();
    let completion = ChatCompletion::from_json(&body_with_choices("[]")).unwrap();
    let reply = m.accept_completion(completion);
    assert_eq!(reply.content, "");
    assert_eq!(reply.role, Role::Assistant);
    assert_eq!(m.chat_options.messages.len(), before + 1);
    assert_eq!(m.chat_options.messages[before].content, "");
}

#[test]
fn non_canonical_bodies_are_rejected() {
    assert!(GroqChatOptions::from_json("{\"messages\":[], \"model\":\"llama3-8b-8192\"}").is_none());
    assert!(GroqChatOptions::from_json("{\"messages\":[],\"model\":\"llama3-8b-8192\",\"temperature\":1e3}").is_none());
    assert!(GroqChatOptions::from_json("{\"messages\":[],\"model\":\"llama3-8b-8192\",\"max_tokens\":007}").is_none());
    assert!(GroqChatOptions::from_json("{\"messages\":[],\"model\":\"llama3-8b-8192\",\"unknown\":1}").is_none());
}
