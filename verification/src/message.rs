//! The conversation data model: a `Message` is one chat turn, and its
//! `Role` says who spoke it. A role travels on the wire as one of the three
//! lowercase strings `"system"`, `"user"` and `"assistant"`; any other
//! string is rejected when decoding.
use crate::errors::LlmError;
use crate::json::{push_json_string, push_lit, spec_json_string, str_eq};
use vstd::prelude::*;

verus! {

/// Who speaks a conversation turn.
#[derive(Clone, Copy, Debug, PartialEq, Eq, Structural)]
pub enum Role {
    System,
    User,
    Assistant,
}

/// The wire string for a role.
pub open spec fn spec_role_str(r: Role) -> Seq<char> {
    match r {
        Role::System => "system"@,
        Role::User => "user"@,
        Role::Assistant => "assistant"@,
    }
}

/// The total decoder for role strings: the three members of the closed
/// set decode to their role, everything else to `None`.
pub open spec fn spec_role_of(s: Seq<char>) -> Option<Role> {
    if s == "system"@ {
        Some(Role::System)
    } else if s == "user"@ {
        Some(Role::User)
    } else if s == "assistant"@ {
        Some(Role::Assistant)
    } else {
        None
    }
}

/// The round-trip law for roles: encoding a role and decoding the result
/// is the identity, and every string outside the closed set fails to
/// decode.
pub proof fn lemma_role_round_trip(r: Role)
    ensures
        spec_role_of(spec_role_str(r)) == Some(r),
        forall|s: Seq<char>|
            !(s == "system"@ || s == "user"@ || s == "assistant"@) ==> spec_role_of(s) is None,
{
    reveal_strlit("system");
    reveal_strlit("user");
    reveal_strlit("assistant");
    assert("system"@.len() == 6);
    assert("user"@.len() == 4);
    assert("assistant"@.len() == 9);
}

impl Role {
    /// The wire string for this role.
    pub fn to_string(&self) -> (r: String)
        ensures
            r@ == spec_role_str(*self),
    {
        match self {
            Role::System => String::from_str("system"),
            Role::User => String::from_str("user"),
            Role::Assistant => String::from_str("assistant"),
        }
    }

    /// Decode a wire string to a role; a string outside the closed set
    /// fails with a `SerializationError` naming it.
    pub fn from_str(s: &str) -> (r: Result<Role, LlmError>)
        ensures
            match r {
                Ok(role) => spec_role_of(s@) == Some(role),
                Err(e) => spec_role_of(s@) is None && (e matches LlmError::SerializationError(m)
                    && m@ == s@),
            },
    {
        if str_eq(s, "system") {
            Ok(Role::System)
        } else if str_eq(s, "user") {
            Ok(Role::User)
        } else if str_eq(s, "assistant") {
            Ok(Role::Assistant)
        } else {
            Err(LlmError::SerializationError(s.to_owned()))
        }
    }
}

/// One chat turn: free-form text and the role that spoke it. Never
/// mutated after construction; a conversation appends and clones them.
#[derive(Debug)]
pub struct Message {
    pub content: String,
    pub role: Role,
}

/// The wire object for a message: exactly
/// `{"content":<string>,"role":<role string>}`.
pub open spec fn spec_message_json(m: Message) -> Seq<char> {
    "{\"content\":"@ + spec_json_string(m.content@) + ",\"role\":"@ + spec_json_string(
        spec_role_str(m.role),
    ) + "}"@
}

impl Message {
    /// Build a turn from its content and role.
    pub fn new(content: String, role: Role) -> (m: Message)
        ensures
            m.content == content,
            m.role == role,
    {
        Message { content, role }
    }

    /// Parse a message object at `i`; on success the consumed segment is
    /// exactly the canonical wire object of the returned message. A role
    /// string outside the closed set fails the parse.
    pub fn parse_json(s: &Vec<char>, i: usize) -> (r: Option<(Message, usize)>)
        ensures
            r matches Some(p) ==> {
                &&& i < p.1 <= s@.len()
                &&& s@.subrange(i as int, p.1 as int) == spec_message_json(p.0)
            },
    {
        let j1 = match crate::json::eat_lit(s, i, "{\"content\":") {
            Some(j) => j,
            None => { return None; },
        };
        let mut buf: Vec<char> = Vec::new();
        let j2 = match crate::json::parse_json_string(s, j1, &mut buf) {
            Some(j) => j,
            None => { return None; },
        };
        let content: String = crate::json::chars_to_string(&buf);
        let j3 = match crate::json::eat_lit(s, j2, ",\"role\":") {
            Some(j) => j,
            None => { return None; },
        };
        let mut role_buf: Vec<char> = Vec::new();
        let j4 = match crate::json::parse_json_string(s, j3, &mut role_buf) {
            Some(j) => j,
            None => { return None; },
        };
        let role_str: String = crate::json::chars_to_string(&role_buf);
        let role: Role = match Role::from_str(role_str.as_str()) {
            Ok(role) => role,
            Err(_) => { return None; },
        };
        let j5 = match crate::json::eat_lit(s, j4, "}") {
            Some(j) => j,
            None => { return None; },
        };
        let m = Message { content, role };
        proof {
            assert(role_buf@ == spec_role_str(role));
            assert(s@.subrange(i as int, j5 as int) =~= s@.subrange(i as int, j1 as int)
                + s@.subrange(j1 as int, j2 as int) + s@.subrange(j2 as int, j3 as int)
                + s@.subrange(j3 as int, j4 as int) + s@.subrange(j4 as int, j5 as int));
            assert(s@.subrange(i as int, j5 as int) =~= spec_message_json(m));
        }
        Some((m, j5))
    }

    /// Append this message's wire object to the buffer.
    pub fn push_json(&self, out: &mut Vec<char>)
        ensures
            final(out)@ == old(out)@ + spec_message_json(*self),
    {
        push_lit(out, "{\"content\":");
        push_json_string(out, self.content.as_str());
        push_lit(out, ",\"role\":");
        let role_str: String = self.role.to_string();
        push_json_string(out, role_str.as_str());
        push_lit(out, "}");
        proof {
            assert(out@ =~= old(out)@ + spec_message_json(*self));
        }
    }
}

impl Clone for Message {
    /// A clone keeps the content and the role.
    fn clone(&self) -> (r: Self)
        ensures
            r.content == self.content,
            r.role == self.role,
    {
        Message { content: self.content.clone(), role: self.role }
    }
}

} // verus!
