//! Multi-turn conversation state with context-window trimming.
//!
//! A conversation keeps at most `max_messages` non-system messages, and —
//! when a token budget is set — only as many trailing messages as fit a
//! rough four-bytes-per-token estimate; an initial system prompt always
//! survives trimming.

use vstd::prelude::*;
use vstd::string::StringExecFns;
use crate::sysutil::{now_unix_seconds, uuid_string};

verus! {

#[derive(Debug)]
pub enum ConversationError {
    NotFound(String),
    InvalidMessage(String),
}

impl ConversationError {
    pub fn message(&self) -> (r: String)
        ensures
            (match self {
                ConversationError::NotFound(s) => r@ == "conversation not found: "@ + s@,
                ConversationError::InvalidMessage(s) => r@ == "invalid message: "@ + s@,
            }),
    {
        match self {
            ConversationError::NotFound(s) => "conversation not found: ".to_owned().concat(
                s.as_str(),
            ),
            ConversationError::InvalidMessage(s) => "invalid message: ".to_owned().concat(
                s.as_str(),
            ),
        }
    }
}

#[derive(Clone, Copy, PartialEq, Eq, Structural, Debug)]
pub enum Role {
    System,
    User,
    Assistant,
}

/// A single message: who said it, what, and when (Unix seconds).
pub struct Message {
    pub role: Role,
    pub content: String,
    pub timestamp: i64,
}

impl Message {
    pub fn system(content: String) -> (r: Message)
        ensures
            r.role == Role::System,
            r.content@ == content@,
    {
        Message { role: Role::System, content, timestamp: now_unix_seconds() }
    }

    pub fn user(content: String) -> (r: Message)
        ensures
            r.role == Role::User,
            r.content@ == content@,
    {
        Message { role: Role::User, content, timestamp: now_unix_seconds() }
    }

    pub fn assistant(content: String) -> (r: Message)
        ensures
            r.role == Role::Assistant,
            r.content@ == content@,
    {
        Message { role: Role::Assistant, content, timestamp: now_unix_seconds() }
    }
}

/// The rough size in tokens is the UTF-8 byte count divided by four.
pub open spec fn spec_msg_bytes(m: Message) -> int {
    vstd::utf8::encode_utf8(m.content@).len() as int
}

/// The summed byte count of the last `k` messages.
pub open spec fn spec_suffix_bytes(msgs: Seq<Message>, k: int) -> int
    decreases k,
{
    if k <= 0 || k > msgs.len() {
        0
    } else {
        spec_suffix_bytes(msgs, k - 1) + spec_msg_bytes(msgs[msgs.len() - k])
    }
}

/// How many trailing messages the token budget keeps: counting from the
/// end, stop before the first message that pushes the estimate over the
/// budget.
pub open spec fn spec_keep_from(msgs: Seq<Message>, max_tokens: int, k: int) -> int
    decreases msgs.len() - k,
{
    if k < 0 || k >= msgs.len() {
        msgs.len() as int
    } else if spec_suffix_bytes(msgs, k + 1) / 4 > max_tokens {
        k
    } else {
        spec_keep_from(msgs, max_tokens, k + 1)
    }
}

/// Whether the first message is a system prompt.
pub open spec fn spec_has_system(msgs: Seq<Message>) -> bool {
    msgs.len() > 0 && msgs[0].role == Role::System
}

/// Drop the oldest non-system messages until at most `maxm` remain beside
/// any leading system prompt.
pub open spec fn spec_trim_count(msgs: Seq<Message>, maxm: int) -> Seq<Message> {
    let off: int = if spec_has_system(msgs) {
        1
    } else {
        0
    };
    if msgs.len() > maxm + off {
        if spec_has_system(msgs) {
            seq![msgs[0]] + msgs.skip(msgs.len() - maxm)
        } else {
            msgs.skip(msgs.len() - maxm)
        }
    } else {
        msgs
    }
}

/// Drop the oldest non-system messages until the trailing ones fit the
/// token budget; a leading system prompt always survives.
/// `hs` says whether the conversation started with a system prompt; the
/// flag is taken once, before any trimming.
pub open spec fn spec_trim_tokens(msgs: Seq<Message>, max_tokens: Option<usize>, hs: bool) -> Seq<
    Message,
> {
    match max_tokens {
        None => msgs,
        Some(mt) => {
            let keep0 = spec_keep_from(msgs, mt as int, 0);
            let keep: int = if hs && keep0 < 1 {
                1
            } else {
                keep0
            };
            if msgs.len() > keep {
                if hs {
                    seq![msgs[0]] + msgs.skip(msgs.len() - keep + 1)
                } else {
                    msgs.skip(msgs.len() - keep)
                }
            } else {
                msgs
            }
        },
    }
}

/// The whole trimming pass.
pub open spec fn spec_trim(msgs: Seq<Message>, maxm: int, max_tokens: Option<usize>) -> Seq<
    Message,
> {
    spec_trim_tokens(spec_trim_count(msgs, maxm), max_tokens, spec_has_system(msgs))
}

/// The prefix a role gets in the rendered prompt.
pub open spec fn spec_role_prefix(r: Role) -> Seq<char> {
    match r {
        Role::System => "System: "@,
        Role::User => "User: "@,
        Role::Assistant => "Assistant: "@,
    }
}

/// One rendered message line.
pub open spec fn spec_msg_line(m: Message) -> Seq<char> {
    spec_role_prefix(m.role) + m.content@ + "\n"@
}

/// The rendered prompt: the message lines joined with blank separators.
pub open spec fn spec_prompt(msgs: Seq<Message>) -> Seq<char>
    decreases msgs.len(),
{
    if msgs.len() == 0 {
        Seq::empty()
    } else if msgs.len() == 1 {
        spec_msg_line(msgs[0])
    } else {
        spec_prompt(msgs.drop_last()) + "\n"@ + spec_msg_line(msgs.last())
    }
}

/// A conversation with context-window management.
pub struct Conversation {
    pub id: String,
    messages: Vec<Message>,
    max_messages: usize,
    max_tokens: Option<usize>,
}

impl Conversation {
    pub closed spec fn spec_messages(&self) -> Seq<Message> {
        self.messages@
    }

    pub closed spec fn spec_id(&self) -> Seq<char> {
        self.id@
    }

    pub closed spec fn spec_max_messages(&self) -> usize {
        self.max_messages
    }

    pub closed spec fn spec_max_tokens(&self) -> Option<usize> {
        self.max_tokens
    }

    /// A fresh conversation holding only the optional system prompt, with
    /// a random id, keeping 20 messages and roughly 8000 tokens.
    pub fn new(system_prompt: Option<String>) -> (r: Conversation)
        ensures
            (match system_prompt {
                Some(p) => r.spec_messages().len() == 1 && r.spec_messages()[0].role
                    == Role::System && r.spec_messages()[0].content@ == p@,
                None => r.spec_messages().len() == 0,
            }),
            r.spec_max_messages() == 20,
            r.spec_max_tokens() == Some(8000usize),
    {
        let mut messages: Vec<Message> = Vec::new();
        match system_prompt {
            Some(p) => {
                messages.push(Message::system(p));
            },
            None => {},
        }
        Conversation { id: uuid_string(), messages, max_messages: 20, max_tokens: Some(8000) }
    }

    /// As `new`, under a caller-chosen id.
    pub fn with_id(id: String, system_prompt: Option<String>) -> (r: Conversation)
        ensures
            r.spec_id() == id@,
            (match system_prompt {
                Some(p) => r.spec_messages().len() == 1 && r.spec_messages()[0].role
                    == Role::System && r.spec_messages()[0].content@ == p@,
                None => r.spec_messages().len() == 0,
            }),
            r.spec_max_messages() == 20,
            r.spec_max_tokens() == Some(8000usize),
    {
        let mut conv = Self::new(system_prompt);
        conv.id = id;
        conv
    }

    pub fn with_max_messages(self, max_messages: usize) -> (r: Conversation)
        ensures
            r.spec_messages() == self.spec_messages(),
            r.spec_max_messages() == max_messages,
            r.spec_max_tokens() == self.spec_max_tokens(),
            r.spec_id() == self.spec_id(),
    {
        Conversation { max_messages, ..self }
    }

    pub fn with_max_tokens(self, max_tokens: Option<usize>) -> (r: Conversation)
        ensures
            r.spec_messages() == self.spec_messages(),
            r.spec_max_messages() == self.spec_max_messages(),
            r.spec_max_tokens() == max_tokens,
            r.spec_id() == self.spec_id(),
    {
        Conversation { max_tokens, ..self }
    }

    /// Appends a message, then trims to the window.
    pub fn add_message(&mut self, message: Message)
        ensures
            final(self).spec_messages() == spec_trim(
                old(self).spec_messages().push(message),
                old(self).spec_max_messages() as int,
                old(self).spec_max_tokens(),
            ),
            final(self).spec_max_messages() == old(self).spec_max_messages(),
            final(self).spec_max_tokens() == old(self).spec_max_tokens(),
            final(self).spec_id() == old(self).spec_id(),
    {
        self.messages.push(message);
        self.trim_context();
    }

    /// Appends a user message.
    pub fn add_user_message(&mut self, content: String)
        ensures
            exists|m: Message|
                m.role == Role::User && m.content@ == content@ && final(self).spec_messages()
                    == spec_trim(
                    old(self).spec_messages().push(m),
                    old(self).spec_max_messages() as int,
                    old(self).spec_max_tokens(),
                ),
            final(self).spec_max_messages() == old(self).spec_max_messages(),
            final(self).spec_max_tokens() == old(self).spec_max_tokens(),
    {
        let m = Message::user(content);
        let ghost gm = m;
        self.add_message(m);
    }

    /// Appends an assistant message.
    pub fn add_assistant_message(&mut self, content: String)
        ensures
            exists|m: Message|
                m.role == Role::Assistant && m.content@ == content@
                    && final(self).spec_messages() == spec_trim(
                    old(self).spec_messages().push(m),
                    old(self).spec_max_messages() as int,
                    old(self).spec_max_tokens(),
                ),
            final(self).spec_max_messages() == old(self).spec_max_messages(),
            final(self).spec_max_tokens() == old(self).spec_max_tokens(),
    {
        let m = Message::assistant(content);
        let ghost gm = m;
        self.add_message(m);
    }

    /// All messages, system prompt included.
    pub fn messages(&self) -> (r: &Vec<Message>)
        ensures
            r@ == self.spec_messages(),
    {
        &self.messages
    }

    /// The number of non-system messages.
    pub fn len(&self) -> (r: usize)
        ensures
            r == Self::spec_non_system(self.spec_messages()),
    {
        let mut n: usize = 0;
        let mut i: usize = 0;
        while i < self.messages.len()
            invariant
                i <= self.messages@.len(),
                n == Self::spec_non_system(self.messages@.take(i as int)),
                n <= i,
            decreases self.messages@.len() - i,
        {
            assert(self.messages@.take(i + 1).drop_last() =~= self.messages@.take(i as int));
            assert(self.messages@.take(i + 1).last() == self.messages@[i as int]);
            if !matches!(self.messages[i].role, Role::System) {
                n += 1;
            }
            i += 1;
        }
        assert(self.messages@.take(self.messages@.len() as int) =~= self.messages@);
        n
    }

    /// How many of `msgs` are not system messages.
    pub open spec fn spec_non_system(msgs: Seq<Message>) -> nat
        decreases msgs.len(),
    {
        if msgs.len() == 0 {
            0
        } else {
            Self::spec_non_system(msgs.drop_last()) + if msgs.last().role == Role::System {
                0nat
            } else {
                1nat
            }
        }
    }

    /// Whether there are no user or assistant messages.
    pub fn is_empty(&self) -> (r: bool)
        ensures
            r == (Self::spec_non_system(self.spec_messages()) == 0),
    {
        self.len() == 0
    }

    /// Renders the conversation as a plain prompt.
    pub fn to_prompt(&self) -> (r: String)
        ensures
            r@ == spec_prompt(self.spec_messages()),
    {
        let ghost msgs = self.messages@;
        let mut out: String = String::new();
        let mut i: usize = 0;
        while i < self.messages.len()
            invariant
                msgs == self.messages@,
                i <= msgs.len(),
                out@ == spec_prompt(msgs.take(i as int)),
            decreases msgs.len() - i,
        {
            assert(msgs.take(i + 1).drop_last() =~= msgs.take(i as int));
            assert(msgs.take(i + 1).last() == msgs[i as int]);
            if i > 0 {
                out.append("\n");
            }
            match self.messages[i].role {
                Role::System => out.append("System: "),
                Role::User => out.append("User: "),
                Role::Assistant => out.append("Assistant: "),
            }
            out.append(self.messages[i].content.as_str());
            out.append("\n");
            assert(out@ =~= spec_prompt(msgs.take(i + 1)));
            i += 1;
        }
        assert(msgs.take(msgs.len() as int) =~= msgs);
        out
    }

    /// Drops everything but a leading system prompt.
    pub fn clear(&mut self)
        ensures
            (if spec_has_system(old(self).spec_messages()) {
                final(self).spec_messages() =~= seq![old(self).spec_messages()[0]]
            } else {
                final(self).spec_messages() =~= Seq::<Message>::empty()
            }),
            final(self).spec_max_messages() == old(self).spec_max_messages(),
            final(self).spec_max_tokens() == old(self).spec_max_tokens(),
            final(self).spec_id() == old(self).spec_id(),
    {
        if self.messages.len() > 0 && matches!(self.messages[0].role, Role::System) {
            self.messages.truncate(1);
            assert(self.messages@ =~= seq![old(self).spec_messages()[0]]);
        } else {
            self.messages = Vec::new();
        }
    }

    /// Trims to the window: first by message count, then by the token
    /// budget.
    fn trim_context(&mut self)
        ensures
            final(self).spec_messages() == spec_trim(
                old(self).spec_messages(),
                old(self).spec_max_messages() as int,
                old(self).spec_max_tokens(),
            ),
            final(self).spec_max_messages() == old(self).spec_max_messages(),
            final(self).spec_max_tokens() == old(self).spec_max_tokens(),
            final(self).spec_id() == old(self).spec_id(),
    {
        let ghost orig = self.messages@;
        let has_system = self.messages.len() > 0 && matches!(self.messages[0].role, Role::System);
        let offset: usize = if has_system {
            1
        } else {
            0
        };

        // Phase one: bound the number of messages.
        let maxm = self.max_messages;
        let ghost target1 = spec_trim_count(orig, maxm as int);
        proof {
            if has_system {
                assert(orig =~= seq![orig[0]] + orig.skip(1));
            } else {
                assert(orig =~= orig.skip(0));
            }
        }
        while self.messages.len() - offset > maxm
            invariant
                offset <= self.messages@.len() || self.messages@.len() == 0,
                has_system ==> self.messages@.len() >= 1,
                has_system == spec_has_system(orig),
                offset == if has_system {
                    1int
                } else {
                    0int
                },
                maxm == self.max_messages,
                self.max_tokens == old(self).spec_max_tokens(),
                self.spec_id() == old(self).spec_id(),
                orig == old(self).spec_messages(),
                (if has_system {
                    self.messages@ == seq![orig[0]] + orig.skip(
                        orig.len() - (self.messages@.len() - 1),
                    )
                } else {
                    self.messages@ == orig.skip(orig.len() - self.messages@.len())
                }),
                self.messages@.len() <= orig.len(),
                self.messages@.len() >= maxm + offset || self.messages@.len() == orig.len(),
            decreases self.messages@.len(),
        {
            let ghost before = self.messages@;
            if has_system {
                self.messages.remove(1);
                proof {
                    let k1 = orig.len() - (before.len() - 1);
                    assert(before == seq![orig[0]] + orig.skip(k1));
                    assert(self.messages@ =~= seq![orig[0]] + orig.skip(k1 + 1));
                }
            } else {
                self.messages.remove(0);
                proof {
                    let k1 = orig.len() - before.len();
                    assert(before == orig.skip(k1));
                    assert(self.messages@ =~= orig.skip(k1 + 1));
                }
            }
        }
        proof {
            if orig.len() > maxm + offset {
                assert(self.messages@.len() == maxm + offset);
                if has_system {
                    assert(self.messages@ == seq![orig[0]] + orig.skip(orig.len() - maxm as int));
                } else {
                    assert(self.messages@ == orig.skip(orig.len() - maxm as int));
                }
                assert(self.messages@ == target1);
            } else {
                assert(self.messages@.len() == orig.len());
                if has_system {
                    assert(self.messages@ =~= orig);
                } else {
                    assert(self.messages@ =~= orig);
                }
                assert(self.messages@ == target1);
            }
        }

        // Phase two: bound the rough token estimate.
        let ghost mid = self.messages@;
        if let Some(mt) = self.max_tokens {
            let mut total: u128 = 0;
            let mut keep: usize = 0;
            let n = self.messages.len();
            let mut stopped = false;
            while !stopped && keep < n
                invariant
                    mid == self.messages@,
                    n == mid.len(),
                    keep <= n,
                    !stopped ==> total == spec_suffix_bytes(mid, keep as int)
                        && spec_keep_from(mid, mt as int, 0) == spec_keep_from(
                        mid,
                        mt as int,
                        keep as int,
                    ),
                    stopped ==> keep == spec_keep_from(mid, mt as int, 0),
                    total <= 0xffff_ffff_ffff_ffff * (keep as int),
                decreases (if stopped { 0int } else { 1int }), n - keep,
            {
                let idx = n - 1 - keep;
                let blen = self.messages[idx].content.as_str().as_bytes().len();
                assert(blen == spec_msg_bytes(mid[idx as int]));
                proof {
                    let m: int = 0xffff_ffff_ffff_ffff;
                    assert(blen as int <= m);
                    assert(m * (keep as int) + m == m * ((keep as int) + 1)) by (nonlinear_arith);
                    assert(m * ((keep as int) + 1) <= m * 0x1_0000_0000_0000_0000)
                        by (nonlinear_arith)
                        requires
                            m == 0xffff_ffff_ffff_ffff,
                            0 <= (keep as int) + 1 <= 0x1_0000_0000_0000_0000,
                    ;
                }
                let new_total = total + blen as u128;
                assert(new_total == spec_suffix_bytes(mid, keep + 1));
                if new_total / 4 > mt as u128 {
                    stopped = true;
                    assert(keep == spec_keep_from(mid, mt as int, keep as int));
                } else {
                    total = new_total;
                    keep += 1;
                }
            }
            proof {
                if !stopped {
                    assert(keep == n);
                    assert(spec_keep_from(mid, mt as int, keep as int) == n);
                }
                assert(keep == spec_keep_from(mid, mt as int, 0));
            }
            let keep_final: usize = if has_system && keep < 1 {
                1
            } else {
                keep
            };
            let ghost target2 = spec_trim_tokens(mid, Some(mt), has_system);
            proof {
                if has_system {
                    assert(mid =~= seq![mid[0]] + mid.skip(1));
                } else {
                    assert(mid =~= mid.skip(0));
                }
            }
            while self.messages.len() > keep_final
                invariant
                    has_system ==> mid.len() >= 1 && self.messages@.len() >= 1,
                    keep_final >= if has_system {
                        1int
                    } else {
                        0int
                    },
                    self.max_tokens == old(self).spec_max_tokens(),
                    self.max_messages == old(self).spec_max_messages(),
                    self.spec_id() == old(self).spec_id(),
                    self.messages@.len() >= keep_final,
                    (if has_system {
                        self.messages@ == seq![mid[0]] + mid.skip(
                            mid.len() - (self.messages@.len() - 1),
                        )
                    } else {
                        self.messages@ == mid.skip(mid.len() - self.messages@.len())
                    }),
                    self.messages@.len() <= mid.len(),
                decreases self.messages@.len(),
            {
                let ghost before = self.messages@;
                if has_system {
                    self.messages.remove(1);
                    proof {
                        let k1 = mid.len() - (before.len() - 1);
                        assert(before == seq![mid[0]] + mid.skip(k1));
                        assert(self.messages@ =~= seq![mid[0]] + mid.skip(k1 + 1));
                    }
                } else {
                    self.messages.remove(0);
                    proof {
                        let k1 = mid.len() - before.len();
                        assert(before == mid.skip(k1));
                        assert(self.messages@ =~= mid.skip(k1 + 1));
                    }
                }
            }
            proof {
                if mid.len() > keep_final {
                    assert(self.messages@.len() == keep_final);
                    if has_system {
                        assert(self.messages@ == seq![mid[0]] + mid.skip(
                            mid.len() - keep_final + 1,
                        ));
                    } else {
                        assert(self.messages@ == mid.skip(mid.len() - keep_final as int));
                    }
                    assert(self.messages@ == target2);
                } else {
                    if has_system {
                        assert(self.messages@ =~= mid);
                    } else {
                        assert(self.messages@ =~= mid);
                    }
                    assert(self.messages@ == target2);
                }
            }
        }
    }
}

} // verus!
