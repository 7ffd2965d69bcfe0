//! The conversation as the interface holds it: messages made of text, thinking and tool-call
//! parts, and the small records shown around them.
use vstd::prelude::*;

verus! {

/// Declares `std::time::Instant`, the moment a notice was raised.
#[verifier::external_type_specification]
#[verifier::external_body]
pub struct ExInstant(std::time::Instant);

/// What the interface is showing.
#[derive(Debug, Clone, PartialEq, Eq)]
pub enum AppMode {
    Normal,
    Loading,
    Error(String),
    AuthError(String),
    Welcome,
}

/// The progress of a tool call.
#[derive(Debug, Clone, Copy, PartialEq, Eq, Structural)]
pub enum ToolStatus {
    Pending,
    Running,
    Completed,
    Failed,
}

/// A piece of a message.
#[derive(Debug, Clone)]
pub enum MessagePart {
    Text { content: String },
    Thinking { content: String },
    ToolCall {
        id: String,
        name: String,
        status: ToolStatus,
        input_summary: String,
        output: Option<String>,
        expanded: bool,
    },
}

/// Who wrote a message.
#[derive(Debug, Clone, PartialEq, Eq)]
pub enum MessageRole {
    User,
    Assistant,
    Tool { name: String },
}

/// Where a sub-agent is in its work.
#[derive(Debug, Clone, Copy, PartialEq, Eq, Structural)]
pub enum SubAgentStatus {
    Running,
    Completed,
    Failed,
}

/// A sub-agent started during an assistant's turn: its name, its state, and whether its
/// details are shown.
#[derive(Debug, Clone)]
pub struct SubAgentInfo {
    pub name: String,
    pub status: SubAgentStatus,
    pub expanded: bool,
}

/// One message of the conversation.
#[derive(Debug, Clone)]
pub struct Message {
    pub role: MessageRole,
    pub parts: Vec<MessagePart>,
    pub agent: String,
    pub timestamp: u64,
    pub is_streaming: bool,
    pub tool_timeline: Vec<(String, bool, u64)>,
    pub turn_duration_ms: u64,
    pub sub_agents: Vec<SubAgentInfo>,
}

/// The text parts of `parts`, one after another.
pub open spec fn text_of(parts: Seq<MessagePart>) -> Seq<char>
    decreases parts.len(),
{
    if parts.len() == 0 {
        Seq::empty()
    } else {
        text_of(parts.drop_last()) + match parts.last() {
            MessagePart::Text { content } => content@,
            _ => Seq::empty(),
        }
    }
}

/// The thinking parts of `parts`, one after another.
pub open spec fn thinking_of(parts: Seq<MessagePart>) -> Seq<char>
    decreases parts.len(),
{
    if parts.len() == 0 {
        Seq::empty()
    } else {
        thinking_of(parts.drop_last()) + match parts.last() {
            MessagePart::Thinking { content } => content@,
            _ => Seq::empty(),
        }
    }
}

impl Message {
    /// All text parts, one after another.
    pub fn full_text(&self) -> (r: String)
        ensures
            r@ == text_of(self.parts@),
    {
        let mut r = String::new();
        let mut i: usize = 0;
        while i < self.parts.len()
            invariant
                i <= self.parts@.len(),
                r@ == text_of(self.parts@.take(i as int)),
            decreases self.parts@.len() - i,
        {
            assert(self.parts@.take(i + 1).drop_last() =~= self.parts@.take(i as int));
            match &self.parts[i] {
                MessagePart::Text { content } => {
                    r.append(content.as_str());
                },
                _ => {
                    assert(r@ =~= r@ + Seq::<char>::empty());
                },
            }
            i = i + 1;
        }
        assert(self.parts@.take(self.parts@.len() as int) =~= self.parts@);
        r
    }

    /// All thinking parts, one after another.
    pub fn thinking_text(&self) -> (r: String)
        ensures
            r@ == thinking_of(self.parts@),
    {
        let mut r = String::new();
        let mut i: usize = 0;
        while i < self.parts.len()
            invariant
                i <= self.parts@.len(),
                r@ == thinking_of(self.parts@.take(i as int)),
            decreases self.parts@.len() - i,
        {
            assert(self.parts@.take(i + 1).drop_last() =~= self.parts@.take(i as int));
            match &self.parts[i] {
                MessagePart::Thinking { content } => {
                    r.append(content.as_str());
                },
                _ => {
                    assert(r@ =~= r@ + Seq::<char>::empty());
                },
            }
            i = i + 1;
        }
        assert(self.parts@.take(self.parts@.len() as int) =~= self.parts@);
        r
    }
}

/// A tool run shown in the activity list.
#[derive(Debug, Clone)]
pub struct ToolEvent {
    pub name: String,
    pub status: ToolStatus,
    pub input_summary: String,
}

/// The kind of a notice.
pub enum ToastKind {
    Info,
    Success,
    Warning,
    Error,
}

/// A short notice shown for a while.
pub struct Toast {
    pub message: String,
    pub kind: ToastKind,
    pub created_at: std::time::Instant,
}

/// A selected span of the conversation.
pub struct TextSelection {
    pub start_row: u16,
    pub start_col: u16,
    pub end_row: u16,
    pub end_col: u16,
    pub content_lines: Vec<String>,
}

/// What an undo took back: the first removed message and the prompt to restore.
#[derive(Debug, Clone)]
pub struct RevertState {
    pub message_boundary: usize,
    pub prompt_text: String,
}

} // verus!
