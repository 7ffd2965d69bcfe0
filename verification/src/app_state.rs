//! The conversation side of the application state: the messages as they stream in, tool
//! calls and their completion, the activity list, scrolling to the bottom, errors shown
//! inline, undoing and redoing a prompt, the leader key and notices.
use vstd::prelude::*;
use crate::messages::{
    text_of, AppMode, Message, MessagePart, MessageRole, RevertState, SubAgentInfo, SubAgentStatus,
    TextSelection, Toast, ToastKind, ToolEvent, ToolStatus,
};
use crate::plugin_slots::{PluginRoute, PluginSlot, SlotContent};
use crate::text::{decimal, push_decimal, str_eq};

verus! {

/// Calls `SystemTime::now()` and takes the whole seconds since the Unix epoch (0 if the
/// clock is before it). Nothing is promised of the value: it is the clock's.
#[verifier::external_body]
fn now_secs() -> (t: u64) {
    std::time::SystemTime::now()
        .duration_since(std::time::UNIX_EPOCH)
        .unwrap_or_default()
        .as_secs()
}

/// Calls `Instant::now()`. Nothing is promised of the moment.
#[verifier::external_body]
fn now_instant() -> (t: std::time::Instant) {
    std::time::Instant::now()
}

/// Calls `Instant::elapsed` and takes the whole seconds. Nothing is promised of the value:
/// it is the clock's.
#[verifier::external_body]
fn elapsed_secs(t: &std::time::Instant) -> (s: u64) {
    t.elapsed().as_secs()
}

/// The conversation side of the application state.
pub struct AppState {
    pub mode: AppMode,
    pub messages: Vec<Message>,
    pub tools: Vec<ToolEvent>,
    pub scroll_offset: usize,
    pub auto_scroll: bool,
    pub scroll_paused: bool,
    pub is_streaming: bool,
    pub revert: Option<RevertState>,
    pub leader_active: bool,
    pub leader_activated_at: Option<std::time::Instant>,
    pub toasts: Vec<Toast>,
    pub selection: Option<TextSelection>,
    pub show_thinking: bool,
    pub is_thinking: bool,
    pub turn_started_at: Option<std::time::Instant>,
    /// What plugins show in each slot, in the order they registered (see `plugin_slots`).
    pub plugin_slots: Vec<(PluginSlot, SlotContent)>,
    pub plugin_routes: Vec<PluginRoute>,
}

/// Where the undone part of the conversation begins: the reverted boundary, else the end.
pub open spec fn boundary_of(revert: Option<RevertState>, n: nat) -> int {
    match revert {
        Some(r) => r.message_boundary as int,
        None => n as int,
    }
}

/// The last message before `b` written by the user.
pub open spec fn last_user_before(msgs: Seq<Message>, b: int) -> Option<int>
    decreases b,
{
    if b <= 0 {
        None
    } else if msgs[b - 1].role is User {
        Some(b - 1)
    } else {
        last_user_before(msgs, b - 1)
    }
}

/// The first message from `b` on written by the user.
pub open spec fn first_user_from(msgs: Seq<Message>, b: int) -> Option<int>
    decreases msgs.len() - b,
{
    if b < 0 || b >= msgs.len() {
        None
    } else if msgs[b].role is User {
        Some(b)
    } else {
        first_user_from(msgs, b + 1)
    }
}

proof fn lemma_last_user_before(msgs: Seq<Message>, b: int)
    requires
        b <= msgs.len(),
    ensures
        match last_user_before(msgs, b) {
            Some(i) => 0 <= i < b && msgs[i].role is User,
            None => forall|k: int| 0 <= k < b ==> !(#[trigger] msgs[k].role is User),
        },
    decreases b,
{
    if b > 0 && !(msgs[b - 1].role is User) {
        lemma_last_user_before(msgs, b - 1);
    }
}

proof fn lemma_first_user_from(msgs: Seq<Message>, b: int)
    requires
        0 <= b,
    ensures
        match first_user_from(msgs, b) {
            Some(i) => b <= i < msgs.len() && msgs[i].role is User,
            None => forall|k: int| b <= k < msgs.len() ==> !(#[trigger] msgs[k].role is User),
        },
    decreases msgs.len() - b,
{
    if b < msgs.len() && !(msgs[b].role is User) {
        lemma_first_user_from(msgs, b + 1);
    }
}

/// The status a finished tool gets.
pub open spec fn finished_status(success: bool) -> ToolStatus {
    if success {
        ToolStatus::Completed
    } else {
        ToolStatus::Failed
    }
}

/// Elapsed time as shown: `1h 2m` from an hour, `3m 4s` from a minute, else `5s`.
pub open spec fn elapsed_text(total_secs: nat) -> Seq<char> {
    if total_secs >= 3600 {
        decimal(total_secs / 3600) + "h "@ + decimal((total_secs % 3600) / 60) + "m"@
    } else if total_secs >= 60 {
        decimal(total_secs / 60) + "m "@ + decimal(total_secs % 60) + "s"@
    } else {
        decimal(total_secs) + "s"@
    }
}

/// Elapsed time as shown (see `elapsed_text`).
pub fn format_elapsed(total_secs: u64) -> (r: String)
    ensures
        r@ == elapsed_text(total_secs as nat),
{
    let mut r = String::new();
    if total_secs >= 3600 {
        push_decimal(&mut r, (total_secs / 3600) as u128);
        r.append("h ");
        push_decimal(&mut r, ((total_secs % 3600) / 60) as u128);
        r.append("m");
    } else if total_secs >= 60 {
        push_decimal(&mut r, (total_secs / 60) as u128);
        r.append("m ");
        push_decimal(&mut r, (total_secs % 60) as u128);
        r.append("s");
    } else {
        push_decimal(&mut r, total_secs as u128);
        r.append("s");
    }
    r
}

/// A number of at most two digits, padded to two with a leading zero.
pub open spec fn two_digits(n: nat) -> Seq<char> {
    if n < 10 {
        "0"@ + decimal(n)
    } else {
        decimal(n)
    }
}

/// A duration as a clock: `0:07` under a minute, else minutes and two-digit seconds (`12:05`).
pub open spec fn duration_text(total_secs: nat) -> Seq<char> {
    if total_secs < 60 {
        "0:"@ + two_digits(total_secs)
    } else {
        decimal(total_secs / 60) + ":"@ + two_digits(total_secs % 60)
    }
}

fn push_two_digits(r: &mut String, n: u64)
    requires
        n < 100,
    ensures
        final(r)@ == old(r)@ + two_digits(n as nat),
{
    if n < 10 {
        r.append("0");
    }
    push_decimal(r, n as u128);
}

/// A duration in whole seconds as a clock (see `duration_text`).
pub fn format_duration(total_secs: u64) -> (r: String)
    ensures
        r@ == duration_text(total_secs as nat),
{
    let mut r = String::new();
    if total_secs < 60 {
        r.append("0:");
        push_two_digits(&mut r, total_secs);
    } else {
        push_decimal(&mut r, (total_secs / 60) as u128);
        r.append(":");
        push_two_digits(&mut r, total_secs % 60);
    }
    r
}

/// Seconds a notice stays up.
pub const TOAST_SECS: u64 = 3;

/// The notices still up, given how many seconds each has been up.
pub open spec fn live_toasts(ts: Seq<Toast>, ages: Seq<u64>) -> Seq<Toast>
    decreases ts.len(),
{
    if ts.len() == 0 {
        seq![]
    } else {
        let rest = live_toasts(ts.drop_last(), ages.drop_last());
        if ages.last() < TOAST_SECS {
            rest.push(ts.last())
        } else {
            rest
        }
    }
}

/// Seconds the leader key stays armed.
pub const LEADER_TIMEOUT_SECS: u64 = 2;

/// The state after the leader key has been armed for `secs` seconds: an armed key whose
/// arming time is known is disarmed from `LEADER_TIMEOUT_SECS` on; otherwise nothing changes.
pub open spec fn leader_after(s: AppState, secs: u64) -> AppState {
    if s.leader_active && s.leader_activated_at is Some && secs >= LEADER_TIMEOUT_SECS {
        AppState { leader_active: false, leader_activated_at: None, ..s }
    } else {
        s
    }
}

/// Some message is still streaming.
pub open spec fn any_streaming(msgs: Seq<Message>) -> bool {
    exists|i: int| 0 <= i < msgs.len() && (#[trigger] msgs[i]).is_streaming
}

/// Two messages agree on all but their parts.
pub open spec fn same_but_parts(a: Message, b: Message) -> bool {
    &&& a.role == b.role
    &&& a.agent == b.agent
    &&& a.timestamp == b.timestamp
    &&& a.is_streaming == b.is_streaming
    &&& a.tool_timeline == b.tool_timeline
    &&& a.turn_duration_ms == b.turn_duration_ms
    &&& a.sub_agents == b.sub_agents
}

/// `new` is `old` with `delta` added to its last part when that is of the same kind
/// (text when `thinking` is false, thinking when it is true).
pub open spec fn extended_last(old: Seq<MessagePart>, new: Seq<MessagePart>, delta: Seq<char>, thinking: bool) -> bool {
    &&& old.len() > 0
    &&& new.len() == old.len()
    &&& new.drop_last() == old.drop_last()
    &&& if thinking {
        old.last() matches MessagePart::Thinking { content: c0 } && (new.last() matches MessagePart::Thinking { content: c1 }
            && c1@ == c0@ + delta)
    } else {
        old.last() matches MessagePart::Text { content: c0 } && (new.last() matches MessagePart::Text { content: c1 }
            && c1@ == c0@ + delta)
    }
}

/// The identifier of a tool call: `tc-`, the message's timestamp, `-` and the tool's name.
pub open spec fn call_id(timestamp: u64, name: Seq<char>) -> Seq<char> {
    "tc-"@ + decimal(timestamp as nat) + "-"@ + name
}

/// `p` is a new running call of tool `name` with `input` in a message stamped `timestamp`.
pub open spec fn is_new_call(p: MessagePart, timestamp: u64, name: Seq<char>, input: Seq<char>) -> bool {
    p matches MessagePart::ToolCall { id, name: n, status, input_summary, output, expanded }
        && id@ == call_id(timestamp, name) && n@ == name && status == ToolStatus::Running
        && input_summary@ == input && output is None && !expanded
}

/// `p` is a call of `name` still running.
pub open spec fn is_running_call(p: MessagePart, name: Seq<char>) -> bool {
    p matches MessagePart::ToolCall { name: n, status, .. } && n@ == name && status == ToolStatus::Running
}

/// The last part of `parts` that is a running call of `name`.
pub open spec fn last_running_part(parts: Seq<MessagePart>, name: Seq<char>) -> Option<int>
    decreases parts.len(),
{
    if parts.len() == 0 {
        None
    } else if is_running_call(parts.last(), name) {
        Some(parts.len() - 1)
    } else {
        last_running_part(parts.drop_last(), name)
    }
}

/// The latest running call of `name`: in the last message holding one, its last such part.
pub open spec fn last_running_call(msgs: Seq<Message>, name: Seq<char>) -> Option<(int, int)>
    decreases msgs.len(),
{
    if msgs.len() == 0 {
        None
    } else {
        match last_running_part(msgs.last().parts@, name) {
            Some(j) => Some(((msgs.len() - 1) as int, j)),
            None => last_running_call(msgs.drop_last(), name),
        }
    }
}

/// `new` is the call `old` finished with `status` and `output`, all else kept.
pub open spec fn finished_call(old: MessagePart, new: MessagePart, status: ToolStatus, output: Seq<char>) -> bool {
    match (old, new) {
        (
            MessagePart::ToolCall { id: i0, name: n0, input_summary: s0, expanded: e0, .. },
            MessagePart::ToolCall { id: i1, name: n1, status: st1, input_summary: s1, output: o1, expanded: e1 },
        ) => i0 == i1 && n0 == n1 && s0 == s1 && e0 == e1 && st1 == status && (o1 matches Some(o) && o@ == output),
        _ => false,
    }
}

/// `new` is `old` with the part at `(i, j)` replaced by one standing in `rel` to it.
pub open spec fn updated_part(old: Seq<Message>, new: Seq<Message>, i: int, j: int) -> bool {
    &&& 0 <= i < old.len()
    &&& new.len() == old.len()
    &&& forall|k: int| 0 <= k < old.len() && k != i ==> #[trigger] new[k] == old[k]
    &&& same_but_parts(new[i], old[i])
    &&& 0 <= j < old[i].parts@.len()
    &&& new[i].parts@.len() == old[i].parts@.len()
    &&& forall|p: int| 0 <= p < old[i].parts@.len() && p != j ==> #[trigger] new[i].parts@[p] == old[i].parts@[p]
}

/// The last activity entry for tool `name`.
pub open spec fn last_tool_named(tools: Seq<ToolEvent>, name: Seq<char>) -> Option<int>
    decreases tools.len(),
{
    if tools.len() == 0 {
        None
    } else if tools.last().name@ == name {
        Some(tools.len() - 1)
    } else {
        last_tool_named(tools.drop_last(), name)
    }
}

/// The parts kept when tool calls are cleared: text and thinking, in order.
pub open spec fn without_calls(parts: Seq<MessagePart>) -> Seq<MessagePart>
    decreases parts.len(),
{
    if parts.len() == 0 {
        Seq::empty()
    } else {
        let rest = without_calls(parts.drop_last());
        if parts.last() is ToolCall {
            rest
        } else {
            rest.push(parts.last())
        }
    }
}

/// The number of tool-call parts.
pub open spec fn call_count(parts: Seq<MessagePart>) -> nat
    decreases parts.len(),
{
    if parts.len() == 0 {
        0
    } else {
        call_count(parts.drop_last()) + if parts.last() is ToolCall { 1nat } else { 0nat }
    }
}

/// The position of tool call number `t` (from 0) among `parts[j..]`.
pub open spec fn nth_call_from(parts: Seq<MessagePart>, t: int, j: int) -> Option<int>
    decreases parts.len() - j,
{
    if j < 0 || j >= parts.len() {
        None
    } else if parts[j] is ToolCall {
        if t == 0 {
            Some(j)
        } else {
            nth_call_from(parts, t - 1, j + 1)
        }
    } else {
        nth_call_from(parts, t, j + 1)
    }
}

/// The call `p` with its details shown or hidden the other way.
pub open spec fn flipped(p: MessagePart) -> MessagePart {
    match p {
        MessagePart::ToolCall { id, name, status, input_summary, output, expanded } => MessagePart::ToolCall {
            id,
            name,
            status,
            input_summary,
            output,
            expanded: !expanded,
        },
        _ => p,
    }
}

proof fn lemma_running_part_in_range(parts: Seq<MessagePart>, name: Seq<char>)
    ensures
        last_running_part(parts, name) matches Some(j) ==> 0 <= j < parts.len() && is_running_call(parts[j], name),
    decreases parts.len(),
{
    if parts.len() > 0 && !is_running_call(parts.last(), name) {
        lemma_running_part_in_range(parts.drop_last(), name);
    }
}

proof fn lemma_running_call_in_range(msgs: Seq<Message>, name: Seq<char>)
    ensures
        last_running_call(msgs, name) matches Some((i, j)) ==> 0 <= i < msgs.len() && 0 <= j < msgs[i].parts@.len()
            && is_running_call(msgs[i].parts@[j], name),
    decreases msgs.len(),
{
    if msgs.len() > 0 {
        lemma_running_part_in_range(msgs.last().parts@, name);
        if last_running_part(msgs.last().parts@, name) is None {
            lemma_running_call_in_range(msgs.drop_last(), name);
        }
    }
}

proof fn lemma_tool_named_in_range(tools: Seq<ToolEvent>, name: Seq<char>)
    ensures
        last_tool_named(tools, name) matches Some(t) ==> 0 <= t < tools.len(),
    decreases tools.len(),
{
    if tools.len() > 0 && tools.last().name@ != name {
        lemma_tool_named_in_range(tools.drop_last(), name);
    }
}

fn find_tool(tools: &Vec<ToolEvent>, name: &str) -> (r: Option<usize>)
    ensures
        match r {
            Some(t) => last_tool_named(tools@, name@) == Some(t as int),
            None => last_tool_named(tools@, name@) is None,
        },
{
    let mut k = tools.len();
    assert(tools@.take(k as int) =~= tools@);
    while k > 0
        invariant
            k <= tools@.len(),
            last_tool_named(tools@.take(k as int), name@) == last_tool_named(tools@, name@),
        decreases k,
    {
        assert(tools@.take(k as int).drop_last() =~= tools@.take(k - 1));
        assert(tools@.take(k as int).last() == tools@[k - 1]);
        if str_eq(tools[k - 1].name.as_str(), name) {
            return Some(k - 1);
        }
        k = k - 1;
    }
    None
}

fn new_message(role: MessageRole, parts: Vec<MessagePart>, agent: &str, timestamp: u64, streaming: bool) -> (m: Message)
    ensures
        m.role == role,
        m.parts == parts,
        m.agent@ == agent@,
        m.timestamp == timestamp,
        m.is_streaming == streaming,
        m.tool_timeline@.len() == 0,
        m.turn_duration_ms == 0,
        m.sub_agents@.len() == 0,
{
    Message {
        role,
        parts,
        agent: String::from_str(agent),
        timestamp,
        is_streaming: streaming,
        tool_timeline: Vec::new(),
        turn_duration_ms: 0,
        sub_agents: Vec::new(),
    }
}

fn one_part(p: MessagePart) -> (v: Vec<MessagePart>)
    ensures
        v@ == seq![p],
{
    let mut v = Vec::new();
    v.push(p);
    v
}

fn find_running_part(parts: &Vec<MessagePart>, name: &str) -> (r: Option<usize>)
    ensures
        match r {
            Some(j) => last_running_part(parts@, name@) == Some(j as int),
            None => last_running_part(parts@, name@) is None,
        },
{
    let mut k = parts.len();
    assert(parts@.take(k as int) =~= parts@);
    while k > 0
        invariant
            k <= parts@.len(),
            last_running_part(parts@.take(k as int), name@) == last_running_part(parts@, name@),
        decreases k,
    {
        assert(parts@.take(k as int).drop_last() =~= parts@.take(k - 1));
        assert(parts@.take(k as int).last() == parts@[k - 1]);
        let hit = match &parts[k - 1] {
            MessagePart::ToolCall { name: n, status, .. } => str_eq(n.as_str(), name) && *status == ToolStatus::Running,
            _ => false,
        };
        if hit {
            return Some(k - 1);
        }
        k = k - 1;
    }
    None
}

fn find_running_call(msgs: &Vec<Message>, name: &str) -> (r: Option<(usize, usize)>)
    ensures
        match r {
            Some((i, j)) => last_running_call(msgs@, name@) == Some((i as int, j as int)),
            None => last_running_call(msgs@, name@) is None,
        },
{
    let mut k = msgs.len();
    assert(msgs@.take(k as int) =~= msgs@);
    while k > 0
        invariant
            k <= msgs@.len(),
            last_running_call(msgs@.take(k as int), name@) == last_running_call(msgs@, name@),
        decreases k,
    {
        assert(msgs@.take(k as int).drop_last() =~= msgs@.take(k - 1));
        assert(msgs@.take(k as int).last() == msgs@[k - 1]);
        match find_running_part(&msgs[k - 1].parts, name) {
            Some(j) => return Some((k - 1, j)),
            None => {},
        }
        k = k - 1;
    }
    None
}

impl AppState {
    /// The undone boundary, if any, lies within the conversation.
    pub open spec fn wf(&self) -> bool {
        match self.revert {
            Some(r) => r.message_boundary <= self.messages@.len(),
            None => true,
        }
    }

    /// The fields that showing a message leaves alone.
    pub open spec fn same_chrome(&self, other: &Self) -> bool {
        &&& self.leader_active == other.leader_active
        &&& self.leader_activated_at == other.leader_activated_at
        &&& self.toasts == other.toasts
        &&& self.selection == other.selection
        &&& self.show_thinking == other.show_thinking
        &&& self.turn_started_at == other.turn_started_at
    }

    /// An empty conversation scrolled to the bottom, thinking shown.
    pub fn new() -> (s: Self)
        ensures
            s.mode == AppMode::Normal,
            s.messages@.len() == 0 && s.tools@.len() == 0,
            s.scroll_offset == usize::MAX && s.auto_scroll && !s.scroll_paused,
            !s.is_streaming && !s.is_thinking && s.show_thinking,
            s.revert is None,
            !s.leader_active && s.leader_activated_at is None,
            s.toasts@.len() == 0 && s.selection is None && s.turn_started_at is None,
            s.plugin_slots@.len() == 0 && s.plugin_routes@.len() == 0,
            s.wf(),
    {
        AppState {
            mode: AppMode::Normal,
            messages: Vec::new(),
            tools: Vec::new(),
            scroll_offset: usize::MAX,
            auto_scroll: true,
            scroll_paused: false,
            is_streaming: false,
            revert: None,
            leader_active: false,
            leader_activated_at: None,
            toasts: Vec::new(),
            selection: None,
            show_thinking: true,
            is_thinking: false,
            turn_started_at: None,
            plugin_slots: Vec::new(),
            plugin_routes: Vec::new(),
        }
    }

    /// Follows the conversation again from its end.
    pub fn scroll_to_bottom(&mut self)
        ensures
            final(self).scroll_offset == usize::MAX,
            final(self).auto_scroll && !final(self).scroll_paused,
            final(self).messages == old(self).messages,
            final(self).tools == old(self).tools,
            final(self).revert == old(self).revert,
            final(self).mode == old(self).mode,
            final(self).is_streaming == old(self).is_streaming,
            final(self).is_thinking == old(self).is_thinking,
            final(self).same_chrome(&*old(self)),
    {
        self.scroll_offset = usize::MAX;
        self.auto_scroll = true;
        self.scroll_paused = false;
    }

    /// Scrolls back to the top unless the view follows the end.
    pub fn recalculate_scroll(&mut self)
        ensures
            final(self).scroll_offset == (if old(self).scroll_offset == usize::MAX { usize::MAX } else { 0 }),
            final(self).messages == old(self).messages,
            final(self).auto_scroll == old(self).auto_scroll,
            final(self).scroll_paused == old(self).scroll_paused,
    {
        if self.scroll_offset == usize::MAX {
            return;
        }
        self.scroll_offset = 0;
    }

    /// Takes back the last prompt before the undone part: the conversation is kept, the
    /// boundary moves to that prompt, which is offered for editing. Refused while a reply
    /// streams or when no earlier prompt is left.
    pub fn undo_message(&mut self) -> (r: bool)
        requires
            old(self).wf(),
        ensures
            final(self).wf(),
            final(self).messages == old(self).messages,
            r == (!old(self).is_streaming && last_user_before(
                old(self).messages@,
                boundary_of(old(self).revert, old(self).messages@.len()),
            ) is Some),
            r ==> {
                let i = last_user_before(old(self).messages@, boundary_of(old(self).revert, old(self).messages@.len())).unwrap();
                &&& final(self).revert matches Some(rv)
                &&& rv.message_boundary == i
                &&& rv.prompt_text@ == text_of(old(self).messages@[i].parts@)
            },
            !r ==> final(self).revert == old(self).revert,
            final(self).is_streaming == old(self).is_streaming,
            final(self).tools == old(self).tools,
            final(self).mode == old(self).mode,
            final(self).same_chrome(&*old(self)),
    {
        if self.is_streaming {
            return false;
        }
        let boundary = match &self.revert {
            Some(r) => r.message_boundary,
            None => self.messages.len(),
        };
        proof {
            lemma_last_user_before(self.messages@, boundary as int);
        }
        if boundary == 0 {
            return false;
        }
        let mut k = boundary;
        while k > 0
            invariant
                k <= boundary,
                boundary <= self.messages@.len(),
                *self == *old(self),
                !old(self).is_streaming,
                boundary == boundary_of(old(self).revert, old(self).messages@.len()),
                last_user_before(self.messages@, k as int) == last_user_before(self.messages@, boundary as int),
            decreases k,
        {
            match self.messages[k - 1].role {
                MessageRole::User => {
                    let idx = k - 1;
                    let prompt_text = self.messages[idx].full_text();
                    self.revert = Some(RevertState { message_boundary: idx, prompt_text });
                    return true;
                },
                _ => {},
            }
            k = k - 1;
        }
        false
    }

    /// Moves the undone boundary forward to the next prompt after it (which is offered for
    /// editing), or drops it when none follows, so the last undone turn comes back. Refused
    /// when nothing is undone.
    pub fn redo_message(&mut self) -> (r: bool)
        requires
            old(self).wf(),
        ensures
            final(self).wf(),
            final(self).messages == old(self).messages,
            r == old(self).revert is Some,
            r ==> match first_user_from(old(self).messages@, old(self).revert.unwrap().message_boundary + 1) {
                Some(i) => final(self).revert matches Some(rv) && rv.message_boundary == i
                    && rv.prompt_text@ == text_of(old(self).messages@[i].parts@),
                None => final(self).revert is None,
            },
            !r ==> final(self).revert == old(self).revert,
            final(self).is_streaming == old(self).is_streaming,
            final(self).tools == old(self).tools,
            final(self).mode == old(self).mode,
            final(self).same_chrome(&*old(self)),
    {
        let boundary = match &self.revert {
            Some(r) => r.message_boundary,
            None => return false,
        };
        proof {
            lemma_first_user_from(self.messages@, boundary + 1);
        }
        if boundary >= self.messages.len() {
            self.revert = None;
            return true;
        }
        let mut k = boundary + 1;
        while k < self.messages.len()
            invariant
                boundary < k <= self.messages@.len(),
                *self == *old(self),
                old(self).revert matches Some(rv) && rv.message_boundary == boundary,
                first_user_from(self.messages@, k as int) == first_user_from(self.messages@, boundary + 1),
            decreases self.messages@.len() - k,
        {
            match self.messages[k].role {
                MessageRole::User => {
                    let prompt_text = self.messages[k].full_text();
                    self.revert = Some(RevertState { message_boundary: k, prompt_text });
                    return true;
                },
                _ => {},
            }
            k = k + 1;
        }
        self.revert = None;
        true
    }

    /// Drops the undone messages for good.
    pub fn cleanup_reverted(&mut self)
        ensures
            final(self).wf(),
            final(self).revert is None,
            final(self).messages@ == match old(self).revert {
                Some(r) => if r.message_boundary < old(self).messages@.len() {
                    old(self).messages@.take(r.message_boundary as int)
                } else {
                    old(self).messages@
                },
                None => old(self).messages@,
            },
            final(self).tools == old(self).tools,
            final(self).same_chrome(&*old(self)),
    {
        match &self.revert {
            Some(r) => {
                let b = r.message_boundary;
                self.messages.truncate(b);
            },
            None => {},
        }
        self.revert = None;
    }

    /// How many messages are undone.
    pub fn reverted_count(&self) -> (n: usize)
        ensures
            n == match self.revert {
                Some(r) => if r.message_boundary < self.messages@.len() {
                    (self.messages@.len() - r.message_boundary) as usize
                } else {
                    0
                },
                None => 0,
            },
    {
        match &self.revert {
            Some(r) => {
                if r.message_boundary < self.messages.len() {
                    self.messages.len() - r.message_boundary
                } else {
                    0
                }
            },
            None => 0,
        }
    }

    /// Arms the leader key, noting when.
    pub fn activate_leader(&mut self)
        ensures
            final(self).leader_active,
            final(self).leader_activated_at is Some,
            final(self).messages == old(self).messages,
    {
        self.leader_active = true;
        self.leader_activated_at = Some(now_instant());
    }

    /// Disarms the leader key.
    pub fn deactivate_leader(&mut self)
        ensures
            *final(self) == (AppState { leader_active: false, leader_activated_at: None, ..*old(self) }),
    {
        self.leader_active = false;
        self.leader_activated_at = None;
    }

    /// Disarms the leader key when it is armed, with the time it was armed known, and has been
    /// armed for `secs` seconds, `LEADER_TIMEOUT_SECS` or more (see `leader_after`).
    pub fn expire_leader(&mut self, secs: u64)
        ensures
            *final(self) == leader_after(*old(self), secs),
    {
        if self.leader_active && self.leader_activated_at.is_some() && secs >= LEADER_TIMEOUT_SECS {
            self.deactivate_leader();
        }
    }

    /// Disarms the leader key once it has been armed for two seconds. How long it has been
    /// armed is the clock's: the state is `leader_after` for some number of seconds, and a key
    /// that is not armed, or armed at an unknown time, stays as it is.
    pub fn check_leader_timeout(&mut self)
        ensures
            exists|secs: u64| *final(self) == #[trigger] leader_after(*old(self), secs),
            !old(self).leader_active || old(self).leader_activated_at is None ==> *final(self) == *old(self),
    {
        if self.leader_active {
            let secs = match &self.leader_activated_at {
                Some(t) => elapsed_secs(t),
                None => 0,
            };
            self.expire_leader(secs);
        } else {
            assert(*self == leader_after(*self, 0));
        }
    }

    /// Drops the notices that have been up `TOAST_SECS` seconds or more, where `ages` gives
    /// each notice's seconds.
    pub fn prune_toasts_aged(&mut self, ages: &Vec<u64>)
        requires
            ages@.len() == old(self).toasts@.len(),
        ensures
            final(self).toasts@ == live_toasts(old(self).toasts@, ages@),
            final(self).messages == old(self).messages,
            final(self).leader_active == old(self).leader_active,
    {
        let mut rest: Vec<Toast> = Vec::new();
        std::mem::swap(&mut rest, &mut self.toasts);
        let ghost ts = rest@;
        let n = rest.len();
        let mut kept: Vec<Toast> = Vec::new();
        let mut i: usize = 0;
        while i < n
            invariant
                n == ts.len(),
                ages@.len() == n,
                i <= n,
                rest@ == ts.skip(i as int),
                kept@ == live_toasts(ts.take(i as int), ages@.take(i as int)),
            decreases n - i,
        {
            let t = rest.remove(0);
            proof {
                assert(ts.take(i + 1).drop_last() =~= ts.take(i as int));
                assert(ages@.take(i + 1).drop_last() =~= ages@.take(i as int));
                assert(rest@ =~= ts.skip(i + 1));
            }
            if ages[i] < TOAST_SECS {
                kept.push(t);
            }
            i = i + 1;
        }
        proof {
            assert(ts.take(n as int) =~= ts);
            assert(ages@.take(n as int) =~= ages@);
        }
        self.toasts = kept;
    }

    /// Drops the notices that have been up `TOAST_SECS` seconds or more. How long each has
    /// been up is the clock's: the notices left are those of some such ages.
    pub fn prune_expired_toasts(&mut self)
        ensures
            exists|ages: Seq<u64>|
                ages.len() == old(self).toasts@.len() && #[trigger] live_toasts(old(self).toasts@, ages)
                    == final(self).toasts@,
            final(self).messages == old(self).messages,
    {
        let mut ages: Vec<u64> = Vec::new();
        let mut i: usize = 0;
        while i < self.toasts.len()
            invariant
                i <= self.toasts@.len(),
                ages@.len() == i,
            decreases self.toasts@.len() - i,
        {
            ages.push(elapsed_secs(&self.toasts[i].created_at));
            i = i + 1;
        }
        self.prune_toasts_aged(&ages);
    }

    /// Raises a notice now.
    pub fn add_toast(&mut self, message: &str, kind: ToastKind)
        ensures
            final(self).toasts@.len() == old(self).toasts@.len() + 1,
            final(self).toasts@.take(old(self).toasts@.len() as int) == old(self).toasts@,
            final(self).toasts@.last().message@ == message@,
            final(self).toasts@.last().kind == kind,
            final(self).messages == old(self).messages,
    {
        let t = Toast { message: String::from_str(message), kind, created_at: now_instant() };
        self.toasts.push(t);
        assert(self.toasts@.take(old(self).toasts@.len() as int) =~= old(self).toasts@);
    }

    /// Forgets the selection.
    pub fn clear_selection(&mut self)
        ensures
            final(self).selection is None,
            final(self).messages == old(self).messages,
    {
        self.selection = None;
    }

    /// Shows or hides thinking, returning whether it is now shown.
    pub fn toggle_thinking(&mut self) -> (shown: bool)
        ensures
            shown == !old(self).show_thinking,
            final(self).show_thinking == shown,
            final(self).messages == old(self).messages,
    {
        self.show_thinking = !self.show_thinking;
        self.show_thinking
    }

    /// How long the current turn has run (see `elapsed_text`), if one is running. The
    /// seconds are the clock's.
    pub fn turn_elapsed(&self) -> (r: Option<String>)
        ensures
            r is Some <==> self.turn_started_at is Some,
            r matches Some(s) ==> exists|secs: nat| s@ == elapsed_text(secs),
    {
        match &self.turn_started_at {
            Some(t) => {
                let secs = elapsed_secs(t);
                let s = format_elapsed(secs);
                assert(s@ == elapsed_text(secs as nat));
                Some(s)
            },
            None => None,
        }
    }

    /// Adds the user's prompt, unless it repeats the last message, a prompt with the same
    /// text; then follows the end. The message is stamped with the clock's seconds.
    pub fn add_user_message(&mut self, content: String)
        requires
            old(self).wf(),
        ensures
            final(self).wf(),
            ({
                let msgs = old(self).messages@;
                let dup = msgs.len() > 0 && msgs.last().role is User && text_of(msgs.last().parts@) == content@;
                &&& dup ==> *final(self) == *old(self)
                &&& !dup ==> {
                    let m = final(self).messages@.last();
                    &&& final(self).messages@.len() == msgs.len() + 1
                    &&& final(self).messages@.drop_last() == msgs
                    &&& m.role is User && m.parts@ == seq![MessagePart::Text { content }]
                    &&& m.agent@ == "build"@ && !m.is_streaming && m.tool_timeline@.len() == 0
                    &&& final(self).scroll_offset == usize::MAX && final(self).auto_scroll && !final(self).scroll_paused
                    &&& final(self).revert == old(self).revert && final(self).tools == old(self).tools
                    &&& final(self).is_streaming == old(self).is_streaming
                }
            }),
            final(self).same_chrome(&*old(self)),
    {
        let n = self.messages.len();
        if n > 0 {
            let is_user = match self.messages[n - 1].role {
                MessageRole::User => true,
                _ => false,
            };
            if is_user {
                let last_text = self.messages[n - 1].full_text();
                if str_eq(last_text.as_str(), content.as_str()) {
                    return;
                }
            }
        }
        let ts = now_secs();
        let m = new_message(MessageRole::User, one_part(MessagePart::Text { content }), "build", ts, false);
        self.messages.push(m);
        self.scroll_to_bottom();
    }

    /// Starts a streaming reply from `agent`, unless one is already streaming; then follows
    /// the end.
    pub fn start_assistant_stream(&mut self, agent: &str)
        requires
            old(self).wf(),
        ensures
            final(self).wf(),
            any_streaming(old(self).messages@) ==> *final(self) == *old(self),
            !any_streaming(old(self).messages@) ==> {
                let m = final(self).messages@.last();
                &&& final(self).messages@.len() == old(self).messages@.len() + 1
                &&& final(self).messages@.drop_last() == old(self).messages@
                &&& m.role is Assistant && m.parts@.len() == 0 && m.agent@ == agent@ && m.is_streaming
                &&& final(self).is_streaming && !final(self).is_thinking
                &&& final(self).scroll_offset == usize::MAX && final(self).auto_scroll && !final(self).scroll_paused
                &&& final(self).revert == old(self).revert && final(self).tools == old(self).tools
            },
            final(self).same_chrome(&*old(self)),
    {
        let mut i: usize = 0;
        while i < self.messages.len()
            invariant
                i <= self.messages@.len(),
                *self == *old(self),
                old(self).wf(),
                forall|k: int| 0 <= k < i ==> !(#[trigger] self.messages@[k]).is_streaming,
            decreases self.messages@.len() - i,
        {
            if self.messages[i].is_streaming {
                return;
            }
            i = i + 1;
        }
        self.is_thinking = false;
        let ts = now_secs();
        let m = new_message(MessageRole::Assistant, Vec::new(), agent, ts, true);
        self.messages.push(m);
        self.is_streaming = true;
        self.scroll_to_bottom();
    }

    /// Adds streamed text to the reply: to its last part when that is text, else as a new
    /// text part. Nothing happens unless the last message is streaming.
    pub fn append_to_stream(&mut self, delta: &str)
        requires
            old(self).wf(),
        ensures
            final(self).wf(),
            ({
                let msgs = old(self).messages@;
                if msgs.len() > 0 && msgs.last().is_streaming {
                    let ps = msgs.last().parts@;
                    let nps = final(self).messages@.last().parts@;
                    &&& final(self).messages@.len() == msgs.len()
                    &&& final(self).messages@.drop_last() == msgs.drop_last()
                    &&& same_but_parts(final(self).messages@.last(), msgs.last())
                    &&& if ps.len() > 0 && ps.last() is Text {
                        extended_last(ps, nps, delta@, false)
                    } else {
                        nps.len() == ps.len() + 1 && nps.drop_last() == ps
                            && (nps.last() matches MessagePart::Text { content: c } && c@ == delta@)
                    }
                } else {
                    final(self).messages == old(self).messages
                }
            }),
            final(self).tools == old(self).tools,
            final(self).revert == old(self).revert,
            final(self).is_streaming == old(self).is_streaming,
            final(self).same_chrome(&*old(self)),
    {
        let n = self.messages.len();
        if n == 0 || !self.messages[n - 1].is_streaming {
            return;
        }
        let mut m = self.messages.pop().unwrap();
        let ghost m0 = m;
        let k = m.parts.len();
        let last_is_text = k > 0 && match &m.parts[k - 1] {
            MessagePart::Text { .. } => true,
            _ => false,
        };
        if last_is_text {
            let p = m.parts.pop().unwrap();
            match p {
                MessagePart::Text { content } => {
                    let mut c = content;
                    c.append(delta);
                    m.parts.push(MessagePart::Text { content: c });
                },
                other => {
                    m.parts.push(other);
                },
            }
            assert(m.parts@.drop_last() =~= m0.parts@.drop_last());
        } else {
            m.parts.push(MessagePart::Text { content: String::from_str(delta) });
            assert(m.parts@.drop_last() =~= m0.parts@);
        }
        self.messages.push(m);
        assert(self.messages@.drop_last() =~= old(self).messages@.drop_last());
    }

    /// Ends the reply: the last message stops streaming, and so do the stream and thinking.
    pub fn finish_stream(&mut self)
        requires
            old(self).wf(),
        ensures
            final(self).wf(),
            !final(self).is_streaming && !final(self).is_thinking,
            old(self).messages@.len() == 0 ==> final(self).messages == old(self).messages,
            old(self).messages@.len() > 0 ==> {
                let m0 = old(self).messages@.last();
                let m1 = final(self).messages@.last();
                &&& final(self).messages@.len() == old(self).messages@.len()
                &&& final(self).messages@.drop_last() == old(self).messages@.drop_last()
                &&& !m1.is_streaming && m1.parts == m0.parts && m1.role == m0.role && m1.agent == m0.agent
                &&& m1.timestamp == m0.timestamp && m1.tool_timeline == m0.tool_timeline
                &&& m1.turn_duration_ms == m0.turn_duration_ms && m1.sub_agents == m0.sub_agents
            },
            final(self).tools == old(self).tools,
            final(self).revert == old(self).revert,
            final(self).same_chrome(&*old(self)),
    {
        if self.messages.len() > 0 {
            let mut m = self.messages.pop().unwrap();
            m.is_streaming = false;
            self.messages.push(m);
            assert(self.messages@.drop_last() =~= old(self).messages@.drop_last());
        }
        self.is_streaming = false;
        self.is_thinking = false;
    }

    /// Starts a thinking part in the streaming reply. Nothing happens unless the last
    /// message is streaming.
    pub fn start_thinking(&mut self)
        requires
            old(self).wf(),
        ensures
            final(self).wf(),
            ({
                let msgs = old(self).messages@;
                if msgs.len() > 0 && msgs.last().is_streaming {
                    let nps = final(self).messages@.last().parts@;
                    &&& final(self).is_thinking
                    &&& final(self).messages@.len() == msgs.len()
                    &&& final(self).messages@.drop_last() == msgs.drop_last()
                    &&& same_but_parts(final(self).messages@.last(), msgs.last())
                    &&& nps.len() == msgs.last().parts@.len() + 1 && nps.drop_last() == msgs.last().parts@
                    &&& nps.last() matches MessagePart::Thinking { content: c } && c@.len() == 0
                } else {
                    final(self).messages == old(self).messages && final(self).is_thinking == old(self).is_thinking
                }
            }),
            final(self).tools == old(self).tools,
            final(self).revert == old(self).revert,
            final(self).is_streaming == old(self).is_streaming,
            final(self).same_chrome(&*old(self)),
    {
        let n = self.messages.len();
        if n == 0 || !self.messages[n - 1].is_streaming {
            return;
        }
        self.is_thinking = true;
        let mut m = self.messages.pop().unwrap();
        m.parts.push(MessagePart::Thinking { content: String::new() });
        self.messages.push(m);
        assert(self.messages@.drop_last() =~= old(self).messages@.drop_last());
    }

    /// Adds streamed thinking to the reply's last part when that is thinking. Nothing
    /// happens otherwise, or unless the last message is streaming.
    pub fn append_thinking(&mut self, delta: &str)
        requires
            old(self).wf(),
        ensures
            final(self).wf(),
            ({
                let msgs = old(self).messages@;
                if msgs.len() > 0 && msgs.last().is_streaming && msgs.last().parts@.len() > 0
                    && msgs.last().parts@.last() is Thinking {
                    &&& final(self).messages@.len() == msgs.len()
                    &&& final(self).messages@.drop_last() == msgs.drop_last()
                    &&& same_but_parts(final(self).messages@.last(), msgs.last())
                    &&& extended_last(msgs.last().parts@, final(self).messages@.last().parts@, delta@, true)
                } else {
                    final(self).messages == old(self).messages
                }
            }),
            final(self).tools == old(self).tools,
            final(self).revert == old(self).revert,
            final(self).is_streaming == old(self).is_streaming,
            final(self).is_thinking == old(self).is_thinking,
            final(self).same_chrome(&*old(self)),
    {
        let n = self.messages.len();
        if n == 0 || !self.messages[n - 1].is_streaming {
            return;
        }
        let k = self.messages[n - 1].parts.len();
        if k == 0 {
            return;
        }
        let is_thinking = match &self.messages[n - 1].parts[k - 1] {
            MessagePart::Thinking { .. } => true,
            _ => false,
        };
        if !is_thinking {
            return;
        }
        let mut m = self.messages.pop().unwrap();
        let ghost m0 = m;
        let p = m.parts.pop().unwrap();
        match p {
            MessagePart::Thinking { content } => {
                let mut c = content;
                c.append(delta);
                m.parts.push(MessagePart::Thinking { content: c });
            },
            other => {
                m.parts.push(other);
            },
        }
        assert(m.parts@.drop_last() =~= m0.parts@.drop_last());
        self.messages.push(m);
        assert(self.messages@.drop_last() =~= old(self).messages@.drop_last());
    }

    /// Stops showing the reply as thinking.
    pub fn end_thinking(&mut self)
        ensures
            !final(self).is_thinking,
            final(self).messages == old(self).messages,
            final(self).is_streaming == old(self).is_streaming,
    {
        self.is_thinking = false;
    }

    /// Adds a running call of tool `name` to the last message when it is a reply.
    pub fn add_tool_call(&mut self, name: &str, input_summary: &str)
        requires
            old(self).wf(),
        ensures
            final(self).wf(),
            ({
                let msgs = old(self).messages@;
                if msgs.len() > 0 && msgs.last().role is Assistant {
                    let nps = final(self).messages@.last().parts@;
                    &&& final(self).messages@.len() == msgs.len()
                    &&& final(self).messages@.drop_last() == msgs.drop_last()
                    &&& same_but_parts(final(self).messages@.last(), msgs.last())
                    &&& nps.len() == msgs.last().parts@.len() + 1 && nps.drop_last() == msgs.last().parts@
                    &&& is_new_call(nps.last(), msgs.last().timestamp, name@, input_summary@)
                } else {
                    final(self).messages == old(self).messages
                }
            }),
            final(self).tools == old(self).tools,
            final(self).revert == old(self).revert,
            final(self).is_streaming == old(self).is_streaming,
            final(self).is_thinking == old(self).is_thinking,
            final(self).same_chrome(&*old(self)),
    {
        let n = self.messages.len();
        if n == 0 {
            return;
        }
        let is_reply = match self.messages[n - 1].role {
            MessageRole::Assistant => true,
            _ => false,
        };
        if !is_reply {
            return;
        }
        let mut m = self.messages.pop().unwrap();
        let mut id = String::from_str("tc-");
        push_decimal(&mut id, m.timestamp as u128);
        id.append("-");
        id.append(name);
        m.parts.push(MessagePart::ToolCall {
            id,
            name: String::from_str(name),
            status: ToolStatus::Running,
            input_summary: String::from_str(input_summary),
            output: None,
            expanded: false,
        });
        self.messages.push(m);
        assert(self.messages@.drop_last() =~= old(self).messages@.drop_last());
    }

    /// Records a tool run in the activity list, and as a call in the last message when it
    /// is a reply.
    pub fn add_tool_event(&mut self, name: &str, input_summary: &str)
        requires
            old(self).wf(),
        ensures
            final(self).wf(),
            final(self).tools@.len() == old(self).tools@.len() + 1,
            final(self).tools@.drop_last() == old(self).tools@,
            final(self).tools@.last().name@ == name@,
            final(self).tools@.last().status == ToolStatus::Running,
            final(self).tools@.last().input_summary@ == input_summary@,
            ({
                let msgs = old(self).messages@;
                if msgs.len() > 0 && msgs.last().role is Assistant {
                    let nps = final(self).messages@.last().parts@;
                    &&& final(self).messages@.len() == msgs.len()
                    &&& final(self).messages@.drop_last() == msgs.drop_last()
                    &&& same_but_parts(final(self).messages@.last(), msgs.last())
                    &&& nps.len() == msgs.last().parts@.len() + 1 && nps.drop_last() == msgs.last().parts@
                    &&& is_new_call(nps.last(), msgs.last().timestamp, name@, input_summary@)
                } else {
                    final(self).messages == old(self).messages
                }
            }),
            final(self).revert == old(self).revert,
            final(self).is_streaming == old(self).is_streaming,
            final(self).same_chrome(&*old(self)),
    {
        self.tools.push(ToolEvent {
            name: String::from_str(name),
            status: ToolStatus::Running,
            input_summary: String::from_str(input_summary),
        });
        self.add_tool_call(name, input_summary);
    }

    /// Finishes the latest running call of tool `name` (see `last_running_call`) with
    /// `output`, completed or failed by `success`.
    pub fn complete_tool_call(&mut self, name: &str, output: &str, success: bool)
        requires
            old(self).wf(),
        ensures
            final(self).wf(),
            match last_running_call(old(self).messages@, name@) {
                Some((i, j)) => updated_part(old(self).messages@, final(self).messages@, i, j) && finished_call(
                    old(self).messages@[i].parts@[j],
                    final(self).messages@[i].parts@[j],
                    finished_status(success),
                    output@,
                ),
                None => final(self).messages == old(self).messages,
            },
            final(self).tools == old(self).tools,
            final(self).revert == old(self).revert,
            final(self).is_streaming == old(self).is_streaming,
            final(self).same_chrome(&*old(self)),
    {
        let status = if success { ToolStatus::Completed } else { ToolStatus::Failed };
        match find_running_call(&self.messages, name) {
            Some((i, j)) => {
                proof {
                    lemma_running_call_in_range(self.messages@, name@);
                }
                let mut m = self.messages.remove(i);
                let p = m.parts.remove(j);
                let np = match p {
                    MessagePart::ToolCall { id, name: n, status: _, input_summary, output: _, expanded } => {
                        MessagePart::ToolCall {
                            id,
                            name: n,
                            status,
                            input_summary,
                            output: Some(String::from_str(output)),
                            expanded,
                        }
                    },
                    other => other,
                };
                m.parts.insert(j, np);
                self.messages.insert(i, m);
                assert forall|k: int| 0 <= k < old(self).messages@.len() && k != i implies #[trigger] self.messages@[k]
                    == old(self).messages@[k] by {}
            },
            None => {},
        }
    }

    /// Marks the latest activity entry for `name` finished, and finishes its latest running
    /// call (see `complete_tool_call`).
    pub fn complete_tool_event(&mut self, name: &str, output: &str, success: bool)
        requires
            old(self).wf(),
        ensures
            final(self).wf(),
            match last_tool_named(old(self).tools@, name@) {
                Some(t) => {
                    &&& final(self).tools@.len() == old(self).tools@.len()
                    &&& forall|k: int| 0 <= k < old(self).tools@.len() && k != t ==> #[trigger] final(self).tools@[k]
                        == old(self).tools@[k]
                    &&& final(self).tools@[t].name == old(self).tools@[t].name
                    &&& final(self).tools@[t].input_summary == old(self).tools@[t].input_summary
                    &&& final(self).tools@[t].status == finished_status(success)
                },
                None => final(self).tools == old(self).tools,
            },
            match last_running_call(old(self).messages@, name@) {
                Some((i, j)) => updated_part(old(self).messages@, final(self).messages@, i, j) && finished_call(
                    old(self).messages@[i].parts@[j],
                    final(self).messages@[i].parts@[j],
                    finished_status(success),
                    output@,
                ),
                None => final(self).messages == old(self).messages,
            },
            final(self).revert == old(self).revert,
            final(self).is_streaming == old(self).is_streaming,
            final(self).same_chrome(&*old(self)),
    {
        match find_tool(&self.tools, name) {
            Some(t) => {
                proof {
                    lemma_tool_named_in_range(self.tools@, name@);
                }
                let ev = self.tools.remove(t);
                let ToolEvent { name: n, status: _, input_summary } = ev;
                let status = if success { ToolStatus::Completed } else { ToolStatus::Failed };
                self.tools.insert(t, ToolEvent { name: n, status, input_summary });
                assert forall|q: int| 0 <= q < old(self).tools@.len() && q != t implies #[trigger] self.tools@[q]
                    == old(self).tools@[q] by {}
            },
            None => {},
        }
        self.complete_tool_call(name, output, success);
    }

    /// Drops every tool call from the conversation, keeping text and thinking.
    pub fn clear_tool_calls(&mut self)
        requires
            old(self).wf(),
        ensures
            final(self).wf(),
            final(self).messages@.len() == old(self).messages@.len(),
            forall|i: int| 0 <= i < old(self).messages@.len() ==> same_but_parts(
                #[trigger] final(self).messages@[i],
                old(self).messages@[i],
            ) && final(self).messages@[i].parts@ == without_calls(old(self).messages@[i].parts@),
            final(self).tools == old(self).tools,
            final(self).revert == old(self).revert,
            final(self).same_chrome(&*old(self)),
    {
        let mut i: usize = 0;
        while i < self.messages.len()
            invariant
                i <= self.messages@.len(),
                self.messages@.len() == old(self).messages@.len(),
                forall|k: int| 0 <= k < i ==> same_but_parts(#[trigger] self.messages@[k], old(self).messages@[k])
                    && self.messages@[k].parts@ == without_calls(old(self).messages@[k].parts@),
                forall|k: int| i <= k < self.messages@.len() ==> #[trigger] self.messages@[k] == old(self).messages@[k],
                self.tools == old(self).tools,
                self.revert == old(self).revert,
                self.same_chrome(&*old(self)),
            decreases self.messages@.len() - i,
        {
            let m = self.messages.remove(i);
            let ghost old_parts = m.parts@;
            let Message { role, parts, agent, timestamp, is_streaming, tool_timeline, turn_duration_ms, sub_agents } = m;
            let mut rest = parts;
            let mut kept: Vec<MessagePart> = Vec::new();
            let ghost mut taken: int = 0;
            while rest.len() > 0
                invariant
                    0 <= taken <= old_parts.len(),
                    rest@ == old_parts.skip(taken),
                    kept@ == without_calls(old_parts.take(taken)),
                decreases rest@.len(),
            {
                assert(old_parts.take(taken + 1).drop_last() =~= old_parts.take(taken));
                assert(old_parts.take(taken + 1).last() == old_parts[taken]);
                let p = rest.remove(0);
                let is_call = match &p {
                    MessagePart::ToolCall { .. } => true,
                    _ => false,
                };
                if !is_call {
                    kept.push(p);
                }
                proof {
                    taken = taken + 1;
                    assert(rest@ =~= old_parts.skip(taken));
                }
            }
            assert(old_parts.take(taken) =~= old_parts);
            let nm = Message { role, parts: kept, agent, timestamp, is_streaming, tool_timeline, turn_duration_ms, sub_agents };
            self.messages.insert(i, nm);
            i = i + 1;
        }
    }

    /// Shows or hides the details of call number `tc_idx` (from 0) of message `msg_idx`.
    /// Nothing happens when there is no such call.
    pub fn toggle_tool_expand(&mut self, msg_idx: usize, tc_idx: usize)
        requires
            old(self).wf(),
        ensures
            final(self).wf(),
            ({
                let msgs = old(self).messages@;
                match if msg_idx < msgs.len() { nth_call_from(msgs[msg_idx as int].parts@, tc_idx as int, 0) } else { None } {
                    Some(j) => updated_part(msgs, final(self).messages@, msg_idx as int, j)
                        && final(self).messages@[msg_idx as int].parts@[j] == flipped(msgs[msg_idx as int].parts@[j]),
                    None => final(self).messages == old(self).messages,
                }
            }),
            final(self).tools == old(self).tools,
            final(self).revert == old(self).revert,
            final(self).same_chrome(&*old(self)),
    {
        if msg_idx >= self.messages.len() {
            return;
        }
        let ghost ps = self.messages@[msg_idx as int].parts@;
        let mut j: usize = 0;
        let mut seen: usize = 0;
        let n = self.messages[msg_idx].parts.len();
        while j < n
            invariant
                j <= n,
                n == ps.len(),
                ps == self.messages@[msg_idx as int].parts@,
                msg_idx < self.messages@.len(),
                *self == *old(self),
                old(self).wf(),
                seen <= tc_idx,
                seen <= j,
                nth_call_from(ps, (tc_idx - seen) as int, j as int) == nth_call_from(ps, tc_idx as int, 0),
            decreases n - j,
        {
            let is_call = match &self.messages[msg_idx].parts[j] {
                MessagePart::ToolCall { .. } => true,
                _ => false,
            };
            if is_call {
                if seen == tc_idx {
                    let mut m = self.messages.remove(msg_idx);
                    let p = m.parts.remove(j);
                    let np = match p {
                        MessagePart::ToolCall { id, name, status, input_summary, output, expanded } => MessagePart::ToolCall {
                            id,
                            name,
                            status,
                            input_summary,
                            output,
                            expanded: !expanded,
                        },
                        other => other,
                    };
                    m.parts.insert(j, np);
                    self.messages.insert(msg_idx, m);
                    assert(self.messages@.len() == old(self).messages@.len());
                    assert forall|k: int| 0 <= k < old(self).messages@.len() && k != msg_idx implies #[trigger] self.messages@[k]
                        == old(self).messages@[k] by {}
                    return;
                }
                seen = seen + 1;
            }
            j = j + 1;
        }
    }

    /// The number of tool calls in message `msg_idx` (0 when there is no such message).
    pub fn tool_count_for_message(&self, msg_idx: usize) -> (n: usize)
        ensures
            n == (if msg_idx < self.messages@.len() { call_count(self.messages@[msg_idx as int].parts@) } else { 0 }),
    {
        if msg_idx >= self.messages.len() {
            return 0;
        }
        let parts = &self.messages[msg_idx].parts;
        let mut count: usize = 0;
        let mut i: usize = 0;
        while i < parts.len()
            invariant
                i <= parts@.len(),
                count == call_count(parts@.take(i as int)),
                count <= i,
            decreases parts@.len() - i,
        {
            assert(parts@.take(i + 1).drop_last() =~= parts@.take(i as int));
            match &parts[i] {
                MessagePart::ToolCall { .. } => {
                    count = count + 1;
                },
                _ => {},
            }
            i = i + 1;
        }
        assert(parts@.take(parts@.len() as int) =~= parts@);
        count
    }

    /// Shows an error: the mode turns to it and it is added as a message from the system;
    /// then follows the end.
    pub fn show_error(&mut self, msg: String)
        requires
            old(self).wf(),
        ensures
            final(self).wf(),
            final(self).mode matches AppMode::Error(e) && e@ == msg@,
            final(self).messages@.len() == old(self).messages@.len() + 1,
            final(self).messages@.drop_last() == old(self).messages@,
            final(self).messages@.last().role matches MessageRole::Tool { name } && name@ == "error"@,
            final(self).messages@.last().parts@ == seq![MessagePart::Text { content: msg }],
            final(self).messages@.last().agent@ == "system"@,
            !final(self).messages@.last().is_streaming,
            final(self).scroll_offset == usize::MAX && final(self).auto_scroll,
            final(self).tools == old(self).tools,
            final(self).revert == old(self).revert,
            final(self).same_chrome(&*old(self)),
    {
        self.mode = AppMode::Error(String::from_str(msg.as_str()));
        let ts = now_secs();
        let m = new_message(
            MessageRole::Tool { name: String::from_str("error") },
            one_part(MessagePart::Text { content: msg }),
            "system",
            ts,
            false,
        );
        self.messages.push(m);
        self.scroll_to_bottom();
    }

    /// Shows an authentication error: as `show_error`, with the mode for such errors.
    pub fn show_auth_error(&mut self, msg: String)
        requires
            old(self).wf(),
        ensures
            final(self).wf(),
            final(self).mode matches AppMode::AuthError(e) && e@ == msg@,
            final(self).messages@.len() == old(self).messages@.len() + 1,
            final(self).messages@.drop_last() == old(self).messages@,
            final(self).messages@.last().role matches MessageRole::Tool { name } && name@ == "error"@,
            final(self).messages@.last().parts@ == seq![MessagePart::Text { content: msg }],
            final(self).messages@.last().agent@ == "system"@,
            !final(self).messages@.last().is_streaming,
            final(self).scroll_offset == usize::MAX && final(self).auto_scroll,
            final(self).tools == old(self).tools,
            final(self).revert == old(self).revert,
            final(self).same_chrome(&*old(self)),
    {
        self.mode = AppMode::AuthError(String::from_str(msg.as_str()));
        let ts = now_secs();
        let m = new_message(
            MessageRole::Tool { name: String::from_str("error") },
            one_part(MessagePart::Text { content: msg }),
            "system",
            ts,
            false,
        );
        self.messages.push(m);
        self.scroll_to_bottom();
    }
}


/// Undoing moves back: when an undo succeeds, the new boundary lies before the old one, so
/// repeated undos come to an end.
pub proof fn lemma_undo_moves_back(msgs: Seq<Message>, revert: Option<RevertState>)
    requires
        boundary_of(revert, msgs.len()) <= msgs.len(),
        last_user_before(msgs, boundary_of(revert, msgs.len())) is Some,
    ensures
        last_user_before(msgs, boundary_of(revert, msgs.len())).unwrap() < boundary_of(revert, msgs.len()),
{
    lemma_last_user_before(msgs, boundary_of(revert, msgs.len()));
}

proof fn lemma_no_user_after_last(msgs: Seq<Message>, b: int)
    requires
        b <= msgs.len(),
    ensures
        last_user_before(msgs, b) matches Some(i) ==> forall|k: int| i < k < b ==> !(#[trigger] msgs[k].role is User),
    decreases b,
{
    if b > 0 && !(msgs[b - 1].role is User) {
        lemma_no_user_after_last(msgs, b - 1);
    }
}

proof fn lemma_first_user_skip(msgs: Seq<Message>, a: int, b: int)
    requires
        0 <= a <= b <= msgs.len(),
        forall|k: int| a <= k < b ==> !(#[trigger] msgs[k].role is User),
    ensures
        first_user_from(msgs, a) == first_user_from(msgs, b),
    decreases b - a,
{
    if a < b {
        lemma_first_user_skip(msgs, a + 1, b);
    }
}

/// Redoing right after an undo puts the undone boundary back where it was: at the first
/// prompt from the old boundary on, and, when nothing was undone before (the boundary was the
/// end of the conversation), nowhere, so the conversation is whole again.
pub proof fn lemma_redo_undoes_undo(msgs: Seq<Message>, b: int)
    requires
        0 <= b <= msgs.len(),
        last_user_before(msgs, b) is Some,
    ensures
        first_user_from(msgs, last_user_before(msgs, b).unwrap() + 1) == first_user_from(msgs, b),
        b == msgs.len() ==> first_user_from(msgs, last_user_before(msgs, b).unwrap() + 1) is None,
        b < msgs.len() && msgs[b].role is User ==> first_user_from(msgs, last_user_before(msgs, b).unwrap() + 1)
            == Some(b),
{
    lemma_last_user_before(msgs, b);
    lemma_no_user_after_last(msgs, b);
    let i = last_user_before(msgs, b).unwrap();
    lemma_first_user_skip(msgs, i + 1, b);
}

/// Showing a call's details twice restores it.
pub proof fn lemma_flip_twice(p: MessagePart)
    ensures
        flipped(flipped(p)) == p,
{
}

/// A prompt just added is recognised as a repeat: adding the same prompt twice in a row adds
/// it once.
pub proof fn lemma_repeat_prompt_ignored(content: String)
    ensures
        text_of(seq![MessagePart::Text { content }]) == content@,
{
    let ps = seq![MessagePart::Text { content }];
    assert(ps.drop_last() =~= Seq::<MessagePart>::empty());
    assert(text_of(ps.drop_last()) == Seq::<char>::empty());
    assert(Seq::<char>::empty() + content@ =~= content@);
}

// ---------------------------------------------------------------------------
// Sub-agents
// ---------------------------------------------------------------------------

/// The last message before `n` that the assistant is still streaming.
pub open spec fn last_streaming_reply(msgs: Seq<Message>, n: int) -> Option<int>
    decreases n,
{
    if n <= 0 {
        None
    } else if msgs[n - 1].role is Assistant && msgs[n - 1].is_streaming {
        Some(n - 1)
    } else {
        last_streaming_reply(msgs, n - 1)
    }
}

/// The first sub-agent from `j` on named `name`.
pub open spec fn first_named_from(sas: Seq<SubAgentInfo>, name: Seq<char>, j: int) -> Option<int>
    decreases sas.len() - j,
{
    if j < 0 || j >= sas.len() {
        None
    } else if sas[j].name@ == name {
        Some(j)
    } else {
        first_named_from(sas, name, j + 1)
    }
}

/// The last message before `n` with a sub-agent named `name`.
pub open spec fn last_holding(msgs: Seq<Message>, name: Seq<char>, n: int) -> Option<int>
    decreases n,
{
    if n <= 0 {
        None
    } else if first_named_from(msgs[n - 1].sub_agents@, name, 0) is Some {
        Some(n - 1)
    } else {
        last_holding(msgs, name, n - 1)
    }
}

/// Two messages agree on all but their sub-agents.
pub open spec fn same_but_sub_agents(a: Message, b: Message) -> bool {
    &&& a.role == b.role && a.parts == b.parts && a.agent == b.agent
    &&& a.timestamp == b.timestamp && a.is_streaming == b.is_streaming
    &&& a.tool_timeline == b.tool_timeline && a.turn_duration_ms == b.turn_duration_ms
}

/// `new` is `old` with the sub-agents of message `i` becoming `sas`, all else unchanged.
pub open spec fn sub_agents_replaced(old: Seq<Message>, new: Seq<Message>, i: int, sas: Seq<SubAgentInfo>) -> bool {
    &&& 0 <= i < old.len()
    &&& new.len() == old.len()
    &&& forall|k: int| 0 <= k < old.len() && k != i ==> #[trigger] new[k] == old[k]
    &&& same_but_sub_agents(new[i], old[i])
    &&& new[i].sub_agents@ == sas
}

proof fn lemma_first_named_from(sas: Seq<SubAgentInfo>, name: Seq<char>, j: int)
    requires
        0 <= j,
    ensures
        first_named_from(sas, name, j) matches Some(k) ==> j <= k < sas.len() && sas[k].name@ == name,
    decreases sas.len() - j,
{
    if j < sas.len() && sas[j].name@ != name {
        lemma_first_named_from(sas, name, j + 1);
    }
}

fn first_named(sas: &Vec<SubAgentInfo>, name: &str) -> (r: Option<usize>)
    ensures
        r matches Some(j) ==> first_named_from(sas@, name@, 0) == Some(j as int),
        r is None ==> first_named_from(sas@, name@, 0) is None,
{
    let mut j: usize = 0;
    while j < sas.len()
        invariant
            j <= sas@.len(),
            first_named_from(sas@, name@, j as int) == first_named_from(sas@, name@, 0),
        decreases sas@.len() - j,
    {
        if str_eq(sas[j].name.as_str(), name) {
            return Some(j);
        }
        j = j + 1;
    }
    None
}

impl AppState {
    /// Adds `agent` to the latest message the assistant is still streaming; nothing happens
    /// when there is none.
    pub fn add_sub_agent(&mut self, agent: SubAgentInfo)
        ensures
            match last_streaming_reply(old(self).messages@, old(self).messages@.len() as int) {
                Some(i) => sub_agents_replaced(
                    old(self).messages@,
                    final(self).messages@,
                    i,
                    old(self).messages@[i].sub_agents@.push(agent),
                ),
                None => final(self).messages == old(self).messages,
            },
            *final(self) == (AppState { messages: final(self).messages, ..*old(self) }),
    {
        let n = self.messages.len();
        let mut i: usize = n;
        while i > 0
            invariant
                i <= n,
                n == self.messages@.len(),
                *self == *old(self),
                last_streaming_reply(self.messages@, i as int) == last_streaming_reply(self.messages@, n as int),
            decreases i,
        {
            let found = match self.messages[i - 1].role {
                MessageRole::Assistant => self.messages[i - 1].is_streaming,
                _ => false,
            };
            if found {
                let ghost before = self.messages@;
                let mut m = self.messages.remove(i - 1);
                m.sub_agents.push(agent);
                self.messages.insert(i - 1, m);
                assert forall|k: int| 0 <= k < before.len() && k != i - 1 implies #[trigger] self.messages@[k] == before[k] by {
                    if k < i - 1 {
                    } else {
                    }
                }
                return;
            }
            i = i - 1;
        }
    }

    /// Sets the status of the first sub-agent named `name` in the latest message that has
    /// one; nothing happens when no message has.
    pub fn update_sub_agent_status(&mut self, name: &str, status: SubAgentStatus)
        ensures
            match last_holding(old(self).messages@, name@, old(self).messages@.len() as int) {
                Some(i) => {
                    let sas = old(self).messages@[i].sub_agents@;
                    let j = first_named_from(sas, name@, 0)->0;
                    sub_agents_replaced(
                        old(self).messages@,
                        final(self).messages@,
                        i,
                        sas.update(j, SubAgentInfo { status: status, ..sas[j] }),
                    )
                },
                None => final(self).messages == old(self).messages,
            },
            *final(self) == (AppState { messages: final(self).messages, ..*old(self) }),
    {
        let n = self.messages.len();
        let mut i: usize = n;
        while i > 0
            invariant
                i <= n,
                n == self.messages@.len(),
                *self == *old(self),
                last_holding(self.messages@, name@, i as int) == last_holding(self.messages@, name@, n as int),
            decreases i,
        {
            match first_named(&self.messages[i - 1].sub_agents, name) {
                Some(j) => {
                    proof {
                        lemma_first_named_from(self.messages@[i - 1].sub_agents@, name@, 0);
                    }
                    let ghost before = self.messages@;
                    let mut m = self.messages.remove(i - 1);
                    let ghost sas0 = m.sub_agents@;
                    let mut sa = m.sub_agents.remove(j);
                    sa.status = status;
                    m.sub_agents.insert(j, sa);
                    assert(m.sub_agents@ =~= sas0.update(j as int, SubAgentInfo { status: status, ..sas0[j as int] }));
                    self.messages.insert(i - 1, m);
                    assert forall|k: int| 0 <= k < before.len() && k != i - 1 implies #[trigger] self.messages@[k] == before[k] by {
                        if k < i - 1 {
                        } else {
                        }
                    }
                    return;
                },
                None => {},
            }
            i = i - 1;
        }
    }

    /// Shows or hides the details of sub-agent `sa_idx` of message `msg_idx`; nothing
    /// happens when there is no such sub-agent.
    pub fn toggle_sub_agent_expand(&mut self, msg_idx: usize, sa_idx: usize)
        ensures
            ({
                let msgs = old(self).messages@;
                if msg_idx < msgs.len() && sa_idx < msgs[msg_idx as int].sub_agents@.len() {
                    let sas = msgs[msg_idx as int].sub_agents@;
                    let sa = sas[sa_idx as int];
                    sub_agents_replaced(
                        msgs,
                        final(self).messages@,
                        msg_idx as int,
                        sas.update(sa_idx as int, SubAgentInfo { expanded: !sa.expanded, ..sa }),
                    )
                } else {
                    final(self).messages == old(self).messages
                }
            }),
            *final(self) == (AppState { messages: final(self).messages, ..*old(self) }),
    {
        if msg_idx < self.messages.len() && sa_idx < self.messages[msg_idx].sub_agents.len() {
            let ghost before = self.messages@;
            let mut m = self.messages.remove(msg_idx);
            let ghost sas0 = m.sub_agents@;
            let mut sa = m.sub_agents.remove(sa_idx);
            sa.expanded = !sa.expanded;
            m.sub_agents.insert(sa_idx, sa);
            assert(m.sub_agents@ =~= sas0.update(sa_idx as int, SubAgentInfo { expanded: !sas0[sa_idx as int].expanded, ..sas0[sa_idx as int] }));
            self.messages.insert(msg_idx, m);
            assert forall|k: int| 0 <= k < before.len() && k != msg_idx implies #[trigger] self.messages@[k] == before[k] by {
                if k < msg_idx {
                } else {
                }
            }
        }
    }
}

} // verus!
