use vstd::prelude::*;
use vstd::string::StringExecFns;
use crate::text::{decimal_of, push_decimal};

verus! {

/// The function that a tool call names, and its arguments as JSON text.
#[derive(Debug, Clone)]
pub struct FunctionCall {
    pub name: String,
    pub arguments: String,
}

/// One call that the language model asks for.
#[derive(Debug, Clone)]
pub struct ToolCall {
    pub id: String,
    pub call_type: String,
    pub function: FunctionCall,
}

/// What a tool call gave, for the call with that id.
#[derive(Debug, Clone)]
pub struct ToolResult {
    pub tool_call_id: String,
    pub content: String,
}

/// One message of a conversation.
#[derive(Debug, Clone)]
pub struct Message {
    pub role: String,
    pub content: Option<String>,
    pub tool_calls: Option<Vec<ToolCall>>,
    pub tool_call_id: Option<String>,
}

/// Tokens that a conversation has used.
#[derive(Debug, Clone, Copy)]
pub struct Usage {
    pub prompt_tokens: u32,
    pub completion_tokens: u32,
    pub total_tokens: u32,
}

impl Default for Usage {
    fn default() -> (r: Usage)
        ensures
            r.prompt_tokens == 0 && r.completion_tokens == 0 && r.total_tokens == 0,
    {
        Usage { prompt_tokens: 0, completion_tokens: 0, total_tokens: 0 }
    }
}

impl Usage {
    /// The sum of two counts, field by field, or `None` if a sum does not
    /// fit.
    pub fn plus(self, other: Usage) -> (r: Option<Usage>)
        ensures
            match r {
                Some(sum) => {
                    &&& sum.prompt_tokens == self.prompt_tokens + other.prompt_tokens
                    &&& sum.completion_tokens == self.completion_tokens + other.completion_tokens
                    &&& sum.total_tokens == self.total_tokens + other.total_tokens
                },
                None => {
                    ||| self.prompt_tokens + other.prompt_tokens > u32::MAX
                    ||| self.completion_tokens + other.completion_tokens > u32::MAX
                    ||| self.total_tokens + other.total_tokens > u32::MAX
                },
            },
    {
        let prompt = self.prompt_tokens.checked_add(other.prompt_tokens);
        let completion = self.completion_tokens.checked_add(other.completion_tokens);
        let total = self.total_tokens.checked_add(other.total_tokens);
        match (prompt, completion, total) {
            (Some(p), Some(c), Some(t)) => Some(
                Usage { prompt_tokens: p, completion_tokens: c, total_tokens: t },
            ),
            _ => None,
        }
    }
}

impl Message {
    /// A message without tool calls, said in the given role.
    pub fn plain(role: &str, content: &str) -> (m: Message)
        ensures
            m@ == (MessageView {
                role: role@,
                content: Some(content@),
                tool_calls: None,
                tool_call_id: None,
            }),
    {
        Message {
            role: String::from_str(role),
            content: Some(String::from_str(content)),
            tool_calls: None,
            tool_call_id: None,
        }
    }

    /// The message that hands a tool's result back to the model.
    pub fn tool(result: ToolResult) -> (m: Message)
        ensures
            m@ == (MessageView {
                role: "tool"@,
                content: Some(result.content@),
                tool_calls: None,
                tool_call_id: Some(result.tool_call_id@),
            }),
    {
        Message {
            role: String::from_str("tool"),
            content: Some(result.content),
            tool_calls: None,
            tool_call_id: Some(result.tool_call_id),
        }
    }
}

/// What the system prompt says before the analysis summary.
pub const PROMPT_HEAD: &'static str =
    "You are an AI assistant that analyzes data and selects rows to add to an XML file.\n\n## Your Task\nBased on the ML analysis and CSV data summary below, use the available tools to:\n1. Query the database to see what rows are available\n2. Analyze which rows would be most valuable to add based on the patterns found\n3. Select the final rows using the select_rows tool\n\n## ML Analysis Summary\n";

/// What the system prompt says between the two summaries.
pub const PROMPT_MIDDLE: &'static str = "\n\n## CSV Data Summary\n";

/// What the system prompt says after the table summary.
pub const PROMPT_TAIL: &'static str =
    "\n\n## Guidelines\n- Focus on selecting rows that complement the existing data\n- Consider outliers and cluster membership when making decisions\n- Prefer rows that fill gaps in the current data distribution\n- Be concise in your reasoning to save tokens\n- Call select_rows when you've made your final decision\n\nStart by querying the database to see available options.";

/// The system prompt around the two summaries.
pub fn build_system_prompt(ml_summary: &str, csv_summary: &str) -> (s: String)
    ensures
        s@ == PROMPT_HEAD@ + ml_summary@ + PROMPT_MIDDLE@ + csv_summary@ + PROMPT_TAIL@,
{
    let mut out = String::from_str(PROMPT_HEAD);
    out.append(ml_summary);
    out.append(PROMPT_MIDDLE);
    out.append(csv_summary);
    out.append(PROMPT_TAIL);
    out
}

/// The address of the local language-model server on `port`.
pub fn server_url(port: u16) -> (s: String)
    ensures
        s@ == "http://127.0.0.1:"@ + decimal_of(port as nat),
{
    let mut out = String::from_str("http://127.0.0.1:");
    push_decimal(&mut out, port as u64);
    out
}

/// The address to which conversations are sent.
pub fn completions_url(port: u16) -> (s: String)
    ensures
        s@ == "http://127.0.0.1:"@ + decimal_of(port as nat) + "/v1/chat/completions"@,
{
    let mut out = server_url(port);
    out.append("/v1/chat/completions");
    out
}

/// The address at which the server says whether it is ready.
pub fn health_url(port: u16) -> (s: String)
    ensures
        s@ == "http://127.0.0.1:"@ + decimal_of(port as nat) + "/health"@,
{
    let mut out = server_url(port);
    out.append("/health");
    out
}

/// A conversation with the language model: the messages so far, the
/// turns taken and allowed, and the tokens used.
pub struct Conversation {
    messages: Vec<Message>,
    turns: usize,
    max_turns: usize,
    usage: Usage,
}

/// What the caller of a conversation does next.
#[derive(Debug, Clone, Copy, PartialEq, Eq, Structural)]
pub enum NextMove {
    /// Send the messages to the model and report its answer.
    Ask,
    /// Stop: the turns are used up.
    Stop,
}

/// Mathematical value of a [`Message`].
pub struct MessageView {
    pub role: Seq<char>,
    pub content: Option<Seq<char>>,
    /// The ids of the tool calls that the message asks for, if it asks
    /// for any.
    pub tool_calls: Option<Seq<Seq<char>>>,
    pub tool_call_id: Option<Seq<char>>,
}

/// The ids of the calls, in order.
pub open spec fn call_ids(calls: Seq<ToolCall>) -> Seq<Seq<char>> {
    Seq::new(calls.len(), |i: int| calls[i].id@)
}

impl View for Message {
    type V = MessageView;

    open spec fn view(&self) -> MessageView {
        MessageView {
            role: self.role@,
            content: self.content.deep_view(),
            tool_calls: match self.tool_calls {
                Some(calls) => Some(call_ids(calls@)),
                None => None,
            },
            tool_call_id: self.tool_call_id.deep_view(),
        }
    }
}

impl DeepView for Message {
    type V = MessageView;

    open spec fn deep_view(&self) -> MessageView {
        self@
    }
}

/// Mathematical value of a [`Conversation`].
pub struct ConversationView {
    pub messages: Seq<MessageView>,
    pub turns: nat,
    pub max_turns: nat,
    pub usage: Usage,
}

/// The sum of two token counts that stops at the greatest number.
pub open spec fn capped_sum(a: u32, b: u32) -> u32 {
    if a + b > u32::MAX {
        u32::MAX
    } else {
        (a + b) as u32
    }
}

impl View for Conversation {
    type V = ConversationView;

    closed spec fn view(&self) -> ConversationView {
        ConversationView {
            messages: self.messages.deep_view(),
            turns: self.turns as nat,
            max_turns: self.max_turns as nat,
            usage: self.usage,
        }
    }
}

impl Conversation {
    /// A conversation that starts with the system prompt.
    pub fn new(system_prompt: &str, max_turns: usize) -> (r: Self)
        ensures
            r@ == (ConversationView {
                messages: seq![
                    MessageView {
                        role: "system"@,
                        content: Some(system_prompt@),
                        tool_calls: None,
                        tool_call_id: None,
                    },
                ],
                turns: 0,
                max_turns: max_turns as nat,
                usage: Usage { prompt_tokens: 0, completion_tokens: 0, total_tokens: 0 },
            }),
    {
        let mut messages: Vec<Message> = Vec::new();
        let first = Message::plain("system", system_prompt);
        messages.push(first);
        assert(messages.deep_view() == seq![first@]);
        Conversation { messages, turns: 0, max_turns, usage: Usage::default() }
    }

    /// The messages so far.
    pub fn messages(&self) -> (r: &Vec<Message>)
        ensures
            r.deep_view() == self@.messages,
    {
        &self.messages
    }

    /// The tokens used so far.
    pub fn total_usage(&self) -> (r: Usage)
        ensures
            r == self@.usage,
    {
        self.usage
    }

    fn push(&mut self, message: Message)
        ensures
            final(self)@ == (ConversationView {
                messages: old(self)@.messages.push(message@),
                ..old(self)@
            }),
    {
        let ghost before = self.messages.deep_view();
        self.messages.push(message);
        assert(self.messages.deep_view() == before.push(message@));
    }

    /// Adds what the user says.
    pub fn add_user_message(&mut self, content: &str)
        ensures
            final(self)@ == (ConversationView {
                messages: old(self)@.messages.push(
                    MessageView {
                        role: "user"@,
                        content: Some(content@),
                        tool_calls: None,
                        tool_call_id: None,
                    },
                ),
                ..old(self)@
            }),
    {
        self.push(Message::plain("user", content));
    }

    /// Says whether another turn may be taken, and counts it if so.
    pub fn next_move(&mut self) -> (r: NextMove)
        ensures
            r == if old(self)@.turns < old(self)@.max_turns {
                NextMove::Ask
            } else {
                NextMove::Stop
            },
            final(self)@ == (ConversationView {
                turns: if r == NextMove::Ask {
                    old(self)@.turns + 1
                } else {
                    old(self)@.turns
                },
                ..old(self)@
            }),
    {
        if self.turns < self.max_turns {
            self.turns += 1;
            NextMove::Ask
        } else {
            NextMove::Stop
        }
    }

    /// Adds the tokens that one answer used. A sum that does not fit
    /// stays at the greatest number.
    pub fn record_usage(&mut self, used: Usage)
        ensures
            final(self)@ == (ConversationView {
                usage: Usage {
                    prompt_tokens: capped_sum(old(self)@.usage.prompt_tokens, used.prompt_tokens),
                    completion_tokens: capped_sum(
                        old(self)@.usage.completion_tokens,
                        used.completion_tokens,
                    ),
                    total_tokens: capped_sum(old(self)@.usage.total_tokens, used.total_tokens),
                },
                ..old(self)@
            }),
    {
        self.usage = Usage {
            prompt_tokens: self.usage.prompt_tokens.saturating_add(used.prompt_tokens),
            completion_tokens: self.usage.completion_tokens.saturating_add(used.completion_tokens),
            total_tokens: self.usage.total_tokens.saturating_add(used.total_tokens),
        };
    }

    /// Adds the model's answer, with the tool calls it asks for.
    pub fn add_assistant_message(&mut self, content: Option<String>, tool_calls: Vec<ToolCall>)
        ensures
            final(self)@ == (ConversationView {
                messages: old(self)@.messages.push(
                    MessageView {
                        role: "assistant"@,
                        content: content.deep_view(),
                        tool_calls: Some(call_ids(tool_calls@)),
                        tool_call_id: None,
                    },
                ),
                ..old(self)@
            }),
    {
        self.push(
            Message {
                role: String::from_str("assistant"),
                content,
                tool_calls: Some(tool_calls),
                tool_call_id: None,
            },
        );
    }

    /// Adds the result of a tool call.
    pub fn add_tool_result(&mut self, result: ToolResult)
        ensures
            final(self)@ == (ConversationView {
                messages: old(self)@.messages.push(
                    MessageView {
                        role: "tool"@,
                        content: Some(result.content@),
                        tool_calls: None,
                        tool_call_id: Some(result.tool_call_id@),
                    },
                ),
                ..old(self)@
            }),
    {
        self.push(Message::tool(result));
    }
}

} // verus!
