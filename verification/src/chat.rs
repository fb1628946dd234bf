//! What the window reads of a chat session: its items and where it stands.
//!
//! Instants are carried as milliseconds on one monotonic clock, read from an
//! origin of the caller's choosing.

use vstd::prelude::*;

verus! {

/// How a tool call is going.
#[derive(Clone, Copy, PartialEq, Eq, Debug, Structural)]
pub enum ToolStatus {
    Pending,
    Running,
    Success,
    Failure,
}

/// One entry of a transcript.
#[derive(Clone, Debug)]
pub enum ChatItem {
    /// What was asked.
    User(String),
    /// What the agent said.
    Agent(String),
    /// A line from the session itself.
    Notice { text: String },
    /// What the agent thought aloud.
    Thinking { text: String },
    /// A tool call: its id, its title, how it is going, what it printed, and
    /// when it started, where that was noted.
    Tool { id: String, label: String, status: ToolStatus, output: String, started: Option<u64> },
    /// The agent process itself, and what it printed.
    Process { command: String, output: String },
}

/// Whether the session can reach its agent.
#[derive(Clone, Copy, PartialEq, Eq, Debug, Structural)]
pub enum Connection {
    Connecting,
    Connected,
    Lost,
}

/// The parts of a chat session the window decides from.
#[derive(Clone, Debug)]
pub struct ChatSession {
    pub connection: Connection,
    /// Whether a turn is in flight.
    pub streaming: bool,
    /// The title of the permission request waiting, if one is.
    pub permission: Option<String>,
    pub items: Vec<ChatItem>,
    /// When the turn in flight began.
    pub turn_started: Option<u64>,
    /// When the agent was last heard from.
    pub last_activity: u64,
    /// Whether a lost connection can be picked up again.
    pub resumable: bool,
}

pub open spec fn is_user(item: ChatItem) -> bool {
    item is User
}

pub open spec fn is_running_tool(item: ChatItem) -> bool {
    item matches ChatItem::Tool { status, .. } && status == ToolStatus::Running
}

/// Where the last question stands, or 0 for a session never asked anything.
pub open spec fn last_user(items: Seq<ChatItem>) -> int
    decreases items.len(),
{
    if items.len() == 0 {
        0
    } else if is_user(items.last()) {
        items.len() - 1
    } else {
        last_user(items.drop_last())
    }
}

pub proof fn lemma_last_user_bounds(items: Seq<ChatItem>)
    ensures
        0 <= last_user(items),
        items.len() > 0 ==> last_user(items) < items.len(),
        items.len() == 0 ==> last_user(items) == 0,
    decreases items.len(),
{
    if items.len() > 0 {
        lemma_last_user_bounds(items.drop_last());
    }
}

/// Where the last question stands, or 0 where nothing was asked.
pub fn last_question(items: &Vec<ChatItem>) -> (at: usize)
    ensures
        at == last_user(items@),
{
    let mut i = items.len();
    assert(items@.take(i as int) =~= items@);
    while i > 0
        invariant
            i <= items.len(),
            last_user(items@) == last_user(items@.take(i as int)),
        decreases i,
    {
        assert(items@.take(i as int).drop_last() =~= items@.take(i - 1));
        assert(items@.take(i as int).last() == items@[i - 1]);
        if let ChatItem::User(_) = &items[i - 1] {
            return i - 1;
        }
        i -= 1;
    }
    0
}

} // verus!
