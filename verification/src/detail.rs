//! The detail column's decisions: what it says where an agent has gone, what
//! a session can be switched between, and the queue of prompts waiting.

use vstd::prelude::*;
use crate::text::{chars_of, push_chars, push_str, string_of};

verus! {

/// What is left to do where there is no agent to reach. `agent` is the one
/// the session was opened on, and nothing where a session was asked for and
/// never opened; `others` is whether any agent is configured at all.
pub fn adrift(agent: Option<&str>, others: bool) -> (s: &'static str)
    ensures
        agent is Some && others ==> s@
            == "Open a session on an agent that is, or install this one again."@,
        agent is Some && !others ==> s@ == "No other agent is installed either."@,
        agent is None ==> s@ == "Install one to open a session here."@,
{
    match (agent, others) {
        (Some(_), true) => "Open a session on an agent that is, or install this one again.",
        (Some(_), false) => "No other agent is installed either.",
        (None, _) => "Install one to open a session here.",
    }
}

/// The title over it: which agent is missing, or that none is here at all.
pub open spec fn missing_text(agent: Option<Seq<char>>) -> Seq<char> {
    match agent {
        Some(a) => a + " is not installed"@,
        None => "No agent installed"@,
    }
}

/// The title over an empty state with no agent: which agent is missing, or
/// that none is installed at all.
pub fn agent_missing(agent: Option<&str>) -> (s: String)
    ensures
        s@ == missing_text(
            match agent {
                Some(a) => Some(a@),
                None => None,
            },
        ),
{
    match agent {
        Some(agent) => {
            let mut out = chars_of(agent);
            push_str(&mut out, " is not installed");
            string_of(&out)
        },
        None => "No agent installed".to_owned(),
    }
}

/// The same said in one line, for the strip under a transcript, with the
/// place to go in the words.
pub fn adrift_line(agent: &str, others: bool) -> (s: String)
    ensures
        s@ == missing_text(Some(agent@)) + if others {
            " — open a session on an agent that is, or install it again in Settings › Agents."@
        } else {
            " — install one in Settings › Agents."@
        },
{
    let missing = agent_missing(Some(agent));
    let mut out = chars_of(missing.as_str());
    if others {
        push_str(
            &mut out,
            " — open a session on an agent that is, or install it again in Settings › Agents.",
        );
    } else {
        push_str(&mut out, " — install one in Settings › Agents.");
    }
    string_of(&out)
}

/// The home directory prefix of a path, shown as `~`.
pub open spec fn shown_path_text(full: Seq<char>, home: Option<Seq<char>>) -> Seq<char> {
    match home {
        Some(h) => if h.len() <= full.len() && full.take(h.len() as int) == h {
            seq!['~'] + full.skip(h.len() as int)
        } else {
            full
        },
        None => full,
    }
}

/// A path as it is shown: `~` for the home directory `home`, where it leads
/// the path.
pub fn shown_path(full: &str, home: Option<&str>) -> (s: String)
    ensures
        s@ == shown_path_text(full@, match home {
            Some(h) => Some(h@),
            None => None,
        }),
{
    let chars = chars_of(full);
    if let Some(home) = home {
        let h = chars_of(home);
        if h.len() <= chars.len() {
            let mut same = true;
            let mut i: usize = 0;
            while i < h.len()
                invariant
                    i <= h.len() <= chars.len(),
                    same == (forall|j: int| 0 <= j < i ==> h@[j] == chars@[j]),
                decreases h.len() - i,
            {
                if h[i] != chars[i] {
                    same = false;
                }
                i += 1;
            }
            if same {
                assert(chars@.take(h.len() as int) =~= h@);
                let mut out: Vec<char> = Vec::new();
                out.push('~');
                let mut k = h.len();
                while k < chars.len()
                    invariant
                        h.len() <= k <= chars.len(),
                        out@ == seq!['~'] + chars@.subrange(h.len() as int, k as int),
                    decreases chars.len() - k,
                {
                    out.push(chars[k]);
                    k += 1;
                    assert(out@ =~= seq!['~'] + chars@.subrange(h.len() as int, k as int));
                }
                assert(chars@.subrange(h.len() as int, chars.len() as int) =~= chars@.skip(
                    h.len() as int,
                ));
                return string_of(&out);
            } else {
                assert(chars@.take(h.len() as int) != h@) by {
                    let j = choose|j: int| 0 <= j < h.len() && h@[j] != chars@[j];
                    assert(chars@.take(h.len() as int)[j] == chars@[j]);
                }
            }
        }
    }
    string_of(&chars)
}

/// Take the queued prompt at `at` back off the queue — for editing or for
/// good — but only while the session is still the one in front and the
/// prompt there is still the one the press was made on.
pub fn take_queued(
    queue: &mut Vec<String>,
    in_front: bool,
    at: usize,
    expected: &str,
) -> (taken: Option<String>)
    ensures
        (in_front && at < old(queue)@.len() && old(queue)@[at as int]@ == expected@) ==> {
            &&& taken matches Some(t) && t == old(queue)@[at as int]
            &&& final(queue)@ == old(queue)@.remove(at as int)
        },
        !(in_front && at < old(queue)@.len() && old(queue)@[at as int]@ == expected@) ==> {
            &&& taken is None
            &&& final(queue)@ == old(queue)@
        },
{
    if !in_front || at >= queue.len() {
        return None;
    }
    let held = chars_of(queue[at].as_str());
    let want = chars_of(expected);
    let mut same = held.len() == want.len();
    let mut i: usize = 0;
    while same && i < held.len()
        invariant
            i <= held.len(),
            same ==> held.len() == want.len(),
            same ==> forall|j: int| 0 <= j < i ==> held@[j] == want@[j],
            !same ==> held@ != want@,
        decreases held.len() - i,
    {
        if held[i] != want[i] {
            same = false;
        }
        i += 1;
    }
    if same {
        assert(held@ =~= want@);
        Some(queue.remove(at))
    } else {
        None
    }
}

/// What an empty composer says: whom the message goes to, or that it goes to
/// the agent where no session is in front.
pub fn placeholder_for(agent: Option<&str>) -> (s: String)
    ensures
        match agent {
            Some(a) => s@ == "message "@ + a@ + "…"@,
            None => s@ == "message the agent…"@,
        },
{
    match agent {
        Some(a) => {
            let mut out = chars_of("message ");
            push_chars(&mut out, &chars_of(a));
            push_str(&mut out, "…");
            string_of(&out)
        },
        None => "message the agent…".to_owned(),
    }
}

/// Where the agent named `name` stands among those configured, the first
/// of that name; none where it is not configured or no session is in front.
pub fn agent_position(agents: &Vec<String>, name: Option<&str>) -> (at: Option<usize>)
    ensures
        name is None ==> at is None,
        name matches Some(n) ==> match at {
            Some(i) => i < agents.len() && agents@[i as int]@ == n@ && forall|j: int|
                0 <= j < i ==> #[trigger] agents@[j]@ != n@,
            None => forall|j: int| 0 <= j < agents.len() ==> #[trigger] agents@[j]@ != n@,
        },
{
    let n = match name {
        Some(n) => n,
        None => {
            return None;
        },
    };
    let mut i: usize = 0;
    while i < agents.len()
        invariant
            name == Some(n),
            i <= agents.len(),
            forall|j: int| 0 <= j < i ==> #[trigger] agents@[j]@ != n@,
        decreases agents.len() - i,
    {
        if crate::text::same_text(agents[i].as_str(), n) {
            return Some(i);
        }
        i += 1;
    }
    None
}

/// How far along one step of the agent's plan is.
#[derive(Clone, Copy, PartialEq, Eq, Debug, Structural)]
pub enum PlanStatus {
    Pending,
    Active,
    Done,
}

/// Whether the plan is shown over the composer: while it has a step not done.
pub fn plan_shown(plan: &Vec<PlanStatus>) -> (shown: bool)
    ensures
        shown == exists|i: int| 0 <= i < plan.len() && #[trigger] plan@[i] != PlanStatus::Done,
{
    let mut i: usize = 0;
    while i < plan.len()
        invariant
            i <= plan.len(),
            forall|j: int| 0 <= j < i ==> #[trigger] plan@[j] == PlanStatus::Done,
        decreases plan.len() - i,
    {
        if plan[i] != PlanStatus::Done {
            assert(plan@[i as int] != PlanStatus::Done);
            return true;
        }
        i += 1;
    }
    false
}

} // verus!
