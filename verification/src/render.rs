//! Rendering of workers, conversations and progress snapshots as
//! human-readable text for diagnostic display.

use vstd::prelude::*;
use crate::Role;
use crate::clock::{clamped, clamp_timestamp, format_timestamp, timestamp_text};
use crate::message::{Message, MsgV};
use crate::subagent::{AgentV, StatusV, SubAgentStatus, SubAgentProgress, msg_views};
use crate::text::{dec_of, usize_to_string};

verus! {

/// The display label of a status.
pub open spec fn status_label(s: StatusV) -> Seq<char> {
    match s {
        StatusV::Initializing => "Initializing"@,
        StatusV::Ready => "Ready"@,
        StatusV::Processing => "Processing"@,
        StatusV::WaitingForInput => "WaitingForInput"@,
        StatusV::Completed(reason) => "Completed: "@ + reason,
        StatusV::Failed(reason) => "Failed: "@ + reason,
        StatusV::Terminated => "Terminated"@,
    }
}

/// The display label of a status.
pub fn status_text(s: &SubAgentStatus) -> (r: String)
    ensures
        r@ == status_label(s@),
{
    match s {
        SubAgentStatus::Initializing => String::from_str("Initializing"),
        SubAgentStatus::Ready => String::from_str("Ready"),
        SubAgentStatus::Processing => String::from_str("Processing"),
        SubAgentStatus::WaitingForInput => String::from_str("WaitingForInput"),
        SubAgentStatus::Completed(reason) => {
            let mut t = String::from_str("Completed: ");
            t.append(reason.as_str());
            t
        },
        SubAgentStatus::Failed(reason) => {
            let mut t = String::from_str("Failed: ");
            t.append(reason.as_str());
            t
        },
        SubAgentStatus::Terminated => String::from_str("Terminated"),
    }
}

/// The display label of a conversation role.
pub open spec fn role_label(r: Role) -> Seq<char> {
    match r {
        Role::User => "User"@,
        Role::Assistant => "Assistant"@,
    }
}

fn role_text(r: Role) -> (t: &'static str)
    ensures
        t@ == role_label(r),
{
    match r {
        Role::User => "User",
        Role::Assistant => "Assistant",
    }
}

/// One numbered conversation line: position (starting at one), role, text.
pub open spec fn entry_line(i: int, m: MsgV) -> Seq<char> {
    dec_of((i + 1) as nat) + ". "@ + role_label(m.role) + ": "@ + m.text + "\n"@
}

/// A conversation, one numbered line per entry, in order.
pub open spec fn entries_text(conv: Seq<MsgV>) -> Seq<char>
    decreases conv.len(),
{
    if conv.len() == 0 {
        Seq::<char>::empty()
    } else {
        entries_text(conv.drop_last()) + entry_line(conv.len() - 1, conv.last())
    }
}

/// A conversation rendered as numbered lines.
pub fn conversation_lines(conv: &Vec<Message>) -> (r: String)
    ensures
        r@ == entries_text(msg_views(conv@)),
{
    let ghost views = msg_views(conv@);
    let mut acc = String::new();
    let mut i: usize = 0;
    while i < conv.len()
        invariant
            i <= conv.len(),
            views == msg_views(conv@),
            acc@ == entries_text(views.take(i as int)),
        decreases conv.len() - i,
    {
        let m = &conv[i];
        acc.append(usize_to_string(i + 1).as_str());
        acc.append(". ");
        acc.append(role_text(m.role));
        acc.append(": ");
        acc.append(m.text.as_str());
        acc.append("\n");
        proof {
            assert(views[i as int] == conv@[i as int]@);
            let t = views.take(i + 1 as int);
            assert(t.drop_last() =~= views.take(i as int));
            assert(t.last() == views[i as int]);
            assert(acc@ =~= entries_text(t));
        }
        i = i + 1;
    }
    proof {
        assert(views.take(conv@.len() as int) =~= views);
    }
    acc
}

/// The turn position: the count, and the budget after a slash where one is
/// set.
pub open spec fn turn_fragment(turn: nat, max_turns: Option<usize>) -> Seq<char> {
    dec_of(turn) + (match max_turns {
        Some(m) => "/"@ + dec_of(m as nat),
        None => Seq::<char>::empty(),
    })
}

/// A worker's whole conversation rendered for diagnostic display: a header
/// with identifier, recipe title, creation time, status and turn position,
/// then the numbered entries, then a footer.
pub open spec fn formatted_conversation_text(a: AgentV) -> Seq<char> {
    "=== Subagent "@ + a.id + " Conversation ===\n"@ + "Recipe: "@ + a.recipe.title + "\n"@
        + "Created: "@ + timestamp_text(clamped(a.created_at)) + "\n"@ + "Status: "@ + status_label(
        a.status,
    ) + "\n"@ + "Turn: "@ + turn_fragment(a.turn_count, a.max_turns) + "\n\n"@ + entries_text(
        a.conversation,
    ) + "=== End Conversation ===\n"@
}

/// One progress snapshot rendered for display.
pub open spec fn progress_report_text(p: SubAgentProgress) -> Seq<char> {
    "Subagent ID: "@ + p.subagent_id@ + "\nStatus: "@ + status_label(p.status@) + "\nMessage: "@
        + p.message@ + "\nTurn: "@ + turn_fragment(p.turn as nat, p.max_turns) + "\nTimestamp: "@
        + timestamp_text(clamped(p.timestamp as int))
}

/// Renders one progress snapshot for display.
pub fn format_progress_report(p: &SubAgentProgress) -> (r: String)
    ensures
        r@ == progress_report_text(*p),
{
    let mut s = String::from_str("Subagent ID: ");
    s.append(p.subagent_id.as_str());
    s.append("\nStatus: ");
    s.append(status_text(&p.status).as_str());
    s.append("\nMessage: ");
    s.append(p.message.as_str());
    s.append("\nTurn: ");
    s.append(usize_to_string(p.turn).as_str());
    match p.max_turns {
        Some(m) => {
            s.append("/");
            s.append(usize_to_string(m).as_str());
        },
        None => {},
    }
    s.append("\nTimestamp: ");
    s.append(format_timestamp(clamp_timestamp(p.timestamp)).as_str());
    proof {
        assert(s@ =~= progress_report_text(*p));
    }
    s
}

/// One line of the subagent listing.
pub open spec fn listing_line(id: Seq<char>, status: StatusV) -> Seq<char> {
    "- "@ + id + ": "@ + status_label(status) + "\n"@
}

/// The listing body for a sequence of (identifier, status) pairs.
pub open spec fn listing_lines(items: Seq<(Seq<char>, StatusV)>) -> Seq<char>
    decreases items.len(),
{
    if items.len() == 0 {
        Seq::<char>::empty()
    } else {
        listing_lines(items.drop_last()) + listing_line(items.last().0, items.last().1)
    }
}

/// The pairs of a status listing, by view.
pub open spec fn listing_views(items: Seq<(String, SubAgentStatus)>) -> Seq<(Seq<char>, StatusV)> {
    items.map_values(|p: (String, SubAgentStatus)| (p.0@, p.1@))
}

/// The text of the subagent listing: a fixed line when nothing is
/// registered, else a heading and one line per worker, in order.
pub open spec fn subagent_list_text(items: Seq<(Seq<char>, StatusV)>) -> Seq<char> {
    if items.len() == 0 {
        "No active subagents."@
    } else {
        "Active subagents:\n"@ + listing_lines(items)
    }
}

/// Renders the subagent listing.
pub fn format_subagent_list(items: &Vec<(String, SubAgentStatus)>) -> (r: String)
    ensures
        r@ == subagent_list_text(listing_views(items@)),
{
    let ghost views = listing_views(items@);
    if items.len() == 0 {
        proof {
            assert(views.len() == 0);
        }
        return String::from_str("No active subagents.");
    }
    let mut s = String::from_str("Active subagents:\n");
    let ghost head = s@;
    let mut i: usize = 0;
    while i < items.len()
        invariant
            i <= items.len(),
            views == listing_views(items@),
            head == "Active subagents:\n"@,
            s@ == head + listing_lines(views.take(i as int)),
        decreases items.len() - i,
    {
        let item = &items[i];
        s.append("- ");
        s.append(item.0.as_str());
        s.append(": ");
        s.append(status_text(&item.1).as_str());
        s.append("\n");
        proof {
            assert(views[i as int] == (items@[i as int].0@, items@[i as int].1@));
            let t = views.take(i + 1 as int);
            assert(t.drop_last() =~= views.take(i as int));
            assert(t.last() == views[i as int]);
            assert(s@ =~= head + listing_lines(t));
        }
        i = i + 1;
    }
    proof {
        assert(views.take(items@.len() as int) =~= views);
        assert(s@ =~= subagent_list_text(views));
    }
    s
}

/// The acknowledgement a successful spawn reports to the host.
pub open spec fn spawn_success_text(id: Seq<char>) -> Seq<char> {
    "Subagent spawned successfully with ID: "@ + id
        + "\nUse platform__get_subagent_status to check progress."@
}

/// Renders the acknowledgement of a successful spawn.
pub fn format_spawn_success(id: &String) -> (r: String)
    ensures
        r@ == spawn_success_text(id@),
{
    let mut s = String::from_str("Subagent spawned successfully with ID: ");
    s.append(id.as_str());
    s.append("\nUse platform__get_subagent_status to check progress.");
    s
}

} // verus!
