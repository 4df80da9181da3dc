use crate::text::same_text;
use crate::types::principal::PrincipalId;
use vstd::prelude::*;
use vstd::slice::*;
use vstd::string::*;

verus! {

/// The kinds of event that the relay knows how to route.
#[derive(Debug, Clone, Copy, PartialEq, Eq, Structural)]
pub enum HistoryEventKind {
    /// The role of a member of a group has changed.
    GroupRoleChanged,
}

/// A kind identifier that names no known kind.
#[derive(Debug, PartialEq, Eq)]
pub struct UnknownKind {
    /// The identifier as it was given.
    pub kind: String,
}

impl HistoryEventKind {
    /// The identifier under which the kind travels.
    pub open spec fn name(self) -> Seq<char> {
        match self {
            HistoryEventKind::GroupRoleChanged => "group_role_changed"@,
        }
    }

    /// The kind that an identifier names, if any.
    pub open spec fn named(name: Seq<char>) -> Option<HistoryEventKind> {
        if name == "group_role_changed"@ {
            Some(HistoryEventKind::GroupRoleChanged)
        } else {
            None
        }
    }

    /// The identifier of the kind.
    pub fn as_str(&self) -> (out: &'static str)
        ensures
            out@ == self.name(),
    {
        match self {
            HistoryEventKind::GroupRoleChanged => "group_role_changed",
        }
    }

    /// The identifier of the kind, owned.
    pub fn to_string(&self) -> (out: String)
        ensures
            out@ == self.name(),
    {
        String::from_str(self.as_str())
    }

    /// Reads a kind from its identifier. Any other text is refused and handed
    /// back in the error.
    pub fn from_str(s: &str) -> (out: Result<HistoryEventKind, UnknownKind>)
        ensures
            match HistoryEventKind::named(s@) {
                Some(kind) => out == Ok::<HistoryEventKind, UnknownKind>(kind),
                None => out is Err && out->Err_0.kind@ == s@,
            },
    {
        if same_text(s, "group_role_changed") {
            Ok(HistoryEventKind::GroupRoleChanged)
        } else {
            Err(UnknownKind { kind: String::from_str(s) })
        }
    }
}

/// Every kind is read back from its own identifier.
pub proof fn kind_names_round_trip(kind: HistoryEventKind)
    ensures
        HistoryEventKind::named(kind.name()) == Some(kind),
{
}

/// An event of the log: the identifier of its kind and its payload.
#[derive(Debug, PartialEq, Eq)]
pub struct HistoryEvent {
    pub kind: String,
    pub payload: Vec<u8>,
}

/// An event together with its position in the log.
#[derive(Debug, PartialEq, Eq)]
pub struct HistoryEventEntry {
    pub position: u64,
    pub event: HistoryEvent,
}

/// What an entry holds: its position, the identifier of its kind, and its
/// payload.
pub struct EntryView {
    pub position: u64,
    pub kind: Seq<char>,
    pub payload: Seq<u8>,
}

impl View for HistoryEventEntry {
    type V = EntryView;

    open spec fn view(&self) -> EntryView {
        EntryView { position: self.position, kind: self.event.kind@, payload: self.event.payload@ }
    }
}

impl HistoryEvent {
    /// A second copy of the event.
    pub fn duplicate(&self) -> (out: HistoryEvent)
        ensures
            out.kind@ == self.kind@,
            out.payload@ == self.payload@,
    {
        HistoryEvent {
            kind: self.kind.clone(),
            payload: slice_to_vec(self.payload.as_slice()),
        }
    }
}

impl HistoryEventEntry {
    /// A second copy of the entry.
    pub fn duplicate(&self) -> (out: HistoryEventEntry)
        ensures
            out@ == self@,
    {
        HistoryEventEntry { position: self.position, event: self.event.duplicate() }
    }
}

/// The views of a list of entries, in order.
pub open spec fn entries_view(entries: Seq<HistoryEventEntry>) -> Seq<EntryView> {
    entries.map_values(|e: HistoryEventEntry| e@)
}

/// What a role-change event says: who, under which name, in which group, and
/// the roles held from now on.
#[derive(Debug, PartialEq, Eq)]
pub struct GroupMemberRoleChangedPayload {
    pub principal: PrincipalId,
    pub username: String,
    pub group_id: u64,
    pub roles: Vec<String>,
}

} // verus!
