use super::snowflake::SnowflakeId;
use super::timestamp::Timestamp;
use vstd::prelude::*;
use vstd::string::*;

verus! {

/// What happened in a session.
#[derive(Clone, Copy, Debug, PartialEq, Eq, Structural)]
pub enum EventName {
    ObjectCreated,
    ObjectDeleted,
    SessionDeleted,
}

/// A lifecycle event of a session: what happened, to which object if to
/// one, and when. A plain value, handed on by copy.
#[derive(Clone, Copy, Debug, PartialEq, Eq, Structural)]
pub struct Event {
    pub name: EventName,
    pub data: Option<SnowflakeId>,
    pub timestamp: Timestamp,
}

impl EventName {
    /// The name under which observers know the event.
    pub open spec fn spec_text(&self) -> Seq<char> {
        match self {
            EventName::ObjectCreated => "object.created"@,
            EventName::ObjectDeleted => "object.deleted"@,
            EventName::SessionDeleted => "session.deleted"@,
        }
    }

    /// The event of this name that concerns no object, stamped now.
    pub fn into_event(self) -> (event: Event)
        ensures
            event.name == self,
            event.data is None,
    {
        Event::new(self, None)
    }

    pub fn as_str(&self) -> (text: &'static str)
        ensures
            text@ == self.spec_text(),
    {
        match self {
            EventName::ObjectCreated => "object.created",
            EventName::ObjectDeleted => "object.deleted",
            EventName::SessionDeleted => "session.deleted",
        }
    }

    pub fn to_string(&self) -> (text: String)
        ensures
            text@ == self.spec_text(),
    {
        String::from_str(self.as_str())
    }

    /// Whether this is the event after which a session delivers nothing
    /// more.
    pub fn is_session_deleted(&self) -> (r: bool)
        ensures
            r == (*self == EventName::SessionDeleted),
    {
        match self {
            EventName::SessionDeleted => true,
            _ => false,
        }
    }

    /// No two events share a name.
    pub proof fn lemma_texts_differ(a: EventName, b: EventName)
        ensures
            a.spec_text() == b.spec_text() <==> a == b,
    {
        reveal_strlit("object.created");
        reveal_strlit("object.deleted");
        reveal_strlit("session.deleted");
        if a != b {
            assert(a.spec_text().len() != b.spec_text().len() || a.spec_text()[0]
                != b.spec_text()[0] || a.spec_text()[7] != b.spec_text()[7]);
        }
    }
}

impl Event {
    /// The event of that name about that object, stamped with the current
    /// time.
    pub fn new(name: EventName, data: Option<SnowflakeId>) -> (event: Event)
        ensures
            event.name == name,
            event.data == data,
    {
        Event::at(name, data, Timestamp::now())
    }

    /// The event of that name about that object at that time.
    pub fn at(name: EventName, data: Option<SnowflakeId>, timestamp: Timestamp) -> (event: Event)
        ensures
            event == (Event { name, data, timestamp }),
    {
        Event { name, data, timestamp }
    }
}

} // verus!
