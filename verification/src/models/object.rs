use super::snowflake::{ClockError, SnowflakeId};
use super::timestamp::Timestamp;
use crate::utils::text::clone_text_option;
use vstd::prelude::*;
use vstd::string::*;

verus! {

pub type ObjectId = SnowflakeId;

/// A text that names no kind of object.
#[derive(Clone, Copy, Debug, PartialEq, Eq, Structural)]
pub struct UnknownKindError {}

/// An object as observers see it.
#[derive(Debug)]
pub struct ObjectDto {
    pub id: ObjectId,
    pub timestamp: Timestamp,
    /// The object's structured metadata, as JSON text.
    pub content: String,
    pub mime: Option<String>,
}

/// An object of a session: its metadata. The payload, if it has one, is
/// kept apart under the same identifier.
#[derive(Debug)]
pub struct Object {
    pub id: ObjectId,
    pub timestamp: Timestamp,
    /// The object's structured metadata, as JSON text.
    pub content: String,
    pub mime: Option<String>,
}

/// What a client hands in to have an object made of it.
#[derive(Debug)]
pub struct Upload {
    /// The object's structured metadata, as JSON text.
    pub content: String,
}

impl Clone for ObjectDto {
    fn clone(&self) -> (copy: Self)
        ensures
            copy == *self,
    {
        ObjectDto {
            id: self.id,
            timestamp: self.timestamp,
            content: self.content.clone(),
            mime: clone_text_option(&self.mime),
        }
    }
}

impl Clone for Object {
    fn clone(&self) -> (copy: Self)
        ensures
            copy == *self,
    {
        Object {
            id: self.id,
            timestamp: self.timestamp,
            content: self.content.clone(),
            mime: clone_text_option(&self.mime),
        }
    }
}

impl Object {
    /// The object as observers see it: the same four fields.
    pub open spec fn spec_dto(&self) -> ObjectDto {
        ObjectDto { id: self.id, timestamp: self.timestamp, content: self.content, mime: self.mime }
    }

    pub fn into_dto(self) -> (dto: ObjectDto)
        ensures
            dto == self.spec_dto(),
    {
        ObjectDto { id: self.id, timestamp: self.timestamp, content: self.content, mime: self.mime }
    }
}

impl Upload {
    pub fn new(content: String) -> (upload: Self)
        ensures
            upload.content == content,
    {
        Upload { content }
    }

    /// The object made of this upload under that identifier at that time:
    /// the content is the upload's, and no media type is set.
    pub open spec fn spec_object(&self, id: ObjectId, timestamp: Timestamp) -> Object {
        Object { id, timestamp, content: self.content, mime: None }
    }

    pub fn into_object_with(self, id: ObjectId, timestamp: Timestamp) -> (object: Object)
        ensures
            object == self.spec_object(id, timestamp),
    {
        Object { id, timestamp, content: self.content, mime: None }
    }

    /// The object made of this upload, under a fresh identifier and stamped
    /// with the current time. Fails only where no identifier can be had.
    pub fn try_into_object(self) -> (object: Result<Object, ClockError>)
        ensures
            match object {
                Ok(object) => object == self.spec_object(object.id, object.timestamp),
                Err(_) => true,
            },
            // An identifier was asked for once: the object carries the one
            // that came, and where none came the failure is handed on.
            exists|generated: Result<ObjectId, ClockError>|
                {
                    &&& #[trigger] call_ensures(SnowflakeId::generate, (), generated)
                    &&& match generated {
                        Ok(id) => object matches Ok(made) && made.id == id,
                        Err(e) => object == Err::<Object, ClockError>(e),
                    }
                },
    {
        match ObjectId::generate() {
            Ok(id) => Ok(self.into_object_with(id, Timestamp::now())),
            Err(e) => Err(e),
        }
    }
}

impl Default for Upload {
    /// An upload whose content is JSON's `null`.
    fn default() -> (upload: Self)
        ensures
            upload.content@ == "null"@,
    {
        Upload { content: String::from_str("null") }
    }
}

} // verus!
