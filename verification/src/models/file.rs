use super::timestamp::Timestamp;
use crate::utils::text::text_eq;
use uuid::Uuid;
use vstd::prelude::*;
use vstd::string::*;

verus! {

/// A text that names no kind of file.
#[derive(Clone, Copy, Debug, PartialEq, Eq, Structural)]
pub struct UnknownKindError {}

/// What a file holds, broadly.
#[derive(Clone, Copy, Debug, PartialEq, Eq, Structural)]
pub enum Kind {
    Text,
    Binary,
    Image,
    Audio,
    Video,
}

/// The bits of a version-4 UUID that say so: the version and the variant.
pub const UUID_V4_MASK: u128 = 0x0000_0000_0000_F000_C000_0000_0000_0000;

/// What those bits hold in every version-4 UUID.
pub const UUID_V4_BITS: u128 = 0x0000_0000_0000_4000_8000_0000_0000_0000;

/// A file as the service keeps it.
#[derive(Debug)]
pub struct File {
    pub id: u128,
    pub name: String,
    pub mime: String,
    pub kind: Kind,
    pub timestamp: Timestamp,
}

/// A file as a client announces it.
#[derive(Debug)]
pub struct FileUpload {
    pub name: String,
    pub mime: String,
    pub kind: Kind,
}

/// A random identifier for a file, from `uuid`'s `Uuid::new_v4`, as the
/// 128-bit number that `Uuid::as_u128` gives. `new_v4` sets the version
/// bits to 4 and the variant bits to binary 10 and leaves the rest to
/// chance: that much is claimed.
#[verifier::external_body]
fn new_file_id() -> (id: u128)
    ensures
        id & UUID_V4_MASK == UUID_V4_BITS,
{
    Uuid::new_v4().as_u128()
}

impl Kind {
    /// The word for the kind.
    pub open spec fn spec_text(&self) -> Seq<char> {
        match self {
            Kind::Text => "text"@,
            Kind::Binary => "binary"@,
            Kind::Image => "image"@,
            Kind::Audio => "audio"@,
            Kind::Video => "video"@,
        }
    }

    /// The kind that a word names, if it names one.
    pub open spec fn spec_from_text(s: Seq<char>) -> Option<Kind> {
        if s == "text"@ {
            Some(Kind::Text)
        } else if s == "binary"@ {
            Some(Kind::Binary)
        } else if s == "image"@ {
            Some(Kind::Image)
        } else if s == "audio"@ {
            Some(Kind::Audio)
        } else if s == "video"@ {
            Some(Kind::Video)
        } else {
            None
        }
    }

    pub fn as_str(&self) -> (text: &'static str)
        ensures
            text@ == self.spec_text(),
    {
        match self {
            Kind::Text => "text",
            Kind::Binary => "binary",
            Kind::Image => "image",
            Kind::Audio => "audio",
            Kind::Video => "video",
        }
    }

    pub fn to_string(&self) -> (text: String)
        ensures
            text@ == self.spec_text(),
    {
        String::from_str(self.as_str())
    }

    pub fn from_str(s: &str) -> (kind: Result<Kind, UnknownKindError>)
        ensures
            match kind {
                Ok(kind) => Self::spec_from_text(s@) == Some(kind),
                Err(_) => Self::spec_from_text(s@) is None,
            },
    {
        if text_eq(s, "text") {
            Ok(Kind::Text)
        } else if text_eq(s, "binary") {
            Ok(Kind::Binary)
        } else if text_eq(s, "image") {
            Ok(Kind::Image)
        } else if text_eq(s, "audio") {
            Ok(Kind::Audio)
        } else if text_eq(s, "video") {
            Ok(Kind::Video)
        } else {
            Err(UnknownKindError {  })
        }
    }

    /// The word for a kind names that kind and no other.
    pub proof fn lemma_text_round_trip(kind: Kind)
        ensures
            Self::spec_from_text(kind.spec_text()) == Some(kind),
    {
        reveal_strlit("text");
        reveal_strlit("binary");
        reveal_strlit("image");
        reveal_strlit("audio");
        reveal_strlit("video");
        let text = kind.spec_text();
        assert(text[0] == 't' || text[0] == 'b' || text[0] == 'i' || text[0] == 'a' || text[0] == 'v');
        assert("text"@[0] == 't');
        assert("binary"@[0] == 'b');
        assert("image"@[0] == 'i');
        assert("audio"@[0] == 'a');
        assert("video"@[0] == 'v');
    }
}

impl FileUpload {
    /// The file that the announcement describes, under a fresh random
    /// identifier and stamped with the current time.
    pub fn into_file(self) -> (file: File)
        ensures
            file.name == self.name,
            file.mime == self.mime,
            file.kind == self.kind,
            file.id & UUID_V4_MASK == UUID_V4_BITS,
    {
        let id = new_file_id();
        let timestamp = Timestamp::now();
        self.into_file_with(id, timestamp)
    }

    /// The file that the announcement describes, under that identifier and
    /// with that time.
    pub fn into_file_with(self, id: u128, timestamp: Timestamp) -> (file: File)
        ensures
            file == (File { id, name: self.name, mime: self.mime, kind: self.kind, timestamp }),
    {
        File { id, name: self.name, mime: self.mime, kind: self.kind, timestamp }
    }
}

} // verus!
