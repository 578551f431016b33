//! Group identifiers.

pub mod builder;
pub mod codec;
pub mod codec_laws;
pub mod commands;
pub mod commit_laws;
pub mod config;
pub mod device;
pub mod errors;
pub mod extensions;
pub mod handler;
pub mod membership;
pub mod roster_laws;
pub mod rules;

use vstd::prelude::*;
use crate::group::errors::{GroupError, GroupErrorView};
use crate::support::text::join_text;

verus! {

/// The identifier of a group: opaque bytes, written in base64 where text is
/// needed.
#[derive(Debug, Clone, PartialEq, Eq, Hash)]
pub struct GroupId(pub Vec<u8>);

impl View for GroupId {
    type V = Seq<u8>;

    open spec fn view(&self) -> Seq<u8> {
        self.0@
    }
}

/// The standard base64 form, with padding, of a byte string.
pub uninterp spec fn base64_text(bytes: Seq<u8>) -> Seq<char>;

/// What a text decodes to as standard base64 with padding: the bytes, or
/// the decoder's complaint in words.
pub uninterp spec fn base64_decoded(text: Seq<char>) -> Result<Seq<u8>, Seq<char>>;

/// Whether a text decodes to these bytes.
pub open spec fn decodes_to(text: Seq<char>, bytes: Seq<u8>) -> bool {
    base64_decoded(text) == Ok::<Seq<u8>, Seq<char>>(bytes)
}

/// The length of the base64 form, with padding, of so many bytes: four
/// characters for every three bytes or part of three.
pub open spec fn base64_len(bytes: nat) -> nat {
    4 * ((bytes + 2) / 3)
}

/// `base64::engine::general_purpose::STANDARD.encode`: the standard
/// alphabet with padding. The result depends on the bytes alone, and the
/// same engine decodes it to the bytes. It holds four characters for every
/// three bytes or part of three, each of them ASCII.
#[verifier::external_body]
pub(crate) fn base64_encode(bytes: &[u8]) -> (s: String)
    ensures
        s@ == base64_text(bytes@),
        decodes_to(s@, bytes@),
        s@.len() == base64_len(bytes@.len()),
        vstd::utf8::is_ascii_chars(s@),
{
    base64::Engine::encode(&base64::engine::general_purpose::STANDARD, bytes)
}

/// `base64::engine::general_purpose::STANDARD.decode`: the bytes, or the
/// `Display` text of the `DecodeError`. The result depends on the text
/// alone.
#[verifier::external_body]
pub(crate) fn base64_decode(text: &str) -> (r: Result<Vec<u8>, String>)
    ensures
        match (r, base64_decoded(text@)) {
            (Ok(b), Ok(sb)) => b@ == sb,
            (Err(e), Err(se)) => e@ == se,
            _ => false,
        },
{
    match base64::Engine::decode(&base64::engine::general_purpose::STANDARD, text) {
        Ok(b) => Ok(b),
        Err(e) => Err(e.to_string()),
    }
}

/// The id that decoded bytes stand for, or the storage error that reports
/// why there are none.
pub open spec fn id_of_decoded(decoded: Result<Seq<u8>, Seq<char>>) -> Result<
    Seq<u8>,
    GroupErrorView,
> {
    match decoded {
        Ok(b) => Ok(b),
        Err(e) => Err(GroupErrorView::StorageError("Failed to decode group id: "@ + e)),
    }
}

impl GroupId {
    pub fn new(id: Vec<u8>) -> (g: GroupId)
        ensures
            g@ == id@,
    {
        GroupId(id)
    }

    pub fn as_bytes(&self) -> (b: &[u8])
        ensures
            b@ == self@,
    {
        self.0.as_slice()
    }

    pub fn to_vec(&self) -> (v: Vec<u8>)
        ensures
            v@ == self@,
    {
        self.0.clone()
    }

    /// The id that a decoder's answer stands for.
    pub fn from_decoded(decoded: Result<Vec<u8>, String>) -> (r: Result<GroupId, GroupError>)
        ensures
            match (r, decoded) {
                (Ok(g), Ok(b)) => g@ == b@,
                (Err(e), Err(why)) => e@ == GroupErrorView::StorageError(
                    "Failed to decode group id: "@ + why@,
                ),
                _ => false,
            },
    {
        match decoded {
            Ok(b) => Ok(GroupId(b)),
            Err(why) => Err(
                GroupError::StorageError(join_text("Failed to decode group id: ", why.as_str())),
            ),
        }
    }

    /// Reads an id from its base64 form.
    pub fn from_string(s: &str) -> (r: Result<GroupId, GroupError>)
        ensures
            match (r, id_of_decoded(base64_decoded(s@))) {
                (Ok(g), Ok(b)) => g@ == b,
                (Err(e), Err(se)) => e@ == se,
                _ => false,
            },
    {
        GroupId::from_decoded(base64_decode(s))
    }

    /// The id in base64. It reads back as the id.
    pub fn to_string(&self) -> (s: String)
        ensures
            s@ == base64_text(self@),
            id_of_decoded(base64_decoded(s@)) == Ok::<Seq<u8>, GroupErrorView>(self@),
    {
        base64_encode(self.0.as_slice())
    }
}

} // verus!
