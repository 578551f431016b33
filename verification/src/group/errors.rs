//! The errors of group operations.

use vstd::prelude::*;
use crate::group::GroupId;
use crate::wire::mls::CodecError;
use crate::support::text::{join_text, list_text_u8, u8_list_to_text};

verus! {

/// Why a group operation failed.
#[derive(Debug, Clone)]
pub enum GroupError {
    /// No group of this id is known here.
    GroupNotFound(GroupId),
    /// Key generation, signing, verification or encryption failed.
    CryptoError(String),
    /// A value could not be written in its wire form.
    EncodingError(String),
    /// A credential could not be built.
    CredentialError(String),
    /// The local store failed.
    StorageError(String),
    /// The MLS client could not be set up.
    ClientBuilderError(String),
    /// A group extension could not be read or written.
    ExtensionError(String),
    /// A message lacks what it must carry.
    InvalidMessage(String),
    /// An incoming message could not be processed.
    MessageProcessingError(String),
    /// An incoming message could not be decoded.
    MessageDecodingError(String),
    /// Bytes are not the wire form of the value expected.
    CodecError(String),
    /// The MLS layer refused an operation.
    MlsError(String),
    /// The group carries no configuration.
    ConfigurationNotFound,
    /// The group carries no roster.
    RosterNotFound,
    /// The owner of a device is not in the group's roster.
    UserIsNotInRoster,
    /// A credential is not of the expected type.
    CredentialMissmatch,
    /// The server answered with an error status.
    StatusError(String),
    /// The connection could not be set up.
    ConnectionError(String),
    /// A change of the group configuration is not allowed.
    ConfigValidationError(String),
    /// The delivery service is offline or failed.
    BackendError(String),
    /// The clock could not be read.
    SystemTimeError(String),
    /// An event could not be handed to the interface.
    EventError(String),
    /// The group's configuration forbids the operation.
    ConfigError(String),
    /// The database failed.
    DatabaseError(String),
}

/// The mathematical content of a [`GroupError`].
pub enum GroupErrorView {
    GroupNotFound(Seq<u8>),
    CryptoError(Seq<char>),
    EncodingError(Seq<char>),
    CredentialError(Seq<char>),
    StorageError(Seq<char>),
    ClientBuilderError(Seq<char>),
    ExtensionError(Seq<char>),
    InvalidMessage(Seq<char>),
    MessageProcessingError(Seq<char>),
    MessageDecodingError(Seq<char>),
    CodecError(Seq<char>),
    MlsError(Seq<char>),
    ConfigurationNotFound,
    RosterNotFound,
    UserIsNotInRoster,
    CredentialMissmatch,
    StatusError(Seq<char>),
    ConnectionError(Seq<char>),
    ConfigValidationError(Seq<char>),
    BackendError(Seq<char>),
    SystemTimeError(Seq<char>),
    EventError(Seq<char>),
    ConfigError(Seq<char>),
    DatabaseError(Seq<char>),
}

impl View for GroupError {
    type V = GroupErrorView;

    open spec fn view(&self) -> GroupErrorView {
        match self {
            GroupError::GroupNotFound(id) => GroupErrorView::GroupNotFound(id@),
            GroupError::CryptoError(m) => GroupErrorView::CryptoError(m@),
            GroupError::EncodingError(m) => GroupErrorView::EncodingError(m@),
            GroupError::CredentialError(m) => GroupErrorView::CredentialError(m@),
            GroupError::StorageError(m) => GroupErrorView::StorageError(m@),
            GroupError::ClientBuilderError(m) => GroupErrorView::ClientBuilderError(m@),
            GroupError::ExtensionError(m) => GroupErrorView::ExtensionError(m@),
            GroupError::InvalidMessage(m) => GroupErrorView::InvalidMessage(m@),
            GroupError::MessageProcessingError(m) => GroupErrorView::MessageProcessingError(m@),
            GroupError::MessageDecodingError(m) => GroupErrorView::MessageDecodingError(m@),
            GroupError::CodecError(m) => GroupErrorView::CodecError(m@),
            GroupError::MlsError(m) => GroupErrorView::MlsError(m@),
            GroupError::ConfigurationNotFound => GroupErrorView::ConfigurationNotFound,
            GroupError::RosterNotFound => GroupErrorView::RosterNotFound,
            GroupError::UserIsNotInRoster => GroupErrorView::UserIsNotInRoster,
            GroupError::CredentialMissmatch => GroupErrorView::CredentialMissmatch,
            GroupError::StatusError(m) => GroupErrorView::StatusError(m@),
            GroupError::ConnectionError(m) => GroupErrorView::ConnectionError(m@),
            GroupError::ConfigValidationError(m) => GroupErrorView::ConfigValidationError(m@),
            GroupError::BackendError(m) => GroupErrorView::BackendError(m@),
            GroupError::SystemTimeError(m) => GroupErrorView::SystemTimeError(m@),
            GroupError::EventError(m) => GroupErrorView::EventError(m@),
            GroupError::ConfigError(m) => GroupErrorView::ConfigError(m@),
            GroupError::DatabaseError(m) => GroupErrorView::DatabaseError(m@),
        }
    }
}

impl GroupErrorView {
    /// The error in words: what kind it is, then what it says.
    pub open spec fn message(self) -> Seq<char> {
        match self {
            GroupErrorView::GroupNotFound(id) => "Group not found: GroupId("@ + list_text_u8(id)
                + ")"@,
            GroupErrorView::CryptoError(m) => "Crypto error: "@ + m,
            GroupErrorView::EncodingError(m) => "Encoding error: "@ + m,
            GroupErrorView::CredentialError(m) => "Credential error: "@ + m,
            GroupErrorView::StorageError(m) => "Storage error: "@ + m,
            GroupErrorView::ClientBuilderError(m) => "Client builder error: "@ + m,
            GroupErrorView::ExtensionError(m) => "Extension error: "@ + m,
            GroupErrorView::InvalidMessage(m) => "Invalid message: "@ + m,
            GroupErrorView::MessageProcessingError(m) => "Message processing error: "@ + m,
            GroupErrorView::MessageDecodingError(m) => "Message decoding error: "@ + m,
            GroupErrorView::CodecError(m) => "Codec error: "@ + m,
            GroupErrorView::MlsError(m) => "Mls error: "@ + m,
            GroupErrorView::ConfigurationNotFound => "Configuration not found"@,
            GroupErrorView::RosterNotFound => "Roster not found"@,
            GroupErrorView::UserIsNotInRoster => "User is not in roster"@,
            GroupErrorView::CredentialMissmatch => "Credential type miss match"@,
            GroupErrorView::StatusError(m) => "Status error: "@ + m,
            GroupErrorView::ConnectionError(m) => "Connection error: "@ + m,
            GroupErrorView::ConfigValidationError(m) => "Config validation error: "@ + m,
            GroupErrorView::BackendError(m) => "Backend error: "@ + m,
            GroupErrorView::SystemTimeError(m) => "System time error: "@ + m,
            GroupErrorView::EventError(m) => "Event error: "@ + m,
            GroupErrorView::ConfigError(m) => "Config error: "@ + m,
            GroupErrorView::DatabaseError(m) => "Database error: "@ + m,
        }
    }
}

impl GroupError {
    /// The error in words.
    pub fn to_string(&self) -> (s: String)
        ensures
            s@ == self@.message(),
    {
        match self {
            GroupError::GroupNotFound(id) => {
                let listed = u8_list_to_text(id.as_bytes());
                let head = join_text("Group not found: GroupId(", listed.as_str());
                join_text(head.as_str(), ")")
            },
            GroupError::CryptoError(m) => join_text("Crypto error: ", m.as_str()),
            GroupError::EncodingError(m) => join_text("Encoding error: ", m.as_str()),
            GroupError::CredentialError(m) => join_text("Credential error: ", m.as_str()),
            GroupError::StorageError(m) => join_text("Storage error: ", m.as_str()),
            GroupError::ClientBuilderError(m) => join_text("Client builder error: ", m.as_str()),
            GroupError::ExtensionError(m) => join_text("Extension error: ", m.as_str()),
            GroupError::InvalidMessage(m) => join_text("Invalid message: ", m.as_str()),
            GroupError::MessageProcessingError(m) => join_text("Message processing error: ", m.as_str()),
            GroupError::MessageDecodingError(m) => join_text("Message decoding error: ", m.as_str()),
            GroupError::CodecError(m) => join_text("Codec error: ", m.as_str()),
            GroupError::MlsError(m) => join_text("Mls error: ", m.as_str()),
            GroupError::ConfigurationNotFound => "Configuration not found".to_string(),
            GroupError::RosterNotFound => "Roster not found".to_string(),
            GroupError::UserIsNotInRoster => "User is not in roster".to_string(),
            GroupError::CredentialMissmatch => "Credential type miss match".to_string(),
            GroupError::StatusError(m) => join_text("Status error: ", m.as_str()),
            GroupError::ConnectionError(m) => join_text("Connection error: ", m.as_str()),
            GroupError::ConfigValidationError(m) => join_text("Config validation error: ", m.as_str()),
            GroupError::BackendError(m) => join_text("Backend error: ", m.as_str()),
            GroupError::SystemTimeError(m) => join_text("System time error: ", m.as_str()),
            GroupError::EventError(m) => join_text("Event error: ", m.as_str()),
            GroupError::ConfigError(m) => join_text("Config error: ", m.as_str()),
            GroupError::DatabaseError(m) => join_text("Database error: ", m.as_str()),
        }
    }

    /// A decoding failure as a group error: the codec error in words.
    pub fn from_codec(e: CodecError) -> (r: GroupError)
        ensures
            r@ == GroupErrorView::CodecError(e.spec_message()),
    {
        GroupError::CodecError(e.message())
    }
}

} // verus!
