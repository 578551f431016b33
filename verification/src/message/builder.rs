//! A builder for outgoing text messages.

use vstd::prelude::*;
use crate::support::clock::now_secs;
use crate::message::{GroupTextMessage, GroupTextMessageView};
use crate::support::text::{join_text, opt_text};

verus! {

/// Collects the parts of a message before the message is made.
#[derive(Debug)]
pub struct MessageBuilder {
    group_id: String,
    text: String,
    file_path: Option<String>,
    reply_to: Option<String>,
    edit_message_id: Option<String>,
    expires_at: Option<i64>,
}

/// What a builder has collected.
pub struct MessageBuilderView {
    pub group_id: Seq<char>,
    pub text: Seq<char>,
    pub file_path: Option<Seq<char>>,
    pub reply_to: Option<Seq<char>>,
    pub edit_message_id: Option<Seq<char>>,
    pub expires_at: Option<i64>,
}

/// A file that goes with a message: its content and its name.
#[derive(Debug)]
pub struct MediaFile {
    pub data: Vec<u8>,
    pub name: String,
}

impl View for MessageBuilder {
    type V = MessageBuilderView;

    closed spec fn view(&self) -> MessageBuilderView {
        MessageBuilderView {
            group_id: self.group_id@,
            text: self.text@,
            file_path: opt_text(self.file_path),
            reply_to: opt_text(self.reply_to),
            edit_message_id: opt_text(self.edit_message_id),
            expires_at: self.expires_at,
        }
    }
}

/// What a text stands for as a signed 64-bit integer in decimal: the number,
/// or the parser's complaint in words.
pub uninterp spec fn parsed_i64(text: Seq<char>) -> Result<i64, Seq<char>>;

/// `str::parse::<i64>`: the number that the text writes in decimal, or the
/// `Display` text of the `ParseIntError`. The answer depends on the text
/// alone.
#[verifier::external_body]
fn parse_i64(text: &str) -> (r: Result<i64, String>)
    ensures
        match (r, parsed_i64(text@)) {
            (Ok(n), Ok(sn)) => n == sn,
            (Err(e), Err(se)) => e@ == se,
            _ => false,
        },
{
    match text.parse::<i64>() {
        Ok(n) => Ok(n),
        Err(e) => Err(e.to_string()),
    }
}

/// A time in seconds as a signed number; a time too late for 63 bits counts
/// as the latest.
pub open spec fn signed_time(t: u64) -> i64 {
    if t <= i64::MAX {
        t as i64
    } else {
        i64::MAX
    }
}

/// The parsed form of an optional text that should be a number.
pub open spec fn parsed_opt(text: Option<Seq<char>>) -> Option<Result<i64, Seq<char>>> {
    match text {
        Some(t) => Some(parsed_i64(t)),
        None => None,
    }
}

/// The message that the collected parts make. An edit carries the id of
/// the edited message where that id is a number, else the fresh id, and is
/// dated with the time of the edit. A reply must name a number.
pub open spec fn assembled(
    b: MessageBuilderView,
    message_id: i64,
    media: Option<(Seq<u8>, Seq<char>)>,
    sender_id: i64,
    timestamp: u64,
    edit: Option<Result<i64, Seq<char>>>,
    reply: Option<Result<i64, Seq<char>>>,
) -> Result<GroupTextMessageView, Seq<char>> {
    match reply {
        Some(Err(e)) => Err("Invalid reply_message_id: "@ + e),
        _ => Ok(
            GroupTextMessageView {
                message_id: match edit {
                    Some(Ok(id)) => id,
                    _ => message_id,
                },
                group_id: b.group_id,
                sender_id,
                date: signed_time(timestamp),
                text: b.text,
                media: match media {
                    Some(file) => Some(file.0),
                    None => None,
                },
                media_name: match media {
                    Some(file) => Some(file.1),
                    None => None,
                },
                reply_message_id: match reply {
                    Some(Ok(id)) => Some(id),
                    _ => None,
                },
                expires: b.expires_at,
                edit_date: if b.edit_message_id is Some {
                    Some(signed_time(timestamp))
                } else {
                    None
                },
            },
        ),
    }
}

pub open spec fn media_view(media: Option<MediaFile>) -> Option<(Seq<u8>, Seq<char>)> {
    match media {
        Some(f) => Some((f.data@, f.name@)),
        None => None,
    }
}

pub open spec fn parsed_view(p: Option<Result<i64, String>>) -> Option<Result<i64, Seq<char>>> {
    match p {
        Some(Ok(n)) => Some(Ok(n)),
        Some(Err(e)) => Some(Err(e@)),
        None => None,
    }
}

fn time_of(t: u64) -> (s: i64)
    ensures
        s == signed_time(t),
{
    if t <= 0x7fff_ffff_ffff_ffff {
        t as i64
    } else {
        i64::MAX
    }
}

impl MessageBuilder {
    /// A builder for a message with the given text to the given group.
    pub fn new(group_id: String, text: String) -> (b: MessageBuilder)
        ensures
            b@ == (MessageBuilderView {
                group_id: group_id@,
                text: text@,
                file_path: None,
                reply_to: None,
                edit_message_id: None,
                expires_at: None,
            }),
    {
        MessageBuilder {
            group_id,
            text,
            file_path: None,
            reply_to: None,
            edit_message_id: None,
            expires_at: None,
        }
    }

    /// Attaches the file at a path.
    pub fn with_file(self, file_path: String) -> (b: MessageBuilder)
        ensures
            b@ == (MessageBuilderView { file_path: Some(file_path@), ..self@ }),
    {
        let mut b = self;
        b.file_path = Some(file_path);
        b
    }

    /// Makes the message a reply to the message of an id.
    pub fn reply_to(self, message_id: String) -> (b: MessageBuilder)
        ensures
            b@ == (MessageBuilderView { reply_to: Some(message_id@), ..self@ }),
    {
        let mut b = self;
        b.reply_to = Some(message_id);
        b
    }

    /// Makes the message an edit of the message of an id.
    pub fn edit_message(self, message_id: String) -> (b: MessageBuilder)
        ensures
            b@ == (MessageBuilderView { edit_message_id: Some(message_id@), ..self@ }),
    {
        let mut b = self;
        b.edit_message_id = Some(message_id);
        b
    }

    /// Lets the message expire at a time.
    pub fn expires_at(self, timestamp: i64) -> (b: MessageBuilder)
        ensures
            b@ == (MessageBuilderView { expires_at: Some(timestamp), ..self@ }),
    {
        let mut b = self;
        b.expires_at = Some(timestamp);
        b
    }

    /// The path of the file to attach, if one was given. The caller reads
    /// the file and hands its content to [`Self::build`].
    pub fn file_path(&self) -> (p: Option<&String>)
        ensures
            match p {
                Some(path) => self@.file_path == Some(path@),
                None => self@.file_path is None,
            },
    {
        match &self.file_path {
            Some(p) => Some(p),
            None => None,
        }
    }

    /// Makes the message from the collected parts, the file's content, the
    /// time, and the ids as far as they were parsed; see [`assembled`].
    pub fn assemble(
        self,
        message_id: i64,
        media: Option<MediaFile>,
        sender_id: i64,
        timestamp: u64,
        edit: Option<Result<i64, String>>,
        reply: Option<Result<i64, String>>,
    ) -> (r: Result<GroupTextMessage, String>)
        ensures
            match (
                r,
                assembled(
                    self@,
                    message_id,
                    media_view(media),
                    sender_id,
                    timestamp,
                    parsed_view(edit),
                    parsed_view(reply),
                ),
            ) {
                (Ok(m), Ok(v)) => m@ == v,
                (Err(e), Err(se)) => e@ == se,
                _ => false,
            },
    {
        let final_message_id = match edit {
            Some(Ok(id)) => id,
            _ => message_id,
        };
        let edit_date = if self.edit_message_id.is_some() {
            Some(time_of(timestamp))
        } else {
            None
        };
        let reply_message_id = match reply {
            Some(Ok(id)) => Some(id),
            Some(Err(e)) => {
                return Err(join_text("Invalid reply_message_id: ", e.as_str()));
            },
            None => None,
        };
        let (media, media_name) = match media {
            Some(file) => (Some(file.data), Some(file.name)),
            None => (None, None),
        };
        Ok(
            GroupTextMessage {
                message_id: final_message_id,
                group_id: self.group_id,
                sender_id,
                date: time_of(timestamp),
                text: self.text,
                media,
                media_name,
                reply_message_id,
                edit_date,
                expires: self.expires_at,
            },
        )
    }

    /// Makes the message, dated now. `media` is the content of the file at
    /// [`Self::file_path`], if a file was given. The outcome is the one of
    /// [`Self::assemble`] for some time.
    pub fn build(self, message_id: i64, media: Option<MediaFile>, sender_id: i64) -> (r: Result<
        GroupTextMessage,
        String,
    >)
        ensures
            exists|timestamp: u64|
                match (
                    r,
                    #[trigger] assembled(
                        self@,
                        message_id,
                        media_view(media),
                        sender_id,
                        timestamp,
                        parsed_opt(self@.edit_message_id),
                        parsed_opt(self@.reply_to),
                    ),
                ) {
                    (Ok(m), Ok(v)) => m@ == v,
                    (Err(e), Err(se)) => e@ == se,
                    _ => false,
                },
    {
        let timestamp = now_secs();
        let edit = match &self.edit_message_id {
            Some(id) => Some(parse_i64(id.as_str())),
            None => None,
        };
        let reply = match &self.reply_to {
            Some(id) => Some(parse_i64(id.as_str())),
            None => None,
        };
        let ghost collected = self@;
        let r = self.assemble(message_id, media, sender_id, timestamp, edit, reply);
        assert(parsed_view(edit) == parsed_opt(collected.edit_message_id));
        assert(parsed_view(reply) == parsed_opt(collected.reply_to));
        r
    }
}

} // verus!
