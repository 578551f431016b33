//! Stored messages and media. Media is addressed by its content: the id of
//! a blob is the SHA-256 of its bytes in lower-case hex, so that equal bytes
//! are stored once.

use vstd::prelude::*;
use vstd::utf8::encode_utf8;
use crate::message::{GroupTextMessageView, UserGroupMessage, UserGroupMessageView};
use crate::group::{base64_encode, base64_text};
use crate::message::GroupTextMessage;
use crate::support::text::{
    copy_bytes, copy_opt_text, ends_with, join_text, lossy_text, lowercase_text, opt_bytes,
    opt_text, text_ends_with, text_from_utf8_lossy, to_lowercase,
};

verus! {

/// The SHA-256 digest of a byte string: 32 bytes.
pub uninterp spec fn sha256_digest(data: Seq<u8>) -> Seq<u8>;

/// `sha2::Sha256::digest`: the digest of the bytes. It depends on the bytes
/// alone.
#[verifier::external_body]
fn sha256(data: &[u8]) -> (digest: [u8; 32])
    ensures
        digest@ == sha256_digest(data@),
{
    <sha2::Sha256 as sha2::Digest>::digest(data).into()
}

/// The lower-case hex digit of a number below sixteen.
pub open spec fn hex_digit(n: nat) -> char {
    if n == 0 {
        '0'
    } else if n == 1 {
        '1'
    } else if n == 2 {
        '2'
    } else if n == 3 {
        '3'
    } else if n == 4 {
        '4'
    } else if n == 5 {
        '5'
    } else if n == 6 {
        '6'
    } else if n == 7 {
        '7'
    } else if n == 8 {
        '8'
    } else if n == 9 {
        '9'
    } else if n == 10 {
        'a'
    } else if n == 11 {
        'b'
    } else if n == 12 {
        'c'
    } else if n == 13 {
        'd'
    } else if n == 14 {
        'e'
    } else {
        'f'
    }
}

/// Bytes in lower-case hex: two digits for each byte, the high one first.
pub open spec fn hex_text(bytes: Seq<u8>) -> Seq<char>
    decreases bytes.len(),
{
    if bytes.len() == 0 {
        Seq::empty()
    } else {
        hex_text(bytes.drop_last()).push(hex_digit(bytes.last() as nat / 16)).push(
            hex_digit(bytes.last() as nat % 16),
        )
    }
}

/// The id under which media is stored.
pub open spec fn spec_media_id(media: Seq<u8>) -> Seq<char> {
    hex_text(sha256_digest(media))
}

fn digit_text(n: u8) -> (s: &'static str)
    requires
        n < 16,
    ensures
        s@ == seq![hex_digit(n as nat)],
{
    proof {
        reveal_strlit("0");
        reveal_strlit("1");
        reveal_strlit("2");
        reveal_strlit("3");
        reveal_strlit("4");
        reveal_strlit("5");
        reveal_strlit("6");
        reveal_strlit("7");
        reveal_strlit("8");
        reveal_strlit("9");
        reveal_strlit("a");
        reveal_strlit("b");
        reveal_strlit("c");
        reveal_strlit("d");
        reveal_strlit("e");
        reveal_strlit("f");
    }
    let s = if n == 0 {
        "0"
    } else if n == 1 {
        "1"
    } else if n == 2 {
        "2"
    } else if n == 3 {
        "3"
    } else if n == 4 {
        "4"
    } else if n == 5 {
        "5"
    } else if n == 6 {
        "6"
    } else if n == 7 {
        "7"
    } else if n == 8 {
        "8"
    } else if n == 9 {
        "9"
    } else if n == 10 {
        "a"
    } else if n == 11 {
        "b"
    } else if n == 12 {
        "c"
    } else if n == 13 {
        "d"
    } else if n == 14 {
        "e"
    } else {
        "f"
    };
    assert(s@ =~= seq![hex_digit(n as nat)]);
    s
}

/// Writes bytes in lower-case hex.
pub fn to_hex(bytes: &[u8]) -> (s: String)
    ensures
        s@ == hex_text(bytes@),
{
    let mut s = String::new();
    let mut i: usize = 0;
    assert(bytes@.subrange(0, 0) =~= Seq::<u8>::empty());
    while i < bytes.len()
        invariant
            i <= bytes.len(),
            s@ == hex_text(bytes@.subrange(0, i as int)),
        decreases bytes.len() - i,
    {
        let b = bytes[i];
        proof {
            assert(bytes@.subrange(0, i + 1).drop_last() =~= bytes@.subrange(0, i as int));
        }
        let high = join_text(s.as_str(), digit_text(b / 16));
        let both = join_text(high.as_str(), digit_text(b % 16));
        assert(both@ =~= hex_text(bytes@.subrange(0, i + 1)));
        s = both;
        i += 1;
    }
    assert(bytes@.subrange(0, bytes@.len() as int) =~= bytes@);
    s
}

/// The id under which media is stored: its SHA-256 in lower-case hex.
pub fn media_id(media: &[u8]) -> (id: String)
    ensures
        id@ == spec_media_id(media@),
{
    let digest = sha256(media);
    to_hex(digest.as_slice())
}

/// A row of the message table.
#[derive(Debug, Clone, PartialEq)]
pub struct MessageRow {
    pub message_id: i64,
    pub group_id: Vec<u8>,
    pub sender_id: i64,
    /// The text, as bytes.
    pub content: Vec<u8>,
    pub media_id: Option<String>,
    pub media_name: Option<String>,
    pub timestamp: i64,
    pub reply_message_id: Option<i64>,
    pub expires: Option<i64>,
    pub edit_date: Option<i64>,
}

/// A row of the media table.
#[derive(Debug, Clone, PartialEq)]
pub struct MediaRow {
    pub media_id: String,
    pub media_data: Vec<u8>,
    pub media_name: Option<String>,
    pub media_size: i64,
    pub message_id: i64,
    pub group_id: Vec<u8>,
    pub created_at: i64,
}

/// What saving a message does to the store.
#[derive(Debug, Clone, PartialEq)]
pub enum SavePlan {
    /// Replace the content of a stored message and set the date of the
    /// edit, in one statement.
    Edit { message_id: i64, group_id: Vec<u8>, content: Vec<u8>, edit_date: i64 },
    /// Insert the message; first the media, where the message has media
    /// that is not stored yet. Both in one transaction.
    Insert { media: Option<MediaRow>, message: MessageRow },
}

pub struct MessageRowView {
    pub message_id: i64,
    pub group_id: Seq<u8>,
    pub sender_id: i64,
    pub content: Seq<u8>,
    pub media_id: Option<Seq<char>>,
    pub media_name: Option<Seq<char>>,
    pub timestamp: i64,
    pub reply_message_id: Option<i64>,
    pub expires: Option<i64>,
    pub edit_date: Option<i64>,
}

pub struct MediaRowView {
    pub media_id: Seq<char>,
    pub media_data: Seq<u8>,
    pub media_name: Option<Seq<char>>,
    pub media_size: i64,
    pub message_id: i64,
    pub group_id: Seq<u8>,
    pub created_at: i64,
}

pub enum SavePlanView {
    Edit { message_id: i64, group_id: Seq<u8>, content: Seq<u8>, edit_date: i64 },
    Insert { media: Option<MediaRowView>, message: MessageRowView },
}

impl View for MessageRow {
    type V = MessageRowView;

    open spec fn view(&self) -> MessageRowView {
        MessageRowView {
            message_id: self.message_id,
            group_id: self.group_id@,
            sender_id: self.sender_id,
            content: self.content@,
            media_id: opt_text(self.media_id),
            media_name: opt_text(self.media_name),
            timestamp: self.timestamp,
            reply_message_id: self.reply_message_id,
            expires: self.expires,
            edit_date: self.edit_date,
        }
    }
}

impl View for MediaRow {
    type V = MediaRowView;

    open spec fn view(&self) -> MediaRowView {
        MediaRowView {
            media_id: self.media_id@,
            media_data: self.media_data@,
            media_name: opt_text(self.media_name),
            media_size: self.media_size,
            message_id: self.message_id,
            group_id: self.group_id@,
            created_at: self.created_at,
        }
    }
}

impl View for SavePlan {
    type V = SavePlanView;

    open spec fn view(&self) -> SavePlanView {
        match self {
            SavePlan::Edit { message_id, group_id, content, edit_date } => SavePlanView::Edit {
                message_id: *message_id,
                group_id: group_id@,
                content: content@,
                edit_date: *edit_date,
            },
            SavePlan::Insert { media, message } => SavePlanView::Insert {
                media: match media {
                    Some(m) => Some(m@),
                    None => None,
                },
                message: message@,
            },
        }
    }
}

/// The size of media as the store records it.
pub open spec fn stored_size(len: nat) -> i64 {
    if len <= i64::MAX {
        len as i64
    } else {
        i64::MAX
    }
}

/// What saving a message does. A message with an edit date replaces the
/// content of the stored message. Any other message is inserted, with the
/// id of its media if it has media; the media itself is inserted only where
/// the store does not hold it yet.
pub open spec fn spec_save_plan(m: GroupTextMessageView, group_id: Seq<u8>, media_stored: bool) -> SavePlanView {
    match m.edit_date {
        Some(edit_date) => SavePlanView::Edit {
            message_id: m.message_id,
            group_id,
            content: encode_utf8(m.text),
            edit_date,
        },
        None => SavePlanView::Insert {
            media: match m.media {
                Some(data) => if media_stored {
                    None
                } else {
                    Some(
                        MediaRowView {
                            media_id: spec_media_id(data),
                            media_data: data,
                            media_name: m.media_name,
                            media_size: stored_size(data.len()),
                            message_id: m.message_id,
                            group_id,
                            created_at: m.date,
                        },
                    )
                },
                None => None,
            },
            message: MessageRowView {
                message_id: m.message_id,
                group_id,
                sender_id: m.sender_id,
                content: encode_utf8(m.text),
                media_id: match m.media {
                    Some(data) => Some(spec_media_id(data)),
                    None => None,
                },
                media_name: m.media_name,
                timestamp: m.date,
                reply_message_id: m.reply_message_id,
                expires: m.expires,
                edit_date: m.edit_date,
            },
        },
    }
}

/// The id of a message's media, if it has media. The store is asked for
/// this id before the message is saved.
pub fn message_media_id(message: &UserGroupMessage) -> (id: Option<String>)
    ensures
        match (id, message@) {
            (Some(i), UserGroupMessageView::TextMessage(m)) => m.media matches Some(data) && i@
                == spec_media_id(data),
            (None, UserGroupMessageView::TextMessage(m)) => m.media is None,
        },
{
    match message {
        UserGroupMessage::TextMessage(m) => match &m.media {
            Some(data) => Some(media_id(data.as_slice())),
            None => None,
        },
    }
}

/// Plans the saving of a message, given whether the store already holds
/// media of the message's media id; see [`spec_save_plan`].
pub fn save_plan(message: &UserGroupMessage, group_id: &[u8], media_stored: bool) -> (plan: SavePlan)
    ensures
        message@ matches UserGroupMessageView::TextMessage(m) && plan@ == spec_save_plan(
            m,
            group_id@,
            media_stored,
        ),
{
    match message {
        UserGroupMessage::TextMessage(m) => {
            let content = copy_bytes(m.text.as_str().as_bytes());
            match m.edit_date {
                Some(edit_date) => SavePlan::Edit {
                    message_id: m.message_id,
                    group_id: copy_bytes(group_id),
                    content,
                    edit_date,
                },
                None => {
                    let id = match &m.media {
                        Some(data) => Some(media_id(data.as_slice())),
                        None => None,
                    };
                    let media = match &m.media {
                        Some(data) => {
                            if media_stored {
                                None
                            } else {
                                let size: i64 = if data.len() as u64 <= 0x7fff_ffff_ffff_ffff {
                                    data.len() as i64
                                } else {
                                    i64::MAX
                                };
                                Some(
                                    MediaRow {
                                        media_id: media_id(data.as_slice()),
                                        media_data: copy_bytes(data.as_slice()),
                                        media_name: copy_opt_text(&m.media_name),
                                        media_size: size,
                                        message_id: m.message_id,
                                        group_id: copy_bytes(group_id),
                                        created_at: m.date,
                                    },
                                )
                            }
                        },
                        None => None,
                    };
                    SavePlan::Insert {
                        media,
                        message: MessageRow {
                            message_id: m.message_id,
                            group_id: copy_bytes(group_id),
                            sender_id: m.sender_id,
                            content,
                            media_id: id,
                            media_name: copy_opt_text(&m.media_name),
                            timestamp: m.date,
                            reply_message_id: m.reply_message_id,
                            expires: m.expires,
                            edit_date: m.edit_date,
                        },
                    }
                },
            }
        },
    }
}

/// Stored media is addressed by content: whatever the message, a media row
/// in a plan carries the SHA-256 of its own data, in hex, as id, and so
/// does the message row that goes with it. Media that the store already
/// holds is not inserted again.
pub proof fn lemma_media_addressed_by_content(
    m: GroupTextMessageView,
    group_id: Seq<u8>,
    media_stored: bool,
)
    ensures
        spec_save_plan(m, group_id, media_stored) matches SavePlanView::Insert { media, message }
            ==> {
            &&& media matches Some(row) ==> row.media_id == spec_media_id(row.media_data)
                && message.media_id == Some(row.media_id) && !media_stored
            &&& media_stored ==> media is None
            &&& message.media_id matches Some(id) ==> m.media matches Some(data) && id
                == spec_media_id(data)
        },
{
}

/// Two messages with the same media get the same media id.
pub proof fn lemma_same_media_same_id(
    a: GroupTextMessageView,
    b: GroupTextMessageView,
    group_id: Seq<u8>,
    stored_a: bool,
    stored_b: bool,
)
    requires
        a.media is Some,
        a.media == b.media,
        a.edit_date is None,
        b.edit_date is None,
    ensures
        spec_save_plan(a, group_id, stored_a)->Insert_message.media_id == spec_save_plan(
            b,
            group_id,
            stored_b,
        )->Insert_message.media_id,
{
}

/// The largest media that is handed out with a message, in bytes: 1 MiB.
pub const MAX_INLINE_SIZE: i64 = 1048576;

/// Whether a name is the one of an image that can be shown: it ends, in
/// lower case, with one of six extensions.
pub open spec fn displayable_name(name: Seq<char>) -> bool {
    let lower = lowercase_text(name);
    ends_with(lower, ".jpg"@) || ends_with(lower, ".jpeg"@) || ends_with(lower, ".png"@)
        || ends_with(lower, ".gif"@) || ends_with(lower, ".webp"@) || ends_with(lower, ".svg"@)
}

/// Whether media is handed out with its message: an image that can be
/// shown and is not larger than `MAX_INLINE_SIZE`.
pub open spec fn spec_inline_media(media_size: i64, media_name: Option<Seq<char>>) -> bool {
    media_size <= MAX_INLINE_SIZE && (media_name matches Some(name) && displayable_name(name))
}

/// Decides whether media is handed out with its message.
pub fn inline_media(media_size: i64, media_name: &Option<String>) -> (r: bool)
    ensures
        r == spec_inline_media(media_size, opt_text(*media_name)),
{
    let displayable = match media_name {
        Some(name) => {
            let lower = to_lowercase(name.as_str());
            text_ends_with(lower.as_str(), ".jpg") || text_ends_with(lower.as_str(), ".jpeg")
                || text_ends_with(lower.as_str(), ".png") || text_ends_with(lower.as_str(), ".gif")
                || text_ends_with(lower.as_str(), ".webp") || text_ends_with(
                lower.as_str(),
                ".svg",
            )
        },
        None => false,
    };
    media_size <= MAX_INLINE_SIZE && displayable
}

/// The message that a row of the message table stands for, with the media
/// that is handed out with it, if any. The group is named in base64; the
/// text is read leniently.
pub fn message_of_row(row: &MessageRow, media: Option<Vec<u8>>) -> (m: GroupTextMessage)
    ensures
        m@ == (GroupTextMessageView {
            message_id: row.message_id,
            group_id: base64_text(row.group_id@),
            sender_id: row.sender_id,
            date: row.timestamp,
            text: lossy_text(row.content@),
            media: opt_bytes(media),
            media_name: opt_text(row.media_name),
            reply_message_id: row.reply_message_id,
            expires: row.expires,
            edit_date: row.edit_date,
        }),
{
    GroupTextMessage {
        message_id: row.message_id,
        group_id: base64_encode(row.group_id.as_slice()),
        sender_id: row.sender_id,
        date: row.timestamp,
        text: text_from_utf8_lossy(row.content.as_slice()),
        media,
        media_name: copy_opt_text(&row.media_name),
        reply_message_id: row.reply_message_id,
        expires: row.expires,
        edit_date: row.edit_date,
    }
}

/// A row that was planned for a text reads back as that text.
pub proof fn lemma_saved_text_reads_back(
    m: GroupTextMessageView,
    group_id: Seq<u8>,
    media_stored: bool,
)
    requires
        m.edit_date is None,
    ensures
        vstd::utf8::valid_utf8(spec_save_plan(m, group_id, media_stored)->Insert_message.content),
        vstd::utf8::decode_utf8(spec_save_plan(m, group_id, media_stored)->Insert_message.content)
            == m.text,
{
    vstd::utf8::encode_utf8_valid_utf8(m.text);
    vstd::utf8::encode_utf8_decode_utf8(m.text);
}

} // verus!
