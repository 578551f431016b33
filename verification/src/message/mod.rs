//! Application messages and their binary form: one tag byte, a fixed header
//! of ten little-endian 64-bit fields, then the group id, the text, the
//! media bytes and the media name.

pub mod builder;
pub mod caches;
pub mod media;

use vstd::prelude::*;
use vstd::bytes::{spec_u64_from_le_bytes, spec_u64_to_le_bytes};
use vstd::utf8::{decode_utf8, encode_utf8, valid_utf8};
use crate::wire::bytes::{
    from_le_i64, get_i64_le, get_u64_le, le_i64, lemma_le_i64, lemma_le_u64, push_all,
    push_i64_le, push_u64_le, take_bytes,
};
use crate::support::text::{join_text, opt_bytes, opt_text, text_from_utf8, u8_to_text, utf8_error_text, decimal_text};

verus! {

/// The size of the fixed header, in bytes.
pub const HEADER_SIZE: usize = 80;

/// The fixed header of a text message.
#[derive(Debug, Clone, Copy, PartialEq, Eq, Structural)]
pub struct GroupTextMessageHeader {
    pub message_id: i64,
    pub sender_id: i64,
    pub date: i64,
    pub group_id_len: u64,
    pub text_len: u64,
    pub media_len: u64,
    pub media_name_len: u64,
    /// The message replied to, or -1.
    pub reply_message_id: i64,
    /// The time of expiry, or -1.
    pub expires: i64,
    /// The time of the last edit, or -1.
    pub edit_date: i64,
}

/// The fixed header of a configuration message.
#[derive(Debug, Clone, Copy, PartialEq, Eq, Structural)]
pub struct GroupConfigMessageHeader {
    pub message_id: i64,
    pub group_id: i64,
    pub sender_id: i64,
    pub date: i64,
}

/// A text message of a group, with optional media.
#[derive(Debug, Clone, PartialEq)]
pub struct GroupTextMessage {
    pub message_id: i64,
    pub group_id: String,
    pub sender_id: i64,
    pub date: i64,
    pub text: String,
    pub media: Option<Vec<u8>>,
    pub media_name: Option<String>,
    pub reply_message_id: Option<i64>,
    pub expires: Option<i64>,
    pub edit_date: Option<i64>,
}

pub struct GroupTextMessageView {
    pub message_id: i64,
    pub group_id: Seq<char>,
    pub sender_id: i64,
    pub date: i64,
    pub text: Seq<char>,
    pub media: Option<Seq<u8>>,
    pub media_name: Option<Seq<char>>,
    pub reply_message_id: Option<i64>,
    pub expires: Option<i64>,
    pub edit_date: Option<i64>,
}

impl View for GroupTextMessage {
    type V = GroupTextMessageView;

    open spec fn view(&self) -> GroupTextMessageView {
        GroupTextMessageView {
            message_id: self.message_id,
            group_id: self.group_id@,
            sender_id: self.sender_id,
            date: self.date,
            text: self.text@,
            media: opt_bytes(self.media),
            media_name: opt_text(self.media_name),
            reply_message_id: self.reply_message_id,
            expires: self.expires,
            edit_date: self.edit_date,
        }
    }
}

/// An optional number on the wire: absent is written -1.
pub open spec fn or_minus_one(v: Option<i64>) -> i64 {
    match v {
        Some(x) => x,
        None => -1i64,
    }
}

/// A number off the wire: -1 means absent, every other number is itself.
pub open spec fn unless_minus_one(v: i64) -> Option<i64> {
    if v == -1i64 {
        None
    } else {
        Some(v)
    }
}

/// The bytes of optional media: none where there is none.
pub open spec fn media_bytes(m: Option<Seq<u8>>) -> Seq<u8> {
    match m {
        Some(b) => b,
        None => Seq::empty(),
    }
}

/// The bytes of an optional name: none where there is none.
pub open spec fn name_bytes(n: Option<Seq<char>>) -> Seq<u8> {
    match n {
        Some(t) => encode_utf8(t),
        None => Seq::empty(),
    }
}

/// The header on the wire: its ten fields, each in eight bytes, least
/// significant byte first.
pub open spec fn header_bytes(h: GroupTextMessageHeader) -> Seq<u8> {
    le_i64(h.message_id) + le_i64(h.sender_id) + le_i64(h.date) + spec_u64_to_le_bytes(
        h.group_id_len,
    ) + spec_u64_to_le_bytes(h.text_len) + spec_u64_to_le_bytes(h.media_len)
        + spec_u64_to_le_bytes(h.media_name_len) + le_i64(h.reply_message_id) + le_i64(h.expires)
        + le_i64(h.edit_date)
}

/// The header that the first eighty bytes stand for.
pub open spec fn parse_header(data: Seq<u8>) -> GroupTextMessageHeader
    recommends
        data.len() >= HEADER_SIZE,
{
    GroupTextMessageHeader {
        message_id: from_le_i64(data.subrange(0, 8)),
        sender_id: from_le_i64(data.subrange(8, 16)),
        date: from_le_i64(data.subrange(16, 24)),
        group_id_len: spec_u64_from_le_bytes(data.subrange(24, 32)),
        text_len: spec_u64_from_le_bytes(data.subrange(32, 40)),
        media_len: spec_u64_from_le_bytes(data.subrange(40, 48)),
        media_name_len: spec_u64_from_le_bytes(data.subrange(48, 56)),
        reply_message_id: from_le_i64(data.subrange(56, 64)),
        expires: from_le_i64(data.subrange(64, 72)),
        edit_date: from_le_i64(data.subrange(72, 80)),
    }
}

impl GroupTextMessageView {
    /// The header that goes with the message.
    pub open spec fn header(self) -> GroupTextMessageHeader {
        GroupTextMessageHeader {
            message_id: self.message_id,
            sender_id: self.sender_id,
            date: self.date,
            group_id_len: encode_utf8(self.group_id).len() as u64,
            text_len: encode_utf8(self.text).len() as u64,
            media_len: media_bytes(self.media).len() as u64,
            media_name_len: name_bytes(self.media_name).len() as u64,
            reply_message_id: or_minus_one(self.reply_message_id),
            expires: or_minus_one(self.expires),
            edit_date: or_minus_one(self.edit_date),
        }
    }

    /// The message on the wire.
    pub open spec fn to_bytes(self) -> Seq<u8> {
        header_bytes(self.header()) + encode_utf8(self.group_id) + encode_utf8(self.text)
            + media_bytes(self.media) + name_bytes(self.media_name)
    }

    /// What the wire form tells apart from an absent part: optional
    /// numbers other than -1, which stands for an absent one, and media and
    /// media names that are not empty.
    pub open spec fn reads_back(self) -> bool {
        &&& self.reply_message_id != Some(-1i64)
        &&& self.expires != Some(-1i64)
        &&& self.edit_date != Some(-1i64)
        &&& self.media matches Some(b) ==> b.len() > 0
        &&& self.media_name matches Some(t) ==> encode_utf8(t).len() > 0
    }

    /// What the wire form can carry and give back: what reads back, in
    /// parts whose lengths fit 64 bits.
    pub open spec fn round_trips(self) -> bool {
        &&& self.reads_back()
        &&& encode_utf8(self.group_id).len() <= u64::MAX
        &&& encode_utf8(self.text).len() <= u64::MAX
        &&& media_bytes(self.media).len() <= u64::MAX
        &&& name_bytes(self.media_name).len() <= u64::MAX
    }
}

/// The error of a part that is no UTF-8: what the part is called, then what
/// the standard library says of the bytes.
pub open spec fn bad_text(what: Seq<char>, bytes: Seq<u8>) -> Seq<char> {
    what + utf8_error_text(bytes)
}

/// The message that bytes stand for, or why they stand for none. The header
/// comes first; each part must lie within the data and, where it is text,
/// be UTF-8. Media and media name are absent where their length is zero.
/// Bytes behind the last part are not looked at.
pub open spec fn parse_message(data: Seq<u8>) -> Result<GroupTextMessageView, Seq<char>> {
    if data.len() < HEADER_SIZE {
        Err("Data too short for header"@)
    } else {
        let h = parse_header(data);
        let g0 = HEADER_SIZE as int;
        let g1 = g0 + h.group_id_len;
        let t1 = g1 + h.text_len;
        let m1 = if h.media_len > 0 {
            t1 + h.media_len
        } else {
            t1
        };
        let n1 = m1 + h.media_name_len;
        if g1 > data.len() {
            Err("Data too short for group_id"@)
        } else if !valid_utf8(data.subrange(g0, g1)) {
            Err(bad_text("Invalid UTF-8 in group_id: "@, data.subrange(g0, g1)))
        } else if t1 > data.len() {
            Err("Data too short for text"@)
        } else if !valid_utf8(data.subrange(g1, t1)) {
            Err(bad_text("Invalid UTF-8 in text: "@, data.subrange(g1, t1)))
        } else if h.media_len > 0 && m1 > data.len() {
            Err("Data too short for media"@)
        } else if h.media_name_len > 0 && n1 > data.len() {
            Err("Data too short for media_name"@)
        } else if h.media_name_len > 0 && !valid_utf8(data.subrange(m1, n1)) {
            Err(bad_text("Invalid UTF-8 in media name: "@, data.subrange(m1, n1)))
        } else {
            Ok(
                GroupTextMessageView {
                    message_id: h.message_id,
                    group_id: decode_utf8(data.subrange(g0, g1)),
                    sender_id: h.sender_id,
                    date: h.date,
                    text: decode_utf8(data.subrange(g1, t1)),
                    media: if h.media_len > 0 {
                        Some(data.subrange(t1, m1))
                    } else {
                        None
                    },
                    media_name: if h.media_name_len > 0 {
                        Some(decode_utf8(data.subrange(m1, n1)))
                    } else {
                        None
                    },
                    reply_message_id: unless_minus_one(h.reply_message_id),
                    expires: unless_minus_one(h.expires),
                    edit_date: unless_minus_one(h.edit_date),
                },
            )
        }
    }
}

fn write_header(out: &mut Vec<u8>, h: &GroupTextMessageHeader)
    ensures
        final(out)@ == old(out)@ + header_bytes(*h),
{
    push_i64_le(out, h.message_id);
    push_i64_le(out, h.sender_id);
    push_i64_le(out, h.date);
    push_u64_le(out, h.group_id_len);
    push_u64_le(out, h.text_len);
    push_u64_le(out, h.media_len);
    push_u64_le(out, h.media_name_len);
    push_i64_le(out, h.reply_message_id);
    push_i64_le(out, h.expires);
    push_i64_le(out, h.edit_date);
    assert(out@ =~= old(out)@ + header_bytes(*h));
}

fn read_header(data: &[u8]) -> (h: GroupTextMessageHeader)
    requires
        data@.len() >= HEADER_SIZE,
    ensures
        h == parse_header(data@),
{
    GroupTextMessageHeader {
        message_id: get_i64_le(data, 0),
        sender_id: get_i64_le(data, 8),
        date: get_i64_le(data, 16),
        group_id_len: get_u64_le(data, 24),
        text_len: get_u64_le(data, 32),
        media_len: get_u64_le(data, 40),
        media_name_len: get_u64_le(data, 48),
        reply_message_id: get_i64_le(data, 56),
        expires: get_i64_le(data, 64),
        edit_date: get_i64_le(data, 72),
    }
}

fn sentinel(v: Option<i64>) -> (x: i64)
    ensures
        x == or_minus_one(v),
{
    match v {
        Some(x) => x,
        None => -1,
    }
}

fn optional(v: i64) -> (x: Option<i64>)
    ensures
        x == unless_minus_one(v),
{
    if v == -1 {
        None
    } else {
        Some(v)
    }
}

/// The text in the bytes from `from` up to `to`, or the error that names
/// the part.
fn text_part(data: &[u8], from: usize, to: usize, what: &str) -> (r: Result<String, String>)
    requires
        from <= to <= data@.len(),
    ensures
        match r {
            Ok(t) => valid_utf8(data@.subrange(from as int, to as int)) && t@ == decode_utf8(
                data@.subrange(from as int, to as int),
            ),
            Err(e) => !valid_utf8(data@.subrange(from as int, to as int)) && e@ == bad_text(
                what@,
                data@.subrange(from as int, to as int),
            ),
        },
{
    match text_from_utf8(take_bytes(data, from, to)) {
        Ok(t) => Ok(t),
        Err(e) => Err(join_text(what, e.as_str())),
    }
}

impl GroupTextMessage {
    /// The message on the wire. It reads back as itself, unless a part
    /// cannot be told from an absent one.
    pub fn to_bytes(&self) -> (bytes: Vec<u8>)
        ensures
            bytes@ == self@.to_bytes(),
            self@.reads_back() ==> parse_message(bytes@) == Ok::<
                GroupTextMessageView,
                Seq<char>,
            >(self@),
    {
        let group_id_bytes = self.group_id.as_str().as_bytes();
        let text_bytes = self.text.as_str().as_bytes();

        let empty: Vec<u8> = Vec::new();
        let media_part: &[u8] = match &self.media {
            Some(v) => v.as_slice(),
            None => empty.as_slice(),
        };
        let name_part: &[u8] = match &self.media_name {
            Some(s) => s.as_str().as_bytes(),
            None => empty.as_slice(),
        };
        let header = GroupTextMessageHeader {
            message_id: self.message_id,
            sender_id: self.sender_id,
            date: self.date,
            group_id_len: group_id_bytes.len() as u64,
            text_len: text_bytes.len() as u64,
            media_len: media_part.len() as u64,
            media_name_len: name_part.len() as u64,
            reply_message_id: sentinel(self.reply_message_id),
            expires: sentinel(self.expires),
            edit_date: sentinel(self.edit_date),
        };
        assert(header == self@.header());
        let lengths: (usize, usize, usize, usize) = (
            group_id_bytes.len(),
            text_bytes.len(),
            media_part.len(),
            name_part.len(),
        );
        proof {
            if self@.reads_back() {
                assert(encode_utf8(self@.group_id).len() == lengths.0);
                assert(encode_utf8(self@.text).len() == lengths.1);
                assert(media_bytes(self@.media).len() == lengths.2);
                assert(name_bytes(self@.media_name).len() == lengths.3);
                assert(self@.round_trips());
                lemma_message_round_trip(self@, Seq::empty());
                assert(self@.to_bytes() + Seq::<u8>::empty() =~= self@.to_bytes());
            }
        }
        let mut bytes: Vec<u8> = Vec::new();
        write_header(&mut bytes, &header);
        push_all(&mut bytes, group_id_bytes);
        push_all(&mut bytes, text_bytes);
        push_all(&mut bytes, media_part);
        push_all(&mut bytes, name_part);
        assert(bytes@ =~= self@.to_bytes());
        bytes
    }

    /// Reads a message from its wire form.
    pub fn from_bytes(data: &[u8]) -> (r: Result<GroupTextMessage, String>)
        ensures
            match (r, parse_message(data@)) {
                (Ok(m), Ok(v)) => m@ == v,
                (Err(e), Err(se)) => e@ == se,
                _ => false,
            },
    {
        let total = data.len();
        if total < HEADER_SIZE {
            return Err("Data too short for header".to_string());
        }
        let header = read_header(data);
        let mut offset: usize = HEADER_SIZE;

        if header.group_id_len > (total - offset) as u64 {
            return Err("Data too short for group_id".to_string());
        }
        let group_id_end: usize = offset + header.group_id_len as usize;
        let group_id = match text_part(data, offset, group_id_end, "Invalid UTF-8 in group_id: ") {
            Ok(t) => t,
            Err(e) => {
                return Err(e);
            },
        };
        offset = group_id_end;

        if header.text_len > (total - offset) as u64 {
            return Err("Data too short for text".to_string());
        }
        let text_end: usize = offset + header.text_len as usize;
        let text = match text_part(data, offset, text_end, "Invalid UTF-8 in text: ") {
            Ok(t) => t,
            Err(e) => {
                return Err(e);
            },
        };
        offset = text_end;

        let media = if header.media_len > 0 {
            if header.media_len > (total - offset) as u64 {
                return Err("Data too short for media".to_string());
            }
            let media_end: usize = offset + header.media_len as usize;
            let media_bytes = take_bytes(data, offset, media_end);
            offset = media_end;
            Some(media_bytes)
        } else {
            None
        };

        let media_name = if header.media_name_len > 0 {
            if header.media_name_len > (total - offset) as u64 {
                return Err("Data too short for media_name".to_string());
            }
            let media_name_end: usize = offset + header.media_name_len as usize;
            match text_part(data, offset, media_name_end, "Invalid UTF-8 in media name: ") {
                Ok(t) => Some(t),
                Err(e) => {
                    return Err(e);
                },
            }
        } else {
            None
        };

        Ok(
            GroupTextMessage {
                message_id: header.message_id,
                group_id,
                sender_id: header.sender_id,
                date: header.date,
                text,
                media,
                media_name,
                reply_message_id: optional(header.reply_message_id),
                expires: optional(header.expires),
                edit_date: optional(header.edit_date),
            },
        )
    }
}

/// An application message. Text messages are the only kind.
#[derive(Debug, Clone, PartialEq)]
pub enum UserGroupMessage {
    TextMessage(GroupTextMessage),
}

pub enum UserGroupMessageView {
    TextMessage(GroupTextMessageView),
}

impl View for UserGroupMessage {
    type V = UserGroupMessageView;

    open spec fn view(&self) -> UserGroupMessageView {
        match self {
            UserGroupMessage::TextMessage(m) => UserGroupMessageView::TextMessage(m@),
        }
    }
}

impl UserGroupMessageView {
    /// The message on the wire: the tag of its kind, then the message.
    pub open spec fn to_bytes(self) -> Seq<u8> {
        match self {
            UserGroupMessageView::TextMessage(m) => seq![0u8] + m.to_bytes(),
        }
    }
}

/// The application message that bytes stand for, or why they stand for
/// none: the first byte must be the tag of a known kind, and the rest a
/// message of that kind.
pub open spec fn parse_user_message(data: Seq<u8>) -> Result<UserGroupMessageView, Seq<char>> {
    if data.len() == 0 {
        Err("Empty data"@)
    } else if data[0] != 0 {
        Err("Unknown message type: "@ + decimal_text(data[0] as nat))
    } else {
        match parse_message(data.subrange(1, data.len() as int)) {
            Ok(m) => Ok(UserGroupMessageView::TextMessage(m)),
            Err(e) => Err(e),
        }
    }
}

impl UserGroupMessage {
    /// The message on the wire. It reads back as itself, unless a part
    /// cannot be told from an absent one.
    pub fn to_bytes(&self) -> (bytes: Vec<u8>)
        ensures
            bytes@ == self@.to_bytes(),
            (self@ matches UserGroupMessageView::TextMessage(t) && t.reads_back())
                ==> parse_user_message(bytes@) == Ok::<UserGroupMessageView, Seq<char>>(self@),
    {
        let mut bytes: Vec<u8> = Vec::new();
        match self {
            UserGroupMessage::TextMessage(msg) => {
                bytes.push(0u8);
                let body = msg.to_bytes();
                push_all(&mut bytes, body.as_slice());
                assert(bytes@ =~= self@.to_bytes());
                proof {
                    if msg@.reads_back() {
                        assert(bytes@.subrange(1, bytes@.len() as int) =~= body@);
                    }
                }
            },
        }
        bytes
    }

    /// Reads a message from its wire form.
    pub fn from_bytes(data: &[u8]) -> (r: Result<UserGroupMessage, String>)
        ensures
            match (r, parse_user_message(data@)) {
                (Ok(m), Ok(v)) => m@ == v,
                (Err(e), Err(se)) => e@ == se,
                _ => false,
            },
    {
        if data.len() == 0 {
            return Err("Empty data".to_string());
        }
        let message_type: u8 = data[0];
        if message_type != 0 {
            let number = u8_to_text(message_type);
            return Err(join_text("Unknown message type: ", number.as_str()));
        }
        let rest = vstd::slice::slice_subrange(data, 1, data.len());
        match GroupTextMessage::from_bytes(rest) {
            Ok(m) => Ok(UserGroupMessage::TextMessage(m)),
            Err(e) => Err(e),
        }
    }
}

/// The header is eighty bytes long and reads back as it was written,
/// whatever follows it.
pub proof fn lemma_header_round_trip(h: GroupTextMessageHeader, tail: Seq<u8>)
    ensures
        header_bytes(h).len() == HEADER_SIZE,
        parse_header(header_bytes(h) + tail) == h,
{
    lemma_le_i64(h.message_id);
    lemma_le_i64(h.sender_id);
    lemma_le_i64(h.date);
    lemma_le_u64(h.group_id_len);
    lemma_le_u64(h.text_len);
    lemma_le_u64(h.media_len);
    lemma_le_u64(h.media_name_len);
    lemma_le_i64(h.reply_message_id);
    lemma_le_i64(h.expires);
    lemma_le_i64(h.edit_date);
    let data = header_bytes(h) + tail;
    assert(data.subrange(0, 8) =~= le_i64(h.message_id));
    assert(data.subrange(8, 16) =~= le_i64(h.sender_id));
    assert(data.subrange(16, 24) =~= le_i64(h.date));
    assert(data.subrange(24, 32) =~= spec_u64_to_le_bytes(h.group_id_len));
    assert(data.subrange(32, 40) =~= spec_u64_to_le_bytes(h.text_len));
    assert(data.subrange(40, 48) =~= spec_u64_to_le_bytes(h.media_len));
    assert(data.subrange(48, 56) =~= spec_u64_to_le_bytes(h.media_name_len));
    assert(data.subrange(56, 64) =~= le_i64(h.reply_message_id));
    assert(data.subrange(64, 72) =~= le_i64(h.expires));
    assert(data.subrange(72, 80) =~= le_i64(h.edit_date));
}

/// Where the parts of a written message lie, and that the header in front
/// of them reads back.
proof fn lemma_message_layout(m: GroupTextMessageView, tail: Seq<u8>)
    requires
        m.round_trips(),
    ensures
        ({
            let data = m.to_bytes() + tail;
            let g = encode_utf8(m.group_id);
            let t = encode_utf8(m.text);
            let mb = media_bytes(m.media);
            let nb = name_bytes(m.media_name);
            let g0 = HEADER_SIZE as int;
            let g1 = g0 + g.len();
            let t1 = g1 + t.len();
            let m1 = t1 + mb.len();
            let n1 = m1 + nb.len();
            &&& data.len() == n1 + tail.len()
            &&& parse_header(data) == m.header()
            &&& data.subrange(g0, g1) == g
            &&& data.subrange(g1, t1) == t
            &&& data.subrange(t1, m1) == mb
            &&& data.subrange(m1, n1) == nb
        }),
{
    let h = m.header();
    let hb = header_bytes(h);
    let g = encode_utf8(m.group_id);
    let t = encode_utf8(m.text);
    let mb = media_bytes(m.media);
    let nb = name_bytes(m.media_name);
    let data = m.to_bytes() + tail;
    assert(data =~= hb + (g + t + mb + nb + tail));
    lemma_header_round_trip(h, g + t + mb + nb + tail);
    let g0 = HEADER_SIZE as int;
    let g1 = g0 + g.len();
    let t1 = g1 + t.len();
    let m1 = t1 + mb.len();
    let n1 = m1 + nb.len();
    assert(data.subrange(g0, g1) =~= g);
    assert(data.subrange(g1, t1) =~= t);
    assert(data.subrange(t1, m1) =~= mb);
    assert(data.subrange(m1, n1) =~= nb);
}

/// A message that was written reads back as itself, whatever follows it on
/// the wire: absent parts stay absent, present parts keep their values.
pub proof fn lemma_message_round_trip(m: GroupTextMessageView, tail: Seq<u8>)
    requires
        m.round_trips(),
    ensures
        parse_message(m.to_bytes() + tail) == Ok::<GroupTextMessageView, Seq<char>>(m),
{
    lemma_message_layout(m, tail);
    vstd::utf8::encode_utf8_valid_utf8(m.group_id);
    vstd::utf8::encode_utf8_decode_utf8(m.group_id);
    vstd::utf8::encode_utf8_valid_utf8(m.text);
    vstd::utf8::encode_utf8_decode_utf8(m.text);
    match m.media_name {
        Some(name) => {
            vstd::utf8::encode_utf8_valid_utf8(name);
            vstd::utf8::encode_utf8_decode_utf8(name);
        },
        None => {},
    }
    let data = m.to_bytes() + tail;
    let h = m.header();
    assert(h.group_id_len == encode_utf8(m.group_id).len());
    assert(h.text_len == encode_utf8(m.text).len());
    assert(h.media_len == media_bytes(m.media).len());
    assert(h.media_name_len == name_bytes(m.media_name).len());
    assert(h.media_len > 0 <==> m.media is Some);
    assert(h.media_name_len > 0 <==> m.media_name is Some);
    assert(unless_minus_one(h.reply_message_id) == m.reply_message_id);
    assert(unless_minus_one(h.expires) == m.expires);
    assert(unless_minus_one(h.edit_date) == m.edit_date);
    let parsed = parse_message(data);
    assert(parsed is Ok);
    assert(parsed->Ok_0.media == m.media);
    assert(parsed->Ok_0.media_name == m.media_name);
}

/// An application message that was written reads back as itself.
pub proof fn lemma_user_message_round_trip(m: UserGroupMessageView)
    requires
        m matches UserGroupMessageView::TextMessage(t) && t.round_trips(),
    ensures
        parse_user_message(m.to_bytes()) == Ok::<UserGroupMessageView, Seq<char>>(m),
{
    let t = m->TextMessage_0;
    let data = m.to_bytes();
    assert(data.subrange(1, data.len() as int) =~= t.to_bytes() + Seq::<u8>::empty());
    lemma_message_round_trip(t, Seq::empty());
}

} // verus!
