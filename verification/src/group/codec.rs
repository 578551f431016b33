//! The MLS wire form of a group configuration: its fields in order, numbers
//! in network byte order, texts and lists behind their length in bytes,
//! optional values behind a marker, and the two tables as lists of entries
//! in ascending order of their keys.

use vstd::prelude::*;
use std::collections::HashMap;
use crate::identity::credentials::{bytes_fit, text_fits};
use crate::group::config::{
    DateTime, GroupConfig, GroupConfigView, JoinMode, Permissions, Visibility};
use crate::wire::mls::{
    agrees, be_u32, be_u64, bool_byte, byte_string, from_be_u64, parse_bool, parse_bytes,
    parse_marker, parse_text, parse_u32, parse_u64, parse_u8, read_bool, read_bytes,
    read_marker, read_text, read_u32, read_u64, read_u8, text_string, write_bool, write_bytes,
    write_text, write_u32, write_u64, CodecError};
use crate::wire::mls::VARINT_LIMIT;
use crate::support::sorting::{increasing, sorted_keys};
use crate::support::text::{opt_bytes, opt_text};

verus! {

/// Joining byte strings does not depend on how they are grouped.
pub proof fn seq_assoc(a: Seq<u8>, b: Seq<u8>, c: Seq<u8>)
    ensures
        (a + b) + c == a + (b + c),
{
    assert((a + b) + c =~= a + (b + c));
}

/// A list of numbers on the wire, without its length.
pub open spec fn ids_body(v: Seq<u64>) -> Seq<u8>
    decreases v.len(),
{
    if v.len() == 0 {
        Seq::empty()
    } else {
        ids_body(v.drop_last()) + be_u64(v.last())
    }
}

/// Permissions on the wire: one byte for each, in the order of the fields.
pub open spec fn permission_bytes(p: Permissions) -> Seq<u8> {
    bool_byte(p.manage_members) + bool_byte(p.send_messages) + bool_byte(p.delete_messages)
        + bool_byte(p.rename_group) + bool_byte(p.manage_permissions) + bool_byte(p.pin_messages)
        + bool_byte(p.manage_admins)
}

/// The entries of the permission table for the given keys, in their order.
pub open spec fn table_body(m: Map<u64, Permissions>, keys: Seq<u64>) -> Seq<u8>
    decreases keys.len(),
{
    if keys.len() == 0 {
        Seq::empty()
    } else {
        table_body(m, keys.drop_last()) + be_u64(keys.last()) + permission_bytes(m[keys.last()])
    }
}

/// The entries of the mute table for the given keys, in their order.
pub open spec fn mutes_body(m: Map<u64, DateTime>, keys: Seq<u64>) -> Seq<u8>
    decreases keys.len(),
{
    if keys.len() == 0 {
        Seq::empty()
    } else {
        mutes_body(m, keys.drop_last()) + be_u64(keys.last()) + be_u64(m[keys.last()].timestamp)
    }
}

pub open spec fn opt_text_bytes(o: Option<Seq<char>>) -> Seq<u8> {
    match o {
        None => seq![0u8],
        Some(t) => seq![1u8] + text_string(t),
    }
}

pub open spec fn opt_blob_bytes(o: Option<Seq<u8>>) -> Seq<u8> {
    match o {
        None => seq![0u8],
        Some(b) => seq![1u8] + byte_string(b),
    }
}

pub open spec fn opt_u32_bytes(o: Option<u32>) -> Seq<u8> {
    match o {
        None => seq![0u8],
        Some(n) => seq![1u8] + be_u32(n),
    }
}

pub open spec fn opt_u64_bytes(o: Option<u64>) -> Seq<u8> {
    match o {
        None => seq![0u8],
        Some(n) => seq![1u8] + be_u64(n),
    }
}

/// The first part of a configuration on the wire: what the group is.
pub open spec fn head_bytes(c: GroupConfigView) -> Seq<u8> {
    be_u64(c.id) + text_string(c.name) + be_u64(c.created_at.timestamp) + be_u64(
        c.updated_at.timestamp,
    ) + seq![c.visibility.spec_code()] + seq![c.join_mode.spec_code()] + opt_text_bytes(
        c.invite_link,
    ) + opt_u32_bytes(c.max_members)
}

/// The second part: who is in the group, and what they may do.
pub open spec fn people_bytes(c: GroupConfigView, table_keys: Seq<u64>, mute_keys: Seq<u64>) -> Seq<
    u8,
> {
    be_u64(c.creator_id) + byte_string(ids_body(c.members)) + byte_string(ids_body(c.admins))
        + byte_string(table_body(c.permissions, table_keys)) + permission_bytes(
        c.default_permissions,
    ) + byte_string(ids_body(c.banned)) + byte_string(mutes_body(c.muted, mute_keys))
}

/// The third part: how the group looks and what content it takes.
pub open spec fn tail_bytes(c: GroupConfigView) -> Seq<u8> {
    opt_text_bytes(c.description) + opt_blob_bytes(c.avatar) + opt_blob_bytes(c.banner)
        + opt_u64_bytes(c.pinned_message_id) + opt_u32_bytes(c.slow_mode_delay) + bool_byte(
        c.allow_stickers,
    ) + bool_byte(c.allow_gifs) + bool_byte(c.allow_voice_messages) + bool_byte(
        c.allow_video_messages,
    ) + bool_byte(c.allow_links)
}

/// A configuration on the wire, with the keys of its two tables in the
/// order in which their entries are written.
pub open spec fn config_bytes(c: GroupConfigView, table_keys: Seq<u64>, mute_keys: Seq<u64>) -> Seq<
    u8,
> {
    head_bytes(c) + people_bytes(c, table_keys, mute_keys) + tail_bytes(c)
}

/// Whether the first part can be written.
pub open spec fn head_fits(c: GroupConfigView) -> bool {
    text_fits(c.name) && opt_text_fits(c.invite_link)
}

/// Whether the second part can be written: every list and table must take
/// less than 2^30 bytes, at eight bytes a number, fifteen an entry of the
/// permission table, and sixteen an entry of the mute table.
pub open spec fn people_fits(c: GroupConfigView) -> bool {
    &&& 8 * c.members.len() < VARINT_LIMIT
    &&& 8 * c.admins.len() < VARINT_LIMIT
    &&& 15 * c.permissions.dom().len() < VARINT_LIMIT
    &&& 8 * c.banned.len() < VARINT_LIMIT
    &&& 16 * c.muted.dom().len() < VARINT_LIMIT
}

/// Whether the third part can be written.
pub open spec fn tail_fits(c: GroupConfigView) -> bool {
    opt_text_fits(c.description) && opt_blob_fits(c.avatar) && opt_blob_fits(c.banner)
}

/// Whether a configuration can be written.
pub open spec fn config_fits(c: GroupConfigView) -> bool {
    head_fits(c) && people_fits(c) && tail_fits(c)
}

/// A list of numbers takes eight bytes a number.
pub proof fn lemma_ids_body_len(v: Seq<u64>)
    ensures
        ids_body(v).len() == 8 * v.len(),
    decreases v.len(),
{
    vstd::bytes::lemma_auto_spec_u64_to_from_le_bytes();
    if v.len() > 0 {
        lemma_ids_body_len(v.drop_last());
    }
}

/// A permission table takes fifteen bytes an entry.
pub proof fn lemma_table_body_len(m: Map<u64, Permissions>, keys: Seq<u64>)
    ensures
        table_body(m, keys).len() == 15 * keys.len(),
    decreases keys.len(),
{
    vstd::bytes::lemma_auto_spec_u64_to_from_le_bytes();
    if keys.len() > 0 {
        lemma_table_body_len(m, keys.drop_last());
    }
}

/// A mute table takes sixteen bytes an entry.
pub proof fn lemma_mutes_body_len(m: Map<u64, DateTime>, keys: Seq<u64>)
    ensures
        mutes_body(m, keys).len() == 16 * keys.len(),
    decreases keys.len(),
{
    vstd::bytes::lemma_auto_spec_u64_to_from_le_bytes();
    if keys.len() > 0 {
        lemma_mutes_body_len(m, keys.drop_last());
    }
}

/// Whether bytes are the wire form of a configuration: the three parts,
/// with the entries of each table in ascending order of their keys.
pub open spec fn is_encoding(c: GroupConfigView, bytes: Seq<u8>) -> bool {
    exists|table_keys: Seq<u64>, mute_keys: Seq<u64>|
        increasing(table_keys) && table_keys.to_set() == c.permissions.dom() && increasing(
            mute_keys,
        ) && mute_keys.to_set() == c.muted.dom() && bytes == #[trigger] config_bytes(
            c,
            table_keys,
            mute_keys,
        )
}

pub open spec fn opt_text_fits(o: Option<Seq<char>>) -> bool {
    o matches Some(t) ==> text_fits(t)
}

pub open spec fn opt_blob_fits(o: Option<Seq<u8>>) -> bool {
    o matches Some(b) ==> bytes_fit(b)
}

pub(crate) fn put_opt_text(out: &mut Vec<u8>, o: &Option<String>) -> (r: Result<(), CodecError>)
    ensures
        match r {
            Ok(()) => opt_text_fits(opt_text(*o)) && final(out)@ == old(out)@ + opt_text_bytes(
                opt_text(*o),
            ),
            Err(e) => e == CodecError::VarIntOutOfRange && !opt_text_fits(opt_text(*o)),
        },
{
    match o {
        None => {
            out.push(0u8);
            assert(out@ =~= old(out)@ + opt_text_bytes(None));
            Ok(())
        },
        Some(t) => {
            out.push(1u8);
            match write_text(out, t.as_str()) {
                Ok(()) => {
                    assert(out@ =~= old(out)@ + opt_text_bytes(Some(t@)));
                    Ok(())
                },
                Err(e) => Err(e),
            }
        },
    }
}

pub(crate) fn put_opt_blob(out: &mut Vec<u8>, o: &Option<Vec<u8>>) -> (r: Result<(), CodecError>)
    ensures
        match r {
            Ok(()) => opt_blob_fits(opt_bytes(*o)) && final(out)@ == old(out)@ + opt_blob_bytes(
                opt_bytes(*o),
            ),
            Err(e) => e == CodecError::VarIntOutOfRange && !opt_blob_fits(opt_bytes(*o)),
        },
{
    match o {
        None => {
            out.push(0u8);
            assert(out@ =~= old(out)@ + opt_blob_bytes(None));
            Ok(())
        },
        Some(b) => {
            out.push(1u8);
            match write_bytes(out, b.as_slice()) {
                Ok(()) => {
                    assert(out@ =~= old(out)@ + opt_blob_bytes(Some(b@)));
                    Ok(())
                },
                Err(e) => Err(e),
            }
        },
    }
}

fn put_opt_u32(out: &mut Vec<u8>, o: Option<u32>)
    ensures
        final(out)@ == old(out)@ + opt_u32_bytes(o),
{
    match o {
        None => {
            out.push(0u8);
            assert(out@ =~= old(out)@ + opt_u32_bytes(None));
        },
        Some(n) => {
            out.push(1u8);
            write_u32(out, n);
            assert(out@ =~= old(out)@ + opt_u32_bytes(Some(n)));
        },
    }
}

fn put_opt_u64(out: &mut Vec<u8>, o: Option<u64>)
    ensures
        final(out)@ == old(out)@ + opt_u64_bytes(o),
{
    match o {
        None => {
            out.push(0u8);
            assert(out@ =~= old(out)@ + opt_u64_bytes(None));
        },
        Some(n) => {
            out.push(1u8);
            write_u64(out, n);
            assert(out@ =~= old(out)@ + opt_u64_bytes(Some(n)));
        },
    }
}

fn put_permissions(out: &mut Vec<u8>, p: &Permissions)
    ensures
        final(out)@ == old(out)@ + permission_bytes(*p),
{
    write_bool(out, p.manage_members);
    let ghost acc = bool_byte(p.manage_members);
    assert(out@ =~= old(out)@ + acc);
    write_bool(out, p.send_messages);
    proof {
        seq_assoc(old(out)@, acc, bool_byte(p.send_messages));
    }
    let ghost acc = acc + bool_byte(p.send_messages);
    assert(out@ =~= old(out)@ + acc);
    write_bool(out, p.delete_messages);
    proof {
        seq_assoc(old(out)@, acc, bool_byte(p.delete_messages));
    }
    let ghost acc = acc + bool_byte(p.delete_messages);
    assert(out@ =~= old(out)@ + acc);
    write_bool(out, p.rename_group);
    proof {
        seq_assoc(old(out)@, acc, bool_byte(p.rename_group));
    }
    let ghost acc = acc + bool_byte(p.rename_group);
    assert(out@ =~= old(out)@ + acc);
    write_bool(out, p.manage_permissions);
    proof {
        seq_assoc(old(out)@, acc, bool_byte(p.manage_permissions));
    }
    let ghost acc = acc + bool_byte(p.manage_permissions);
    assert(out@ =~= old(out)@ + acc);
    write_bool(out, p.pin_messages);
    proof {
        seq_assoc(old(out)@, acc, bool_byte(p.pin_messages));
    }
    let ghost acc = acc + bool_byte(p.pin_messages);
    assert(out@ =~= old(out)@ + acc);
    write_bool(out, p.manage_admins);
    proof {
        seq_assoc(old(out)@, acc, bool_byte(p.manage_admins));
    }
    let ghost acc = acc + bool_byte(p.manage_admins);
    assert(out@ =~= old(out)@ + acc);
    assert(acc == permission_bytes(*p));
    
}

fn ids_to_body(v: &Vec<u64>) -> (body: Vec<u8>)
    ensures
        body@ == ids_body(v@),
{
    let mut body: Vec<u8> = Vec::new();
    let mut i: usize = 0;
    assert(v@.subrange(0, 0) =~= Seq::<u64>::empty());
    while i < v.len()
        invariant
            i <= v.len(),
            body@ == ids_body(v@.subrange(0, i as int)),
        decreases v.len() - i,
    {
        proof {
            assert(v@.subrange(0, i + 1).drop_last() =~= v@.subrange(0, i as int));
        }
        write_u64(&mut body, v[i]);
        i += 1;
    }
    assert(v@.subrange(0, v@.len() as int) =~= v@);
    body
}

fn table_to_body(m: &HashMap<u64, Permissions>) -> (r: (Vec<u8>, Ghost<Seq<u64>>))
    ensures
        increasing(r.1@),
        r.1@.to_set() == m@.dom(),
        r.1@.len() == m@.dom().len(),
        r.0@ == table_body(m@, r.1@),
{
    let keys = sorted_keys(m);
    let mut body: Vec<u8> = Vec::new();
    let mut i: usize = 0;
    assert(keys@.subrange(0, 0) =~= Seq::<u64>::empty());
    while i < keys.len()
        invariant
            i <= keys.len(),
            keys@.to_set() == m@.dom(),
            body@ == table_body(m@, keys@.subrange(0, i as int)),
        decreases keys.len() - i,
    {
        let k = keys[i];
        proof {
            assert(keys@.subrange(0, i + 1).drop_last() =~= keys@.subrange(0, i as int));
            assert(keys@.to_set().contains(k));
        }
        write_u64(&mut body, k);
        match m.get(&k) {
            Some(p) => {
                put_permissions(&mut body, p);
            },
            None => {},
        }
        i += 1;
    }
    assert(keys@.subrange(0, keys@.len() as int) =~= keys@);
    (body, Ghost(keys@))
}

fn mutes_to_body(m: &HashMap<u64, DateTime>) -> (r: (Vec<u8>, Ghost<Seq<u64>>))
    ensures
        increasing(r.1@),
        r.1@.to_set() == m@.dom(),
        r.1@.len() == m@.dom().len(),
        r.0@ == mutes_body(m@, r.1@),
{
    let keys = sorted_keys(m);
    let mut body: Vec<u8> = Vec::new();
    let mut i: usize = 0;
    assert(keys@.subrange(0, 0) =~= Seq::<u64>::empty());
    while i < keys.len()
        invariant
            i <= keys.len(),
            keys@.to_set() == m@.dom(),
            body@ == mutes_body(m@, keys@.subrange(0, i as int)),
        decreases keys.len() - i,
    {
        let k = keys[i];
        proof {
            assert(keys@.subrange(0, i + 1).drop_last() =~= keys@.subrange(0, i as int));
            assert(keys@.to_set().contains(k));
        }
        write_u64(&mut body, k);
        match m.get(&k) {
            Some(until) => {
                write_u64(&mut body, until.timestamp);
            },
            None => {},
        }
        i += 1;
    }
    assert(keys@.subrange(0, keys@.len() as int) =~= keys@);
    (body, Ghost(keys@))
}

fn put_head(out: &mut Vec<u8>, c: &GroupConfig) -> (r: Result<(), CodecError>)
    ensures
        match r {
            Ok(()) => head_fits(c@) && final(out)@ == old(out)@ + head_bytes(c@),
            Err(e) => e == CodecError::VarIntOutOfRange && !head_fits(c@),
        },
{
    write_u64(out, c.id);
    let ghost acc = be_u64(c.id);
    assert(out@ =~= old(out)@ + acc);
    match write_text(out, c.name.as_str()) {
        Ok(()) => {},
        Err(e) => {
            return Err(e);
        },
    }
    proof {
        seq_assoc(old(out)@, acc, text_string(c.name@));
    }
    let ghost acc = acc + text_string(c.name@);
    assert(out@ =~= old(out)@ + acc);
    write_u64(out, c.created_at.timestamp);
    proof {
        seq_assoc(old(out)@, acc, be_u64(c.created_at.timestamp));
    }
    let ghost acc = acc + be_u64(c.created_at.timestamp);
    assert(out@ =~= old(out)@ + acc);
    write_u64(out, c.updated_at.timestamp);
    proof {
        seq_assoc(old(out)@, acc, be_u64(c.updated_at.timestamp));
    }
    let ghost acc = acc + be_u64(c.updated_at.timestamp);
    assert(out@ =~= old(out)@ + acc);
    out.push(c.visibility.code());
    proof {
        seq_assoc(old(out)@, acc, seq![c.visibility.spec_code()]);
    }
    let ghost acc = acc + seq![c.visibility.spec_code()];
    assert(out@ =~= old(out)@ + acc);
    out.push(c.join_mode.code());
    proof {
        seq_assoc(old(out)@, acc, seq![c.join_mode.spec_code()]);
    }
    let ghost acc = acc + seq![c.join_mode.spec_code()];
    assert(out@ =~= old(out)@ + acc);
    match put_opt_text(out, &c.invite_link) {
        Ok(()) => {},
        Err(e) => {
            return Err(e);
        },
    }
    proof {
        seq_assoc(old(out)@, acc, opt_text_bytes(opt_text(c.invite_link)));
    }
    let ghost acc = acc + opt_text_bytes(opt_text(c.invite_link));
    assert(out@ =~= old(out)@ + acc);
    put_opt_u32(out, c.max_members);
    proof {
        seq_assoc(old(out)@, acc, opt_u32_bytes(c.max_members));
    }
    let ghost acc = acc + opt_u32_bytes(c.max_members);
    assert(out@ =~= old(out)@ + acc);
    assert(acc == head_bytes(c@));
    Ok(())
}

fn put_people(out: &mut Vec<u8>, c: &GroupConfig) -> (r: Result<
    (Ghost<Seq<u64>>, Ghost<Seq<u64>>),
    CodecError,
>)
    ensures
        match r {
            Ok(keys) => people_fits(c@) && increasing(keys.0@) && keys.0@.to_set()
                == c@.permissions.dom() && increasing(keys.1@) && keys.1@.to_set()
                == c@.muted.dom() && final(out)@ == old(out)@ + people_bytes(
                c@,
                keys.0@,
                keys.1@,
            ),
            Err(e) => e == CodecError::VarIntOutOfRange && !people_fits(c@),
        },
{
    let members = ids_to_body(&c.members);
    let admins = ids_to_body(&c.admins);
    let (table, table_keys) = table_to_body(&c.permissions);
    let banned = ids_to_body(&c.banned);
    let (mutes, mute_keys) = mutes_to_body(&c.muted);
    proof {
        lemma_ids_body_len(c.members@);
        lemma_ids_body_len(c.admins@);
        lemma_ids_body_len(c.banned@);
        lemma_table_body_len(c.permissions@, table_keys@);
        lemma_mutes_body_len(c.muted@, mute_keys@);
    }
    write_u64(out, c.creator_id);
    let ghost acc = be_u64(c.creator_id);
    assert(out@ =~= old(out)@ + acc);
    match write_bytes(out, members.as_slice()) {
        Ok(()) => {},
        Err(e) => {
            return Err(e);
        },
    }
    proof {
        seq_assoc(old(out)@, acc, byte_string(ids_body(c.members@)));
    }
    let ghost acc = acc + byte_string(ids_body(c.members@));
    assert(out@ =~= old(out)@ + acc);
    match write_bytes(out, admins.as_slice()) {
        Ok(()) => {},
        Err(e) => {
            return Err(e);
        },
    }
    proof {
        seq_assoc(old(out)@, acc, byte_string(ids_body(c.admins@)));
    }
    let ghost acc = acc + byte_string(ids_body(c.admins@));
    assert(out@ =~= old(out)@ + acc);
    match write_bytes(out, table.as_slice()) {
        Ok(()) => {},
        Err(e) => {
            return Err(e);
        },
    }
    proof {
        seq_assoc(old(out)@, acc, byte_string(table_body(c.permissions@, table_keys@)));
    }
    let ghost acc = acc + byte_string(table_body(c.permissions@, table_keys@));
    assert(out@ =~= old(out)@ + acc);
    put_permissions(out, &c.default_permissions);
    proof {
        seq_assoc(old(out)@, acc, permission_bytes(c.default_permissions));
    }
    let ghost acc = acc + permission_bytes(c.default_permissions);
    assert(out@ =~= old(out)@ + acc);
    match write_bytes(out, banned.as_slice()) {
        Ok(()) => {},
        Err(e) => {
            return Err(e);
        },
    }
    proof {
        seq_assoc(old(out)@, acc, byte_string(ids_body(c.banned@)));
    }
    let ghost acc = acc + byte_string(ids_body(c.banned@));
    assert(out@ =~= old(out)@ + acc);
    match write_bytes(out, mutes.as_slice()) {
        Ok(()) => {},
        Err(e) => {
            return Err(e);
        },
    }
    proof {
        seq_assoc(old(out)@, acc, byte_string(mutes_body(c.muted@, mute_keys@)));
    }
    let ghost acc = acc + byte_string(mutes_body(c.muted@, mute_keys@));
    assert(out@ =~= old(out)@ + acc);
    assert(acc == people_bytes(c@, table_keys@, mute_keys@));
    Ok((table_keys, mute_keys))
}

fn put_tail(out: &mut Vec<u8>, c: &GroupConfig) -> (r: Result<(), CodecError>)
    ensures
        match r {
            Ok(()) => tail_fits(c@) && final(out)@ == old(out)@ + tail_bytes(c@),
            Err(e) => e == CodecError::VarIntOutOfRange && !tail_fits(c@),
        },
{
    match put_opt_text(out, &c.description) {
        Ok(()) => {},
        Err(e) => {
            return Err(e);
        },
    }
    let ghost acc = opt_text_bytes(opt_text(c.description));
    assert(out@ =~= old(out)@ + acc);
    match put_opt_blob(out, &c.avatar) {
        Ok(()) => {},
        Err(e) => {
            return Err(e);
        },
    }
    proof {
        seq_assoc(old(out)@, acc, opt_blob_bytes(opt_bytes(c.avatar)));
    }
    let ghost acc = acc + opt_blob_bytes(opt_bytes(c.avatar));
    assert(out@ =~= old(out)@ + acc);
    match put_opt_blob(out, &c.banner) {
        Ok(()) => {},
        Err(e) => {
            return Err(e);
        },
    }
    proof {
        seq_assoc(old(out)@, acc, opt_blob_bytes(opt_bytes(c.banner)));
    }
    let ghost acc = acc + opt_blob_bytes(opt_bytes(c.banner));
    assert(out@ =~= old(out)@ + acc);
    put_opt_u64(out, c.pinned_message_id);
    proof {
        seq_assoc(old(out)@, acc, opt_u64_bytes(c.pinned_message_id));
    }
    let ghost acc = acc + opt_u64_bytes(c.pinned_message_id);
    assert(out@ =~= old(out)@ + acc);
    put_opt_u32(out, c.slow_mode_delay);
    proof {
        seq_assoc(old(out)@, acc, opt_u32_bytes(c.slow_mode_delay));
    }
    let ghost acc = acc + opt_u32_bytes(c.slow_mode_delay);
    assert(out@ =~= old(out)@ + acc);
    write_bool(out, c.allow_stickers);
    proof {
        seq_assoc(old(out)@, acc, bool_byte(c.allow_stickers));
    }
    let ghost acc = acc + bool_byte(c.allow_stickers);
    assert(out@ =~= old(out)@ + acc);
    write_bool(out, c.allow_gifs);
    proof {
        seq_assoc(old(out)@, acc, bool_byte(c.allow_gifs));
    }
    let ghost acc = acc + bool_byte(c.allow_gifs);
    assert(out@ =~= old(out)@ + acc);
    write_bool(out, c.allow_voice_messages);
    proof {
        seq_assoc(old(out)@, acc, bool_byte(c.allow_voice_messages));
    }
    let ghost acc = acc + bool_byte(c.allow_voice_messages);
    assert(out@ =~= old(out)@ + acc);
    write_bool(out, c.allow_video_messages);
    proof {
        seq_assoc(old(out)@, acc, bool_byte(c.allow_video_messages));
    }
    let ghost acc = acc + bool_byte(c.allow_video_messages);
    assert(out@ =~= old(out)@ + acc);
    write_bool(out, c.allow_links);
    proof {
        seq_assoc(old(out)@, acc, bool_byte(c.allow_links));
    }
    let ghost acc = acc + bool_byte(c.allow_links);
    assert(out@ =~= old(out)@ + acc);
    assert(acc == tail_bytes(c@));
    Ok(())
}

impl GroupConfig {
    /// The configuration on the wire. It exists unless a text, a list or a
    /// table is 2^30 bytes long or longer.
    pub fn mls_encode_to_vec(&self) -> (r: Result<Vec<u8>, CodecError>)
        ensures
            match r {
                Ok(bytes) => config_fits(self@) && is_encoding(self@, bytes@),
                Err(e) => e == CodecError::VarIntOutOfRange && !config_fits(self@),
            },
    {
        let mut out: Vec<u8> = Vec::new();
        match put_head(&mut out, self) {
            Ok(()) => {},
            Err(e) => {
                return Err(e);
            },
        }
        let keys = match put_people(&mut out, self) {
            Ok(k) => k,
            Err(e) => {
                return Err(e);
            },
        };
        match put_tail(&mut out, self) {
            Ok(()) => {},
            Err(e) => {
                return Err(e);
            },
        }
        proof {
            let h = head_bytes(self@);
            let p = people_bytes(self@, keys.0@, keys.1@);
            let t = tail_bytes(self@);
            assert(Seq::<u8>::empty() + h =~= h);
            assert(out@ == h + p + t);
            assert(out@ == config_bytes(self@, keys.0@, keys.1@));
        }
        Ok(out)
    }
}

/// The numbers that a list's bytes stand for: eight bytes each.
pub open spec fn parse_ids(body: Seq<u8>) -> Result<Seq<u64>, CodecError> {
    if body.len() % 8 != 0 {
        Err(CodecError::UnexpectedEOF)
    } else {
        Ok(Seq::new((body.len() / 8) as nat, |i: int| from_be_u64(body.subrange(8 * i, 8 * i + 8))))
    }
}

/// The permissions in the seven bytes from `at`.
pub open spec fn permissions_at(body: Seq<u8>, at: int) -> Permissions {
    Permissions {
        manage_members: body[at] != 0,
        send_messages: body[at + 1] != 0,
        delete_messages: body[at + 2] != 0,
        rename_group: body[at + 3] != 0,
        manage_permissions: body[at + 4] != 0,
        pin_messages: body[at + 5] != 0,
        manage_admins: body[at + 6] != 0,
    }
}

/// The permission table of the first `n` entries of fifteen bytes each; a
/// later entry of a key replaces an earlier one.
pub open spec fn table_upto(body: Seq<u8>, n: nat) -> Map<u64, Permissions>
    decreases n,
{
    if n == 0 {
        Map::empty()
    } else {
        let at = 15 * (n - 1);
        table_upto(body, (n - 1) as nat).insert(
            from_be_u64(body.subrange(at, at + 8)),
            permissions_at(body, at + 8),
        )
    }
}

/// The mute table of the first `n` entries of sixteen bytes each.
pub open spec fn mutes_upto(body: Seq<u8>, n: nat) -> Map<u64, DateTime>
    decreases n,
{
    if n == 0 {
        Map::empty()
    } else {
        let at = 16 * (n - 1);
        mutes_upto(body, (n - 1) as nat).insert(
            from_be_u64(body.subrange(at, at + 8)),
            DateTime { timestamp: from_be_u64(body.subrange(at + 8, at + 16)) },
        )
    }
}

pub open spec fn parse_table(body: Seq<u8>) -> Result<Map<u64, Permissions>, CodecError> {
    if body.len() % 15 != 0 {
        Err(CodecError::UnexpectedEOF)
    } else {
        Ok(table_upto(body, (body.len() / 15) as nat))
    }
}

pub open spec fn parse_mutes(body: Seq<u8>) -> Result<Map<u64, DateTime>, CodecError> {
    if body.len() % 16 != 0 {
        Err(CodecError::UnexpectedEOF)
    } else {
        Ok(mutes_upto(body, (body.len() / 16) as nat))
    }
}

#[verifier::opaque]
pub open spec fn parse_id_list(data: Seq<u8>, at: int) -> Result<(Seq<u64>, int), CodecError> {
    match parse_bytes(data, at) {
        Err(e) => Err(e),
        Ok((body, next)) => match parse_ids(body) {
            Err(e) => Err(e),
            Ok(ids) => Ok((ids, next)),
        },
    }
}

#[verifier::opaque]
pub open spec fn parse_table_at(data: Seq<u8>, at: int) -> Result<
    (Map<u64, Permissions>, int),
    CodecError,
> {
    match parse_bytes(data, at) {
        Err(e) => Err(e),
        Ok((body, next)) => match parse_table(body) {
            Err(e) => Err(e),
            Ok(t) => Ok((t, next)),
        },
    }
}

#[verifier::opaque]
pub open spec fn parse_mutes_at(data: Seq<u8>, at: int) -> Result<
    (Map<u64, DateTime>, int),
    CodecError,
> {
    match parse_bytes(data, at) {
        Err(e) => Err(e),
        Ok((body, next)) => match parse_mutes(body) {
            Err(e) => Err(e),
            Ok(t) => Ok((t, next)),
        },
    }
}

#[verifier::opaque]
pub open spec fn parse_permissions(data: Seq<u8>, at: int) -> Result<(Permissions, int), CodecError> {
    if at + 7 > data.len() {
        Err(CodecError::UnexpectedEOF)
    } else {
        Ok((permissions_at(data, at), at + 7))
    }
}

#[verifier::opaque]
pub open spec fn parse_visibility(data: Seq<u8>, at: int) -> Result<(Visibility, int), CodecError> {
    match parse_u8(data, at) {
        Err(e) => Err(e),
        Ok((b, next)) => if b == 1 {
            Ok((Visibility::Public, next))
        } else if b == 2 {
            Ok((Visibility::Private, next))
        } else if b == 3 {
            Ok((Visibility::Hidden, next))
        } else {
            Err(CodecError::UnsupportedEnumDiscriminant)
        },
    }
}

#[verifier::opaque]
pub open spec fn parse_join_mode(data: Seq<u8>, at: int) -> Result<(JoinMode, int), CodecError> {
    match parse_u8(data, at) {
        Err(e) => Err(e),
        Ok((b, next)) => if b == 1 {
            Ok((JoinMode::Open, next))
        } else if b == 2 {
            Ok((JoinMode::InviteOnly, next))
        } else if b == 3 {
            Ok((JoinMode::RequestToJoin, next))
        } else {
            Err(CodecError::UnsupportedEnumDiscriminant)
        },
    }
}

#[verifier::opaque]
pub open spec fn parse_opt_text(data: Seq<u8>, at: int) -> Result<
    (Option<Seq<char>>, int),
    CodecError,
> {
    match parse_marker(data, at) {
        Err(e) => Err(e),
        Ok((present, next)) => if present {
            match parse_text(data, next) {
                Err(e) => Err(e),
                Ok((t, after)) => Ok((Some(t), after)),
            }
        } else {
            Ok((None, next))
        },
    }
}

#[verifier::opaque]
pub open spec fn parse_opt_blob(data: Seq<u8>, at: int) -> Result<
    (Option<Seq<u8>>, int),
    CodecError,
> {
    match parse_marker(data, at) {
        Err(e) => Err(e),
        Ok((present, next)) => if present {
            match parse_bytes(data, next) {
                Err(e) => Err(e),
                Ok((b, after)) => Ok((Some(b), after)),
            }
        } else {
            Ok((None, next))
        },
    }
}

#[verifier::opaque]
pub open spec fn parse_opt_u32(data: Seq<u8>, at: int) -> Result<(Option<u32>, int), CodecError> {
    match parse_marker(data, at) {
        Err(e) => Err(e),
        Ok((present, next)) => if present {
            match parse_u32(data, next) {
                Err(e) => Err(e),
                Ok((n, after)) => Ok((Some(n), after)),
            }
        } else {
            Ok((None, next))
        },
    }
}

#[verifier::opaque]
pub open spec fn parse_opt_u64(data: Seq<u8>, at: int) -> Result<(Option<u64>, int), CodecError> {
    match parse_marker(data, at) {
        Err(e) => Err(e),
        Ok((present, next)) => if present {
            match parse_u64(data, next) {
                Err(e) => Err(e),
                Ok((n, after)) => Ok((Some(n), after)),
            }
        } else {
            Ok((None, next))
        },
    }
}

/// The first part of a configuration.
pub struct HeadPart {
    pub id: u64,
    pub name: Seq<char>,
    pub created_at: u64,
    pub updated_at: u64,
    pub visibility: Visibility,
    pub join_mode: JoinMode,
    pub invite_link: Option<Seq<char>>,
    pub max_members: Option<u32>,
}

/// The second part of a configuration.
pub struct PeoplePart {
    pub creator_id: u64,
    pub members: Seq<u64>,
    pub admins: Seq<u64>,
    pub permissions: Map<u64, Permissions>,
    pub default_permissions: Permissions,
    pub banned: Seq<u64>,
    pub muted: Map<u64, DateTime>,
}

/// The third part of a configuration.
pub struct TailPart {
    pub description: Option<Seq<char>>,
    pub avatar: Option<Seq<u8>>,
    pub banner: Option<Seq<u8>>,
    pub pinned_message_id: Option<u64>,
    pub slow_mode_delay: Option<u32>,
    pub allow_stickers: bool,
    pub allow_gifs: bool,
    pub allow_voice_messages: bool,
    pub allow_video_messages: bool,
    pub allow_links: bool,
}

/// The first part, read at `at`: what the group is.
pub open spec fn parse_head(data: Seq<u8>, at: int) -> Result<(HeadPart, int), CodecError> {
    match parse_u64(data, at) {
        Err(e) => Err(e),
        Ok((id, after1)) =>         match parse_text(data, after1) {
            Err(e) => Err(e),
            Ok((name, after2)) =>             match parse_u64(data, after2) {
                Err(e) => Err(e),
                Ok((created_at, after3)) =>                 match parse_u64(data, after3) {
                    Err(e) => Err(e),
                    Ok((updated_at, after4)) => parse_head_rest(data, after4, id, name, created_at, updated_at),
                },
            },
        },
    }
}

/// The rest of the first part, behind the two dates.
pub open spec fn parse_head_rest(data: Seq<u8>, at: int, id: u64, name: Seq<char>, created_at: u64, updated_at: u64) -> Result<(HeadPart, int), CodecError> {
    match parse_visibility(data, at) {
        Err(e) => Err(e),
        Ok((visibility, after1)) =>         match parse_join_mode(data, after1) {
            Err(e) => Err(e),
            Ok((join_mode, after2)) =>             match parse_opt_text(data, after2) {
                Err(e) => Err(e),
                Ok((invite_link, after3)) =>                 match parse_opt_u32(data, after3) {
                    Err(e) => Err(e),
                    Ok((max_members, after4)) => Ok((HeadPart { id, name, created_at, updated_at, visibility, join_mode, invite_link, max_members }, after4)),
                },
            },
        },
    }
}

/// The second part, read at `at`: who is in the group.
pub open spec fn parse_people(data: Seq<u8>, at: int) -> Result<(PeoplePart, int), CodecError> {
    match parse_u64(data, at) {
        Err(e) => Err(e),
        Ok((creator_id, after1)) =>         match parse_id_list(data, after1) {
            Err(e) => Err(e),
            Ok((members, after2)) =>             match parse_id_list(data, after2) {
                Err(e) => Err(e),
                Ok((admins, after3)) =>                 match parse_table_at(data, after3) {
                    Err(e) => Err(e),
                    Ok((permissions, after4)) => parse_people_rest(data, after4, creator_id, members, admins, permissions),
                },
            },
        },
    }
}

/// The rest of the second part, behind the permission table.
pub open spec fn parse_people_rest(data: Seq<u8>, at: int, creator_id: u64, members: Seq<u64>, admins: Seq<u64>, permissions: Map<u64, Permissions>) -> Result<(PeoplePart, int), CodecError> {
    match parse_permissions(data, at) {
        Err(e) => Err(e),
        Ok((default_permissions, after1)) =>         match parse_id_list(data, after1) {
            Err(e) => Err(e),
            Ok((banned, after2)) =>             match parse_mutes_at(data, after2) {
                Err(e) => Err(e),
                Ok((muted, after3)) => Ok((PeoplePart { creator_id, members, admins, permissions, default_permissions, banned, muted }, after3)),
            },
        },
    }
}

/// The third part, read at `at`: how the group looks.
pub open spec fn parse_tail(data: Seq<u8>, at: int) -> Result<(TailPart, int), CodecError> {
    match parse_opt_text(data, at) {
        Err(e) => Err(e),
        Ok((description, after1)) =>         match parse_opt_blob(data, after1) {
            Err(e) => Err(e),
            Ok((avatar, after2)) =>             match parse_opt_blob(data, after2) {
                Err(e) => Err(e),
                Ok((banner, after3)) =>                 match parse_opt_u64(data, after3) {
                    Err(e) => Err(e),
                    Ok((pinned_message_id, after4)) =>                     match parse_opt_u32(data, after4) {
                        Err(e) => Err(e),
                        Ok((slow_mode_delay, after5)) => parse_tail_rest(data, after5, description, avatar, banner, pinned_message_id, slow_mode_delay),
                    },
                },
            },
        },
    }
}

/// The rest of the third part: the five content switches.
pub open spec fn parse_tail_rest(data: Seq<u8>, at: int, description: Option<Seq<char>>, avatar: Option<Seq<u8>>, banner: Option<Seq<u8>>, pinned_message_id: Option<u64>, slow_mode_delay: Option<u32>) -> Result<(TailPart, int), CodecError> {
    match parse_bool(data, at) {
        Err(e) => Err(e),
        Ok((allow_stickers, after1)) =>         match parse_bool(data, after1) {
            Err(e) => Err(e),
            Ok((allow_gifs, after2)) =>             match parse_bool(data, after2) {
                Err(e) => Err(e),
                Ok((allow_voice_messages, after3)) =>                 match parse_bool(data, after3) {
                    Err(e) => Err(e),
                    Ok((allow_video_messages, after4)) =>                     match parse_bool(data, after4) {
                        Err(e) => Err(e),
                        Ok((allow_links, after5)) => Ok((TailPart { description, avatar, banner, pinned_message_id, slow_mode_delay, allow_stickers, allow_gifs, allow_voice_messages, allow_video_messages, allow_links }, after5)),
                    },
                },
            },
        },
    }
}

/// The configuration that the three parts make.
pub open spec fn assemble(h: HeadPart, p: PeoplePart, t: TailPart) -> GroupConfigView {
    GroupConfigView {
        id: h.id,
        name: h.name,
        created_at: DateTime { timestamp: h.created_at },
        updated_at: DateTime { timestamp: h.updated_at },
        visibility: h.visibility,
        join_mode: h.join_mode,
        invite_link: h.invite_link,
        max_members: h.max_members,
        creator_id: p.creator_id,
        members: p.members,
        admins: p.admins,
        permissions: p.permissions,
        default_permissions: p.default_permissions,
        banned: p.banned,
        muted: p.muted,
        description: t.description,
        avatar: t.avatar,
        banner: t.banner,
        pinned_message_id: t.pinned_message_id,
        slow_mode_delay: t.slow_mode_delay,
        allow_stickers: t.allow_stickers,
        allow_gifs: t.allow_gifs,
        allow_voice_messages: t.allow_voice_messages,
        allow_video_messages: t.allow_video_messages,
        allow_links: t.allow_links,
    }
}

/// The configuration that bytes stand for, read from their start; what
/// follows it is not looked at.
pub open spec fn parse_config(data: Seq<u8>) -> Result<GroupConfigView, CodecError> {
    match parse_head(data, 0) {
        Err(e) => Err(e),
        Ok((h, after1)) => match parse_people(data, after1) {
            Err(e) => Err(e),
            Ok((p, after2)) => match parse_tail(data, after2) {
                Err(e) => Err(e),
                Ok((t, _)) => Ok(assemble(h, p, t)),
            },
        },
    }
}

fn get_ids(body: &[u8]) -> (r: Result<Vec<u64>, CodecError>)
    ensures
        match (r, parse_ids(body@)) {
            (Ok(v), Ok(sv)) => v@ == sv,
            (Err(e), Err(se)) => e == se,
            _ => false,
        },
{
    reveal(parse_u64);
    if body.len() % 8 != 0 {
        return Err(CodecError::UnexpectedEOF);
    }
    let n = body.len() / 8;
    assert(8 * n == body.len());
    let mut ids: Vec<u64> = Vec::new();
    let mut i: usize = 0;
    while i < n
        invariant
            i <= n,
            8 * n == body.len(),
            ids@.len() == i,
            forall|j: int|
                0 <= j < i ==> ids@[j] == from_be_u64(body@.subrange(8 * j, 8 * j + 8)),
        decreases n - i,
    {
        reveal(parse_u64);
        match read_u64(body, 8 * i) {
            Ok((v, _next)) => {
                ids.push(v);
            },
            Err(e) => {
                return Err(e);
            },
        }
        i += 1;
    }
    assert(ids@ =~= parse_ids(body@)->Ok_0);
    Ok(ids)
}

fn flags_at(body: &[u8], at: usize) -> (p: Permissions)
    requires
        at + 7 <= body@.len(),
    ensures
        p == permissions_at(body@, at as int),
{
    let n = body.len();
    Permissions {
        manage_members: body[at] != 0,
        send_messages: body[at + 1] != 0,
        delete_messages: body[at + 2] != 0,
        rename_group: body[at + 3] != 0,
        manage_permissions: body[at + 4] != 0,
        pin_messages: body[at + 5] != 0,
        manage_admins: body[at + 6] != 0,
    }
}

fn get_table(body: &[u8]) -> (r: Result<HashMap<u64, Permissions>, CodecError>)
    ensures
        match (r, parse_table(body@)) {
            (Ok(t), Ok(st)) => t@ == st,
            (Err(e), Err(se)) => e == se,
            _ => false,
        },
{
    reveal(parse_u64);
    if body.len() % 15 != 0 {
        return Err(CodecError::UnexpectedEOF);
    }
    let n = body.len() / 15;
    assert(15 * n == body.len());
    let mut table: HashMap<u64, Permissions> = HashMap::new();
    let mut i: usize = 0;
    assert(table@ =~= table_upto(body@, 0));
    while i < n
        invariant
            i <= n,
            15 * n == body.len(),
            table@ == table_upto(body@, i as nat),
        decreases n - i,
    {
        let at: usize = 15 * i;
        reveal(parse_u64);
        match read_u64(body, at) {
            Ok((k, _next)) => {
                table.insert(k, flags_at(body, at + 8));
            },
            Err(e) => {
                return Err(e);
            },
        }
        i += 1;
    }
    Ok(table)
}

fn get_mutes(body: &[u8]) -> (r: Result<HashMap<u64, DateTime>, CodecError>)
    ensures
        match (r, parse_mutes(body@)) {
            (Ok(t), Ok(st)) => t@ == st,
            (Err(e), Err(se)) => e == se,
            _ => false,
        },
{
    reveal(parse_u64);
    if body.len() % 16 != 0 {
        return Err(CodecError::UnexpectedEOF);
    }
    let n = body.len() / 16;
    assert(16 * n == body.len());
    let mut table: HashMap<u64, DateTime> = HashMap::new();
    let mut i: usize = 0;
    assert(table@ =~= mutes_upto(body@, 0));
    while i < n
        invariant
            i <= n,
            16 * n == body.len(),
            table@ == mutes_upto(body@, i as nat),
        decreases n - i,
    {
        let at: usize = 16 * i;
        reveal(parse_u64);
        let k = match read_u64(body, at) {
            Ok((k, _next)) => k,
            Err(e) => {
                return Err(e);
            },
        };
        let until = match read_u64(body, at + 8) {
            Ok((t, _next)) => t,
            Err(e) => {
                return Err(e);
            },
        };
        table.insert(k, DateTime { timestamp: until });
        i += 1;
    }
    Ok(table)
}

fn get_id_list(data: &[u8], at: usize) -> (r: Result<(Vec<u64>, usize), CodecError>)
    requires
        at <= data@.len(),
    ensures
        match (r, parse_id_list(data@, at as int)) {
            (Ok((v, next)), Ok((sv, snext))) => v@ == sv && next == snext && next <= data@.len(),
            (Err(e), Err(se)) => e == se,
            _ => false,
        },
{
    reveal(parse_id_list);
    let (body, next) = match read_bytes(data, at) {
        Ok(pair) => pair,
        Err(e) => {
            return Err(e);
        },
    };
    match get_ids(body.as_slice()) {
        Ok(ids) => Ok((ids, next)),
        Err(e) => Err(e),
    }
}

fn get_table_at(data: &[u8], at: usize) -> (r: Result<(HashMap<u64, Permissions>, usize), CodecError>)
    requires
        at <= data@.len(),
    ensures
        match (r, parse_table_at(data@, at as int)) {
            (Ok((v, next)), Ok((sv, snext))) => v@ == sv && next == snext && next <= data@.len(),
            (Err(e), Err(se)) => e == se,
            _ => false,
        },
{
    reveal(parse_table_at);
    let (body, next) = match read_bytes(data, at) {
        Ok(pair) => pair,
        Err(e) => {
            return Err(e);
        },
    };
    match get_table(body.as_slice()) {
        Ok(t) => Ok((t, next)),
        Err(e) => Err(e),
    }
}

fn get_mutes_at(data: &[u8], at: usize) -> (r: Result<(HashMap<u64, DateTime>, usize), CodecError>)
    requires
        at <= data@.len(),
    ensures
        match (r, parse_mutes_at(data@, at as int)) {
            (Ok((v, next)), Ok((sv, snext))) => v@ == sv && next == snext && next <= data@.len(),
            (Err(e), Err(se)) => e == se,
            _ => false,
        },
{
    reveal(parse_mutes_at);
    let (body, next) = match read_bytes(data, at) {
        Ok(pair) => pair,
        Err(e) => {
            return Err(e);
        },
    };
    match get_mutes(body.as_slice()) {
        Ok(t) => Ok((t, next)),
        Err(e) => Err(e),
    }
}

fn get_permissions(data: &[u8], at: usize) -> (r: Result<(Permissions, usize), CodecError>)
    requires
        at <= data@.len(),
    ensures
        agrees(r, parse_permissions(data@, at as int), data@.len()),
{
    reveal(parse_permissions);
    if data.len() - at < 7 {
        return Err(CodecError::UnexpectedEOF);
    }
    Ok((flags_at(data, at), at + 7))
}

fn get_visibility(data: &[u8], at: usize) -> (r: Result<(Visibility, usize), CodecError>)
    requires
        at <= data@.len(),
    ensures
        agrees(r, parse_visibility(data@, at as int), data@.len()),
{
    reveal(parse_visibility);
    reveal(parse_u8);
    match read_u8(data, at) {
        Ok((b, next)) => {
            if b == 1 {
                Ok((Visibility::Public, next))
            } else if b == 2 {
                Ok((Visibility::Private, next))
            } else if b == 3 {
                Ok((Visibility::Hidden, next))
            } else {
                Err(CodecError::UnsupportedEnumDiscriminant)
            }
        },
        Err(e) => Err(e),
    }
}

fn get_join_mode(data: &[u8], at: usize) -> (r: Result<(JoinMode, usize), CodecError>)
    requires
        at <= data@.len(),
    ensures
        agrees(r, parse_join_mode(data@, at as int), data@.len()),
{
    reveal(parse_join_mode);
    reveal(parse_u8);
    match read_u8(data, at) {
        Ok((b, next)) => {
            if b == 1 {
                Ok((JoinMode::Open, next))
            } else if b == 2 {
                Ok((JoinMode::InviteOnly, next))
            } else if b == 3 {
                Ok((JoinMode::RequestToJoin, next))
            } else {
                Err(CodecError::UnsupportedEnumDiscriminant)
            }
        },
        Err(e) => Err(e),
    }
}

pub(crate) fn get_opt_text(data: &[u8], at: usize) -> (r: Result<(Option<String>, usize), CodecError>)
    requires
        at <= data@.len(),
    ensures
        match (r, parse_opt_text(data@, at as int)) {
            (Ok((v, next)), Ok((sv, snext))) => opt_text(v) == sv && next == snext && next
                <= data@.len(),
            (Err(e), Err(se)) => e == se,
            _ => false,
        },
{
    reveal(parse_opt_text);
    let (present, next) = match read_marker(data, at) {
        Ok(pair) => pair,
        Err(e) => {
            return Err(e);
        },
    };
    if present {
        match read_text(data, next) {
            Ok((t, after)) => Ok((Some(t), after)),
            Err(e) => Err(e),
        }
    } else {
        Ok((None, next))
    }
}

pub(crate) fn get_opt_blob(data: &[u8], at: usize) -> (r: Result<(Option<Vec<u8>>, usize), CodecError>)
    requires
        at <= data@.len(),
    ensures
        match (r, parse_opt_blob(data@, at as int)) {
            (Ok((v, next)), Ok((sv, snext))) => opt_bytes(v) == sv && next == snext && next
                <= data@.len(),
            (Err(e), Err(se)) => e == se,
            _ => false,
        },
{
    reveal(parse_opt_blob);
    let (present, next) = match read_marker(data, at) {
        Ok(pair) => pair,
        Err(e) => {
            return Err(e);
        },
    };
    if present {
        match read_bytes(data, next) {
            Ok((b, after)) => Ok((Some(b), after)),
            Err(e) => Err(e),
        }
    } else {
        Ok((None, next))
    }
}

fn get_opt_u32(data: &[u8], at: usize) -> (r: Result<(Option<u32>, usize), CodecError>)
    requires
        at <= data@.len(),
    ensures
        agrees(r, parse_opt_u32(data@, at as int), data@.len()),
{
    reveal(parse_opt_u32);
    let (present, next) = match read_marker(data, at) {
        Ok(pair) => pair,
        Err(e) => {
            return Err(e);
        },
    };
    if present {
        match read_u32(data, next) {
            Ok((n, after)) => Ok((Some(n), after)),
            Err(e) => Err(e),
        }
    } else {
        Ok((None, next))
    }
}

fn get_opt_u64(data: &[u8], at: usize) -> (r: Result<(Option<u64>, usize), CodecError>)
    requires
        at <= data@.len(),
    ensures
        agrees(r, parse_opt_u64(data@, at as int), data@.len()),
{
    reveal(parse_opt_u64);
    let (present, next) = match read_marker(data, at) {
        Ok(pair) => pair,
        Err(e) => {
            return Err(e);
        },
    };
    if present {
        match read_u64(data, next) {
            Ok((n, after)) => Ok((Some(n), after)),
            Err(e) => Err(e),
        }
    } else {
        Ok((None, next))
    }
}

struct Head {
    id: u64,
    name: String,
    created_at: u64,
    updated_at: u64,
    visibility: Visibility,
    join_mode: JoinMode,
    invite_link: Option<String>,
    max_members: Option<u32>,
}

struct People {
    creator_id: u64,
    members: Vec<u64>,
    admins: Vec<u64>,
    permissions: HashMap<u64, Permissions>,
    default_permissions: Permissions,
    banned: Vec<u64>,
    muted: HashMap<u64, DateTime>,
}

struct Tail {
    description: Option<String>,
    avatar: Option<Vec<u8>>,
    banner: Option<Vec<u8>>,
    pinned_message_id: Option<u64>,
    slow_mode_delay: Option<u32>,
    allow_stickers: bool,
    allow_gifs: bool,
    allow_voice_messages: bool,
    allow_video_messages: bool,
    allow_links: bool,
}

impl Head {
    spec fn view(&self) -> HeadPart {
        HeadPart {
            id: self.id,
            name: self.name@,
            created_at: self.created_at,
            updated_at: self.updated_at,
            visibility: self.visibility,
            join_mode: self.join_mode,
            invite_link: opt_text(self.invite_link),
            max_members: self.max_members,
        }
    }
}

impl People {
    spec fn view(&self) -> PeoplePart {
        PeoplePart {
            creator_id: self.creator_id,
            members: self.members@,
            admins: self.admins@,
            permissions: self.permissions@,
            default_permissions: self.default_permissions,
            banned: self.banned@,
            muted: self.muted@,
        }
    }
}

impl Tail {
    spec fn view(&self) -> TailPart {
        TailPart {
            description: opt_text(self.description),
            avatar: opt_bytes(self.avatar),
            banner: opt_bytes(self.banner),
            pinned_message_id: self.pinned_message_id,
            slow_mode_delay: self.slow_mode_delay,
            allow_stickers: self.allow_stickers,
            allow_gifs: self.allow_gifs,
            allow_voice_messages: self.allow_voice_messages,
            allow_video_messages: self.allow_video_messages,
            allow_links: self.allow_links,
        }
    }
}

fn get_head(data: &[u8], at: usize) -> (r: Result<(Head, usize), CodecError>)
    requires
        at <= data@.len(),
    ensures
        match (r, parse_head(data@, at as int)) {
            (Ok((v, next)), Ok((sv, snext))) => v.view() == sv && next == snext && next
                <= data@.len(),
            (Err(e), Err(se)) => e == se,
            _ => false,
        },
{
    let (id, after1) = match read_u64(data, at) {
        Ok(pair) => pair,
        Err(e) => {
            return Err(e);
        },
    };
    let (name, after2) = match read_text(data, after1) {
        Ok(pair) => pair,
        Err(e) => {
            return Err(e);
        },
    };
    let (created_at, after3) = match read_u64(data, after2) {
        Ok(pair) => pair,
        Err(e) => {
            return Err(e);
        },
    };
    let (updated_at, after4) = match read_u64(data, after3) {
        Ok(pair) => pair,
        Err(e) => {
            return Err(e);
        },
    };
    let (visibility, after5) = match get_visibility(data, after4) {
        Ok(pair) => pair,
        Err(e) => {
            return Err(e);
        },
    };
    let (join_mode, after6) = match get_join_mode(data, after5) {
        Ok(pair) => pair,
        Err(e) => {
            return Err(e);
        },
    };
    let (invite_link, after7) = match get_opt_text(data, after6) {
        Ok(pair) => pair,
        Err(e) => {
            return Err(e);
        },
    };
    let (max_members, after8) = match get_opt_u32(data, after7) {
        Ok(pair) => pair,
        Err(e) => {
            return Err(e);
        },
    };
    Ok((Head { id, name, created_at, updated_at, visibility, join_mode, invite_link, max_members }, after8))
}

fn get_people(data: &[u8], at: usize) -> (r: Result<(People, usize), CodecError>)
    requires
        at <= data@.len(),
    ensures
        match (r, parse_people(data@, at as int)) {
            (Ok((v, next)), Ok((sv, snext))) => v.view() == sv && next == snext && next
                <= data@.len(),
            (Err(e), Err(se)) => e == se,
            _ => false,
        },
{
    let (creator_id, after1) = match read_u64(data, at) {
        Ok(pair) => pair,
        Err(e) => {
            return Err(e);
        },
    };
    let (members, after2) = match get_id_list(data, after1) {
        Ok(pair) => pair,
        Err(e) => {
            return Err(e);
        },
    };
    let (admins, after3) = match get_id_list(data, after2) {
        Ok(pair) => pair,
        Err(e) => {
            return Err(e);
        },
    };
    let (permissions, after4) = match get_table_at(data, after3) {
        Ok(pair) => pair,
        Err(e) => {
            return Err(e);
        },
    };
    let (default_permissions, after5) = match get_permissions(data, after4) {
        Ok(pair) => pair,
        Err(e) => {
            return Err(e);
        },
    };
    let (banned, after6) = match get_id_list(data, after5) {
        Ok(pair) => pair,
        Err(e) => {
            return Err(e);
        },
    };
    let (muted, after7) = match get_mutes_at(data, after6) {
        Ok(pair) => pair,
        Err(e) => {
            return Err(e);
        },
    };
    Ok((People { creator_id, members, admins, permissions, default_permissions, banned, muted }, after7))
}

fn get_tail(data: &[u8], at: usize) -> (r: Result<(Tail, usize), CodecError>)
    requires
        at <= data@.len(),
    ensures
        match (r, parse_tail(data@, at as int)) {
            (Ok((v, next)), Ok((sv, snext))) => v.view() == sv && next == snext && next
                <= data@.len(),
            (Err(e), Err(se)) => e == se,
            _ => false,
        },
{
    let (description, after1) = match get_opt_text(data, at) {
        Ok(pair) => pair,
        Err(e) => {
            return Err(e);
        },
    };
    let (avatar, after2) = match get_opt_blob(data, after1) {
        Ok(pair) => pair,
        Err(e) => {
            return Err(e);
        },
    };
    let (banner, after3) = match get_opt_blob(data, after2) {
        Ok(pair) => pair,
        Err(e) => {
            return Err(e);
        },
    };
    let (pinned_message_id, after4) = match get_opt_u64(data, after3) {
        Ok(pair) => pair,
        Err(e) => {
            return Err(e);
        },
    };
    let (slow_mode_delay, after5) = match get_opt_u32(data, after4) {
        Ok(pair) => pair,
        Err(e) => {
            return Err(e);
        },
    };
    let (allow_stickers, after6) = match read_bool(data, after5) {
        Ok(pair) => pair,
        Err(e) => {
            return Err(e);
        },
    };
    let (allow_gifs, after7) = match read_bool(data, after6) {
        Ok(pair) => pair,
        Err(e) => {
            return Err(e);
        },
    };
    let (allow_voice_messages, after8) = match read_bool(data, after7) {
        Ok(pair) => pair,
        Err(e) => {
            return Err(e);
        },
    };
    let (allow_video_messages, after9) = match read_bool(data, after8) {
        Ok(pair) => pair,
        Err(e) => {
            return Err(e);
        },
    };
    let (allow_links, after10) = match read_bool(data, after9) {
        Ok(pair) => pair,
        Err(e) => {
            return Err(e);
        },
    };
    Ok((Tail { description, avatar, banner, pinned_message_id, slow_mode_delay, allow_stickers, allow_gifs, allow_voice_messages, allow_video_messages, allow_links }, after10))
}

impl GroupConfig {
    /// Reads a configuration from the start of `data`; see
    /// [`parse_config`].
    pub fn mls_decode(data: &[u8]) -> (r: Result<GroupConfig, CodecError>)
        ensures
            match (r, parse_config(data@)) {
                (Ok(c), Ok(v)) => c@ == v,
                (Err(e), Err(se)) => e == se,
                _ => false,
            },
    {
        let (h, after1) = match get_head(data, 0) {
            Ok(pair) => pair,
            Err(e) => {
                return Err(e);
            },
        };
        let (p, after2) = match get_people(data, after1) {
            Ok(pair) => pair,
            Err(e) => {
                return Err(e);
            },
        };
        let (t, _end) = match get_tail(data, after2) {
            Ok(pair) => pair,
            Err(e) => {
                return Err(e);
            },
        };
        Ok(
            GroupConfig {
                id: h.id,
                name: h.name,
                created_at: DateTime { timestamp: h.created_at },
                updated_at: DateTime { timestamp: h.updated_at },
                visibility: h.visibility,
                join_mode: h.join_mode,
                invite_link: h.invite_link,
                max_members: h.max_members,
                creator_id: p.creator_id,
                members: p.members,
                admins: p.admins,
                permissions: p.permissions,
                default_permissions: p.default_permissions,
                banned: p.banned,
                muted: p.muted,
                description: t.description,
                avatar: t.avatar,
                banner: t.banner,
                pinned_message_id: t.pinned_message_id,
                slow_mode_delay: t.slow_mode_delay,
                allow_stickers: t.allow_stickers,
                allow_gifs: t.allow_gifs,
                allow_voice_messages: t.allow_voice_messages,
                allow_video_messages: t.allow_video_messages,
                allow_links: t.allow_links,
            },
        )
    }
}

} // verus!
