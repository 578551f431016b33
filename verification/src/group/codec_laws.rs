//! A configuration that was written reads back as itself.

use vstd::prelude::*;
use crate::group::codec::{
    is_encoding, lemma_ids_body_len, lemma_mutes_body_len, lemma_table_body_len,
    assemble, config_bytes, config_fits, head_bytes, head_fits, ids_body, mutes_body,
    mutes_upto, opt_blob_bytes, opt_blob_fits, opt_text_bytes, opt_text_fits, opt_u32_bytes,
    opt_u64_bytes, parse_config, parse_head, parse_id_list, parse_ids, parse_join_mode,
    parse_head_rest, parse_mutes, parse_mutes_at, parse_people_rest, parse_tail_rest, parse_opt_blob, parse_opt_text, parse_opt_u32, parse_opt_u64,
    parse_people, parse_permissions, parse_table, parse_table_at, parse_tail, parse_visibility,
    people_bytes, people_fits, permission_bytes, permissions_at, seq_assoc, table_body,
    table_upto, tail_bytes, tail_fits, HeadPart, PeoplePart, TailPart,
};
use crate::group::config::{DateTime, GroupConfigView, JoinMode, Permissions, Visibility};
use crate::identity::credentials::{bytes_fit, text_fits};
use crate::support::sorting::increasing;
use crate::wire::mls::{
    be_u32, be_u64, bool_byte, byte_string, from_be_u32, from_be_u64, lemma_parse_bytes,
    lemma_parse_text, lemma_parse_u64, parse_bool, parse_bytes, parse_marker, parse_text,
    parse_u32, parse_u64, parse_u8, text_string, CodecError, VARINT_LIMIT,
};

verus! {

/// Eight bytes in network byte order read back as the number they were
/// written from.
pub proof fn lemma_be_u64(v: u64)
    ensures
        be_u64(v).len() == 8,
        from_be_u64(be_u64(v)) == v,
{
    vstd::bytes::lemma_auto_spec_u64_to_from_le_bytes();
    let le = vstd::bytes::spec_u64_to_le_bytes(v);
    assert(le.reverse().reverse() =~= le);
}

/// Four bytes in network byte order read back as the number they were
/// written from.
pub proof fn lemma_be_u32(v: u32)
    ensures
        be_u32(v).len() == 4,
        from_be_u32(be_u32(v)) == v,
{
    vstd::bytes::lemma_auto_spec_u32_to_from_le_bytes();
    let le = vstd::bytes::spec_u32_to_le_bytes(v);
    assert(le.len() == 4);
    assert(le.reverse().reverse() =~= le);
}

/// Reading gives back what was written: a 32-bit integer.
pub proof fn lemma_parse_u32(head: Seq<u8>, v: u32, tail: Seq<u8>)
    ensures
        parse_u32(head + be_u32(v) + tail, head.len() as int) == Ok::<(u32, int), CodecError>(
            (v, (head.len() + 4) as int),
        ),
{
    reveal(parse_u32);
    lemma_be_u32(v);
    let data = head + be_u32(v) + tail;
    let at = head.len() as int;
    assert(data.subrange(at, at + 4) =~= be_u32(v));
}

/// Reading gives back what was written: a truth value.
pub proof fn lemma_parse_bool(head: Seq<u8>, b: bool, tail: Seq<u8>)
    ensures
        parse_bool(head + bool_byte(b) + tail, head.len() as int) == Ok::<(bool, int), CodecError>(
            (b, (head.len() + 1) as int),
        ),
{
    reveal(parse_bool);
    reveal(parse_u8);
    let data = head + bool_byte(b) + tail;
    assert(data[head.len() as int] == bool_byte(b)[0]);
}

/// Reading gives back what was written: who can see the group.
pub proof fn lemma_parse_visibility(head: Seq<u8>, v: Visibility, tail: Seq<u8>)
    ensures
        parse_visibility(head + seq![v.spec_code()] + tail, head.len() as int) == Ok::<
            (Visibility, int),
            CodecError,
        >((v, (head.len() + 1) as int)),
{
    reveal(parse_visibility);
    reveal(parse_u8);
    let data = head + seq![v.spec_code()] + tail;
    assert(data[head.len() as int] == v.spec_code());
}

/// Reading gives back what was written: how members come in.
pub proof fn lemma_parse_join_mode(head: Seq<u8>, v: JoinMode, tail: Seq<u8>)
    ensures
        parse_join_mode(head + seq![v.spec_code()] + tail, head.len() as int) == Ok::<
            (JoinMode, int),
            CodecError,
        >((v, (head.len() + 1) as int)),
{
    reveal(parse_join_mode);
    reveal(parse_u8);
    let data = head + seq![v.spec_code()] + tail;
    assert(data[head.len() as int] == v.spec_code());
}

/// Reading gives back what was written: an optional 32-bit integer.
pub proof fn lemma_parse_opt_u32(head: Seq<u8>, v: Option<u32>, tail: Seq<u8>)
    ensures
        parse_opt_u32(head + opt_u32_bytes(v) + tail, head.len() as int) == Ok::<
            (Option<u32>, int),
            CodecError,
        >((v, (head.len() + opt_u32_bytes(v).len()) as int)),
{
    reveal(parse_opt_u32);
    reveal(parse_marker);
    reveal(parse_u8);
    let data = head + opt_u32_bytes(v) + tail;
    assert(data[head.len() as int] == opt_u32_bytes(v)[0]);
    match v {
        None => {},
        Some(n) => {
            lemma_be_u32(n);
            assert(data =~= (head + seq![1u8]) + be_u32(n) + tail);
            lemma_parse_u32(head + seq![1u8], n, tail);
        },
    }
}

/// Reading gives back what was written: an optional 64-bit integer.
pub proof fn lemma_parse_opt_u64(head: Seq<u8>, v: Option<u64>, tail: Seq<u8>)
    ensures
        parse_opt_u64(head + opt_u64_bytes(v) + tail, head.len() as int) == Ok::<
            (Option<u64>, int),
            CodecError,
        >((v, (head.len() + opt_u64_bytes(v).len()) as int)),
{
    reveal(parse_opt_u64);
    reveal(parse_marker);
    reveal(parse_u8);
    let data = head + opt_u64_bytes(v) + tail;
    assert(data[head.len() as int] == opt_u64_bytes(v)[0]);
    match v {
        None => {},
        Some(n) => {
            lemma_be_u64(n);
            assert(data =~= (head + seq![1u8]) + be_u64(n) + tail);
            lemma_parse_u64(head + seq![1u8], n, tail);
        },
    }
}

/// Reading gives back what was written: an optional text.
pub proof fn lemma_parse_opt_text(head: Seq<u8>, v: Option<Seq<char>>, tail: Seq<u8>)
    requires
        opt_text_fits(v),
    ensures
        parse_opt_text(head + opt_text_bytes(v) + tail, head.len() as int) == Ok::<
            (Option<Seq<char>>, int),
            CodecError,
        >((v, (head.len() + opt_text_bytes(v).len()) as int)),
{
    reveal(parse_opt_text);
    reveal(parse_marker);
    reveal(parse_u8);
    let data = head + opt_text_bytes(v) + tail;
    assert(data[head.len() as int] == opt_text_bytes(v)[0]);
    match v {
        None => {},
        Some(t) => {
            assert(data =~= (head + seq![1u8]) + text_string(t) + tail);
            lemma_parse_text(head + seq![1u8], t, tail);
        },
    }
}

/// Reading gives back what was written: an optional byte string.
pub proof fn lemma_parse_opt_blob(head: Seq<u8>, v: Option<Seq<u8>>, tail: Seq<u8>)
    requires
        opt_blob_fits(v),
    ensures
        parse_opt_blob(head + opt_blob_bytes(v) + tail, head.len() as int) == Ok::<
            (Option<Seq<u8>>, int),
            CodecError,
        >((v, (head.len() + opt_blob_bytes(v).len()) as int)),
{
    reveal(parse_opt_blob);
    reveal(parse_marker);
    reveal(parse_u8);
    let data = head + opt_blob_bytes(v) + tail;
    assert(data[head.len() as int] == opt_blob_bytes(v)[0]);
    match v {
        None => {},
        Some(b) => {
            assert(data =~= (head + seq![1u8]) + byte_string(b) + tail);
            lemma_parse_bytes(head + seq![1u8], b, tail);
        },
    }
}

/// Seven bytes of permissions read back as the permissions, wherever they
/// stand.
pub proof fn lemma_permissions_at(head: Seq<u8>, p: Permissions, tail: Seq<u8>)
    ensures
        permission_bytes(p).len() == 7,
        permissions_at(head + permission_bytes(p) + tail, head.len() as int) == p,
{
    let data = head + permission_bytes(p) + tail;
    let at = head.len() as int;
    let pb = permission_bytes(p);
    assert(pb.len() == 7);
    assert(pb[0] == bool_byte(p.manage_members)[0]);
    assert(pb[1] == bool_byte(p.send_messages)[0]);
    assert(pb[2] == bool_byte(p.delete_messages)[0]);
    assert(pb[3] == bool_byte(p.rename_group)[0]);
    assert(pb[4] == bool_byte(p.manage_permissions)[0]);
    assert(pb[5] == bool_byte(p.pin_messages)[0]);
    assert(pb[6] == bool_byte(p.manage_admins)[0]);
    assert(data[at] == pb[0]);
    assert(data[at + 1] == pb[1]);
    assert(data[at + 2] == pb[2]);
    assert(data[at + 3] == pb[3]);
    assert(data[at + 4] == pb[4]);
    assert(data[at + 5] == pb[5]);
    assert(data[at + 6] == pb[6]);
}

/// Reading gives back what was written: permissions.
pub proof fn lemma_parse_permissions(head: Seq<u8>, p: Permissions, tail: Seq<u8>)
    ensures
        parse_permissions(head + permission_bytes(p) + tail, head.len() as int) == Ok::<
            (Permissions, int),
            CodecError,
        >((p, (head.len() + 7) as int)),
{
    reveal(parse_permissions);
    lemma_permissions_at(head, p, tail);
}

/// Where the numbers of a list stand in its wire form.
pub proof fn lemma_ids_at(v: Seq<u64>, i: int)
    requires
        0 <= i < v.len(),
    ensures
        ids_body(v).len() == 8 * v.len(),
        ids_body(v).subrange(8 * i, 8 * i + 8) == be_u64(v[i]),
    decreases v.len(),
{
    lemma_ids_body_len(v);
    lemma_ids_body_len(v.drop_last());
    lemma_be_u64(v.last());
    let init = v.drop_last();
    let body = ids_body(v);
    if i == v.len() - 1 {
        assert(body.subrange(8 * i, 8 * i + 8) =~= be_u64(v.last()));
    } else {
        lemma_ids_at(init, i);
        assert(body.subrange(8 * i, 8 * i + 8) =~= ids_body(init).subrange(8 * i, 8 * i + 8));
        assert(init[i] == v[i]);
    }
}

/// A list of numbers that was written reads back as itself.
pub proof fn lemma_ids_round_trip(v: Seq<u64>)
    ensures
        parse_ids(ids_body(v)) == Ok::<Seq<u64>, CodecError>(v),
{
    lemma_ids_body_len(v);
    let body = ids_body(v);
    let read = Seq::new(
        (body.len() / 8) as nat,
        |i: int| from_be_u64(body.subrange(8 * i, 8 * i + 8)),
    );
    assert(read.len() == v.len());
    assert forall|i: int| 0 <= i < v.len() implies read[i] == v[i] by {
        lemma_ids_at(v, i);
        lemma_be_u64(v[i]);
    }
    assert(read =~= v);
}

/// Where the entries of a permission table stand in its wire form.
pub proof fn lemma_table_at(m: Map<u64, Permissions>, keys: Seq<u64>, i: int)
    requires
        0 <= i < keys.len(),
    ensures
        table_body(m, keys).len() == 15 * keys.len(),
        from_be_u64(table_body(m, keys).subrange(15 * i, 15 * i + 8)) == keys[i],
        permissions_at(table_body(m, keys), 15 * i + 8) == m[keys[i]],
    decreases keys.len(),
{
    lemma_table_body_len(m, keys);
    lemma_table_body_len(m, keys.drop_last());
    let init = keys.drop_last();
    let k = keys.last();
    let body = table_body(m, keys);
    let front = table_body(m, init);
    lemma_be_u64(k);
    if i == keys.len() - 1 {
        assert(body.subrange(15 * i, 15 * i + 8) =~= be_u64(k));
        assert(body =~= (front + be_u64(k)) + permission_bytes(m[k]) + Seq::<u8>::empty());
        lemma_permissions_at(front + be_u64(k), m[k], Seq::empty());
    } else {
        lemma_table_at(m, init, i);
        assert(body.subrange(15 * i, 15 * i + 8) =~= front.subrange(15 * i, 15 * i + 8));
        assert(init[i] == keys[i]);
        let at = 15 * i + 8;
        assert(body[at] == front[at]);
        assert(body[at + 1] == front[at + 1]);
        assert(body[at + 2] == front[at + 2]);
        assert(body[at + 3] == front[at + 3]);
        assert(body[at + 4] == front[at + 4]);
        assert(body[at + 5] == front[at + 5]);
        assert(body[at + 6] == front[at + 6]);
    }
}

/// The table that the first `n` entries of a written table stand for: the
/// table itself, on the first `n` keys.
pub proof fn lemma_table_upto(m: Map<u64, Permissions>, keys: Seq<u64>, n: nat)
    requires
        n <= keys.len(),
    ensures
        table_upto(table_body(m, keys), n) =~= Map::new(
            |k: u64| keys.subrange(0, n as int).contains(k),
            |k: u64| m[k],
        ),
    decreases n,
{
    let body = table_body(m, keys);
    if n > 0 {
        lemma_table_upto(m, keys, (n - 1) as nat);
        lemma_table_at(m, keys, n - 1);
        let before = keys.subrange(0, n - 1);
        let now = keys.subrange(0, n as int);
        assert(now =~= before.push(keys[n - 1]));
        assert forall|k: u64| now.contains(k) <==> (before.contains(k) || k == keys[n - 1]) by {
            if before.contains(k) {
                let w = choose|w: int| 0 <= w < before.len() && before[w] == k;
                assert(now[w] == k);
            }
            if k == keys[n - 1] {
                assert(now[n - 1] == k);
            }
        }
    }
}

/// A permission table that was written reads back as itself.
pub proof fn lemma_table_round_trip(m: Map<u64, Permissions>, keys: Seq<u64>)
    requires
        keys.to_set() == m.dom(),
    ensures
        parse_table(table_body(m, keys)) == Ok::<Map<u64, Permissions>, CodecError>(m),
{
    lemma_table_body_len(m, keys);
    lemma_table_upto(m, keys, keys.len());
    assert(keys.subrange(0, keys.len() as int) =~= keys);
    let read = table_upto(table_body(m, keys), keys.len());
    assert forall|k: u64| read.contains_key(k) <==> m.contains_key(k) by {
        assert(keys.to_set().contains(k) <==> m.dom().contains(k));
    }
    assert(read =~= m);
}

/// Where the entries of a mute table stand in its wire form.
pub proof fn lemma_mutes_at(m: Map<u64, DateTime>, keys: Seq<u64>, i: int)
    requires
        0 <= i < keys.len(),
    ensures
        mutes_body(m, keys).len() == 16 * keys.len(),
        from_be_u64(mutes_body(m, keys).subrange(16 * i, 16 * i + 8)) == keys[i],
        from_be_u64(mutes_body(m, keys).subrange(16 * i + 8, 16 * i + 16))
            == m[keys[i]].timestamp,
    decreases keys.len(),
{
    lemma_mutes_body_len(m, keys);
    lemma_mutes_body_len(m, keys.drop_last());
    let init = keys.drop_last();
    let k = keys.last();
    let body = mutes_body(m, keys);
    let front = mutes_body(m, init);
    lemma_be_u64(k);
    lemma_be_u64(m[k].timestamp);
    if i == keys.len() - 1 {
        assert(body.subrange(16 * i, 16 * i + 8) =~= be_u64(k));
        assert(body.subrange(16 * i + 8, 16 * i + 16) =~= be_u64(m[k].timestamp));
    } else {
        lemma_mutes_at(m, init, i);
        assert(body.subrange(16 * i, 16 * i + 8) =~= front.subrange(16 * i, 16 * i + 8));
        assert(body.subrange(16 * i + 8, 16 * i + 16) =~= front.subrange(
            16 * i + 8,
            16 * i + 16,
        ));
        assert(init[i] == keys[i]);
    }
}

/// The table that the first `n` entries of a written mute table stand for.
pub proof fn lemma_mutes_upto(m: Map<u64, DateTime>, keys: Seq<u64>, n: nat)
    requires
        n <= keys.len(),
    ensures
        mutes_upto(mutes_body(m, keys), n) =~= Map::new(
            |k: u64| keys.subrange(0, n as int).contains(k),
            |k: u64| m[k],
        ),
    decreases n,
{
    if n > 0 {
        lemma_mutes_upto(m, keys, (n - 1) as nat);
        lemma_mutes_at(m, keys, n - 1);
        let before = keys.subrange(0, n - 1);
        let now = keys.subrange(0, n as int);
        assert(now =~= before.push(keys[n - 1]));
        assert forall|k: u64| now.contains(k) <==> (before.contains(k) || k == keys[n - 1]) by {
            if before.contains(k) {
                let w = choose|w: int| 0 <= w < before.len() && before[w] == k;
                assert(now[w] == k);
            }
            if k == keys[n - 1] {
                assert(now[n - 1] == k);
            }
        }
    }
}

/// A mute table that was written reads back as itself.
pub proof fn lemma_mutes_round_trip(m: Map<u64, DateTime>, keys: Seq<u64>)
    requires
        keys.to_set() == m.dom(),
    ensures
        parse_mutes(mutes_body(m, keys)) == Ok::<Map<u64, DateTime>, CodecError>(m),
{
    lemma_mutes_body_len(m, keys);
    lemma_mutes_upto(m, keys, keys.len());
    assert(keys.subrange(0, keys.len() as int) =~= keys);
    let read = mutes_upto(mutes_body(m, keys), keys.len());
    assert forall|k: u64| read.contains_key(k) <==> m.contains_key(k) by {
        assert(keys.to_set().contains(k) <==> m.dom().contains(k));
    }
    assert(read =~= m);
}

/// Reading gives back what was written: a list of numbers behind its
/// length.
pub proof fn lemma_parse_id_list(head: Seq<u8>, v: Seq<u64>, tail: Seq<u8>)
    requires
        8 * v.len() < VARINT_LIMIT,
    ensures
        parse_id_list(head + byte_string(ids_body(v)) + tail, head.len() as int) == Ok::<
            (Seq<u64>, int),
            CodecError,
        >((v, (head.len() + byte_string(ids_body(v)).len()) as int)),
{
    reveal(parse_id_list);
    lemma_ids_body_len(v);
    lemma_parse_bytes(head, ids_body(v), tail);
    lemma_ids_round_trip(v);
}

/// Reading gives back what was written: a permission table behind its
/// length.
pub proof fn lemma_parse_table_at(
    head: Seq<u8>,
    m: Map<u64, Permissions>,
    keys: Seq<u64>,
    tail: Seq<u8>,
)
    requires
        keys.to_set() == m.dom(),
        15 * keys.len() < VARINT_LIMIT,
    ensures
        parse_table_at(head + byte_string(table_body(m, keys)) + tail, head.len() as int) == Ok::<
            (Map<u64, Permissions>, int),
            CodecError,
        >((m, (head.len() + byte_string(table_body(m, keys)).len()) as int)),
{
    reveal(parse_table_at);
    lemma_table_body_len(m, keys);
    lemma_parse_bytes(head, table_body(m, keys), tail);
    lemma_table_round_trip(m, keys);
}

/// Reading gives back what was written: a mute table behind its length.
pub proof fn lemma_parse_mutes_at(
    head: Seq<u8>,
    m: Map<u64, DateTime>,
    keys: Seq<u64>,
    tail: Seq<u8>,
)
    requires
        keys.to_set() == m.dom(),
        16 * keys.len() < VARINT_LIMIT,
    ensures
        parse_mutes_at(head + byte_string(mutes_body(m, keys)) + tail, head.len() as int) == Ok::<
            (Map<u64, DateTime>, int),
            CodecError,
        >((m, (head.len() + byte_string(mutes_body(m, keys)).len()) as int)),
{
    reveal(parse_mutes_at);
    lemma_mutes_body_len(m, keys);
    lemma_parse_bytes(head, mutes_body(m, keys), tail);
    lemma_mutes_round_trip(m, keys);
}

/// The first part of a configuration.
pub open spec fn head_of(c: GroupConfigView) -> HeadPart {
    HeadPart {
        id: c.id,
        name: c.name,
        created_at: c.created_at.timestamp,
        updated_at: c.updated_at.timestamp,
        visibility: c.visibility,
        join_mode: c.join_mode,
        invite_link: c.invite_link,
        max_members: c.max_members,
    }
}

/// The second part of a configuration.
pub open spec fn people_of(c: GroupConfigView) -> PeoplePart {
    PeoplePart {
        creator_id: c.creator_id,
        members: c.members,
        admins: c.admins,
        permissions: c.permissions,
        default_permissions: c.default_permissions,
        banned: c.banned,
        muted: c.muted,
    }
}

/// The third part of a configuration.
pub open spec fn tail_of(c: GroupConfigView) -> TailPart {
    TailPart {
        description: c.description,
        avatar: c.avatar,
        banner: c.banner,
        pinned_message_id: c.pinned_message_id,
        slow_mode_delay: c.slow_mode_delay,
        allow_stickers: c.allow_stickers,
        allow_gifs: c.allow_gifs,
        allow_voice_messages: c.allow_voice_messages,
        allow_video_messages: c.allow_video_messages,
        allow_links: c.allow_links,
    }
}

/// Reading gives back what was written: the rest of the first part.
pub proof fn lemma_parse_head_rest(pre: Seq<u8>, c: GroupConfigView, post: Seq<u8>)
    requires
        opt_text_fits(c.invite_link),
    ensures
        parse_head_rest(pre + (seq![c.visibility.spec_code()] + seq![c.join_mode.spec_code()] + opt_text_bytes(c.invite_link) + opt_u32_bytes(c.max_members)) + post, pre.len() as int, c.id, c.name, c.created_at.timestamp, c.updated_at.timestamp) == Ok::<_, CodecError>(
            (head_of(c), (pre.len() + (seq![c.visibility.spec_code()] + seq![c.join_mode.spec_code()] + opt_text_bytes(c.invite_link) + opt_u32_bytes(c.max_members)).len()) as int),
        ),
{
    let e0 = seq![c.visibility.spec_code()];
    let e1 = seq![c.join_mode.spec_code()];
    let e2 = opt_text_bytes(c.invite_link);
    let e3 = opt_u32_bytes(c.max_members);
    let r4 = post;
    let r3 = e3 + r4;
    let r2 = e2 + r3;
    let r1 = e1 + r2;
    let r0 = e0 + r1;
    let l0 = e0;
    let l1 = l0 + e1;
    let l2 = l1 + e2;
    let l3 = l2 + e3;
    seq_assoc(l2, e3, r4);
    seq_assoc(l1, e2, r3);
    seq_assoc(l0, e1, r2);
    seq_assoc(pre, l3, post);
    let data = pre + l3 + post;
    assert(data == pre + r0);
    let h0 = pre;
    seq_assoc(h0, e0, r1);
    lemma_parse_visibility(h0, c.visibility, r1);
    let h1 = h0 + e0;
    assert(parse_visibility(data, h0.len() as int) == Ok::<_, CodecError>(((c.visibility), h1.len() as int)));
    seq_assoc(h1, e1, r2);
    lemma_parse_join_mode(h1, c.join_mode, r2);
    let h2 = h1 + e1;
    assert(parse_join_mode(data, h1.len() as int) == Ok::<_, CodecError>(((c.join_mode), h2.len() as int)));
    seq_assoc(h2, e2, r3);
    lemma_parse_opt_text(h2, c.invite_link, r3);
    let h3 = h2 + e2;
    assert(parse_opt_text(data, h2.len() as int) == Ok::<_, CodecError>(((c.invite_link), h3.len() as int)));
    seq_assoc(h3, e3, r4);
    lemma_parse_opt_u32(h3, c.max_members, r4);
    let h4 = h3 + e3;
    assert(parse_opt_u32(data, h3.len() as int) == Ok::<_, CodecError>(((c.max_members), h4.len() as int)));
}

/// Reading gives back what was written: the first part.
pub proof fn lemma_parse_head(pre: Seq<u8>, c: GroupConfigView, post: Seq<u8>)
    requires
        head_fits(c),
    ensures
        parse_head(pre + head_bytes(c) + post, pre.len() as int) == Ok::<_, CodecError>(
            (head_of(c), (pre.len() + head_bytes(c).len()) as int),
        ),
{
    let e0 = be_u64(c.id);
    let e1 = text_string(c.name);
    let e2 = be_u64(c.created_at.timestamp);
    let e3 = be_u64(c.updated_at.timestamp);
    let s0 = seq![c.visibility.spec_code()];
    let s1 = seq![c.join_mode.spec_code()];
    let s2 = opt_text_bytes(c.invite_link);
    let s3 = opt_u32_bytes(c.max_members);
    let l0 = e0;
    let l1 = l0 + e1;
    let l2 = l1 + e2;
    let l3 = l2 + e3;
    let t0 = s0;
    let t1 = t0 + s1;
    let t2 = t1 + s2;
    let t3 = t2 + s3;
    let w0 = l3 + s0;
    let w1 = w0 + s1;
    let w2 = w1 + s2;
    let w3 = w2 + s3;
    assert(w3 == head_bytes(c));
    seq_assoc(l3, t0, s1);
    assert(w1 == l3 + t1);
    seq_assoc(l3, t1, s2);
    assert(w2 == l3 + t2);
    seq_assoc(l3, t2, s3);
    assert(w3 == l3 + t3);
    let r4 = t3 + post;
    let r3 = e3 + r4;
    let r2 = e2 + r3;
    let r1 = e1 + r2;
    let r0 = e0 + r1;
    seq_assoc(l3, t3, post);
    seq_assoc(l2, e3, r4);
    seq_assoc(l1, e2, r3);
    seq_assoc(l0, e1, r2);
    seq_assoc(pre, w3, post);
    let data = pre + w3 + post;
    assert(w3 + post == r0);
    assert(data == pre + r0);
    let h0 = pre;
    seq_assoc(h0, e0, r1);
    lemma_parse_u64(h0, c.id, r1);
    let h1 = h0 + e0;
    assert(parse_u64(data, h0.len() as int) == Ok::<_, CodecError>(((c.id), h1.len() as int)));
    seq_assoc(h1, e1, r2);
    lemma_parse_text(h1, c.name, r2);
    let h2 = h1 + e1;
    assert(parse_text(data, h1.len() as int) == Ok::<_, CodecError>(((c.name), h2.len() as int)));
    seq_assoc(h2, e2, r3);
    lemma_parse_u64(h2, c.created_at.timestamp, r3);
    let h3 = h2 + e2;
    assert(parse_u64(data, h2.len() as int) == Ok::<_, CodecError>(((c.created_at.timestamp), h3.len() as int)));
    seq_assoc(h3, e3, r4);
    lemma_parse_u64(h3, c.updated_at.timestamp, r4);
    let h4 = h3 + e3;
    assert(parse_u64(data, h3.len() as int) == Ok::<_, CodecError>(((c.updated_at.timestamp), h4.len() as int)));
    seq_assoc(h4, t3, post);
    lemma_parse_head_rest(h4, c, post);
    assert(data == h4 + t3 + post);
}

/// Reading gives back what was written: the rest of the third part.
pub proof fn lemma_parse_tail_rest(pre: Seq<u8>, c: GroupConfigView, post: Seq<u8>)
    ensures
        parse_tail_rest(pre + (bool_byte(c.allow_stickers) + bool_byte(c.allow_gifs) + bool_byte(c.allow_voice_messages) + bool_byte(c.allow_video_messages) + bool_byte(c.allow_links)) + post, pre.len() as int, c.description, c.avatar, c.banner, c.pinned_message_id, c.slow_mode_delay) == Ok::<_, CodecError>(
            (tail_of(c), (pre.len() + (bool_byte(c.allow_stickers) + bool_byte(c.allow_gifs) + bool_byte(c.allow_voice_messages) + bool_byte(c.allow_video_messages) + bool_byte(c.allow_links)).len()) as int),
        ),
{
    let e0 = bool_byte(c.allow_stickers);
    let e1 = bool_byte(c.allow_gifs);
    let e2 = bool_byte(c.allow_voice_messages);
    let e3 = bool_byte(c.allow_video_messages);
    let e4 = bool_byte(c.allow_links);
    let r5 = post;
    let r4 = e4 + r5;
    let r3 = e3 + r4;
    let r2 = e2 + r3;
    let r1 = e1 + r2;
    let r0 = e0 + r1;
    let l0 = e0;
    let l1 = l0 + e1;
    let l2 = l1 + e2;
    let l3 = l2 + e3;
    let l4 = l3 + e4;
    seq_assoc(l3, e4, r5);
    seq_assoc(l2, e3, r4);
    seq_assoc(l1, e2, r3);
    seq_assoc(l0, e1, r2);
    seq_assoc(pre, l4, post);
    let data = pre + l4 + post;
    assert(data == pre + r0);
    let h0 = pre;
    seq_assoc(h0, e0, r1);
    lemma_parse_bool(h0, c.allow_stickers, r1);
    let h1 = h0 + e0;
    assert(parse_bool(data, h0.len() as int) == Ok::<_, CodecError>(((c.allow_stickers), h1.len() as int)));
    seq_assoc(h1, e1, r2);
    lemma_parse_bool(h1, c.allow_gifs, r2);
    let h2 = h1 + e1;
    assert(parse_bool(data, h1.len() as int) == Ok::<_, CodecError>(((c.allow_gifs), h2.len() as int)));
    seq_assoc(h2, e2, r3);
    lemma_parse_bool(h2, c.allow_voice_messages, r3);
    let h3 = h2 + e2;
    assert(parse_bool(data, h2.len() as int) == Ok::<_, CodecError>(((c.allow_voice_messages), h3.len() as int)));
    seq_assoc(h3, e3, r4);
    lemma_parse_bool(h3, c.allow_video_messages, r4);
    let h4 = h3 + e3;
    assert(parse_bool(data, h3.len() as int) == Ok::<_, CodecError>(((c.allow_video_messages), h4.len() as int)));
    seq_assoc(h4, e4, r5);
    lemma_parse_bool(h4, c.allow_links, r5);
    let h5 = h4 + e4;
    assert(parse_bool(data, h4.len() as int) == Ok::<_, CodecError>(((c.allow_links), h5.len() as int)));
}

/// Ten parts between a head and a tail: the first five one by one, the
/// last five together.
proof fn lemma_regroup_tail(
    pre: Seq<u8>,
    e0: Seq<u8>,
    e1: Seq<u8>,
    e2: Seq<u8>,
    e3: Seq<u8>,
    e4: Seq<u8>,
    s0: Seq<u8>,
    s1: Seq<u8>,
    s2: Seq<u8>,
    s3: Seq<u8>,
    s4: Seq<u8>,
    post: Seq<u8>,
)
    ensures
        ({
            let whole = e0 + e1 + e2 + e3 + e4 + s0 + s1 + s2 + s3 + s4;
            let rest = s0 + s1 + s2 + s3 + s4;
            let data = pre + whole + post;
            &&& data == pre + e0 + (e1 + (e2 + (e3 + (e4 + (rest + post)))))
            &&& data == (pre + e0) + e1 + (e2 + (e3 + (e4 + (rest + post))))
            &&& data == (pre + e0 + e1) + e2 + (e3 + (e4 + (rest + post)))
            &&& data == (pre + e0 + e1 + e2) + e3 + (e4 + (rest + post))
            &&& data == (pre + e0 + e1 + e2 + e3) + e4 + (rest + post)
            &&& data == (pre + e0 + e1 + e2 + e3 + e4) + rest + post
            &&& whole.len() == e0.len() + e1.len() + e2.len() + e3.len() + e4.len() + rest.len()
        }),
{
    let whole = e0 + e1 + e2 + e3 + e4 + s0 + s1 + s2 + s3 + s4;
    let rest = s0 + s1 + s2 + s3 + s4;
    let data = pre + whole + post;
    assert(data =~= pre + e0 + (e1 + (e2 + (e3 + (e4 + (rest + post))))));
    assert(data =~= (pre + e0) + e1 + (e2 + (e3 + (e4 + (rest + post)))));
    assert(data =~= (pre + e0 + e1) + e2 + (e3 + (e4 + (rest + post))));
    assert(data =~= (pre + e0 + e1 + e2) + e3 + (e4 + (rest + post)));
    assert(data =~= (pre + e0 + e1 + e2 + e3) + e4 + (rest + post));
    assert(data =~= (pre + e0 + e1 + e2 + e3 + e4) + rest + post);
}

/// Reading gives back what was written: the third part.
pub proof fn lemma_parse_tail(pre: Seq<u8>, c: GroupConfigView, post: Seq<u8>)
    requires
        tail_fits(c),
    ensures
        parse_tail(pre + tail_bytes(c) + post, pre.len() as int) == Ok::<_, CodecError>(
            (tail_of(c), (pre.len() + tail_bytes(c).len()) as int),
        ),
{
    let e0 = opt_text_bytes(c.description);
    let e1 = opt_blob_bytes(c.avatar);
    let e2 = opt_blob_bytes(c.banner);
    let e3 = opt_u64_bytes(c.pinned_message_id);
    let e4 = opt_u32_bytes(c.slow_mode_delay);
    let s0 = bool_byte(c.allow_stickers);
    let s1 = bool_byte(c.allow_gifs);
    let s2 = bool_byte(c.allow_voice_messages);
    let s3 = bool_byte(c.allow_video_messages);
    let s4 = bool_byte(c.allow_links);
    let rest = s0 + s1 + s2 + s3 + s4;
    lemma_regroup_tail(pre, e0, e1, e2, e3, e4, s0, s1, s2, s3, s4, post);
    let data = pre + tail_bytes(c) + post;
    let r4 = rest + post;
    let r3 = e4 + r4;
    let r2 = e3 + r3;
    let r1 = e2 + r2;
    let r0 = e1 + r1;
    let h1 = pre + e0;
    let h2 = h1 + e1;
    let h3 = h2 + e2;
    let h4 = h3 + e3;
    let h5 = h4 + e4;
    lemma_parse_opt_text(pre, c.description, r0);
    lemma_parse_opt_blob(h1, c.avatar, r1);
    lemma_parse_opt_blob(h2, c.banner, r2);
    lemma_parse_opt_u64(h3, c.pinned_message_id, r3);
    lemma_parse_opt_u32(h4, c.slow_mode_delay, r4);
    lemma_parse_tail_rest(h5, c, post);
}

/// Reading gives back what was written: the rest of the second part.
pub proof fn lemma_parse_people_rest(pre: Seq<u8>, c: GroupConfigView, mute_keys: Seq<u64>, post: Seq<u8>)
    requires
        8 * c.banned.len() < VARINT_LIMIT,
        mute_keys.to_set() == c.muted.dom(),
        16 * mute_keys.len() < VARINT_LIMIT,
    ensures
        parse_people_rest(pre + (permission_bytes(c.default_permissions) + byte_string(ids_body(c.banned)) + byte_string(mutes_body(c.muted, mute_keys))) + post, pre.len() as int, c.creator_id, c.members, c.admins, c.permissions) == Ok::<_, CodecError>(
            (people_of(c), (pre.len() + (permission_bytes(c.default_permissions) + byte_string(ids_body(c.banned)) + byte_string(mutes_body(c.muted, mute_keys))).len()) as int),
        ),
{
    let e0 = permission_bytes(c.default_permissions);
    let e1 = byte_string(ids_body(c.banned));
    let e2 = byte_string(mutes_body(c.muted, mute_keys));
    let r3 = post;
    let r2 = e2 + r3;
    let r1 = e1 + r2;
    let r0 = e0 + r1;
    let l0 = e0;
    let l1 = l0 + e1;
    let l2 = l1 + e2;
    seq_assoc(l1, e2, r3);
    seq_assoc(l0, e1, r2);
    seq_assoc(pre, l2, post);
    let data = pre + l2 + post;
    assert(data == pre + r0);
    let h0 = pre;
    seq_assoc(h0, e0, r1);
    lemma_parse_permissions(h0, c.default_permissions, r1);
    let h1 = h0 + e0;
    assert(parse_permissions(data, h0.len() as int) == Ok::<_, CodecError>(((c.default_permissions), h1.len() as int)));
    seq_assoc(h1, e1, r2);
    lemma_parse_id_list(h1, c.banned, r2);
    let h2 = h1 + e1;
    assert(parse_id_list(data, h1.len() as int) == Ok::<_, CodecError>(((c.banned), h2.len() as int)));
    seq_assoc(h2, e2, r3);
    lemma_parse_mutes_at(h2, c.muted, mute_keys, r3);
    let h3 = h2 + e2;
    assert(parse_mutes_at(data, h2.len() as int) == Ok::<_, CodecError>(((c.muted), h3.len() as int)));
}

/// Reading gives back what was written: the second part.
pub proof fn lemma_parse_people(pre: Seq<u8>, c: GroupConfigView, table_keys: Seq<u64>, mute_keys: Seq<u64>, post: Seq<u8>)
    requires
        8 * c.members.len() < VARINT_LIMIT,
        8 * c.admins.len() < VARINT_LIMIT,
        table_keys.to_set() == c.permissions.dom(),
        15 * table_keys.len() < VARINT_LIMIT,
        8 * c.banned.len() < VARINT_LIMIT,
        mute_keys.to_set() == c.muted.dom(),
        16 * mute_keys.len() < VARINT_LIMIT,
    ensures
        parse_people(pre + people_bytes(c, table_keys, mute_keys) + post, pre.len() as int) == Ok::<_, CodecError>(
            (people_of(c), (pre.len() + people_bytes(c, table_keys, mute_keys).len()) as int),
        ),
{
    let e0 = be_u64(c.creator_id);
    let e1 = byte_string(ids_body(c.members));
    let e2 = byte_string(ids_body(c.admins));
    let e3 = byte_string(table_body(c.permissions, table_keys));
    let s0 = permission_bytes(c.default_permissions);
    let s1 = byte_string(ids_body(c.banned));
    let s2 = byte_string(mutes_body(c.muted, mute_keys));
    let l0 = e0;
    let l1 = l0 + e1;
    let l2 = l1 + e2;
    let l3 = l2 + e3;
    let t0 = s0;
    let t1 = t0 + s1;
    let t2 = t1 + s2;
    let w0 = l3 + s0;
    let w1 = w0 + s1;
    let w2 = w1 + s2;
    assert(w2 == people_bytes(c, table_keys, mute_keys));
    seq_assoc(l3, t0, s1);
    assert(w1 == l3 + t1);
    seq_assoc(l3, t1, s2);
    assert(w2 == l3 + t2);
    let r4 = t2 + post;
    let r3 = e3 + r4;
    let r2 = e2 + r3;
    let r1 = e1 + r2;
    let r0 = e0 + r1;
    seq_assoc(l3, t2, post);
    seq_assoc(l2, e3, r4);
    seq_assoc(l1, e2, r3);
    seq_assoc(l0, e1, r2);
    seq_assoc(pre, w2, post);
    let data = pre + w2 + post;
    assert(w2 + post == r0);
    assert(data == pre + r0);
    let h0 = pre;
    seq_assoc(h0, e0, r1);
    lemma_parse_u64(h0, c.creator_id, r1);
    let h1 = h0 + e0;
    assert(parse_u64(data, h0.len() as int) == Ok::<_, CodecError>(((c.creator_id), h1.len() as int)));
    seq_assoc(h1, e1, r2);
    lemma_parse_id_list(h1, c.members, r2);
    let h2 = h1 + e1;
    assert(parse_id_list(data, h1.len() as int) == Ok::<_, CodecError>(((c.members), h2.len() as int)));
    seq_assoc(h2, e2, r3);
    lemma_parse_id_list(h2, c.admins, r3);
    let h3 = h2 + e2;
    assert(parse_id_list(data, h2.len() as int) == Ok::<_, CodecError>(((c.admins), h3.len() as int)));
    seq_assoc(h3, e3, r4);
    lemma_parse_table_at(h3, c.permissions, table_keys, r4);
    let h4 = h3 + e3;
    assert(parse_table_at(data, h3.len() as int) == Ok::<_, CodecError>(((c.permissions), h4.len() as int)));
    seq_assoc(h4, t2, post);
    lemma_parse_people_rest(h4, c, mute_keys, post);
    assert(data == h4 + t2 + post);
}

/// Keys in ascending order are as many as the keys of the table.
proof fn lemma_keys_len(keys: Seq<u64>, dom: Set<u64>)
    requires
        increasing(keys),
        keys.to_set() == dom,
    ensures
        keys.len() == dom.len(),
{
    assert(keys.no_duplicates());
    keys.unique_seq_to_set();
}

/// A configuration that was written with the given order of its tables
/// reads back as itself, whatever follows it on the wire.
pub proof fn lemma_config_bytes_round_trip(
    c: GroupConfigView,
    table_keys: Seq<u64>,
    mute_keys: Seq<u64>,
    tail: Seq<u8>,
)
    requires
        config_fits(c),
        increasing(table_keys),
        table_keys.to_set() == c.permissions.dom(),
        increasing(mute_keys),
        mute_keys.to_set() == c.muted.dom(),
    ensures
        parse_config(config_bytes(c, table_keys, mute_keys) + tail) == Ok::<
            GroupConfigView,
            CodecError,
        >(c),
{
    lemma_keys_len(table_keys, c.permissions.dom());
    lemma_keys_len(mute_keys, c.muted.dom());
    let h = head_bytes(c);
    let p = people_bytes(c, table_keys, mute_keys);
    let t = tail_bytes(c);
    let data = config_bytes(c, table_keys, mute_keys) + tail;
    let e = Seq::<u8>::empty();
    let after_people = t + tail;
    let after_head = p + after_people;
    assert(data == (h + p) + t + tail);
    seq_assoc(h + p, t, tail);
    seq_assoc(h, p, after_people);
    assert(e + h =~= h);
    assert(data == e + h + after_head);
    assert(data == h + p + after_people);
    lemma_parse_head(e, c, after_head);
    lemma_parse_people(h, c, table_keys, mute_keys, after_people);
    lemma_parse_tail(h + p, c, tail);
    assert(e.len() + h.len() == h.len());
    assert((h + p).len() == h.len() + p.len());
    assert(assemble(head_of(c), people_of(c), tail_of(c)) == c);
}

/// A configuration that was written reads back as itself.
pub proof fn lemma_config_round_trip(c: GroupConfigView, bytes: Seq<u8>, tail: Seq<u8>)
    requires
        config_fits(c),
        is_encoding(c, bytes),
    ensures
        parse_config(bytes + tail) == Ok::<GroupConfigView, CodecError>(c),
{
    let (table_keys, mute_keys) = choose|table_keys: Seq<u64>, mute_keys: Seq<u64>|
        increasing(table_keys) && table_keys.to_set() == c.permissions.dom() && increasing(
            mute_keys,
        ) && mute_keys.to_set() == c.muted.dom() && bytes == #[trigger] config_bytes(
            c,
            table_keys,
            mute_keys,
        );
    lemma_config_bytes_round_trip(c, table_keys, mute_keys, tail);
}

} // verus!
