//! The account on the wire reads back as itself.

use vstd::prelude::*;
use crate::group::codec::{
    opt_blob_bytes, opt_text_bytes, parse_opt_blob, parse_opt_text, seq_assoc,
};
use crate::group::codec_laws::{lemma_parse_opt_blob, lemma_parse_opt_text};
use crate::identity::account::AccountView;
use crate::identity::credentials::{
    lemma_account_at_round_trip, parse_account_at, AccountCredentialView,
};
use crate::wire::mls::{
    be_u64, byte_string, lemma_parse_bytes, lemma_parse_text, lemma_parse_u64, parse_bytes,
    parse_text, parse_u64, text_string, CodecError,
};

verus! {

/// An account that was written reads back as itself, whatever follows it.
pub proof fn lemma_account_round_trip(a: AccountView, tail: Seq<u8>)
    requires
        a.encodable(),
    ensures
        AccountView::decoded(a.encoded() + tail) == Ok::<AccountView, CodecError>(a),
{
    let e0 = be_u64(a.user_id);
    let e1 = text_string(a.username);
    let e2 = text_string(a.public_address);
    let e3 = text_string(a.server_address);
    let e4 = opt_blob_bytes(a.server_public_key);
    let e5 = opt_text_bytes(a.avatar_url);
    let e6 = a.credential.encoded();
    let e7 = byte_string(a.signer);
    let r8 = tail;
    let r7 = e7 + r8;
    let r6 = e6 + r7;
    let r5 = e5 + r6;
    let r4 = e4 + r5;
    let r3 = e3 + r4;
    let r2 = e2 + r3;
    let r1 = e1 + r2;
    let r0 = e0 + r1;
    let l0 = e0;
    let l1 = l0 + e1;
    let l2 = l1 + e2;
    let l3 = l2 + e3;
    let l4 = l3 + e4;
    let l5 = l4 + e5;
    let l6 = l5 + e6;
    let l7 = l6 + e7;
    seq_assoc(l6, e7, r8);
    seq_assoc(l5, e6, r7);
    seq_assoc(l4, e5, r6);
    seq_assoc(l3, e4, r5);
    seq_assoc(l2, e3, r4);
    seq_assoc(l1, e2, r3);
    seq_assoc(l0, e1, r2);
    let data = a.encoded() + tail;
    assert(a.encoded() == l7);
    assert(data == r0);
    let h0 = Seq::<u8>::empty();
    assert(h0 + r0 =~= r0);
    seq_assoc(h0, e0, r1);
    lemma_parse_u64(h0, a.user_id, r1);
    let h1 = h0 + e0;
    assert(parse_u64(data, h0.len() as int) == Ok::<(u64, int), CodecError>((a.user_id, h1.len() as int)));
    seq_assoc(h1, e1, r2);
    lemma_parse_text(h1, a.username, r2);
    let h2 = h1 + e1;
    assert(parse_text(data, h1.len() as int) == Ok::<(Seq<char>, int), CodecError>((a.username, h2.len() as int)));
    seq_assoc(h2, e2, r3);
    lemma_parse_text(h2, a.public_address, r3);
    let h3 = h2 + e2;
    assert(parse_text(data, h2.len() as int) == Ok::<(Seq<char>, int), CodecError>((a.public_address, h3.len() as int)));
    seq_assoc(h3, e3, r4);
    lemma_parse_text(h3, a.server_address, r4);
    let h4 = h3 + e3;
    assert(parse_text(data, h3.len() as int) == Ok::<(Seq<char>, int), CodecError>((a.server_address, h4.len() as int)));
    seq_assoc(h4, e4, r5);
    lemma_parse_opt_blob(h4, a.server_public_key, r5);
    let h5 = h4 + e4;
    assert(parse_opt_blob(data, h4.len() as int) == Ok::<(Option<Seq<u8>>, int), CodecError>((a.server_public_key, h5.len() as int)));
    seq_assoc(h5, e5, r6);
    lemma_parse_opt_text(h5, a.avatar_url, r6);
    let h6 = h5 + e5;
    assert(parse_opt_text(data, h5.len() as int) == Ok::<(Option<Seq<char>>, int), CodecError>((a.avatar_url, h6.len() as int)));
    seq_assoc(h6, e6, r7);
    lemma_account_at_round_trip(h6, a.credential, r7);
    let h7 = h6 + e6;
    assert(parse_account_at(data, h6.len() as int) == Ok::<(AccountCredentialView, int), CodecError>((a.credential, h7.len() as int)));
    seq_assoc(h7, e7, r8);
    lemma_parse_bytes(h7, a.signer, r8);
    let h8 = h7 + e7;
    assert(parse_bytes(data, h7.len() as int) == Ok::<(Seq<u8>, int), CodecError>((a.signer, h8.len() as int)));
}

} // verus!
