//! Account and device credentials, and their MLS wire form.
//!
//! An account credential names a user and carries the key that signs for
//! the account. A device credential names one device of a user and carries
//! the account's signature over the device's key.

use vstd::prelude::*;
use vstd::utf8::encode_utf8;
use crate::support::text::copy_bytes;
use crate::wire::mls::{
    be_u64, byte_string, lemma_parse_bytes, lemma_parse_text, lemma_parse_u64, parse_bytes,
    parse_text, parse_u64, read_bytes, read_text, read_u64, text_string, write_bytes, write_text,
    write_u64, CodecError, VARINT_LIMIT,
};

verus! {

/// The credential type of device credentials.
pub const CREDENTIAL_V1: u16 = 65002;

/// A user, by number and public address.
#[derive(Debug, Clone)]
pub struct AccountId {
    pub user_id: u64,
    pub public_address: String,
}

/// A user's credential: who they are, the key their account signs with, and
/// the server's certificate.
#[derive(Debug, Clone)]
pub struct AccountCredential {
    pub account_id: AccountId,
    pub public_key: Vec<u8>,
    pub cert: Vec<u8>,
}

/// One device of a user.
#[derive(Debug, Clone)]
pub struct DeviceId {
    pub user_id: u64,
    pub device_id: String,
}

/// A device's credential: which device of which user, the user's public
/// key, and the account's signature that vouches for the device.
#[derive(Debug, Clone)]
pub struct DeviceCredential {
    pub device_id: DeviceId,
    pub user_public_key: Vec<u8>,
    pub signature: Vec<u8>,
}

pub struct AccountIdView {
    pub user_id: u64,
    pub public_address: Seq<char>,
}

pub struct AccountCredentialView {
    pub account_id: AccountIdView,
    pub public_key: Seq<u8>,
    pub cert: Seq<u8>,
}

pub struct DeviceIdView {
    pub user_id: u64,
    pub device_id: Seq<char>,
}

pub struct DeviceCredentialView {
    pub device_id: DeviceIdView,
    pub user_public_key: Seq<u8>,
    pub signature: Seq<u8>,
}

impl View for AccountId {
    type V = AccountIdView;

    open spec fn view(&self) -> AccountIdView {
        AccountIdView { user_id: self.user_id, public_address: self.public_address@ }
    }
}

impl View for AccountCredential {
    type V = AccountCredentialView;

    open spec fn view(&self) -> AccountCredentialView {
        AccountCredentialView {
            account_id: self.account_id@,
            public_key: self.public_key@,
            cert: self.cert@,
        }
    }
}

impl View for DeviceId {
    type V = DeviceIdView;

    open spec fn view(&self) -> DeviceIdView {
        DeviceIdView { user_id: self.user_id, device_id: self.device_id@ }
    }
}

impl View for DeviceCredential {
    type V = DeviceCredentialView;

    open spec fn view(&self) -> DeviceCredentialView {
        DeviceCredentialView {
            device_id: self.device_id@,
            user_public_key: self.user_public_key@,
            signature: self.signature@,
        }
    }
}

/// A number followed by a text: the wire form of both kinds of id.
pub open spec fn id_bytes(user_id: u64, name: Seq<char>) -> Seq<u8> {
    be_u64(user_id) + text_string(name)
}

/// A number followed by two byte strings: the wire form of what an account
/// signs for a device.
pub open spec fn keyed_bytes(user_id: u64, first: Seq<u8>, second: Seq<u8>) -> Seq<u8> {
    be_u64(user_id) + byte_string(first) + byte_string(second)
}

/// An id, followed by two byte strings: the wire form of both kinds of
/// credential.
pub open spec fn credential_bytes(
    user_id: u64,
    name: Seq<char>,
    key: Seq<u8>,
    extra: Seq<u8>,
) -> Seq<u8> {
    id_bytes(user_id, name) + byte_string(key) + byte_string(extra)
}

/// Whether a text is short enough for the wire.
pub open spec fn text_fits(t: Seq<char>) -> bool {
    encode_utf8(t).len() < VARINT_LIMIT
}

/// Whether a byte string is short enough for the wire.
pub open spec fn bytes_fit(b: Seq<u8>) -> bool {
    b.len() < VARINT_LIMIT
}

/// The parts of a credential as they are read off the wire.
pub open spec fn parse_credential(data: Seq<u8>) -> Result<
    (u64, Seq<char>, Seq<u8>, Seq<u8>),
    CodecError,
> {
    match parse_u64(data, 0) {
        Err(e) => Err(e),
        Ok((user_id, after1)) => match parse_text(data, after1) {
            Err(e) => Err(e),
            Ok((name, after2)) => match parse_bytes(data, after2) {
                Err(e) => Err(e),
                Ok((key, after3)) => match parse_bytes(data, after3) {
                    Err(e) => Err(e),
                    Ok((extra, _)) => Ok((user_id, name, key, extra)),
                },
            },
        },
    }
}

impl DeviceIdView {
    pub open spec fn encodable(self) -> bool {
        text_fits(self.device_id)
    }

    pub open spec fn encoded(self) -> Seq<u8> {
        id_bytes(self.user_id, self.device_id)
    }
}

impl AccountIdView {
    pub open spec fn encodable(self) -> bool {
        text_fits(self.public_address)
    }

    pub open spec fn encoded(self) -> Seq<u8> {
        id_bytes(self.user_id, self.public_address)
    }
}

impl DeviceCredentialView {
    /// Whether every part is short enough for the wire.
    pub open spec fn encodable(self) -> bool {
        &&& text_fits(self.device_id.device_id)
        &&& bytes_fit(self.user_public_key)
        &&& bytes_fit(self.signature)
    }

    pub open spec fn encoded(self) -> Seq<u8> {
        credential_bytes(
            self.device_id.user_id,
            self.device_id.device_id,
            self.user_public_key,
            self.signature,
        )
    }

    pub open spec fn decoded(data: Seq<u8>) -> Result<DeviceCredentialView, CodecError> {
        match parse_credential(data) {
            Err(e) => Err(e),
            Ok((user_id, name, key, extra)) => Ok(
                DeviceCredentialView {
                    device_id: DeviceIdView { user_id, device_id: name },
                    user_public_key: key,
                    signature: extra,
                },
            ),
        }
    }
}

impl AccountCredentialView {
    /// Whether every part is short enough for the wire.
    pub open spec fn encodable(self) -> bool {
        &&& text_fits(self.account_id.public_address)
        &&& bytes_fit(self.public_key)
        &&& bytes_fit(self.cert)
    }

    pub open spec fn encoded(self) -> Seq<u8> {
        credential_bytes(
            self.account_id.user_id,
            self.account_id.public_address,
            self.public_key,
            self.cert,
        )
    }

    pub open spec fn decoded(data: Seq<u8>) -> Result<AccountCredentialView, CodecError> {
        match parse_credential(data) {
            Err(e) => Err(e),
            Ok((user_id, name, key, extra)) => Ok(
                AccountCredentialView {
                    account_id: AccountIdView { user_id, public_address: name },
                    public_key: key,
                    cert: extra,
                },
            ),
        }
    }
}

/// Writes a number and a text.
fn encode_id(user_id: u64, name: &str) -> (r: Result<Vec<u8>, CodecError>)
    ensures
        match r {
            Ok(bytes) => text_fits(name@) && bytes@ == id_bytes(user_id, name@),
            Err(e) => e == CodecError::VarIntOutOfRange && !text_fits(name@),
        },
{
    let mut out: Vec<u8> = Vec::new();
    write_u64(&mut out, user_id);
    match write_text(&mut out, name) {
        Ok(()) => {
            assert(out@ =~= id_bytes(user_id, name@));
            Ok(out)
        },
        Err(e) => Err(e),
    }
}

/// Writes a number, a text and two byte strings.
fn encode_credential(user_id: u64, name: &str, key: &[u8], extra: &[u8]) -> (r: Result<
    Vec<u8>,
    CodecError,
>)
    ensures
        match r {
            Ok(bytes) => text_fits(name@) && bytes_fit(key@) && bytes_fit(extra@) && bytes@
                == credential_bytes(user_id, name@, key@, extra@),
            Err(e) => e == CodecError::VarIntOutOfRange && !(text_fits(name@) && bytes_fit(key@)
                && bytes_fit(extra@)),
        },
{
    let mut out: Vec<u8> = Vec::new();
    write_u64(&mut out, user_id);
    match write_text(&mut out, name) {
        Ok(()) => {},
        Err(e) => {
            return Err(e);
        },
    }
    match write_bytes(&mut out, key) {
        Ok(()) => {},
        Err(e) => {
            return Err(e);
        },
    }
    match write_bytes(&mut out, extra) {
        Ok(()) => {},
        Err(e) => {
            return Err(e);
        },
    }
    assert(out@ =~= credential_bytes(user_id, name@, key@, extra@));
    Ok(out)
}

/// Reads a number, a text and two byte strings from the start of `data`;
/// what follows them is left unread.
fn decode_credential(data: &[u8]) -> (r: Result<(u64, String, Vec<u8>, Vec<u8>), CodecError>)
    ensures
        match (r, parse_credential(data@)) {
            (Ok((user_id, name, key, extra)), Ok((su, sn, sk, se))) => user_id == su && name@ == sn
                && key@ == sk && extra@ == se,
            (Err(e), Err(se)) => e == se,
            _ => false,
        },
{
    let (user_id, after1) = match read_u64(data, 0) {
        Ok(pair) => pair,
        Err(e) => {
            return Err(e);
        },
    };
    let (name, after2) = match read_text(data, after1) {
        Ok(pair) => pair,
        Err(e) => {
            return Err(e);
        },
    };
    let (key, after3) = match read_bytes(data, after2) {
        Ok(pair) => pair,
        Err(e) => {
            return Err(e);
        },
    };
    let (extra, _p4) = match read_bytes(data, after3) {
        Ok(pair) => pair,
        Err(e) => {
            return Err(e);
        },
    };
    Ok((user_id, name, key, extra))
}

impl DeviceId {
    /// The wire form: the user's number, then the device's name.
    pub fn mls_encode_to_vec(&self) -> (r: Result<Vec<u8>, CodecError>)
        ensures
            match r {
                Ok(bytes) => self@.encodable() && bytes@ == self@.encoded(),
                Err(e) => e == CodecError::VarIntOutOfRange && !self@.encodable(),
            },
    {
        encode_id(self.user_id, self.device_id.as_str())
    }
}

impl AccountId {
    /// The wire form: the user's number, then the public address.
    pub fn mls_encode_to_vec(&self) -> (r: Result<Vec<u8>, CodecError>)
        ensures
            match r {
                Ok(bytes) => self@.encodable() && bytes@ == self@.encoded(),
                Err(e) => e == CodecError::VarIntOutOfRange && !self@.encodable(),
            },
    {
        encode_id(self.user_id, self.public_address.as_str())
    }
}

impl DeviceCredential {
    /// The type under which device credentials travel.
    pub fn credential_type() -> (t: u16)
        ensures
            t == CREDENTIAL_V1,
    {
        CREDENTIAL_V1
    }

    /// The wire form: the device id, the user's public key, the signature.
    /// It exists where every part is shorter than 2^30 bytes.
    pub fn mls_encode_to_vec(&self) -> (r: Result<Vec<u8>, CodecError>)
        ensures
            match r {
                Ok(bytes) => self@.encodable() && bytes@ == self@.encoded(),
                Err(e) => e == CodecError::VarIntOutOfRange && !self@.encodable(),
            },
    {
        encode_credential(
            self.device_id.user_id,
            self.device_id.device_id.as_str(),
            self.user_public_key.as_slice(),
            self.signature.as_slice(),
        )
    }

    /// Reads a credential from the start of `data`.
    pub fn mls_decode(data: &[u8]) -> (r: Result<DeviceCredential, CodecError>)
        ensures
            match (r, DeviceCredentialView::decoded(data@)) {
                (Ok(c), Ok(v)) => c@ == v,
                (Err(e), Err(se)) => e == se,
                _ => false,
            },
    {
        match decode_credential(data) {
            Ok((user_id, name, key, extra)) => Ok(
                DeviceCredential {
                    device_id: DeviceId { user_id, device_id: name },
                    user_public_key: key,
                    signature: extra,
                },
            ),
            Err(e) => Err(e),
        }
    }
}

impl AccountCredential {
    /// A copy with the same content.
    pub fn duplicate(&self) -> (copy: AccountCredential)
        ensures
            copy@ == self@,
    {
        AccountCredential {
            account_id: AccountId {
                user_id: self.account_id.user_id,
                public_address: self.account_id.public_address.clone(),
            },
            public_key: copy_bytes(self.public_key.as_slice()),
            cert: copy_bytes(self.cert.as_slice()),
        }
    }

    /// The wire form: the account id, the public key, the certificate. It
    /// exists where every part is shorter than 2^30 bytes.
    pub fn mls_encode_to_vec(&self) -> (r: Result<Vec<u8>, CodecError>)
        ensures
            match r {
                Ok(bytes) => self@.encodable() && bytes@ == self@.encoded(),
                Err(e) => e == CodecError::VarIntOutOfRange && !self@.encodable(),
            },
    {
        encode_credential(
            self.account_id.user_id,
            self.account_id.public_address.as_str(),
            self.public_key.as_slice(),
            self.cert.as_slice(),
        )
    }

    /// Reads a credential from the start of `data`.
    pub fn mls_decode(data: &[u8]) -> (r: Result<AccountCredential, CodecError>)
        ensures
            match (r, AccountCredentialView::decoded(data@)) {
                (Ok(c), Ok(v)) => c@ == v,
                (Err(e), Err(se)) => e == se,
                _ => false,
            },
    {
        match decode_credential(data) {
            Ok((user_id, name, key, extra)) => Ok(
                AccountCredential {
                    account_id: AccountId { user_id, public_address: name },
                    public_key: key,
                    cert: extra,
                },
            ),
            Err(e) => Err(e),
        }
    }
}

/// What an account signs to vouch for a device: the user's number, the
/// user's public key, and the device's public key.
#[derive(Debug)]
pub struct DeviceCredentialTBS<'a> {
    pub user_id: u64,
    pub user_public_key: &'a [u8],
    pub public_key: &'a [u8],
}

impl<'a> DeviceCredentialTBS<'a> {
    /// The bytes that are signed; see [`device_credential_tbs`].
    pub fn mls_encode_to_vec(&self) -> (r: Result<Vec<u8>, CodecError>)
        ensures
            match r {
                Ok(bytes) => bytes_fit(self.user_public_key@) && bytes_fit(self.public_key@)
                    && bytes@ == keyed_bytes(self.user_id, self.user_public_key@, self.public_key@),
                Err(e) => e == CodecError::VarIntOutOfRange && !(bytes_fit(self.user_public_key@)
                    && bytes_fit(self.public_key@)),
            },
    {
        device_credential_tbs(self.user_id, self.user_public_key, self.public_key)
    }
}

/// The bytes that an account signs to vouch for a device: the user's
/// number, the user's public key, and the device's public key, one after
/// the other.
pub fn device_credential_tbs(user_id: u64, user_public_key: &[u8], public_key: &[u8]) -> (r: Result<
    Vec<u8>,
    CodecError,
>)
    ensures
        match r {
            Ok(bytes) => bytes_fit(user_public_key@) && bytes_fit(public_key@) && bytes@
                == keyed_bytes(user_id, user_public_key@, public_key@),
            Err(e) => e == CodecError::VarIntOutOfRange && !(bytes_fit(user_public_key@)
                && bytes_fit(public_key@)),
        },
{
    let mut out: Vec<u8> = Vec::new();
    write_u64(&mut out, user_id);
    match write_bytes(&mut out, user_public_key) {
        Ok(()) => {},
        Err(e) => {
            return Err(e);
        },
    }
    match write_bytes(&mut out, public_key) {
        Ok(()) => {},
        Err(e) => {
            return Err(e);
        },
    }
    Ok(out)
}

/// Reading gives back what was written, whatever follows it on the wire.
pub proof fn lemma_credential_parts_round_trip(
    user_id: u64,
    name: Seq<char>,
    key: Seq<u8>,
    extra: Seq<u8>,
    tail: Seq<u8>,
)
    requires
        text_fits(name),
        bytes_fit(key),
        bytes_fit(extra),
    ensures
        parse_credential(credential_bytes(user_id, name, key, extra) + tail) == Ok::<
            (u64, Seq<char>, Seq<u8>, Seq<u8>),
            CodecError,
        >((user_id, name, key, extra)),
{
    let data = credential_bytes(user_id, name, key, extra) + tail;
    let e = Seq::<u8>::empty();
    let b0 = be_u64(user_id);
    let b1 = text_string(name);
    let b2 = byte_string(key);
    let b3 = byte_string(extra);
    assert(data =~= e + b0 + (b1 + b2 + b3 + tail));
    lemma_parse_u64(e, user_id, b1 + b2 + b3 + tail);
    assert(data =~= b0 + b1 + (b2 + b3 + tail));
    lemma_parse_text(b0, name, b2 + b3 + tail);
    assert(data =~= (b0 + b1) + b2 + (b3 + tail));
    lemma_parse_bytes(b0 + b1, key, b3 + tail);
    assert(data =~= (b0 + b1 + b2) + b3 + tail);
    lemma_parse_bytes(b0 + b1 + b2, extra, tail);
}

/// A device credential that was encoded decodes to itself.
pub proof fn lemma_device_credential_round_trip(c: DeviceCredentialView, tail: Seq<u8>)
    requires
        c.encodable(),
    ensures
        DeviceCredentialView::decoded(c.encoded() + tail) == Ok::<DeviceCredentialView, CodecError>(
            c,
        ),
{
    lemma_credential_parts_round_trip(
        c.device_id.user_id,
        c.device_id.device_id,
        c.user_public_key,
        c.signature,
        tail,
    );
}

/// An account credential that was encoded decodes to itself.
pub proof fn lemma_account_credential_round_trip(c: AccountCredentialView, tail: Seq<u8>)
    requires
        c.encodable(),
    ensures
        AccountCredentialView::decoded(c.encoded() + tail) == Ok::<
            AccountCredentialView,
            CodecError,
        >(c),
{
    lemma_credential_parts_round_trip(
        c.account_id.user_id,
        c.account_id.public_address,
        c.public_key,
        c.cert,
        tail,
    );
}

/// An account credential read at `at`, and the place behind it.
pub open spec fn parse_account_at(data: Seq<u8>, at: int) -> Result<
    (AccountCredentialView, int),
    CodecError,
> {
    match parse_u64(data, at) {
        Err(e) => Err(e),
        Ok((user_id, after1)) => match parse_text(data, after1) {
            Err(e) => Err(e),
            Ok((name, after2)) => match parse_bytes(data, after2) {
                Err(e) => Err(e),
                Ok((key, after3)) => match parse_bytes(data, after3) {
                    Err(e) => Err(e),
                    Ok((extra, after4)) => Ok(
                        (
                            AccountCredentialView {
                                account_id: AccountIdView { user_id, public_address: name },
                                public_key: key,
                                cert: extra,
                            },
                            after4,
                        ),
                    ),
                },
            },
        },
    }
}

impl AccountCredential {
    /// Reads a credential at `at`.
    pub fn mls_decode_at(data: &[u8], at: usize) -> (r: Result<(AccountCredential, usize), CodecError>)
        requires
            at <= data@.len(),
        ensures
            match (r, parse_account_at(data@, at as int)) {
                (Ok((c, next)), Ok((v, snext))) => c@ == v && next == snext && at + 8 <= next
                    <= data@.len(),
                (Err(e), Err(se)) => e == se,
                _ => false,
            },
    {
        let (user_id, after1) = match read_u64(data, at) {
            Ok(pair) => pair,
            Err(e) => {
                return Err(e);
            },
        };
        let (name, after2) = match read_text(data, after1) {
            Ok(pair) => pair,
            Err(e) => {
                return Err(e);
            },
        };
        let (key, after3) = match read_bytes(data, after2) {
            Ok(pair) => pair,
            Err(e) => {
                return Err(e);
            },
        };
        let (extra, after4) = match read_bytes(data, after3) {
            Ok(pair) => pair,
            Err(e) => {
                return Err(e);
            },
        };
        proof {
            reveal(parse_u64);
            crate::wire::mls::lemma_parse_moves_on(data@, after1 as int);
            crate::wire::mls::lemma_parse_moves_on(data@, after2 as int);
            crate::wire::mls::lemma_parse_moves_on(data@, after3 as int);
        }
        Ok(
            (
                AccountCredential {
                    account_id: AccountId { user_id, public_address: name },
                    public_key: key,
                    cert: extra,
                },
                after4,
            ),
        )
    }
}

/// Four parts between a head and a tail, grouped in the four ways in which
/// they are read.
proof fn lemma_regroup(
    head: Seq<u8>,
    b0: Seq<u8>,
    b1: Seq<u8>,
    b2: Seq<u8>,
    b3: Seq<u8>,
    tail: Seq<u8>,
)
    ensures
        head + (b0 + b1 + b2 + b3) + tail == head + b0 + (b1 + b2 + b3 + tail),
        head + (b0 + b1 + b2 + b3) + tail == (head + b0) + b1 + (b2 + b3 + tail),
        head + (b0 + b1 + b2 + b3) + tail == (head + b0 + b1) + b2 + (b3 + tail),
        head + (b0 + b1 + b2 + b3) + tail == (head + b0 + b1 + b2) + b3 + tail,
{
    let data = head + (b0 + b1 + b2 + b3) + tail;
    assert(data =~= head + b0 + (b1 + b2 + b3 + tail));
    assert(data =~= (head + b0) + b1 + (b2 + b3 + tail));
    assert(data =~= (head + b0 + b1) + b2 + (b3 + tail));
    assert(data =~= (head + b0 + b1 + b2) + b3 + tail);
}

/// An account credential that was written reads back as itself, wherever
/// it stands on the wire; and it takes at least eight bytes.
pub proof fn lemma_account_at_round_trip(head: Seq<u8>, c: AccountCredentialView, tail: Seq<u8>)
    requires
        c.encodable(),
    ensures
        c.encoded().len() >= 8,
        parse_account_at(head + c.encoded() + tail, head.len() as int) == Ok::<
            (AccountCredentialView, int),
            CodecError,
        >((c, (head.len() + c.encoded().len()) as int)),
{
    let user_id = c.account_id.user_id;
    let name = c.account_id.public_address;
    let b0 = be_u64(user_id);
    let b1 = text_string(name);
    let b2 = byte_string(c.public_key);
    let b3 = byte_string(c.cert);
    lemma_regroup(head, b0, b1, b2, b3, tail);
    lemma_parse_u64(head, user_id, b1 + b2 + b3 + tail);
    lemma_parse_text(head + b0, name, b2 + b3 + tail);
    lemma_parse_bytes(head + b0 + b1, c.public_key, b3 + tail);
    lemma_parse_bytes(head + b0 + b1 + b2, c.cert, tail);
}

} // verus!
