//! What is signed in the requests to the delivery service: for each kind of
//! request, the bytes over which the sender's account signs.

use vstd::prelude::*;
use crate::identity::credentials::{bytes_fit, id_bytes, text_fits};
use crate::wire::mls::{
    be_u64, byte_string, write_bytes, write_text, write_u64, CodecError};

verus! {

/// What is signed to register a device.
#[derive(Debug, Clone)]
pub struct RegisterGroupDeviceTBS {
    pub user_id: u64,
    pub device_id: String,
}

/// What is signed to upload key packages.
#[derive(Debug, Clone)]
pub struct UploadKeyPackagesTBS {
    pub user_id: u64,
    pub device_id: String,
    pub key_packages: Vec<Vec<u8>>,
}

/// What is signed to set up the group stream.
#[derive(Debug, Clone)]
pub struct InitGroupStreamTBS {
    pub user_id: u64,
    pub device_id: String,
    /// Seconds since the Unix epoch.
    pub date: u64,
}

/// The views of a list of byte strings.
pub open spec fn package_views(p: Seq<Vec<u8>>) -> Seq<Seq<u8>> {
    p.map_values(|x: Vec<u8>| x@)
}

/// Byte strings on the wire, one after the other.
pub open spec fn packages_body(p: Seq<Seq<u8>>) -> Seq<u8>
    decreases p.len(),
{
    if p.len() == 0 {
        Seq::empty()
    } else {
        packages_body(p.drop_last()) + byte_string(p.last())
    }
}

/// Whether every byte string of a list is short enough for the wire.
pub open spec fn packages_fit(p: Seq<Seq<u8>>) -> bool {
    forall|i: int| 0 <= i < p.len() ==> bytes_fit(#[trigger] p[i])
}

/// Whether an upload can be written: the device's name, every package, and
/// all packages together must be shorter than 2^30 bytes.
pub open spec fn upload_fits(device_id: Seq<char>, packages: Seq<Seq<u8>>) -> bool {
    text_fits(device_id) && packages_fit(packages) && bytes_fit(packages_body(packages))
}

/// What is signed to register a device: the user's number and the device's
/// name.
pub open spec fn register_tbs(user_id: u64, device_id: Seq<char>) -> Seq<u8> {
    id_bytes(user_id, device_id)
}

/// What is signed to upload key packages: the user's number, the device's
/// name, and the list of packages with its length in bytes.
pub open spec fn upload_tbs(user_id: u64, device_id: Seq<char>, packages: Seq<Seq<u8>>) -> Seq<u8> {
    id_bytes(user_id, device_id) + byte_string(packages_body(packages))
}

/// What is signed to set up the stream: the user's number, the device's
/// name, and the date.
pub open spec fn init_stream_tbs(user_id: u64, device_id: Seq<char>, date: u64) -> Seq<u8> {
    id_bytes(user_id, device_id) + be_u64(date)
}

/// The bytes to sign for an initial stream message, or why there are none.
pub open spec fn init_stream_bytes(user_id: u64, device_id: Seq<char>, date: u64) -> Result<
    Seq<u8>,
    CodecError,
> {
    if text_fits(device_id) {
        Ok(init_stream_tbs(user_id, device_id, date))
    } else {
        Err(CodecError::VarIntOutOfRange)
    }
}

/// The bytes to sign for a registration, or why there are none.
pub open spec fn register_bytes(user_id: u64, device_id: Seq<char>) -> Result<Seq<u8>, CodecError> {
    if text_fits(device_id) {
        Ok(register_tbs(user_id, device_id))
    } else {
        Err(CodecError::VarIntOutOfRange)
    }
}

/// The bytes to sign for an upload, or why there are none.
pub open spec fn upload_bytes(user_id: u64, device_id: Seq<char>, packages: Seq<Seq<u8>>) -> Result<
    Seq<u8>,
    CodecError,
> {
    if upload_fits(device_id, packages) {
        Ok(upload_tbs(user_id, device_id, packages))
    } else {
        Err(CodecError::VarIntOutOfRange)
    }
}

impl RegisterGroupDeviceTBS {
    /// The bytes to sign. They exist where the device's name is shorter
    /// than 2^30 bytes.
    pub fn mls_encode_to_vec(&self) -> (r: Result<Vec<u8>, CodecError>)
        ensures
            match r {
                Ok(bytes) => text_fits(self.device_id@) && bytes@ == register_tbs(
                    self.user_id,
                    self.device_id@,
                ),
                Err(e) => e == CodecError::VarIntOutOfRange && !text_fits(self.device_id@),
            },
    {
        let mut out: Vec<u8> = Vec::new();
        write_u64(&mut out, self.user_id);
        match write_text(&mut out, self.device_id.as_str()) {
            Ok(()) => Ok(out),
            Err(e) => Err(e),
        }
    }
}

impl InitGroupStreamTBS {
    /// The bytes to sign. They exist where the device's name is shorter
    /// than 2^30 bytes.
    pub fn mls_encode_to_vec(&self) -> (r: Result<Vec<u8>, CodecError>)
        ensures
            match r {
                Ok(bytes) => text_fits(self.device_id@) && bytes@ == init_stream_tbs(
                    self.user_id,
                    self.device_id@,
                    self.date,
                ),
                Err(e) => e == CodecError::VarIntOutOfRange && !text_fits(self.device_id@),
            },
    {
        let mut out: Vec<u8> = Vec::new();
        write_u64(&mut out, self.user_id);
        match write_text(&mut out, self.device_id.as_str()) {
            Ok(()) => {},
            Err(e) => {
                return Err(e);
            },
        }
        write_u64(&mut out, self.date);
        Ok(out)
    }
}

impl UploadKeyPackagesTBS {
    /// The bytes to sign. They exist where the device's name, every
    /// package, and all packages together are shorter than 2^30 bytes.
    pub fn mls_encode_to_vec(&self) -> (r: Result<Vec<u8>, CodecError>)
        ensures
            match r {
                Ok(bytes) => upload_fits(self.device_id@, package_views(self.key_packages@))
                    && bytes@ == upload_tbs(
                    self.user_id,
                    self.device_id@,
                    package_views(self.key_packages@),
                ),
                Err(e) => e == CodecError::VarIntOutOfRange && !upload_fits(
                    self.device_id@,
                    package_views(self.key_packages@),
                ),
            },
    {
        let ghost pv = package_views(self.key_packages@);
        let mut out: Vec<u8> = Vec::new();
        write_u64(&mut out, self.user_id);
        match write_text(&mut out, self.device_id.as_str()) {
            Ok(()) => {},
            Err(e) => {
                return Err(e);
            },
        }
        let mut body: Vec<u8> = Vec::new();
        let mut i: usize = 0;
        assert(pv.subrange(0, 0) =~= Seq::<Seq<u8>>::empty());
        while i < self.key_packages.len()
            invariant
                i <= self.key_packages.len(),
                pv == package_views(self.key_packages@),
                body@ == packages_body(pv.subrange(0, i as int)),
                forall|j: int| 0 <= j < i ==> bytes_fit(#[trigger] pv[j]),
            decreases self.key_packages.len() - i,
        {
            proof {
                assert(pv.subrange(0, i + 1).drop_last() =~= pv.subrange(0, i as int));
                assert(pv.subrange(0, i + 1).last() == self.key_packages@[i as int]@);
            }
            match write_bytes(&mut body, self.key_packages[i].as_slice()) {
                Ok(()) => {},
                Err(e) => {
                    assert(!bytes_fit(pv[i as int]));
                    return Err(e);
                },
            }
            i += 1;
        }
        assert(pv.subrange(0, pv.len() as int) =~= pv);
        match write_bytes(&mut out, body.as_slice()) {
            Ok(()) => Ok(out),
            Err(e) => Err(e),
        }
    }
}

} // verus!
