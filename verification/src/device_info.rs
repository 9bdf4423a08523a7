//! The description of the GPU device that the tensor runtime reports.
use vstd::prelude::*;
use vstd::utf8::{decode_utf8, valid_utf8};
use vstd::string::StringExecFns;
use crate::error::{Error, Result};

verus! {

/// The device description as the runtime lays it out: the architecture name
/// as a byte string that ends at its first NUL byte, and three sizes in bytes.
#[derive(Debug, Clone, Copy)]
pub struct MetalDeviceInfoRaw {
    pub architecture: [u8; 256],
    pub max_buffer_length: usize,
    pub max_recommended_working_set_size: usize,
    pub memory_size: usize,
}

/// The device description with its architecture name as text.
#[derive(Debug, Clone)]
pub struct MetalDeviceInfo {
    pub architecture: String,
    pub max_buffer_length: usize,
    pub max_recommended_working_set_size: usize,
    pub memory_size: usize,
}

/// The bytes of a NUL-terminated byte string: those before the first NUL,
/// all of them where there is none.
pub open spec fn until_nul(bytes: Seq<u8>) -> Seq<u8>
    decreases bytes.len(),
{
    if bytes.len() == 0 || bytes[0] == 0 {
        Seq::empty()
    } else {
        seq![bytes[0]] + until_nul(bytes.drop_first())
    }
}

proof fn lemma_until_nul_at(bytes: Seq<u8>, i: int)
    requires
        0 <= i <= bytes.len(),
        i == bytes.len() || bytes[i] == 0,
        forall|j: int| 0 <= j < i ==> bytes[j] != 0,
    ensures
        until_nul(bytes) == bytes.take(i),
    decreases i,
{
    if i == 0 {
        assert(bytes.take(0) =~= Seq::<u8>::empty());
    } else {
        let rest = bytes.drop_first();
        assert forall|j: int| 0 <= j < i - 1 implies rest[j] != 0 by {
            assert(rest[j] == bytes[j + 1]);
        }
        lemma_until_nul_at(rest, i - 1);
        assert(bytes.take(i) =~= seq![bytes[0]] + rest.take(i - 1));
    }
}

/// `std::str::from_utf8`: the text that `bytes` encode in UTF-8, or the text of
/// its error. As std documents it, it fails exactly when the bytes are not
/// valid UTF-8 and otherwise gives the characters they encode.
#[verifier::external_body]
fn text_from_utf8(bytes: &[u8]) -> (r: core::result::Result<&str, String>)
    ensures
        r is Ok <==> valid_utf8(bytes@),
        r matches Ok(s) ==> s@ == decode_utf8(bytes@),
{
    std::str::from_utf8(bytes).map_err(|e| e.to_string())
}

/// The position of the first NUL byte of `bytes`, or its length.
fn nul_position(bytes: &[u8]) -> (r: usize)
    ensures
        r <= bytes@.len(),
        r == bytes@.len() || bytes@[r as int] == 0,
        forall|j: int| 0 <= j < r ==> bytes@[j] != 0,
{
    let mut i: usize = 0;
    while i < bytes.len()
        invariant
            i <= bytes@.len(),
            forall|j: int| 0 <= j < i ==> bytes@[j] != 0,
        decreases bytes@.len() - i,
    {
        if bytes[i] == 0 {
            return i;
        }
        i = i + 1;
    }
    i
}

/// The first `n` bytes of `bytes`.
fn byte_prefix(bytes: &[u8], n: usize) -> (r: Vec<u8>)
    requires
        n <= bytes@.len(),
    ensures
        r@ == bytes@.take(n as int),
{
    let mut r: Vec<u8> = Vec::new();
    let mut i: usize = 0;
    while i < n
        invariant
            n <= bytes@.len(),
            i <= n,
            r@ == bytes@.take(i as int),
        decreases n - i,
    {
        r.push(bytes[i]);
        i = i + 1;
        assert(r@ =~= bytes@.take(i as int));
    }
    r
}

impl MetalDeviceInfo {
    /// The description with the architecture name decoded: the bytes before
    /// the first NUL, read as UTF-8. Bytes that are not UTF-8 give
    /// `Error::Utf8Error`.
    pub fn try_from(raw: MetalDeviceInfoRaw) -> (r: Result<MetalDeviceInfo>)
        ensures
            r is Ok <==> valid_utf8(until_nul(raw.architecture@)),
            r matches Ok(info) ==> {
                &&& info.architecture@ == decode_utf8(until_nul(raw.architecture@))
                &&& info.max_buffer_length == raw.max_buffer_length
                &&& info.max_recommended_working_set_size == raw.max_recommended_working_set_size
                &&& info.memory_size == raw.memory_size
            },
            r matches Err(e) ==> e is Utf8Error,
    {
        let bytes = raw.architecture.as_slice();
        let n = nul_position(bytes);
        proof {
            lemma_until_nul_at(raw.architecture@, n as int);
        }
        let name = byte_prefix(bytes, n);
        match text_from_utf8(name.as_slice()) {
            Ok(text) => Ok(MetalDeviceInfo {
                architecture: text.to_owned(),
                max_buffer_length: raw.max_buffer_length,
                max_recommended_working_set_size: raw.max_recommended_working_set_size,
                memory_size: raw.memory_size,
            }),
            Err(e) => Err(Error::Utf8Error(e)),
        }
    }
}

/// The device description from what the runtime reported; a name that is not
/// UTF-8 is reported as a failure of the runtime's function.
pub fn metal_device_info_from(raw: MetalDeviceInfoRaw) -> (r: Result<MetalDeviceInfo>)
    ensures
        r is Ok <==> valid_utf8(until_nul(raw.architecture@)),
        r matches Ok(info) ==> info.architecture@ == decode_utf8(until_nul(raw.architecture@))
            && info.max_buffer_length == raw.max_buffer_length
            && info.max_recommended_working_set_size == raw.max_recommended_working_set_size
            && info.memory_size == raw.memory_size,
        r matches Err(e) ==> e is MlxFunctionLoadFailure,
{
    match MetalDeviceInfo::try_from(raw) {
        Ok(info) => Ok(info),
        Err(Error::Utf8Error(msg)) => {
            let mut text = String::from_str("UTF-8 decoding error: ");
            text.append(msg.as_str());
            Err(Error::MlxFunctionLoadFailure(text))
        },
        Err(e) => Err(e),
    }
}

} // verus!
