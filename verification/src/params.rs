//! QUIC transport parameters, which the peers exchange inside their handshake messages.

use quinn_proto::transport_parameters as wire;
use vstd::prelude::*;
use vstd::slice::slice_subrange;

use crate::bytes::copy_bytes;
use crate::error::{bad_parameters, transport_parameter_error, ErrorView, TransportError};
use crate::side::Side;

verus! {

/// Why `quinn_proto` rejects encoded transport parameters.
#[derive(Clone, Copy, Debug, PartialEq, Eq, Structural)]
pub enum ParameterError {
    /// A parameter had an illegal value.
    IllegalValue,
    /// The parameters were malformed.
    Malformed,
}

/// What `quinn_proto`'s `TransportParameters::read` makes of a peer's parameters on the given
/// side, in the encoding that `TransportParameters::write` gives the parameters that were read.
pub uninterp spec fn parameters_read(side: Side, encoded: Seq<u8>) -> Result<
    Seq<u8>,
    ParameterError,
>;

/// The size of the variable-length integer at the front of `bytes`: 1, 2, 4 or 8 bytes, by the
/// two high bits of the first.
pub open spec fn varint_size(bytes: Seq<u8>) -> nat
    recommends
        bytes.len() > 0,
{
    if bytes[0] < 64 {
        1
    } else if bytes[0] < 128 {
        2
    } else if bytes[0] < 192 {
        4
    } else {
        8
    }
}

/// Whether `bytes` ends before the variable-length integer at its front does.
pub open spec fn varint_truncated(bytes: Seq<u8>) -> bool {
    bytes.len() == 0 || bytes.len() < varint_size(bytes)
}

/// The value of the variable-length integer at the front of `bytes`: big-endian, without the two
/// bits that give its size.
pub open spec fn varint_value(bytes: Seq<u8>) -> nat
    recommends
        !varint_truncated(bytes),
{
    let first = (bytes[0] % 64) as nat;
    if varint_size(bytes) == 1 {
        first
    } else if varint_size(bytes) == 2 {
        0x100 * first + bytes[1] as nat
    } else if varint_size(bytes) == 4 {
        0x100_0000 * first + 0x1_0000 * bytes[1] as nat + 0x100 * bytes[2] as nat + bytes[3] as nat
    } else {
        0x100_0000_0000_0000 * first + 0x1_0000_0000_0000 * bytes[1] as nat + 0x100_0000_0000
            * bytes[2] as nat + 0x1_0000_0000 * bytes[3] as nat + 0x100_0000 * bytes[4] as nat
            + 0x1_0000 * bytes[5] as nat + 0x100 * bytes[6] as nat + bytes[7] as nat
    }
}

/// The size of the shortest variable-length integer with the given value.
pub open spec fn varint_minimal_size(value: nat) -> nat {
    if value < 0x40 {
        1
    } else if value < 0x4000 {
        2
    } else if value < 0x4000_0000 {
        4
    } else {
        8
    }
}

/// Whether the parameter with the given id has an integer value that `quinn_proto` knows.
pub open spec fn is_integer_parameter(id: nat) -> bool {
    id == 0x01 || 0x03 <= id <= 0x0b || id == 0x0e
}

/// How many bytes a preferred address takes at the front of `bytes`: two socket addresses that
/// are not both unspecified (24 bytes), the length of a connection id (at most 20), the id and a
/// token (16 bytes). `None` if there is none.
pub open spec fn preferred_address_size(bytes: Seq<u8>) -> Option<nat> {
    if bytes.len() < 25 || bytes[24] > 20 || bytes.len() < 41 + bytes[24] || (forall|i: int|
        0 <= i < 24 ==> bytes[i] == 0) {
        None
    } else {
        Some((41 + bytes[24]) as nat)
    }
}

/// Whether the parameters end inside the value of their first `max_datagram_frame_size`.
///
/// A parameter is its id, the length of its value and the value, the first two as
/// variable-length integers. The id of `max_datagram_frame_size` is 0x20, and its value is a
/// variable-length integer; 0x0d is the id of the preferred address. An integer parameter takes
/// the bytes that its value is encoded in; they may be more than the length says, which has to be
/// that of the shortest encoding.
pub open spec fn datagram_size_truncated(encoded: Seq<u8>) -> bool
    decreases encoded.len(),
{
    let after_id = encoded.skip(varint_size(encoded) as int);
    let rest = after_id.skip(varint_size(after_id) as int);
    if varint_truncated(encoded) || varint_truncated(after_id) || rest.len() < varint_value(
        after_id,
    ) {
        false
    } else if varint_value(encoded) == 0x20 {
        varint_value(after_id) <= 8 && varint_truncated(rest)
    } else if varint_value(encoded) == 0x0d {
        match preferred_address_size(rest.take(varint_value(after_id) as int)) {
            Some(size) => datagram_size_truncated(rest.skip(size as int)),
            None => false,
        }
    } else if is_integer_parameter(varint_value(encoded)) {
        if varint_truncated(rest) || varint_minimal_size(varint_value(rest)) != varint_value(
            after_id,
        ) {
            false
        } else {
            datagram_size_truncated(rest.skip(varint_size(rest) as int))
        }
    } else {
        datagram_size_truncated(rest.skip(varint_value(after_id) as int))
    }
}

/// What a session makes of a peer's transport parameters: they are rejected as malformed when they
/// are cut off inside the datagram size, and otherwise accepted or rejected as `quinn_proto` does.
pub open spec fn parameters_outcome(side: Side, encoded: Seq<u8>) -> Result<Seq<u8>, ErrorView> {
    if datagram_size_truncated(encoded) {
        Err(bad_parameters("malformed"@))
    } else {
        match parameters_read(side, encoded) {
            Ok(read) => Ok(read),
            Err(ParameterError::IllegalValue) => Err(bad_parameters("illegal value"@)),
            Err(ParameterError::Malformed) => Err(bad_parameters("malformed"@)),
        }
    }
}

/// Whether `encoded` is how some parameters that were read are written.
pub open spec fn is_written(encoded: Seq<u8>) -> bool {
    exists|side: Side, source: Seq<u8>| #[trigger]
        parameters_read(side, source) == Ok::<Seq<u8>, ParameterError>(encoded)
}

/// `TransportParameters::read` of `quinn_proto`, and `TransportParameters::write` on what was
/// read. The outcome depends on the side and the bytes alone. Parameters that were written are
/// read as they were, unless the side may not receive them. The reader panics on a
/// `max_datagram_frame_size` that is cut off; no such bytes are to be handed to it.
#[verifier::external_body]
fn read_parameters(side: Side, encoded: &[u8]) -> (read: Result<Vec<u8>, ParameterError>)
    requires
        !datagram_size_truncated(encoded@),
    ensures
        match read {
            Ok(read) => parameters_read(side, encoded@) == Ok::<Seq<u8>, ParameterError>(read@),
            Err(error) => parameters_read(side, encoded@) == Err::<Seq<u8>, ParameterError>(error),
        },
        is_written(encoded@) && read is Ok ==> read->Ok_0@ == encoded@,
{
    let side = match side {
        Side::Client => quinn_proto::Side::Client,
        Side::Server => quinn_proto::Side::Server,
    };
    let mut written = Vec::new();
    match wire::TransportParameters::read(side, &mut std::io::Cursor::new(encoded)) {
        Ok(parameters) => parameters.write(&mut written),
        Err(wire::Error::IllegalValue) => return Err(ParameterError::IllegalValue),
        Err(wire::Error::Malformed) => return Err(ParameterError::Malformed),
    }
    Ok(written)
}

/// Reads the variable-length integer at the front of `bytes`: its value and its size.
fn read_varint(bytes: &[u8]) -> (read: Option<(u64, usize)>)
    ensures
        read is None <==> varint_truncated(bytes@),
        read matches Some((value, size)) ==> value == varint_value(bytes@) && size == varint_size(
            bytes@,
        ),
{
    if bytes.len() == 0 {
        return None;
    }
    let size: usize = if bytes[0] < 64 {
        1
    } else if bytes[0] < 128 {
        2
    } else if bytes[0] < 192 {
        4
    } else {
        8
    };
    if bytes.len() < size {
        return None;
    }
    let first: u64 = (bytes[0] % 64) as u64;
    let value: u64 = if size == 1 {
        first
    } else if size == 2 {
        0x100 * first + bytes[1] as u64
    } else if size == 4 {
        0x100_0000 * first + 0x1_0000 * bytes[1] as u64 + 0x100 * bytes[2] as u64 + bytes[3] as u64
    } else {
        0x100_0000_0000_0000 * first + 0x1_0000_0000_0000 * bytes[1] as u64 + 0x100_0000_0000
            * bytes[2] as u64 + 0x1_0000_0000 * bytes[3] as u64 + 0x100_0000 * bytes[4] as u64
            + 0x1_0000 * bytes[5] as u64 + 0x100 * bytes[6] as u64 + bytes[7] as u64
    };
    Some((value, size))
}

/// Measures the integer parameter at the front of `bytes`, whose length is given as `len`.
fn measure_integer(bytes: &[u8], len: usize) -> (size: Option<usize>)
    ensures
        size is Some <==> !varint_truncated(bytes@) && varint_minimal_size(varint_value(bytes@))
            == len,
        size matches Some(size) ==> size == varint_size(bytes@),
{
    let (value, size) = match read_varint(bytes) {
        Some(read) => read,
        None => return None,
    };
    let minimal: usize = if value < 0x40 {
        1
    } else if value < 0x4000 {
        2
    } else if value < 0x4000_0000 {
        4
    } else {
        8
    };
    if minimal == len {
        Some(size)
    } else {
        None
    }
}

/// Measures the preferred address at the front of `bytes`.
fn measure_preferred_address(bytes: &[u8]) -> (size: Option<usize>)
    ensures
        match size {
            Some(size) => preferred_address_size(bytes@) == Some(size as nat) && size
                <= bytes@.len(),
            None => preferred_address_size(bytes@) is None,
        },
{
    if bytes.len() < 25 || bytes[24] > 20 || bytes.len() < 41 + bytes[24] as usize {
        return None;
    }
    let mut i: usize = 0;
    while i < 24
        invariant
            i <= 24,
            bytes@.len() >= 25,
            bytes@[24] <= 20,
            bytes@.len() >= 41 + bytes@[24],
            forall|j: int| 0 <= j < i ==> bytes@[j] == 0,
        decreases 24 - i,
    {
        if bytes[i] != 0 {
            return Some(41 + bytes[24] as usize);
        }
        i = i + 1;
    }
    None
}

/// Whether the parameters end inside the value of their first `max_datagram_frame_size`.
fn ends_in_datagram_size(encoded: &[u8]) -> (truncated: bool)
    ensures
        truncated == datagram_size_truncated(encoded@),
{
    let mut entry: &[u8] = encoded;
    loop
        invariant
            datagram_size_truncated(entry@) == datagram_size_truncated(encoded@),
        decreases entry@.len(),
    {
        let (id, id_size) = match read_varint(entry) {
            Some(read) => read,
            None => return false,
        };
        let after_id = slice_subrange(entry, id_size, entry.len());
        assert(after_id@ == entry@.skip(id_size as int));
        let (len, len_size) = match read_varint(after_id) {
            Some(read) => read,
            None => return false,
        };
        let rest = slice_subrange(after_id, len_size, after_id.len());
        assert(rest@ == after_id@.skip(len_size as int));
        if (rest.len() as u64) < len {
            return false;
        }
        let len: usize = len as usize;
        if id == 0x20 {
            return len <= 8 && read_varint(rest).is_none();
        }
        let size: usize = if id == 0x0d {
            let value = slice_subrange(rest, 0, len);
            assert(value@ == rest@.take(len as int));
            match measure_preferred_address(value) {
                Some(size) => size,
                None => return false,
            }
        } else if id == 0x01 || (0x03 <= id && id <= 0x0b) || id == 0x0e {
            match measure_integer(rest, len) {
                Some(size) => size,
                None => return false,
            }
        } else {
            len
        };
        assert(rest@.subrange(size as int, rest@.len() as int) == rest@.skip(size as int));
        entry = slice_subrange(rest, size, rest.len());
    }
}

/// The transport parameters of one end of a connection, in their encoded form.
#[derive(Debug)]
pub struct TransportParameters {
    /// What is sent to the peer.
    pub encoded: Vec<u8>,
}

impl View for TransportParameters {
    type V = Seq<u8>;

    open spec fn view(&self) -> Seq<u8> {
        self.encoded@
    }
}

impl TransportParameters {
    /// Reads the parameters that a peer sent to the given side. Parameters that are cut off inside
    /// the datagram size are rejected as malformed without a look at the rest.
    pub fn read(side: Side, encoded: &[u8]) -> (read: Result<TransportParameters, TransportError>)
        ensures
            match read {
                Ok(read) => parameters_outcome(side, encoded@) == Ok::<Seq<u8>, ErrorView>(read@),
                Err(error) => parameters_outcome(side, encoded@) == Err::<Seq<u8>, ErrorView>(
                    error@,
                ),
            },
            is_written(encoded@) && read is Ok ==> read->Ok_0@ == encoded@,
    {
        if ends_in_datagram_size(encoded) {
            return Err(transport_parameter_error("malformed"));
        }
        match read_parameters(side, encoded) {
            Ok(encoded) => Ok(TransportParameters { encoded }),
            Err(ParameterError::IllegalValue) => Err(transport_parameter_error("illegal value")),
            Err(ParameterError::Malformed) => Err(transport_parameter_error("malformed")),
        }
    }
}

impl Clone for TransportParameters {
    fn clone(&self) -> (same: TransportParameters)
        ensures
            same@ == self@,
    {
        TransportParameters { encoded: copy_bytes(&self.encoded) }
    }
}

} // verus!
