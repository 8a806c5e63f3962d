//! Laws of transport parameters and of the integers in them.

use vstd::prelude::*;

use crate::error::{ErrorView, TransportErrorCode};
use crate::params::{
    datagram_size_truncated, is_integer_parameter, is_written, parameters_outcome, parameters_read,
    preferred_address_size, varint_minimal_size, varint_size, varint_truncated, varint_value,
    ParameterError,
};
use crate::side::Side;

verus! {

/// A variable-length integer takes 1, 2, 4 or 8 bytes by the two high bits of its first byte, and
/// it is cut off if there are fewer. Its value with those two bits in front is the big-endian
/// number in its bytes.
pub proof fn law_varint(bytes: Seq<u8>)
    ensures
        bytes.len() == 0 ==> varint_truncated(bytes),
        bytes.len() > 0 ==> {
            let n = varint_size(bytes);
            &&& bytes[0] / 64 == 0 ==> n == 1
            &&& bytes[0] / 64 == 1 ==> n == 2
            &&& bytes[0] / 64 == 2 ==> n == 4
            &&& bytes[0] / 64 == 3 ==> n == 8
            &&& varint_truncated(bytes) <==> bytes.len() < n
            &&& n == 1 ==> varint_value(bytes) == bytes[0]
            &&& n == 2 ==> varint_value(bytes) + 0x4000 == 0x100 * bytes[0] + bytes[1]
            &&& n == 4 ==> varint_value(bytes) + 0x8000_0000 == 0x100 * (0x100 * (0x100 * bytes[0]
                + bytes[1]) + bytes[2]) + bytes[3]
            &&& n == 8 ==> varint_value(bytes) + 0xc000_0000_0000_0000 == 0x100 * (0x100 * (0x100
                * (0x100 * (0x100 * (0x100 * (0x100 * bytes[0] + bytes[1]) + bytes[2]) + bytes[3])
                + bytes[4]) + bytes[5]) + bytes[6]) + bytes[7]
        },
{
}

/// The shortest encoding of a value leaves no room for it in half as many bytes, two bits of which
/// give the size.
pub proof fn law_varint_minimal_size(value: nat)
    requires
        value < 0x4000_0000_0000_0000,
    ensures
        ({
            let n = varint_minimal_size(value);
            &&& n == 1 <==> value < 0x40
            &&& n == 2 <==> 0x40 <= value < 0x4000
            &&& n == 4 <==> 0x4000 <= value < 0x4000_0000
            &&& n == 8 <==> 0x4000_0000 <= value
        }),
{
}

/// The ids of the integer parameters, from `max_idle_timeout` to `active_connection_id_limit`.
pub proof fn law_integer_parameters(id: nat)
    ensures
        is_integer_parameter(id) <==> id == 1 || id == 3 || id == 4 || id == 5 || id == 6 || id == 7
            || id == 8 || id == 9 || id == 10 || id == 11 || id == 14,
{
}

/// A preferred address is there exactly if its addresses and ports are not all zero, its
/// connection id has at most 20 bytes, and there is room for the id and the token behind it; what
/// comes behind does not matter.
pub proof fn law_preferred_address(bytes: Seq<u8>)
    ensures
        preferred_address_size(bytes) is Some <==> {
            &&& bytes.len() >= 25
            &&& bytes[24] <= 20
            &&& bytes.len() >= 24 + 1 + bytes[24] + 16
            &&& exists|i: int| 0 <= i < 24 && #[trigger] bytes[i] != 0
        },
        preferred_address_size(bytes) matches Some(size) ==> size == 24 + 1 + bytes[24] + 16,
{
}

/// Where parameters are cut off inside their first `max_datagram_frame_size` (0x20): the value of
/// that parameter, of at most 8 bytes by its length, is cut off. A parameter in front of it is
/// skipped: an integer by its own size, if its length is that of the shortest encoding; a preferred
/// address (0x0d) by its own size, if it is in order; any other by its length. A parameter that is
/// itself cut off ends the search.
pub proof fn law_cut_off_datagram_size(bytes: Seq<u8>)
    ensures
        ({
            let n = varint_size(bytes) as int;
            let m = varint_size(bytes.skip(n)) as int;
            let id = varint_value(bytes);
            let len = varint_value(bytes.skip(n)) as int;
            let value = bytes.skip(n + m);
            let address = preferred_address_size(bytes.subrange(n + m, n + m + len));
            let framed = !varint_truncated(bytes) && !varint_truncated(bytes.skip(n)) && n + m + len
                <= bytes.len();
            let integer = id == 1 || (3 <= id && id <= 11) || id == 14;
            &&& !framed ==> !datagram_size_truncated(bytes)
            &&& framed && id == 0x20 ==> (datagram_size_truncated(bytes) <==> len <= 8
                && varint_truncated(value))
            &&& framed && id == 0x0d && address is None ==> !datagram_size_truncated(bytes)
            &&& framed && id == 0x0d && address is Some ==> datagram_size_truncated(bytes)
                == datagram_size_truncated(bytes.skip(n + m + address->0))
            &&& framed && integer && (varint_truncated(value) || varint_minimal_size(
                varint_value(value),
            ) != len) ==> !datagram_size_truncated(bytes)
            &&& framed && integer && !varint_truncated(value) && varint_minimal_size(
                varint_value(value),
            ) == len ==> datagram_size_truncated(bytes) == datagram_size_truncated(
                bytes.skip(n + m + varint_size(value)),
            )
            &&& framed && id != 0x20 && id != 0x0d && !integer ==> datagram_size_truncated(bytes)
                == datagram_size_truncated(bytes.skip(n + m + len))
        }),
{
    let n = varint_size(bytes) as int;
    let after_id = bytes.skip(n);
    let m = varint_size(after_id) as int;
    let len = varint_value(after_id) as int;
    if !varint_truncated(bytes) && !varint_truncated(after_id) {
        let rest = after_id.skip(m);
        assert(rest =~= bytes.skip(n + m));
        if n + m + len <= bytes.len() {
            assert(rest.take(len) =~= bytes.subrange(n + m, n + m + len));
            assert(rest.skip(len) =~= bytes.skip(n + m + len));
            if !varint_truncated(rest) {
                let k = varint_size(rest) as int;
                assert(rest.skip(k) =~= bytes.skip(n + m + k));
            }
            match preferred_address_size(rest.take(len)) {
                Some(size) => {
                    assert(rest.skip(size as int) =~= bytes.skip(n + m + size));
                },
                None => {},
            }
        }
    }
}

/// Transport parameters are accepted exactly where the reader accepts them, and as it reads them;
/// each of its two errors, and a datagram size that is cut off, comes with its own words.
pub proof fn law_parameters_outcome(side: Side, encoded: Seq<u8>)
    ensures
        ({
            let outcome = parameters_outcome(side, encoded);
            let rejected = |reason: Seq<char>|
                Err::<Seq<u8>, ErrorView>(
                    ErrorView {
                        code: TransportErrorCode::TransportParameterError,
                        frame: None,
                        reason,
                    },
                );
            &&& datagram_size_truncated(encoded) ==> outcome == rejected("malformed"@)
            &&& !datagram_size_truncated(encoded) ==> match parameters_read(side, encoded) {
                Ok(read) => outcome == Ok::<Seq<u8>, ErrorView>(read),
                Err(ParameterError::IllegalValue) => outcome == rejected("illegal value"@),
                Err(ParameterError::Malformed) => outcome == rejected("malformed"@),
            }
        }),
{
}

/// Whatever parameters are read as counts as written.
pub proof fn law_read_parameters_are_written(side: Side, encoded: Seq<u8>)
    requires
        parameters_outcome(side, encoded) is Ok,
    ensures
        is_written(parameters_outcome(side, encoded)->Ok_0),
{
}

} // verus!
