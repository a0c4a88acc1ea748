//! The durable-persistence encoding of one alert: a fixed framing of the
//! level, the optional timestamp, and the two strings as length-prefixed
//! UTF-8. Decoding inverts encoding exactly, so a pending record read back
//! after a crash is the alert that was written.

use vstd::bytes::{
    lemma_auto_spec_u64_to_from_le_bytes, spec_u64_from_le_bytes, spec_u64_to_le_bytes,
    u64_from_le_bytes, u64_to_le_bytes,
};
use vstd::prelude::*;
use vstd::slice::{slice_subrange, slice_to_vec};
use vstd::string::StrSliceExecFns;
use vstd::utf8::{decode_utf8, encode_utf8, encode_utf8_decode_utf8, encode_utf8_valid_utf8, valid_utf8};

use crate::alerts::{AlertInfo, AlertLevel, AlertModel};

verus! {

/// The byte image of one alert: its level's rank, a presence flag and the
/// timestamp, then each string's UTF-8 bytes behind their length.
pub open spec fn spec_encode(m: AlertModel) -> Seq<u8> {
    let src = encode_utf8(m.source);
    let msg = encode_utf8(m.message);
    seq![m.level.spec_rank()] + (match m.timestamp {
        Some(t) => seq![1u8] + spec_u64_to_le_bytes(t),
        None => seq![0u8],
    }) + spec_u64_to_le_bytes(src.len() as u64) + src + spec_u64_to_le_bytes(msg.len() as u64)
        + msg
}

/// The alert a byte string decodes to: exactly the inversion of
/// [`spec_encode`], refusing anything that is not a whole well-formed
/// record.
pub open spec fn spec_decode(bytes: Seq<u8>) -> Option<AlertModel> {
    if bytes.len() < 2 {
        None
    } else if bytes[0] > 3 || bytes[1] > 1 {
        None
    } else {
        let level = AlertLevel::spec_of_rank(bytes[0]);
        let ts_len: int = if bytes[1] == 1 {
            8
        } else {
            0
        };
        if bytes.len() < 2 + ts_len + 8 {
            None
        } else {
            let timestamp = if bytes[1] == 1 {
                Some(spec_u64_from_le_bytes(bytes.subrange(2, 10)))
            } else {
                None
            };
            let p0 = 2 + ts_len;
            let src_len = spec_u64_from_le_bytes(bytes.subrange(p0, p0 + 8)) as int;
            if bytes.len() < p0 + 8 + src_len {
                None
            } else {
                let src_bytes = bytes.subrange(p0 + 8, p0 + 8 + src_len);
                let p1 = p0 + 8 + src_len;
                if bytes.len() < p1 + 8 {
                    None
                } else {
                    let msg_len = spec_u64_from_le_bytes(bytes.subrange(p1, p1 + 8)) as int;
                    if bytes.len() != p1 + 8 + msg_len {
                        None
                    } else {
                        let msg_bytes = bytes.subrange(p1 + 8, p1 + 8 + msg_len);
                        if !valid_utf8(src_bytes) || !valid_utf8(msg_bytes) {
                            None
                        } else {
                            Some(
                                AlertModel {
                                    source: decode_utf8(src_bytes),
                                    message: decode_utf8(msg_bytes),
                                    level,
                                    timestamp,
                                },
                            )
                        }
                    }
                }
            }
        }
    }
}

/// Writes one alert as its pending-record bytes.
pub fn encode_alert(alert: &AlertInfo) -> (r: Vec<u8>)
    ensures
        r@ == spec_encode(alert@),
{
    let ghost m = alert@;
    let mut out: Vec<u8> = Vec::new();
    out.push(alert.level.rank());
    match alert.timestamp {
        Some(t) => {
            out.push(1);
            let mut tb = u64_to_le_bytes(t);
            out.append(&mut tb);
        },
        None => {
            out.push(0);
        },
    }
    let src = alert.source.as_str().as_bytes_vec();
    let mut src_len = u64_to_le_bytes(src.len() as u64);
    out.append(&mut src_len);
    let mut src = src;
    out.append(&mut src);
    let msg = alert.message.as_str().as_bytes_vec();
    let mut msg_len = u64_to_le_bytes(msg.len() as u64);
    out.append(&mut msg_len);
    let mut msg = msg;
    out.append(&mut msg);
    proof {
        assert(out@ =~= spec_encode(m));
    }
    out
}

/// Relies on `String::from_utf8`: it accepts exactly the valid UTF-8 byte
/// strings, and the accepted string's UTF-8 bytes are the input unchanged.
#[verifier::external_body]
fn string_from_utf8(bytes: Vec<u8>) -> (r: Option<String>)
    ensures
        r is Some <==> valid_utf8(bytes@),
        r matches Some(s) ==> encode_utf8(s@) == bytes@,
{
    String::from_utf8(bytes).ok()
}

/// Reads one pending-record byte string back into the alert it encodes,
/// refusing every byte string that no alert encodes to.
pub fn decode_alert(bytes: &Vec<u8>) -> (r: Option<AlertInfo>)
    ensures
        match r {
            Some(a) => spec_decode(bytes@) == Some(a@),
            None => spec_decode(bytes@) is None,
        },
{
    proof {
        lemma_auto_spec_u64_to_from_le_bytes();
    }
    let n = bytes.len();
    if n < 2 {
        return None;
    }
    let rank = bytes[0];
    let flag = bytes[1];
    if rank > 3 || flag > 1 {
        return None;
    }
    let level = match AlertLevel::try_from_rank(rank) {
        Some(level) => level,
        None => {
            return None;
        },
    };
    let ts_len: usize = if flag == 1 {
        8
    } else {
        0
    };
    if n < 2 + ts_len + 8 {
        return None;
    }
    let timestamp: Option<u64> = if flag == 1 {
        Some(u64_from_le_bytes(slice_subrange(bytes.as_slice(), 2, 10)))
    } else {
        None
    };
    let p0: usize = 2 + ts_len;
    let src_len64 = u64_from_le_bytes(slice_subrange(bytes.as_slice(), p0, p0 + 8));
    if src_len64 > (n - p0 - 8) as u64 {
        return None;
    }
    let src_len = src_len64 as usize;
    let src_bytes = slice_to_vec(slice_subrange(bytes.as_slice(), p0 + 8, p0 + 8 + src_len));
    let p1: usize = p0 + 8 + src_len;
    if n - p1 < 8 {
        return None;
    }
    let msg_len64 = u64_from_le_bytes(slice_subrange(bytes.as_slice(), p1, p1 + 8));
    if msg_len64 != (n - p1 - 8) as u64 {
        return None;
    }
    let msg_len = msg_len64 as usize;
    let msg_bytes = slice_to_vec(slice_subrange(bytes.as_slice(), p1 + 8, p1 + 8 + msg_len));
    let ghost src_seq = src_bytes@;
    let ghost msg_seq = msg_bytes@;
    let source = match string_from_utf8(src_bytes) {
        Some(s) => s,
        None => {
            return None;
        },
    };
    let message = match string_from_utf8(msg_bytes) {
        Some(s) => s,
        None => {
            return None;
        },
    };
    proof {
        encode_utf8_decode_utf8(source@);
        encode_utf8_decode_utf8(message@);
    }
    Some(AlertInfo { source, message, level, timestamp })
}

/// Round trip: decoding what an alert encodes to gives that alert back,
/// whatever its fields hold. The length bounds only say the strings fit in
/// the record's 64-bit length fields, which every real string does.
pub proof fn lemma_codec_round_trip(m: AlertModel)
    requires
        encode_utf8(m.source).len() <= u64::MAX,
        encode_utf8(m.message).len() <= u64::MAX,
    ensures
        spec_decode(spec_encode(m)) == Some(m),
{
    lemma_auto_spec_u64_to_from_le_bytes();
    encode_utf8_valid_utf8(m.source);
    encode_utf8_valid_utf8(m.message);
    encode_utf8_decode_utf8(m.source);
    encode_utf8_decode_utf8(m.message);
    let src = encode_utf8(m.source);
    let msg = encode_utf8(m.message);
    let bytes = spec_encode(m);
    let ts_part = match m.timestamp {
        Some(t) => seq![1u8] + spec_u64_to_le_bytes(t),
        None => seq![0u8],
    };
    let ts_len: int = if m.timestamp is Some {
        8
    } else {
        0
    };
    let p0 = 2 + ts_len;
    assert(bytes.len() == p0 + 8 + src.len() + 8 + msg.len());
    assert(bytes[0] == m.level.spec_rank());
    assert(bytes[1] == if m.timestamp is Some {
        1u8
    } else {
        0u8
    });
    assert(AlertLevel::spec_of_rank(m.level.spec_rank()) == m.level);
    if m.timestamp is Some {
        assert(bytes.subrange(2, 10) =~= spec_u64_to_le_bytes(m.timestamp->0));
    }
    assert(bytes.subrange(p0, p0 + 8) =~= spec_u64_to_le_bytes(src.len() as u64));
    assert(bytes.subrange(p0 + 8, p0 + 8 + src.len()) =~= src);
    let p1 = p0 + 8 + src.len();
    assert(bytes.subrange(p1, p1 + 8) =~= spec_u64_to_le_bytes(msg.len() as u64));
    assert(bytes.subrange(p1 + 8, p1 + 8 + msg.len()) =~= msg);
}

} // verus!
