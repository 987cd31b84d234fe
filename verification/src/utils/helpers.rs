//! Shortening of container ids and of log output.
use crate::text::{chars_of, decimal, deep, join, lines, lines_of, push_decimal, push_joined};
use std::borrow::Cow;
use vstd::prelude::*;
use vstd::string::{is_ascii, StringSliceAdditionalSpecFns};
use vstd::utf8::{decode_utf8, encode_utf8, is_ascii_chars, is_ascii_chars_encode_utf8, is_char_boundary, encode_utf8_decode_utf8};

verus! {

/// Bytes kept by `short_id`.
pub const SHORT_ID_LEN: usize = 12;

/// The id can be cut after its twelfth byte without splitting a character
/// (always so when it is at most twelve bytes long).
pub open spec fn short_id_cuttable(id: Seq<char>) -> bool {
    encode_utf8(id).len() > SHORT_ID_LEN ==> is_char_boundary(encode_utf8(id), SHORT_ID_LEN as int)
}

/// The short form of an id: its first twelve bytes, or the whole id if it is not longer.
pub open spec fn short_id_bytes(bytes: Seq<u8>) -> Seq<u8> {
    if bytes.len() > SHORT_ID_LEN {
        bytes.subrange(0, SHORT_ID_LEN as int)
    } else {
        bytes
    }
}

/// The characters of the short form of an id.
pub open spec fn short_id_chars(id: Seq<char>) -> Seq<char> {
    decode_utf8(short_id_bytes(encode_utf8(id)))
}

/// Whether `short_id` can cut `id` without splitting a character.
pub fn is_short_id_cuttable(id: &str) -> (r: bool)
    ensures
        r == short_id_cuttable(id@),
{
    id.as_bytes().len() <= SHORT_ID_LEN || id.is_char_boundary(SHORT_ID_LEN)
}

/// The first twelve bytes of a container id, as Docker shows it.
pub fn short_id(full_id: &str) -> (s: &str)
    requires
        short_id_cuttable(full_id@),
    ensures
        s.spec_bytes() == short_id_bytes(full_id.spec_bytes()),
        s@ == short_id_chars(full_id@),
        is_ascii(full_id) ==> s@ == full_id@.subrange(
            0,
            if full_id@.len() > SHORT_ID_LEN {
                SHORT_ID_LEN as int
            } else {
                full_id@.len() as int
            },
        ),
{
    proof {
        encode_utf8_decode_utf8(full_id@);
    }
    if full_id.as_bytes().len() > SHORT_ID_LEN {
        let (head, _) = full_id.split_at(SHORT_ID_LEN);
        proof {
            let bytes = full_id.spec_bytes();
            if is_ascii(full_id) {
                let pre = full_id@.subrange(0, SHORT_ID_LEN as int);
                is_ascii_chars_encode_utf8(full_id@);
                assert(is_ascii_chars(pre));
                is_ascii_chars_encode_utf8(pre);
                assert(encode_utf8(pre) =~= bytes.subrange(0, SHORT_ID_LEN as int));
                encode_utf8_decode_utf8(pre);
                encode_utf8_decode_utf8(head@);
            }
        }
        proof {
            encode_utf8_decode_utf8(head@);
        }
        head
    } else {
        proof {
            if is_ascii(full_id) {
                is_ascii_chars_encode_utf8(full_id@);
                assert(full_id@.subrange(0, full_id@.len() as int) =~= full_id@);
            }
        }
        full_id
    }
}

/// What `truncate_logs` gives: the logs as they are if they have at most `max_lines` lines,
/// else a notice of how many lines were dropped followed by the last `max_lines` lines.
pub open spec fn truncated_logs(logs: Seq<char>, max_lines: nat) -> Seq<char> {
    let ls = lines(logs);
    if ls.len() > max_lines {
        "... ("@ + decimal((ls.len() - max_lines) as nat) + " lines truncated) ...\n"@ + join(
            ls.skip(ls.len() - max_lines),
            "\n"@,
        )
    } else {
        logs
    }
}

/// Keeps the last `max_lines` lines of `logs`, with a notice of how many were dropped.
pub fn truncate_logs(logs: &str, max_lines: usize) -> (r: Cow<'_, str>)
    ensures
        r@ == truncated_logs(logs@, max_lines as nat),
        r is Borrowed <==> lines(logs@).len() <= max_lines,
{
    let cs = chars_of(logs);
    let ls = lines_of(cs.as_slice());
    if ls.len() > max_lines {
        let dropped = ls.len() - max_lines;
        let mut out = String::new();
        out.append("... (");
        push_decimal(&mut out, dropped as u64);
        out.append(" lines truncated) ...\n");
        push_joined(&mut out, ls.as_slice(), dropped, "\n");
        proof {
            assert(deep(ls@).skip(dropped as int) == lines(logs@).skip(lines(logs@).len() - max_lines));
            assert(out@ =~= "... ("@ + decimal(dropped as nat) + " lines truncated) ...\n"@ + join(
                lines(logs@).skip(lines(logs@).len() - max_lines),
                "\n"@,
            ));
        }
        Cow::Owned(out)
    } else {
        Cow::Borrowed(logs)
    }
}

/// Logs that fit are left exactly as they are.
pub proof fn law_truncate_keeps_short_logs(logs: Seq<char>, max_lines: nat)
    requires
        lines(logs).len() <= max_lines,
    ensures
        truncated_logs(logs, max_lines) == logs,
{
}

/// Shortening a short id changes nothing.
pub proof fn law_short_id_idempotent(bytes: Seq<u8>)
    ensures
        short_id_bytes(short_id_bytes(bytes)) == short_id_bytes(bytes),
{
}

} // verus!
