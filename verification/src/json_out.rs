//! Serialization of outbound wire events into JSON text frames. The frame
//! layouts and the string escaping are stated exactly, character for
//! character, so every broadcastable frame is pinned by its specification.

use vstd::prelude::*;
use crate::events::{WireEvent, WireEventV};
use crate::text::{push_char, spec_dec, u64_to_dec};

verus! {

/// The lowercase hexadecimal digit character for `d`.
pub open spec fn hex_digit(d: int) -> char {
    if d == 0 {
        '0'
    } else if d == 1 {
        '1'
    } else if d == 2 {
        '2'
    } else if d == 3 {
        '3'
    } else if d == 4 {
        '4'
    } else if d == 5 {
        '5'
    } else if d == 6 {
        '6'
    } else if d == 7 {
        '7'
    } else if d == 8 {
        '8'
    } else if d == 9 {
        '9'
    } else if d == 10 {
        'a'
    } else if d == 11 {
        'b'
    } else if d == 12 {
        'c'
    } else if d == 13 {
        'd'
    } else if d == 14 {
        'e'
    } else {
        'f'
    }
}

/// The JSON escape of one character: quote and backslash are escaped, the
/// five short control escapes are used where JSON names them, any other
/// control character becomes a `\u00..` sequence, and everything else
/// passes through unchanged.
pub open spec fn esc_char(c: char) -> Seq<char> {
    if c == '"' {
        "\\\""@
    } else if c == '\\' {
        "\\\\"@
    } else if c == '\u{8}' {
        "\\b"@
    } else if c == '\u{c}' {
        "\\f"@
    } else if c == '\n' {
        "\\n"@
    } else if c == '\r' {
        "\\r"@
    } else if c == '\t' {
        "\\t"@
    } else if (c as u32) < 32 {
        "\\u00"@ + seq![hex_digit((c as u32) as int / 16), hex_digit((c as u32) as int % 16)]
    } else {
        seq![c]
    }
}

/// The JSON escape of a whole string.
pub open spec fn esc(s: Seq<char>) -> Seq<char>
    decreases s.len(),
{
    if s.len() == 0 {
        Seq::<char>::empty()
    } else {
        esc(s.drop_last()) + esc_char(s.last())
    }
}

/// A JSON string literal: the escaped content between double quotes.
pub open spec fn json_str(s: Seq<char>) -> Seq<char> {
    "\""@ + esc(s) + "\""@
}

/// `true` or `false` as JSON text.
pub open spec fn json_bool(b: bool) -> Seq<char> {
    if b {
        "true"@
    } else {
        "false"@
    }
}

/// The hexadecimal digit character for a value below sixteen.
fn hex_digit_exec(d: u32) -> (c: char)
    requires
        d < 16,
    ensures
        c == hex_digit(d as int),
{
    if d == 0 {
        '0'
    } else if d == 1 {
        '1'
    } else if d == 2 {
        '2'
    } else if d == 3 {
        '3'
    } else if d == 4 {
        '4'
    } else if d == 5 {
        '5'
    } else if d == 6 {
        '6'
    } else if d == 7 {
        '7'
    } else if d == 8 {
        '8'
    } else if d == 9 {
        '9'
    } else if d == 10 {
        'a'
    } else if d == 11 {
        'b'
    } else if d == 12 {
        'c'
    } else if d == 13 {
        'd'
    } else if d == 14 {
        'e'
    } else {
        'f'
    }
}

/// Escapes a string for inclusion in a JSON string literal.
pub fn escape_json(s: &str) -> (r: String)
    ensures
        r@ == esc(s@),
{
    let n = s.unicode_len();
    let mut out = String::new();
    let mut i: usize = 0;
    while i < n
        invariant
            i <= n,
            n == s@.len(),
            out@ == esc(s@.take(i as int)),
        decreases n - i,
    {
        let c = s.get_char(i);
        let ghost pre: Seq<char> = out@;
        if c == '"' {
            out.append("\\\"");
        } else if c == '\\' {
            out.append("\\\\");
        } else if c == '\u{8}' {
            out.append("\\b");
        } else if c == '\u{c}' {
            out.append("\\f");
        } else if c == '\n' {
            out.append("\\n");
        } else if c == '\r' {
            out.append("\\r");
        } else if c == '\t' {
            out.append("\\t");
        } else if (c as u32) < 32 {
            out.append("\\u00");
            let code: u32 = c as u32;
            push_char(&mut out, hex_digit_exec(code / 16));
            push_char(&mut out, hex_digit_exec(code % 16));
            proof {
                assert(out@ =~= pre + esc_char(c));
            }
        } else {
            push_char(&mut out, c);
            proof {
                assert(out@ =~= pre + esc_char(c));
            }
        }
        proof {
            assert(s@.take(i + 1).drop_last() =~= s@.take(i as int));
            assert(s@.take(i + 1).last() == s@[i as int]);
            assert(out@ == esc(s@.take(i + 1)));
        }
        i += 1;
    }
    proof {
        assert(s@.take(n as int) =~= s@);
    }
    out
}

/// Appends `s` as a JSON string literal.
fn append_json_str(out: &mut String, s: &str)
    ensures
        final(out)@ == old(out)@ + json_str(s@),
{
    out.append("\"");
    let e = escape_json(s);
    out.append(e.as_str());
    out.append("\"");
    proof {
        assert(final(out)@ =~= old(out)@ + json_str(s@));
    }
}

/// The serialized frame for a wire event stamped with timestamp `ts`.
pub open spec fn spec_frame(e: WireEventV, ts: u64) -> Seq<char> {
    match e {
        WireEventV::System { text } => "{\"type\":\"system\",\"text\":"@ + json_str(text)
            + ",\"timestamp\":"@ + spec_dec(ts as nat) + "}"@,
        WireEventV::Message { text, sender, encrypted } => "{\"type\":\"message\",\"text\":"@
            + json_str(text) + ",\"sender\":"@ + json_str(sender) + ",\"timestamp\":"@
            + spec_dec(ts as nat) + ",\"encrypted\":"@ + json_bool(encrypted) + "}"@,
        WireEventV::File { file_data, sender } => "{\"type\":\"file\",\"fileData\":"@
            + json_str(file_data) + ",\"sender\":"@ + json_str(sender) + ",\"timestamp\":"@
            + spec_dec(ts as nat) + "}"@,
        WireEventV::Edited { message_id, new_text, sender, encrypted } => (
        "{\"type\":\"message_edited\",\"messageId\":"@ + json_str(message_id)
            + ",\"newText\":"@ + json_str(new_text) + ",\"sender\":"@ + json_str(sender)
            + ",\"timestamp\":"@ + spec_dec(ts as nat) + ",\"encrypted\":"@ + json_bool(encrypted)
            + "}"@),
        WireEventV::Deleted { message_id, sender } => (
        "{\"type\":\"message_deleted\",\"messageId\":"@ + json_str(message_id) + ",\"sender\":"@
            + json_str(sender) + ",\"timestamp\":"@ + spec_dec(ts as nat) + "}"@),
    }
}

/// Serializes a wire event into its JSON text frame, stamped with `ts`.
pub fn encode_frame(e: &WireEvent, ts: u64) -> (r: String)
    ensures
        r@ == spec_frame(e@, ts),
{
    let stamp = u64_to_dec(ts);
    match e {
        WireEvent::System { text } => {
            let mut out = String::from_str("{\"type\":\"system\",\"text\":");
            append_json_str(&mut out, text.as_str());
            out.append(",\"timestamp\":");
            out.append(stamp.as_str());
            out.append("}");
            out
        },
        WireEvent::Message { text, sender, encrypted } => {
            let mut out = String::from_str("{\"type\":\"message\",\"text\":");
            append_json_str(&mut out, text.as_str());
            out.append(",\"sender\":");
            append_json_str(&mut out, sender.as_str());
            out.append(",\"timestamp\":");
            out.append(stamp.as_str());
            out.append(",\"encrypted\":");
            out.append(if *encrypted { "true" } else { "false" });
            out.append("}");
            out
        },
        WireEvent::File { file_data, sender } => {
            let mut out = String::from_str("{\"type\":\"file\",\"fileData\":");
            append_json_str(&mut out, file_data.as_str());
            out.append(",\"sender\":");
            append_json_str(&mut out, sender.as_str());
            out.append(",\"timestamp\":");
            out.append(stamp.as_str());
            out.append("}");
            out
        },
        WireEvent::Edited { message_id, new_text, sender, encrypted } => {
            let mut out = String::from_str("{\"type\":\"message_edited\",\"messageId\":");
            append_json_str(&mut out, message_id.as_str());
            out.append(",\"newText\":");
            append_json_str(&mut out, new_text.as_str());
            out.append(",\"sender\":");
            append_json_str(&mut out, sender.as_str());
            out.append(",\"timestamp\":");
            out.append(stamp.as_str());
            out.append(",\"encrypted\":");
            out.append(if *encrypted { "true" } else { "false" });
            out.append("}");
            out
        },
        WireEvent::Deleted { message_id, sender } => {
            let mut out = String::from_str("{\"type\":\"message_deleted\",\"messageId\":");
            append_json_str(&mut out, message_id.as_str());
            out.append(",\"sender\":");
            append_json_str(&mut out, sender.as_str());
            out.append(",\"timestamp\":");
            out.append(stamp.as_str());
            out.append("}");
            out
        },
    }
}

} // verus!
