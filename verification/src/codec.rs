//! The wire form of the message protocol: one JSON object per frame,
//! with a `type` discriminator and a nested `data` payload.
//!
//! Frames are written in one canonical shape — fields in declaration
//! order, no surrounding whitespace, identifiers in dashed lowercase
//! hexadecimal, counters in decimal, and control characters escaped as
//! `\u00` forms. They are read back liberally, as a JSON deserializer
//! would: insignificant whitespace anywhere between tokens, top-level and
//! payload fields in any order, unknown payload fields ignored, the full
//! set of string escapes (surrogate pairs excepted), identifiers in
//! either letter case. What remains malformed: anything that is not one
//! JSON object, numbers that are not plain integers where a counter is
//! expected, duplicate or missing expected fields, and unknown keys
//! beside the discriminator and the payload. Both directions are pinned
//! to spec-level grammars.

use vstd::prelude::*;
use vstd::string::{StrSliceExecFns, StringExecFns};
use crate::core_types::Id;
use crate::textform::str_eq;
use crate::message::{MessageView, NotificationLevel, WebSocketMessage};
use crate::textform::{dec_seq, dec_seq_i64, hex_digit, hex_digit_char, push_char, u64_string,
    i64_string, uuid_chars, uuid_string};

verus! {

/// The escape of one character inside a JSON string: quote and backslash
/// get a backslash, other control characters a `\u00` form, and everything
/// else stands for itself.
pub open spec fn esc_char(c: char) -> Seq<char> {
    if c == '"' {
        seq!['\\', '"']
    } else if c == '\\' {
        seq!['\\', '\\']
    } else if (c as u32) < 32 {
        seq!['\\', 'u', '0', '0', hex_digit((c as u32 / 16) as u8), hex_digit(
            (c as u32 % 16) as u8,
        )]
    } else {
        seq![c]
    }
}

/// A character sequence with every character escaped.
pub open spec fn esc(s: Seq<char>) -> Seq<char>
    decreases s.len(),
{
    if s.len() == 0 {
        Seq::<char>::empty()
    } else {
        esc(s.drop_last()) + esc_char(s.last())
    }
}

/// A JSON string: the escaped characters between double quotes.
pub open spec fn jstr(s: Seq<char>) -> Seq<char> {
    seq!['"'] + esc(s) + seq!['"']
}

/// An identifier on the wire: its dashed hexadecimal form in quotes.
pub open spec fn jid(id: Id) -> Seq<char> {
    seq!['"'] + uuid_chars(id) + seq!['"']
}

/// The wire tag of a notification severity.
pub open spec fn level_tag(level: NotificationLevel) -> Seq<char> {
    match level {
        NotificationLevel::Info => "Info"@,
        NotificationLevel::Warning => "Warning"@,
        NotificationLevel::Error => "Error"@,
        NotificationLevel::Success => "Success"@,
    }
}

/// The canonical frame of a message.
pub open spec fn spec_encode(m: MessageView) -> Seq<char> {
    match m {
        MessageView::Authenticate { token } => "{\"type\":\"Authenticate\",\"data\":{\"token\":"@
            + jstr(token) + "}}"@,
        MessageView::AuthenticationResult { success, message } => {
            "{\"type\":\"AuthenticationResult\",\"data\":{\"success\":"@ + (if success {
                "true"@
            } else {
                "false"@
            }) + ",\"message\":"@ + jstr(message) + "}}"@
        },
        MessageView::FileUploaded { file_id, filename, size } => {
            "{\"type\":\"FileUploaded\",\"data\":{\"file_id\":"@ + jid(file_id)
                + ",\"filename\":"@ + jstr(filename) + ",\"size\":"@ + dec_seq_i64(size as int)
                + "}}"@
        },
        MessageView::FileDeleted { file_id, filename } => {
            "{\"type\":\"FileDeleted\",\"data\":{\"file_id\":"@ + jid(file_id)
                + ",\"filename\":"@ + jstr(filename) + "}}"@
        },
        MessageView::FileShared { share_id, file_id, share_token } => {
            "{\"type\":\"FileShared\",\"data\":{\"share_id\":"@ + jid(share_id)
                + ",\"file_id\":"@ + jid(file_id) + ",\"share_token\":"@ + jstr(share_token)
                + "}}"@
        },
        MessageView::ShareAccessed { share_id, file_id, filename } => {
            "{\"type\":\"ShareAccessed\",\"data\":{\"share_id\":"@ + jid(share_id)
                + ",\"file_id\":"@ + jid(file_id) + ",\"filename\":"@ + jstr(filename) + "}}"@
        },
        MessageView::ShareExpired { share_id, file_id } => {
            "{\"type\":\"ShareExpired\",\"data\":{\"share_id\":"@ + jid(share_id)
                + ",\"file_id\":"@ + jid(file_id) + "}}"@
        },
        MessageView::SystemNotification { message, level } => {
            "{\"type\":\"SystemNotification\",\"data\":{\"message\":"@ + jstr(message)
                + ",\"level\":\""@ + level_tag(level) + "\"}}"@
        },
        MessageView::UserOnline { user_id, username } => {
            "{\"type\":\"UserOnline\",\"data\":{\"user_id\":"@ + jid(user_id)
                + ",\"username\":"@ + jstr(username) + "}}"@
        },
        MessageView::UserOffline { user_id, username } => {
            "{\"type\":\"UserOffline\",\"data\":{\"user_id\":"@ + jid(user_id)
                + ",\"username\":"@ + jstr(username) + "}}"@
        },
        MessageView::UploadProgress { file_id, progress, bytes_uploaded, total_bytes } => {
            "{\"type\":\"UploadProgress\",\"data\":{\"file_id\":"@ + jid(file_id)
                + ",\"progress\":"@ + dec_seq(progress as nat)
                + ",\"bytes_uploaded\":"@ + dec_seq(bytes_uploaded as nat) + ",\"total_bytes\":"@
                + dec_seq(total_bytes as nat) + "}}"@
        },
        MessageView::DownloadStarted { file_id, filename } => {
            "{\"type\":\"DownloadStarted\",\"data\":{\"file_id\":"@ + jid(file_id)
                + ",\"filename\":"@ + jstr(filename) + "}}"@
        },
        MessageView::Ping => "{\"type\":\"Ping\"}"@,
        MessageView::Pong => "{\"type\":\"Pong\"}"@,
        MessageView::Error { code, message } => {
            "{\"type\":\"Error\",\"data\":{\"code\":"@ + jstr(code) + ",\"message\":"@ + jstr(
                message,
            ) + "}}"@
        },
    }
}

/// Appends the JSON string form of `s`, escaping as the grammar demands.
fn push_jstr(out: &mut String, s: &str)
    ensures
        final (out)@ == old(out)@ + jstr(s@),
{
    push_char(out, '"');
    let n = s.unicode_len();
    let mut i: usize = 0;
    while i < n
        invariant
            n == s@.len(),
            0 <= i <= n,
            out@ == old(out)@ + seq!['"'] + esc(s@.take(i as int)),
        decreases n - i,
    {
        let ghost pre = s@.take(i as int);
        proof {
            assert(s@.take(i + 1).drop_last() =~= pre);
            assert(s@.take(i + 1).last() == s@[i as int]);
        }
        let c = s.get_char(i);
        let u = c as u32;
        if c == '"' {
            push_char(out, '\\');
            push_char(out, '"');
        } else if c == '\\' {
            push_char(out, '\\');
            push_char(out, '\\');
        } else if u < 32 {
            push_char(out, '\\');
            push_char(out, 'u');
            push_char(out, '0');
            push_char(out, '0');
            push_char(out, hex_digit_char((u / 16) as u8));
            push_char(out, hex_digit_char((u % 16) as u8));
        } else {
            push_char(out, c);
        }
        proof {
            assert(out@ =~= old(out)@ + seq!['"'] + esc(s@.take(i + 1)));
        }
        i = i + 1;
    }
    push_char(out, '"');
    proof {
        assert(s@.take(n as int) =~= s@);
        assert(out@ =~= old(out)@ + jstr(s@));
    }
}

/// Appends the wire form of an identifier.
fn push_jid(out: &mut String, id: Id)
    ensures
        final (out)@ == old(out)@ + jid(id),
{
    push_char(out, '"');
    let u = uuid_string(id);
    out.append(u.as_str());
    push_char(out, '"');
    proof {
        assert(out@ =~= old(out)@ + jid(id));
    }
}

/// Writes the canonical frame of a message.
#[verifier::loop_isolation(false)]
#[verifier::rlimit(100)]
#[verifier::spinoff_prover]
pub fn encode_message(m: &WebSocketMessage) -> (r: String)
    ensures
        r@ == spec_encode(m@),
{
    let mut out = String::new();
    match m {
        WebSocketMessage::Authenticate { token } => {
            out.append("{\"type\":\"Authenticate\",\"data\":{\"token\":");
            push_jstr(&mut out, token.as_str());
            out.append("}}");
        },
        WebSocketMessage::AuthenticationResult { success, message } => {
            out.append("{\"type\":\"AuthenticationResult\",\"data\":{\"success\":");
            if *success {
                out.append("true");
            } else {
                out.append("false");
            }
            out.append(",\"message\":");
            push_jstr(&mut out, message.as_str());
            out.append("}}");
        },
        WebSocketMessage::FileUploaded { file_id, filename, size } => {
            out.append("{\"type\":\"FileUploaded\",\"data\":{\"file_id\":");
            push_jid(&mut out, *file_id);
            out.append(",\"filename\":");
            push_jstr(&mut out, filename.as_str());
            out.append(",\"size\":");
            let sz = i64_string(*size);
            out.append(sz.as_str());
            out.append("}}");
        },
        WebSocketMessage::FileDeleted { file_id, filename } => {
            out.append("{\"type\":\"FileDeleted\",\"data\":{\"file_id\":");
            push_jid(&mut out, *file_id);
            out.append(",\"filename\":");
            push_jstr(&mut out, filename.as_str());
            out.append("}}");
        },
        WebSocketMessage::FileShared { share_id, file_id, share_token } => {
            out.append("{\"type\":\"FileShared\",\"data\":{\"share_id\":");
            push_jid(&mut out, *share_id);
            out.append(",\"file_id\":");
            push_jid(&mut out, *file_id);
            out.append(",\"share_token\":");
            push_jstr(&mut out, share_token.as_str());
            out.append("}}");
        },
        WebSocketMessage::ShareAccessed { share_id, file_id, filename } => {
            out.append("{\"type\":\"ShareAccessed\",\"data\":{\"share_id\":");
            push_jid(&mut out, *share_id);
            out.append(",\"file_id\":");
            push_jid(&mut out, *file_id);
            out.append(",\"filename\":");
            push_jstr(&mut out, filename.as_str());
            out.append("}}");
        },
        WebSocketMessage::ShareExpired { share_id, file_id } => {
            out.append("{\"type\":\"ShareExpired\",\"data\":{\"share_id\":");
            push_jid(&mut out, *share_id);
            out.append(",\"file_id\":");
            push_jid(&mut out, *file_id);
            out.append("}}");
        },
        WebSocketMessage::SystemNotification { message, level } => {
            out.append("{\"type\":\"SystemNotification\",\"data\":{\"message\":");
            push_jstr(&mut out, message.as_str());
            out.append(",\"level\":\"");
            match level {
                NotificationLevel::Info => out.append("Info"),
                NotificationLevel::Warning => out.append("Warning"),
                NotificationLevel::Error => out.append("Error"),
                NotificationLevel::Success => out.append("Success"),
            }
            out.append("\"}}");
        },
        WebSocketMessage::UserOnline { user_id, username } => {
            out.append("{\"type\":\"UserOnline\",\"data\":{\"user_id\":");
            push_jid(&mut out, *user_id);
            out.append(",\"username\":");
            push_jstr(&mut out, username.as_str());
            out.append("}}");
        },
        WebSocketMessage::UserOffline { user_id, username } => {
            out.append("{\"type\":\"UserOffline\",\"data\":{\"user_id\":");
            push_jid(&mut out, *user_id);
            out.append(",\"username\":");
            push_jstr(&mut out, username.as_str());
            out.append("}}");
        },
        WebSocketMessage::UploadProgress { file_id, progress, bytes_uploaded, total_bytes } => {
            out.append("{\"type\":\"UploadProgress\",\"data\":{\"file_id\":");
            push_jid(&mut out, *file_id);
            out.append(",\"progress\":");
            let p = u64_string(*progress as u64);
            out.append(p.as_str());
            out.append(",\"bytes_uploaded\":");
            let b = u64_string(*bytes_uploaded);
            out.append(b.as_str());
            out.append(",\"total_bytes\":");
            let t = u64_string(*total_bytes);
            out.append(t.as_str());
            out.append("}}");
        },
        WebSocketMessage::DownloadStarted { file_id, filename } => {
            out.append("{\"type\":\"DownloadStarted\",\"data\":{\"file_id\":");
            push_jid(&mut out, *file_id);
            out.append(",\"filename\":");
            push_jstr(&mut out, filename.as_str());
            out.append("}}");
        },
        WebSocketMessage::Ping => {
            out.append("{\"type\":\"Ping\"}");
        },
        WebSocketMessage::Pong => {
            out.append("{\"type\":\"Pong\"}");
        },
        WebSocketMessage::Error { code, message } => {
            out.append("{\"type\":\"Error\",\"data\":{\"code\":");
            push_jstr(&mut out, code.as_str());
            out.append(",\"message\":");
            push_jstr(&mut out, message.as_str());
            out.append("}}");
        },
    }
    proof {
        assert(out@ =~= spec_encode(m@));
    }
    out
}

/// The value of a decimal digit, `-1` for any other character.
pub open spec fn dig_val(c: char) -> int {
    if 48 <= c as u32 <= 57 {
        c as u32 - 48
    } else {
        -1
    }
}

/// The value of a hexadecimal digit of either case, `-1` for any other
/// character.
pub open spec fn hex_val(c: char) -> int {
    if 48 <= c as u32 <= 57 {
        c as u32 - 48
    } else if 97 <= c as u32 <= 102 {
        c as u32 - 87
    } else if 65 <= c as u32 <= 70 {
        c as u32 - 55
    } else {
        -1
    }
}

/// Relies on `char::from_u32`: by its documentation it returns the one
/// character with that scalar value, and `None` exactly for surrogates
/// and values above the scalar maximum.
pub assume_specification[ char::from_u32 ](v: u32) -> (r: Option<char>)
    ensures
        match r {
            Some(c) => c as u32 == v && c == char_of(v),
            None => v > 0x10FFFF || (0xD800 <= v < 0xE000),
        },
;

/// The cursor after the literal `lit` at `i`, when it is there.
pub open spec fn sp_expect(s: Seq<char>, i: int, lit: Seq<char>) -> Option<int> {
    if 0 <= i && i + lit.len() <= s.len() && s.subrange(i, i + lit.len() as int) == lit {
        Some(i + lit.len() as int)
    } else {
        None
    }
}

/// The character with scalar value `v`.
pub open spec fn char_of(v: u32) -> char {
    choose|c: char| (#[trigger] (c as u32)) == v
}

/// The character a single-letter escape stands for, `None` for letters
/// that are no escape.
pub open spec fn esc_short(e: char) -> Option<char> {
    if e == '"' {
        Some('"')
    } else if e == '\\' {
        Some('\\')
    } else if e == '/' {
        Some('/')
    } else if e == 'b' {
        Some((8u8) as char)
    } else if e == 'f' {
        Some((12u8) as char)
    } else if e == 'n' {
        Some((10u8) as char)
    } else if e == 'r' {
        Some((13u8) as char)
    } else if e == 't' {
        Some((9u8) as char)
    } else {
        None
    }
}

/// The body of a JSON string from `i` up to its closing quote: plain
/// characters stand for themselves; the short escapes and `\u` escapes of
/// characters outside the surrogate range are accepted (surrogate pairs
/// are not); an unescaped control character is malformed.
pub open spec fn sp_jstr_body(s: Seq<char>, i: int) -> Option<(Seq<char>, int)>
    decreases s.len() - i,
{
    if i < 0 || i >= s.len() {
        None
    } else if s[i] == '"' {
        Some((Seq::<char>::empty(), i + 1))
    } else if s[i] == '\\' {
        if i + 1 < s.len() && esc_short(s[i + 1]) is Some {
            match sp_jstr_body(s, i + 2) {
                Some((r, j)) => Some((seq![esc_short(s[i + 1]).unwrap()] + r, j)),
                None => None,
            }
        } else if i + 5 < s.len() && s[i + 1] == 'u' && hex_val(s[i + 2]) >= 0 && hex_val(
            s[i + 3],
        ) >= 0 && hex_val(s[i + 4]) >= 0 && hex_val(s[i + 5]) >= 0 && !(0xD800 <= ((hex_val(
            s[i + 2],
        ) * 16 + hex_val(s[i + 3])) * 16 + hex_val(s[i + 4])) * 16 + hex_val(s[i + 5])
            < 0xE000) {
            match sp_jstr_body(s, i + 6) {
                Some((r, j)) => Some(
                    (seq![
                        char_of(
                            (((hex_val(s[i + 2]) * 16 + hex_val(s[i + 3])) * 16 + hex_val(
                                s[i + 4],
                            )) * 16 + hex_val(s[i + 5])) as u32,
                        )
                    ] + r, j),
                ),
                None => None,
            }
        } else {
            None
        }
    } else if (s[i] as u32) < 32 {
        None
    } else {
        match sp_jstr_body(s, i + 1) {
            Some((r, j)) => Some((seq![s[i]] + r, j)),
            None => None,
        }
    }
}

/// A quoted JSON string at `i`.
pub open spec fn sp_jstr(s: Seq<char>, i: int) -> Option<(Seq<char>, int)> {
    if 0 <= i < s.len() && s[i] == '"' {
        sp_jstr_body(s, i + 1)
    } else {
        None
    }
}

/// The end of the digit run starting at `i`.
pub open spec fn digits_end(s: Seq<char>, i: int) -> int
    decreases s.len() - i,
{
    if 0 <= i < s.len() && dig_val(s[i]) >= 0 {
        digits_end(s, i + 1)
    } else {
        i
    }
}

/// The value of the digits in `[i, j)`.
pub open spec fn digits_value(s: Seq<char>, i: int, j: int) -> int
    decreases j - i,
{
    if j <= i {
        0
    } else {
        digits_value(s, i, j - 1) * 10 + dig_val(s[j - 1])
    }
}

/// A canonical unsigned decimal at `i`: at least one digit, no leading
/// zero, and a value that fits.
pub open spec fn sp_u64(s: Seq<char>, i: int) -> Option<(u64, int)> {
    let j = digits_end(s, i);
    if j <= i || j - i > 20 {
        None
    } else if s[i] == '0' && j > i + 1 {
        None
    } else if digits_value(s, i, j) > u64::MAX {
        None
    } else {
        Some((digits_value(s, i, j) as u64, j))
    }
}

/// A canonical signed decimal at `i`.
pub open spec fn sp_i64(s: Seq<char>, i: int) -> Option<(i64, int)> {
    if 0 <= i < s.len() && s[i] == '-' {
        let j = digits_end(s, i + 1);
        if j <= i + 1 || j - (i + 1) > 20 {
            None
        } else if s[i + 1] == '0' {
            None
        } else if digits_value(s, i + 1, j) > 0x8000000000000000 {
            None
        } else {
            Some(((-digits_value(s, i + 1, j)) as i64, j))
        }
    } else {
        match sp_u64(s, i) {
            Some((v, j)) => if v > i64::MAX as u64 {
                None
            } else {
                Some((v as i64, j))
            },
            None => None,
        }
    }
}

/// A JSON boolean at `i`.
pub open spec fn sp_bool(s: Seq<char>, i: int) -> Option<(bool, int)> {
    match sp_expect(s, i, "true"@) {
        Some(j) => Some((true, j)),
        None => match sp_expect(s, i, "false"@) {
            Some(j) => Some((false, j)),
            None => None,
        },
    }
}

/// The character position of nibble `k` within the dashed identifier
/// form.
pub open spec fn nib_pos(k: int) -> int {
    k + (if k >= 20 {
        4int
    } else if k >= 16 {
        3int
    } else if k >= 12 {
        2int
    } else if k >= 8 {
        1int
    } else {
        0int
    })
}

/// Whether the first `k` nibbles after `base` are lowercase hexadecimal.
pub open spec fn nibbles_ok(s: Seq<char>, base: int, k: int) -> bool
    decreases k,
{
    if k <= 0 {
        true
    } else {
        nibbles_ok(s, base, k - 1) && 0 <= base + nib_pos(k - 1) < s.len() && hex_val(
            s[base + nib_pos(k - 1)],
        ) >= 0
    }
}

/// The value of the first `k` nibbles after `base`.
pub open spec fn nibbles_value(s: Seq<char>, base: int, k: int) -> int
    decreases k,
{
    if k <= 0 {
        0
    } else {
        nibbles_value(s, base, k - 1) * 16 + hex_val(s[base + nib_pos(k - 1)])
    }
}

/// Sixteen to the `k`-th power.
pub open spec fn pow16(k: int) -> int
    decreases k,
{
    if k <= 0 {
        1
    } else {
        16 * pow16(k - 1)
    }
}

/// The value of `k` nibbles stays below sixteen to the `k`-th.
proof fn lemma_nibbles_bound(s: Seq<char>, base: int, k: int)
    requires
        0 <= k,
        nibbles_ok(s, base, k),
    ensures
        0 <= nibbles_value(s, base, k) < pow16(k),
    decreases k,
{
    if k > 0 {
        lemma_nibbles_bound(s, base, k - 1);
        assert(hex_val(s[base + nib_pos(k - 1)]) <= 15);
    }
}

proof fn lemma_pow16_pos(k: int)
    ensures
        pow16(k) >= 1,
    decreases k,
{
    if k > 0 {
        lemma_pow16_pos(k - 1);
    }
}

proof fn lemma_pow16_mono(a: int, b: int)
    requires
        0 <= a <= b,
    ensures
        pow16(a) <= pow16(b),
    decreases b,
{
    if a < b {
        lemma_pow16_mono(a, b - 1);
        lemma_pow16_pos(b - 1);
    }
}

proof fn lemma_pow16_32()
    ensures
        pow16(32) == 0x100000000000000000000000000000000,
{
    reveal_with_fuel(pow16, 33);
}

/// Ten to the `k`-th power.
pub open spec fn pow10(k: int) -> int
    decreases k,
{
    if k <= 0 {
        1
    } else {
        10 * pow10(k - 1)
    }
}

proof fn lemma_pow10_pos(k: int)
    ensures
        pow10(k) >= 1,
    decreases k,
{
    if k > 0 {
        lemma_pow10_pos(k - 1);
    }
}

proof fn lemma_pow10_mono(a: int, b: int)
    requires
        0 <= a <= b,
    ensures
        pow10(a) <= pow10(b),
    decreases b,
{
    if a < b {
        lemma_pow10_mono(a, b - 1);
        lemma_pow10_pos(b - 1);
    }
}

/// The value of a digit run stays below ten to its length.
proof fn lemma_digits_bound(s: Seq<char>, i: int, j: int)
    requires
        i <= j,
        forall|x: int| i <= x < j ==> dig_val(#[trigger] s[x]) >= 0,
    ensures
        0 <= digits_value(s, i, j) < pow10(j - i),
    decreases j - i,
{
    if i < j {
        lemma_digits_bound(s, i, j - 1);
        assert(dig_val(s[j - 1]) <= 9);
    }
}

/// A full nibble check covers each position.
proof fn lemma_nibbles_ok_prefix(s: Seq<char>, base: int, k: int, m: int)
    requires
        nibbles_ok(s, base, m),
        0 <= k < m,
    ensures
        0 <= base + nib_pos(k) < s.len() && hex_val(s[base + nib_pos(k)]) >= 0,
    decreases m,
{
    if k < m - 1 {
        lemma_nibbles_ok_prefix(s, base, k, m - 1);
    }
}

/// The characters of `s`, one slot each.
pub(crate) fn str_chars(s: &str) -> (r: Vec<char>)
    ensures
        r@ == s@,
{
    let n = s.unicode_len();
    let mut out: Vec<char> = Vec::new();
    let mut i: usize = 0;
    while i < n
        invariant
            n == s@.len(),
            0 <= i <= n,
            out@ =~= s@.take(i as int),
        decreases n - i,
    {
        out.push(s.get_char(i));
        proof {
            assert(out@ =~= s@.take(i + 1));
        }
        i = i + 1;
    }
    proof {
        assert(out@ =~= s@);
    }
    out
}

/// Matches the literal `lit` at `i`.
fn expect_lit(chars: &Vec<char>, i: usize, lit: &str) -> (r: Option<usize>)
    requires
        i <= chars@.len(),
    ensures
        match r {
            Some(j) => sp_expect(chars@, i as int, lit@) == Some(j as int) && i <= j
                <= chars@.len(),
            None => sp_expect(chars@, i as int, lit@) is None,
        },
{
    let l = lit.unicode_len();
    if l > chars.len() - i {
        return None;
    }
    let mut j: usize = 0;
    while j < l
        invariant
            l == lit@.len(),
            i + l <= chars@.len(),
            chars@.len() <= usize::MAX,
            0 <= j <= l,
            forall|x: int| 0 <= x < j ==> chars@[i + x] == lit@[x],
        decreases l - j,
    {
        let c = chars[i + j];
        let lc = lit.get_char(j);
        if c != lc {
            proof {
                assert(chars@.subrange(i as int, i + l as int)[j as int] != lit@[j as int]);
            }
            return None;
        }
        j = j + 1;
    }
    proof {
        assert(chars@.subrange(i as int, i + l as int) =~= lit@);
    }
    Some(i + l)
}

/// The value of a decimal digit, `-1` otherwise.
fn digv(c: char) -> (r: i32)
    ensures
        r as int == dig_val(c),
{
    let u = c as u32;
    if 48 <= u && u <= 57 {
        (u - 48) as i32
    } else {
        -1
    }
}

/// The value of a hexadecimal digit of either case, `-1` otherwise.
fn hexv(c: char) -> (r: i32)
    ensures
        r as int == hex_val(c),
{
    let u = c as u32;
    if 48 <= u && u <= 57 {
        (u - 48) as i32
    } else if 97 <= u && u <= 102 {
        (u - 87) as i32
    } else if 65 <= u && u <= 70 {
        (u - 55) as i32
    } else {
        -1
    }
}

/// The character a single-letter escape stands for.
fn esc_short_exec(e: char) -> (r: Option<char>)
    ensures
        r == esc_short(e),
{
    match e {
        '"' => Some('"'),
        '\\' => Some('\\'),
        '/' => Some('/'),
        'b' => Some(8u8 as char),
        'f' => Some(12u8 as char),
        'n' => Some(10u8 as char),
        'r' => Some(13u8 as char),
        't' => Some(9u8 as char),
        _ => None,
    }
}

/// Reads the body of a JSON string from `i` to its closing quote.
fn p_jstr_body(chars: &Vec<char>, i: usize) -> (r: Option<(String, usize)>)
    requires
        i <= chars@.len(),
    ensures
        match r {
            Some(v) => sp_jstr_body(chars@, i as int) == Some((v.0@, v.1 as int)) && i < v.1
                <= chars@.len(),
            None => sp_jstr_body(chars@, i as int) is None,
        },
    decreases chars@.len() - i,
{
    if i >= chars.len() {
        return None;
    }
    let c = chars[i];
    if c == '"' {
        return Some((String::new(), i + 1));
    }
    if c == '\\' {
        if chars.len() - i > 1 {
            match esc_short_exec(chars[i + 1]) {
                Some(e) => {
                    match p_jstr_body(chars, i + 2) {
                        Some((rest, j)) => {
                            let mut out = String::new();
                            push_char(&mut out, e);
                            let res = out.concat(rest.as_str());
                            proof {
                                assert(res@ =~= seq![esc_short(chars@[i + 1]).unwrap()]
                                    + rest@);
                            }
                            return Some((res, j));
                        },
                        None => {
                            return None;
                        },
                    }
                },
                None => {},
            }
        }
        if chars.len() - i > 5 && chars[i + 1] == 'u' {
            let h1 = hexv(chars[i + 2]);
            let h2 = hexv(chars[i + 3]);
            let h3 = hexv(chars[i + 4]);
            let h4 = hexv(chars[i + 5]);
            if h1 >= 0 && h2 >= 0 && h3 >= 0 && h4 >= 0 {
                let v = (((h1 * 16 + h2) * 16 + h3) * 16 + h4) as u32;
                if !(0xD800 <= v && v < 0xE000) {
                    match char::from_u32(v) {
                        Some(e) => {
                            proof {
                                assert(e == char_of(v));
                            }
                            match p_jstr_body(chars, i + 6) {
                                Some((rest, j)) => {
                                    let mut out = String::new();
                                    push_char(&mut out, e);
                                    let res = out.concat(rest.as_str());
                                    proof {
                                        assert(res@ =~= seq![char_of(v)] + rest@);
                                    }
                                    return Some((res, j));
                                },
                                None => {
                                    return None;
                                },
                            }
                        },
                        None => {
                            proof {
                                assert(false);
                            }
                            return None;
                        },
                    }
                }
            }
        }
        return None;
    }
    if (c as u32) < 32 {
        return None;
    }
    match p_jstr_body(chars, i + 1) {
        Some((rest, j)) => {
            let mut out = String::new();
            push_char(&mut out, c);
            let res = out.concat(rest.as_str());
            proof {
                assert(res@ =~= seq![chars@[i as int]] + rest@);
            }
            Some((res, j))
        },
        None => None,
    }
}

/// Reads a quoted JSON string at `i`.
fn p_jstr(chars: &Vec<char>, i: usize) -> (r: Option<(String, usize)>)
    requires
        i <= chars@.len(),
    ensures
        match r {
            Some(v) => sp_jstr(chars@, i as int) == Some((v.0@, v.1 as int)) && i < v.1
                <= chars@.len(),
            None => sp_jstr(chars@, i as int) is None,
        },
{
    if i < chars.len() && chars[i] == '"' {
        p_jstr_body(chars, i + 1)
    } else {
        None
    }
}

/// Reads a maximal run of at most twenty digits and its value.
fn p_digits(chars: &Vec<char>, i: usize) -> (r: Option<(u128, usize)>)
    requires
        i <= chars@.len(),
    ensures
        match r {
            Some(v) => {
                &&& digits_end(chars@, i as int) == v.1 as int
                &&& i < v.1 <= chars@.len()
                &&& v.1 - i <= 20
                &&& v.0 as int == digits_value(chars@, i as int, v.1 as int)
            },
            None => digits_end(chars@, i as int) == i as int || digits_end(chars@, i as int) - i
                > 20,
        },
{
    let n = chars.len();
    let mut j: usize = i;
    while j < n && digv(chars[j]) >= 0
        invariant
            n == chars@.len(),
            i <= j <= n,
            digits_end(chars@, i as int) == digits_end(chars@, j as int),
            forall|x: int| i <= x < j ==> dig_val(#[trigger] chars@[x]) >= 0,
        decreases n - j,
    {
        j = j + 1;
    }
    proof {
        assert(digits_end(chars@, j as int) == j as int);
    }
    if j == i {
        return None;
    }
    if j - i > 20 {
        return None;
    }
    let mut acc: u128 = 0;
    let mut k: usize = i;
    proof {
        lemma_pow10_pos(0);
    }
    while k < j
        invariant
            i <= k <= j <= chars@.len(),
            j - i <= 20,
            forall|x: int| i <= x < j ==> dig_val(#[trigger] chars@[x]) >= 0,
            acc as int == digits_value(chars@, i as int, k as int),
        decreases j - k,
    {
        proof {
            lemma_digits_bound(chars@, i as int, k as int);
            lemma_pow10_mono(k - i, 20);
            reveal_with_fuel(pow10, 21);
            assert(pow10(20) == 100000000000000000000);
        }
        let d = digv(chars[k]);
        acc = acc * 10 + (d as u128);
        k = k + 1;
    }
    Some((acc, j))
}

/// Reads a canonical unsigned decimal at `i`.
fn p_u64(chars: &Vec<char>, i: usize) -> (r: Option<(u64, usize)>)
    requires
        i <= chars@.len(),
    ensures
        match r {
            Some(v) => sp_u64(chars@, i as int) == Some((v.0, v.1 as int)) && i < v.1
                <= chars@.len(),
            None => sp_u64(chars@, i as int) is None,
        },
{
    match p_digits(chars, i) {
        Some((v, j)) => {
            if chars[i] == '0' && j > i + 1 {
                None
            } else if v > 0xFFFFFFFFFFFFFFFFu128 {
                None
            } else {
                Some((v as u64, j))
            }
        },
        None => None,
    }
}

/// Reads a canonical signed decimal at `i`.
fn p_i64(chars: &Vec<char>, i: usize) -> (r: Option<(i64, usize)>)
    requires
        i <= chars@.len(),
    ensures
        match r {
            Some(v) => sp_i64(chars@, i as int) == Some((v.0, v.1 as int)) && i < v.1
                <= chars@.len(),
            None => sp_i64(chars@, i as int) is None,
        },
{
    if i < chars.len() && chars[i] == '-' {
        match p_digits(chars, i + 1) {
            Some((v, j)) => {
                if chars[i + 1] == '0' {
                    None
                } else if v > 0x8000000000000000u128 {
                    None
                } else {
                    let m = -(v as i128);
                    Some((m as i64, j))
                }
            },
            None => None,
        }
    } else {
        match p_u64(chars, i) {
            Some((v, j)) => if v > i64::MAX as u64 {
                None
            } else {
                Some((v as i64, j))
            },
            None => None,
        }
    }
}

/// Reads a JSON boolean at `i`.
fn p_bool(chars: &Vec<char>, i: usize) -> (r: Option<(bool, usize)>)
    requires
        i <= chars@.len(),
    ensures
        match r {
            Some(v) => sp_bool(chars@, i as int) == Some((v.0, v.1 as int)) && i <= v.1
                <= chars@.len(),
            None => sp_bool(chars@, i as int) is None,
        },
{
    match expect_lit(chars, i, "true") {
        Some(j) => Some((true, j)),
        None => match expect_lit(chars, i, "false") {
            Some(j) => Some((false, j)),
            None => None,
        },
    }
}

/// The character position of nibble `k` in the dashed identifier form.
fn nib_pos_exec(k: usize) -> (r: usize)
    requires
        k < 32,
    ensures
        r as int == nib_pos(k as int),
        r < 36,
{
    if k >= 20 {
        k + 4
    } else if k >= 16 {
        k + 3
    } else if k >= 12 {
        k + 2
    } else if k >= 8 {
        k + 1
    } else {
        k
    }
}

/// One payload field value as a frame carries it: a JSON scalar.
#[derive(Debug, Clone, PartialEq)]
pub enum Scalar {
    SStr(String),
    SNum(String),
    SBool(bool),
    SNull,
}

/// The mathematical shape of a scalar.
pub enum ScalarView {
    SStr(Seq<char>),
    SNum(Seq<char>),
    SBool(bool),
    SNull,
}

impl View for Scalar {
    type V = ScalarView;

    open spec fn view(&self) -> ScalarView {
        match self {
            Scalar::SStr(t) => ScalarView::SStr(t@),
            Scalar::SNum(t) => ScalarView::SNum(t@),
            Scalar::SBool(b) => ScalarView::SBool(*b),
            Scalar::SNull => ScalarView::SNull,
        }
    }
}

/// The payload of a frame: absent, JSON null, or an object whose fields
/// carry either a scalar or (skipped) composite data.
#[derive(Debug)]
pub enum FrameData {
    NoData,
    NullData,
    Fields(Vec<(String, Option<Scalar>)>),
}

/// The mathematical shape of a payload.
pub enum FrameDataView {
    NoData,
    NullData,
    Fields(Seq<(Seq<char>, Option<ScalarView>)>),
}

/// The shape of a field list.
pub open spec fn fields_view(v: Seq<(String, Option<Scalar>)>) -> Seq<
    (Seq<char>, Option<ScalarView>),
> {
    v.map_values(
        |p: (String, Option<Scalar>)|
            (p.0@, match p.1 {
                Some(sc) => Some(sc@),
                None => None,
            }),
    )
}

impl View for FrameData {
    type V = FrameDataView;

    open spec fn view(&self) -> FrameDataView {
        match self {
            FrameData::NoData => FrameDataView::NoData,
            FrameData::NullData => FrameDataView::NullData,
            FrameData::Fields(v) => FrameDataView::Fields(fields_view(v@)),
        }
    }
}

/// Whether `c` is insignificant JSON whitespace.
pub open spec fn is_ws_char(c: char) -> bool {
    c == ' ' || c == '\t' || c == '\n' || c == '\r'
}

/// The first index at or after `i` holding no whitespace.
pub open spec fn sp_ws(s: Seq<char>, i: int) -> int
    decreases s.len() - i,
{
    if 0 <= i < s.len() && is_ws_char(s[i]) {
        sp_ws(s, i + 1)
    } else {
        i
    }
}

/// The end of a JSON integer part at `i`: optional minus, then digits
/// without a leading zero.
pub open spec fn sp_int_end(s: Seq<char>, i: int) -> Option<int> {
    if !(0 <= i < s.len()) {
        None
    } else {
        let i1: int = if s[i] == '-' {
            i + 1
        } else {
            i
        };
        let j = digits_end(s, i1);
        if j <= i1 {
            None
        } else if i1 < s.len() && s[i1] == '0' && j > i1 + 1 {
            None
        } else {
            Some(j)
        }
    }
}

/// The end of an optional JSON fraction part at `j`.
pub open spec fn sp_frac_end(s: Seq<char>, j: int) -> Option<int> {
    if 0 <= j < s.len() && s[j] == '.' {
        let k = digits_end(s, j + 1);
        if k <= j + 1 {
            None
        } else {
            Some(k)
        }
    } else {
        Some(j)
    }
}

/// The end of an optional JSON exponent part at `j`.
pub open spec fn sp_exp_end(s: Seq<char>, j: int) -> Option<int> {
    if 0 <= j < s.len() && (s[j] == 'e' || s[j] == 'E') {
        let m: int = if j + 1 < s.len() && (s[j + 1] == '+' || s[j + 1] == '-') {
            j + 2
        } else {
            j + 1
        };
        let k = digits_end(s, m);
        if k <= m {
            None
        } else {
            Some(k)
        }
    } else {
        Some(j)
    }
}

/// A JSON number at `i`, kept as its raw text.
pub open spec fn sp_jnum(s: Seq<char>, i: int) -> Option<(Seq<char>, int)> {
    match sp_int_end(s, i) {
        None => None,
        Some(j) => match sp_frac_end(s, j) {
            None => None,
            Some(j2) => match sp_exp_end(s, j2) {
                None => None,
                Some(j3) => Some((s.subrange(i, j3), j3)),
            },
        },
    }
}

/// A JSON scalar at `i`: a string, number, boolean, or null.
pub open spec fn sp_scalar(s: Seq<char>, i: int) -> Option<(ScalarView, int)> {
    if !(0 <= i < s.len()) {
        None
    } else if s[i] == '"' {
        match sp_jstr_body(s, i + 1) {
            Some((t, j)) => Some((ScalarView::SStr(t), j)),
            None => None,
        }
    } else if s[i] == 't' || s[i] == 'f' {
        match sp_bool(s, i) {
            Some((b, j)) => Some((ScalarView::SBool(b), j)),
            None => None,
        }
    } else if s[i] == 'n' {
        match sp_expect(s, i, "null"@) {
            Some(j) => Some((ScalarView::SNull, j)),
            None => None,
        }
    } else if s[i] == '-' || dig_val(s[i]) >= 0 {
        match sp_jnum(s, i) {
            Some((t, j)) => Some((ScalarView::SNum(t), j)),
            None => None,
        }
    } else {
        None
    }
}

/// Skips one JSON value of any shape at `i`.
pub open spec fn sp_skip_value(s: Seq<char>, i: int, fuel: int) -> Option<int>
    decreases fuel,
{
    if fuel <= 0 {
        None
    } else if !(0 <= i < s.len()) {
        None
    } else if s[i] == '{' {
        let j = sp_ws(s, i + 1);
        if j < s.len() && s[j] == '}' {
            Some(j + 1)
        } else {
            sp_skip_members(s, j, fuel - 1)
        }
    } else if s[i] == '[' {
        let j = sp_ws(s, i + 1);
        if j < s.len() && s[j] == ']' {
            Some(j + 1)
        } else {
            sp_skip_elems(s, j, fuel - 1)
        }
    } else {
        match sp_scalar(s, i) {
            Some((v, j)) => Some(j),
            None => None,
        }
    }
}

/// Skips `key: value` members up to and past the closing brace.
pub open spec fn sp_skip_members(s: Seq<char>, i: int, fuel: int) -> Option<int>
    decreases fuel,
{
    if fuel <= 0 {
        None
    } else {
        match sp_jstr(s, i) {
            Some((key, j)) => {
                let j1 = sp_ws(s, j);
                if j1 < s.len() && s[j1] == ':' {
                    match sp_skip_value(s, sp_ws(s, j1 + 1), fuel - 1) {
                        Some(j3) => {
                            let j4 = sp_ws(s, j3);
                            if j4 < s.len() && s[j4] == ',' {
                                sp_skip_members(s, sp_ws(s, j4 + 1), fuel - 1)
                            } else if j4 < s.len() && s[j4] == '}' {
                                Some(j4 + 1)
                            } else {
                                None
                            }
                        },
                        None => None,
                    }
                } else {
                    None
                }
            },
            None => None,
        }
    }
}

/// Skips array elements up to and past the closing bracket.
pub open spec fn sp_skip_elems(s: Seq<char>, i: int, fuel: int) -> Option<int>
    decreases fuel,
{
    if fuel <= 0 {
        None
    } else {
        match sp_skip_value(s, i, fuel - 1) {
            Some(j) => {
                let j1 = sp_ws(s, j);
                if j1 < s.len() && s[j1] == ',' {
                    sp_skip_elems(s, sp_ws(s, j1 + 1), fuel - 1)
                } else if j1 < s.len() && s[j1] == ']' {
                    Some(j1 + 1)
                } else {
                    None
                }
            },
            None => None,
        }
    }
}

/// Reads payload members from the first key to past the closing brace:
/// scalar values are kept, composite values are skipped and recorded
/// without content.
pub open spec fn sp_data_members(s: Seq<char>, i: int, fuel: int) -> Option<
    (Seq<(Seq<char>, Option<ScalarView>)>, int),
>
    decreases fuel,
{
    if fuel <= 0 {
        None
    } else {
        match sp_jstr(s, i) {
            Some((key, j)) => {
                let j1 = sp_ws(s, j);
                if j1 < s.len() && s[j1] == ':' {
                    let j2 = sp_ws(s, j1 + 1);
                    let parsed: Option<(Option<ScalarView>, int)> = if 0 <= j2 < s.len() && (
                    s[j2] == '{' || s[j2] == '[') {
                        match sp_skip_value(s, j2, fuel - 1) {
                            Some(j3) => Some((None, j3)),
                            None => None,
                        }
                    } else {
                        match sp_scalar(s, j2) {
                            Some((v, j3)) => Some((Some(v), j3)),
                            None => None,
                        }
                    };
                    match parsed {
                        Some((v, j3)) => {
                            let j4 = sp_ws(s, j3);
                            if j4 < s.len() && s[j4] == ',' {
                                match sp_data_members(s, sp_ws(s, j4 + 1), fuel - 1) {
                                    Some((rest, j5)) => Some((seq![(key, v)] + rest, j5)),
                                    None => None,
                                }
                            } else if j4 < s.len() && s[j4] == '}' {
                                Some((seq![(key, v)], j4 + 1))
                            } else {
                                None
                            }
                        },
                        None => None,
                    }
                } else {
                    None
                }
            },
            None => None,
        }
    }
}

/// Reads the value of a `data` member: an object of fields or null.
pub open spec fn sp_data_value(s: Seq<char>, i: int, fuel: int) -> Option<(FrameDataView, int)> {
    if 0 <= i < s.len() && s[i] == '{' {
        let j = sp_ws(s, i + 1);
        if j < s.len() && s[j] == '}' {
            Some((FrameDataView::Fields(Seq::empty()), j + 1))
        } else {
            match sp_data_members(s, j, fuel) {
                Some((fs, j2)) => Some((FrameDataView::Fields(fs), j2)),
                None => None,
            }
        }
    } else {
        match sp_expect(s, i, "null"@) {
            Some(j) => Some((FrameDataView::NullData, j)),
            None => None,
        }
    }
}

/// Reads the top-level members from the first key: only `type` and
/// `data` are admitted, in either order, each at most once.
pub open spec fn sp_top_members(
    s: Seq<char>,
    i: int,
    tag: Option<Seq<char>>,
    data: Option<FrameDataView>,
    fuel: int,
) -> Option<(Seq<char>, FrameDataView, int)>
    decreases fuel,
{
    if fuel <= 0 {
        None
    } else {
        match sp_jstr(s, i) {
            Some((key, j)) => {
                let j1 = sp_ws(s, j);
                if j1 < s.len() && s[j1] == ':' {
                    let j2 = sp_ws(s, j1 + 1);
                    if key == "type"@ {
                        if tag is Some {
                            None
                        } else {
                            match sp_jstr(s, j2) {
                                Some((t, j3)) => sp_top_tail(s, j3, Some(t), data, fuel - 1),
                                None => None,
                            }
                        }
                    } else if key == "data"@ {
                        if data is Some {
                            None
                        } else {
                            match sp_data_value(s, j2, fuel - 1) {
                                Some((d, j3)) => sp_top_tail(s, j3, tag, Some(d), fuel - 1),
                                None => None,
                            }
                        }
                    } else {
                        None
                    }
                } else {
                    None
                }
            },
            None => None,
        }
    }
}

/// After one top-level member: a comma continues, a closing brace ends
/// the frame, which must by then have its tag.
pub open spec fn sp_top_tail(
    s: Seq<char>,
    i: int,
    tag: Option<Seq<char>>,
    data: Option<FrameDataView>,
    fuel: int,
) -> Option<(Seq<char>, FrameDataView, int)>
    decreases fuel,
{
    if fuel <= 0 {
        None
    } else {
        let j = sp_ws(s, i);
        if j < s.len() && s[j] == ',' {
            sp_top_members(s, sp_ws(s, j + 1), tag, data, fuel - 1)
        } else if j < s.len() && s[j] == '}' {
            match tag {
                Some(t) => Some(
                    (t, match data {
                        Some(d) => d,
                        None => FrameDataView::NoData,
                    }, j + 1),
                ),
                None => None,
            }
        } else {
            None
        }
    }
}

/// Recursion budget for one frame; parsing consumes input, so this is
/// never exhausted on a frame the grammar admits.
pub open spec fn frame_fuel(s: Seq<char>) -> int {
    2 * (s.len() as int) + 4
}

/// One whole frame: whitespace, an object with `type` and optional
/// `data`, whitespace, end of input.
pub open spec fn sp_frame(s: Seq<char>) -> Option<(Seq<char>, FrameDataView)> {
    let i = sp_ws(s, 0);
    if 0 <= i < s.len() && s[i] == '{' {
        match sp_top_members(s, sp_ws(s, i + 1), None, None, frame_fuel(s)) {
            Some((t, d, k)) => if sp_ws(s, k) == s.len() {
                Some((t, d))
            } else {
                None
            },
            None => None,
        }
    } else {
        None
    }
}

/// How often `name` occurs among the fields.
pub open spec fn fcount(fs: Seq<(Seq<char>, Option<ScalarView>)>, name: Seq<char>) -> nat
    decreases fs.len(),
{
    if fs.len() == 0 {
        0
    } else {
        (if fs[0].0 == name {
            1nat
        } else {
            0nat
        }) + fcount(fs.skip(1), name)
    }
}

/// The first value listed under `name`, if any.
pub open spec fn ffirst(fs: Seq<(Seq<char>, Option<ScalarView>)>, name: Seq<char>) -> Option<
    Option<ScalarView>,
>
    decreases fs.len(),
{
    if fs.len() == 0 {
        None
    } else if fs[0].0 == name {
        Some(fs[0].1)
    } else {
        ffirst(fs.skip(1), name)
    }
}

/// The string field `name`, present exactly once.
pub open spec fn fstr(fs: Seq<(Seq<char>, Option<ScalarView>)>, name: Seq<char>) -> Option<
    Seq<char>,
> {
    if fcount(fs, name) == 1 {
        match ffirst(fs, name) {
            Some(Some(ScalarView::SStr(t))) => Some(t),
            _ => None,
        }
    } else {
        None
    }
}

/// The boolean field `name`, present exactly once.
pub open spec fn fbool(fs: Seq<(Seq<char>, Option<ScalarView>)>, name: Seq<char>) -> Option<
    bool,
> {
    if fcount(fs, name) == 1 {
        match ffirst(fs, name) {
            Some(Some(ScalarView::SBool(b))) => Some(b),
            _ => None,
        }
    } else {
        None
    }
}

/// A whole number text as an unsigned counter.
pub open spec fn sp_u64_text(t: Seq<char>) -> Option<u64> {
    match sp_u64(t, 0) {
        Some((v, j)) => if j == t.len() {
            Some(v)
        } else {
            None
        },
        None => None,
    }
}

/// A whole number text as a signed counter.
pub open spec fn sp_i64_text(t: Seq<char>) -> Option<i64> {
    match sp_i64(t, 0) {
        Some((v, j)) => if j == t.len() {
            Some(v)
        } else {
            None
        },
        None => None,
    }
}

/// The unsigned number field `name`, present exactly once and integral.
pub open spec fn fu64(fs: Seq<(Seq<char>, Option<ScalarView>)>, name: Seq<char>) -> Option<
    u64,
> {
    if fcount(fs, name) == 1 {
        match ffirst(fs, name) {
            Some(Some(ScalarView::SNum(t))) => sp_u64_text(t),
            _ => None,
        }
    } else {
        None
    }
}

/// The signed number field `name`, present exactly once and integral.
pub open spec fn fi64(fs: Seq<(Seq<char>, Option<ScalarView>)>, name: Seq<char>) -> Option<
    i64,
> {
    if fcount(fs, name) == 1 {
        match ffirst(fs, name) {
            Some(Some(ScalarView::SNum(t))) => sp_i64_text(t),
            _ => None,
        }
    } else {
        None
    }
}

/// An identifier text: the dashed hexadecimal form, either letter case.
pub open spec fn sp_uuid_text(t: Seq<char>) -> Option<Id> {
    if t.len() == 36 && t[8] == '-' && t[13] == '-' && t[18] == '-' && t[23] == '-'
        && nibbles_ok(t, 0, 32) {
        Some(nibbles_value(t, 0, 32) as u128)
    } else {
        None
    }
}

/// The identifier field `name`, present exactly once.
pub open spec fn fid(fs: Seq<(Seq<char>, Option<ScalarView>)>, name: Seq<char>) -> Option<Id> {
    if fcount(fs, name) == 1 {
        match ffirst(fs, name) {
            Some(Some(ScalarView::SStr(t))) => sp_uuid_text(t),
            _ => None,
        }
    } else {
        None
    }
}

/// A severity tag text.
pub open spec fn sp_level_text(t: Seq<char>) -> Option<NotificationLevel> {
    if t == "Info"@ {
        Some(NotificationLevel::Info)
    } else if t == "Warning"@ {
        Some(NotificationLevel::Warning)
    } else if t == "Error"@ {
        Some(NotificationLevel::Error)
    } else if t == "Success"@ {
        Some(NotificationLevel::Success)
    } else {
        None
    }
}

/// The severity field `name`, present exactly once.
pub open spec fn flevel(fs: Seq<(Seq<char>, Option<ScalarView>)>, name: Seq<char>) -> Option<
    NotificationLevel,
> {
    if fcount(fs, name) == 1 {
        match ffirst(fs, name) {
            Some(Some(ScalarView::SStr(t))) => sp_level_text(t),
            _ => None,
        }
    } else {
        None
    }
}

/// The message a parsed frame stands for: the tag picks the variant, its
/// expected fields must be present exactly once with the right shape, and
/// unknown payload fields are ignored.
pub open spec fn sp_msg_of(tag: Seq<char>, d: FrameDataView) -> Option<MessageView> {
    if tag == "Ping"@ {
        match d {
            FrameDataView::Fields(_) => None,
            _ => Some(MessageView::Ping),
        }
    } else if tag == "Pong"@ {
        match d {
            FrameDataView::Fields(_) => None,
            _ => Some(MessageView::Pong),
        }
    } else {
        match d {
            FrameDataView::Fields(fs) => sp_msg_fields(tag, fs),
            _ => None,
        }
    }
}

/// The payload-carrying variants.
pub open spec fn sp_msg_fields(
    tag: Seq<char>,
    fs: Seq<(Seq<char>, Option<ScalarView>)>,
) -> Option<MessageView> {
    if tag == "Authenticate"@ {
        match fstr(fs, "token"@) {
            Some(token) => Some(MessageView::Authenticate { token }),
            None => None,
        }
    } else if tag == "AuthenticationResult"@ {
        match (fbool(fs, "success"@), fstr(fs, "message"@)) {
            (Some(success), Some(message)) => Some(
                MessageView::AuthenticationResult { success, message },
            ),
            _ => None,
        }
    } else if tag == "FileUploaded"@ {
        match (fid(fs, "file_id"@), fstr(fs, "filename"@), fi64(fs, "size"@)) {
            (Some(file_id), Some(filename), Some(size)) => Some(
                MessageView::FileUploaded { file_id, filename, size },
            ),
            _ => None,
        }
    } else if tag == "FileDeleted"@ {
        match (fid(fs, "file_id"@), fstr(fs, "filename"@)) {
            (Some(file_id), Some(filename)) => Some(
                MessageView::FileDeleted { file_id, filename },
            ),
            _ => None,
        }
    } else if tag == "FileShared"@ {
        match (fid(fs, "share_id"@), fid(fs, "file_id"@), fstr(fs, "share_token"@)) {
            (Some(share_id), Some(file_id), Some(share_token)) => Some(
                MessageView::FileShared { share_id, file_id, share_token },
            ),
            _ => None,
        }
    } else if tag == "ShareAccessed"@ {
        match (fid(fs, "share_id"@), fid(fs, "file_id"@), fstr(fs, "filename"@)) {
            (Some(share_id), Some(file_id), Some(filename)) => Some(
                MessageView::ShareAccessed { share_id, file_id, filename },
            ),
            _ => None,
        }
    } else if tag == "ShareExpired"@ {
        match (fid(fs, "share_id"@), fid(fs, "file_id"@)) {
            (Some(share_id), Some(file_id)) => Some(
                MessageView::ShareExpired { share_id, file_id },
            ),
            _ => None,
        }
    } else if tag == "SystemNotification"@ {
        match (fstr(fs, "message"@), flevel(fs, "level"@)) {
            (Some(message), Some(level)) => Some(
                MessageView::SystemNotification { message, level },
            ),
            _ => None,
        }
    } else if tag == "UserOnline"@ {
        match (fid(fs, "user_id"@), fstr(fs, "username"@)) {
            (Some(user_id), Some(username)) => Some(
                MessageView::UserOnline { user_id, username },
            ),
            _ => None,
        }
    } else if tag == "UserOffline"@ {
        match (fid(fs, "user_id"@), fstr(fs, "username"@)) {
            (Some(user_id), Some(username)) => Some(
                MessageView::UserOffline { user_id, username },
            ),
            _ => None,
        }
    } else if tag == "UploadProgress"@ {
        match (fid(fs, "file_id"@), fu64(fs, "progress"@), fu64(fs, "bytes_uploaded"@), fu64(
            fs,
            "total_bytes"@,
        )) {
            (Some(file_id), Some(p), Some(bytes_uploaded), Some(total_bytes)) => if p
                <= u32::MAX as u64 {
                Some(
                    MessageView::UploadProgress {
                        file_id,
                        progress: p as u32,
                        bytes_uploaded,
                        total_bytes,
                    },
                )
            } else {
                None
            },
            _ => None,
        }
    } else if tag == "DownloadStarted"@ {
        match (fid(fs, "file_id"@), fstr(fs, "filename"@)) {
            (Some(file_id), Some(filename)) => Some(
                MessageView::DownloadStarted { file_id, filename },
            ),
            _ => None,
        }
    } else if tag == "Error"@ {
        match (fstr(fs, "code"@), fstr(fs, "message"@)) {
            (Some(code), Some(message)) => Some(MessageView::Error { code, message }),
            _ => None,
        }
    } else {
        None
    }
}

/// What one inbound text decodes to: the frame grammar, then the message
/// the tag and fields stand for.
pub open spec fn sp_message(s: Seq<char>) -> Option<MessageView> {
    match sp_frame(s) {
        Some((tag, d)) => sp_msg_of(tag, d),
        None => None,
    }
}

/// Whether `c` is insignificant JSON whitespace.
fn is_ws_exec(c: char) -> (r: bool)
    ensures
        r == is_ws_char(c),
{
    c == ' ' || c == '\t' || c == '\n' || c == '\r'
}

/// The first index at or after `i` holding no whitespace.
fn p_ws(chars: &Vec<char>, i: usize) -> (r: usize)
    requires
        i <= chars@.len(),
    ensures
        r as int == sp_ws(chars@, i as int),
        i <= r <= chars@.len(),
{
    let mut j = i;
    while j < chars.len() && is_ws_exec(chars[j])
        invariant
            i <= j <= chars@.len(),
            sp_ws(chars@, i as int) == sp_ws(chars@, j as int),
        decreases chars@.len() - j,
    {
        j = j + 1;
    }
    proof {
        assert(sp_ws(chars@, j as int) == j as int);
    }
    j
}

/// The end of the digit run starting at `i`.
fn p_digits_end(chars: &Vec<char>, i: usize) -> (r: usize)
    requires
        i <= chars@.len(),
    ensures
        r as int == digits_end(chars@, i as int),
        i <= r <= chars@.len(),
{
    let mut j = i;
    while j < chars.len() && digv(chars[j]) >= 0
        invariant
            i <= j <= chars@.len(),
            digits_end(chars@, i as int) == digits_end(chars@, j as int),
        decreases chars@.len() - j,
    {
        j = j + 1;
    }
    proof {
        assert(digits_end(chars@, j as int) == j as int);
    }
    j
}

/// Reads a JSON number at `i`, keeping its raw text.
fn p_jnum(chars: &Vec<char>, i: usize) -> (r: Option<(String, usize)>)
    requires
        i <= chars@.len(),
    ensures
        match r {
            Some(v) => sp_jnum(chars@, i as int) == Some((v.0@, v.1 as int)) && i < v.1
                <= chars@.len(),
            None => sp_jnum(chars@, i as int) is None,
        },
{
    if i >= chars.len() {
        return None;
    }
    let i1 = if chars[i] == '-' {
        i + 1
    } else {
        i
    };
    let j = p_digits_end(chars, i1);
    if j <= i1 {
        return None;
    }
    if chars[i1] == '0' && j > i1 + 1 {
        return None;
    }
    let j2 = if j < chars.len() && chars[j] == '.' {
        let k = p_digits_end(chars, j + 1);
        if k <= j + 1 {
            return None;
        }
        k
    } else {
        j
    };
    let j3 = if j2 < chars.len() && (chars[j2] == 'e' || chars[j2] == 'E') {
        let m = if j2 + 1 < chars.len() && (chars[j2 + 1] == '+' || chars[j2 + 1] == '-') {
            j2 + 2
        } else {
            j2 + 1
        };
        let k = p_digits_end(chars, m);
        if k <= m {
            return None;
        }
        k
    } else {
        j2
    };
    let mut raw = String::new();
    let mut k = i;
    while k < j3
        invariant
            i <= k <= j3 <= chars@.len(),
            raw@ == chars@.subrange(i as int, k as int),
        decreases j3 - k,
    {
        proof {
            assert(chars@.subrange(i as int, k + 1) =~= chars@.subrange(i as int, k as int).push(
                chars@[k as int],
            ));
        }
        push_char(&mut raw, chars[k]);
        k = k + 1;
    }
    Some((raw, j3))
}

/// Reads a JSON scalar at `i`.
fn p_scalar(chars: &Vec<char>, i: usize) -> (r: Option<(Scalar, usize)>)
    requires
        i <= chars@.len(),
    ensures
        match r {
            Some(v) => sp_scalar(chars@, i as int) == Some((v.0@, v.1 as int)) && i <= v.1
                <= chars@.len(),
            None => sp_scalar(chars@, i as int) is None,
        },
{
    if i >= chars.len() {
        return None;
    }
    let c = chars[i];
    if c == '"' {
        match p_jstr_body(chars, i + 1) {
            Some((t, j)) => Some((Scalar::SStr(t), j)),
            None => None,
        }
    } else if c == 't' || c == 'f' {
        match p_bool(chars, i) {
            Some((b, j)) => Some((Scalar::SBool(b), j)),
            None => None,
        }
    } else if c == 'n' {
        match expect_lit(chars, i, "null") {
            Some(j) => Some((Scalar::SNull, j)),
            None => None,
        }
    } else if c == '-' || digv(c) >= 0 {
        match p_jnum(chars, i) {
            Some((t, j)) => Some((Scalar::SNum(t), j)),
            None => None,
        }
    } else {
        None
    }
}

/// Skips one JSON value of any shape at `i`.
fn p_skip_value(chars: &Vec<char>, i: usize, fuel: u128) -> (r: Option<usize>)
    requires
        i <= chars@.len(),
    ensures
        match r {
            Some(j) => sp_skip_value(chars@, i as int, fuel as int) == Some(j as int) && i <= j
                <= chars@.len(),
            None => sp_skip_value(chars@, i as int, fuel as int) is None,
        },
    decreases fuel,
{
    if fuel == 0 {
        return None;
    }
    if i >= chars.len() {
        return None;
    }
    let c = chars[i];
    if c == '{' {
        let j = p_ws(chars, i + 1);
        if j < chars.len() && chars[j] == '}' {
            Some(j + 1)
        } else {
            p_skip_members(chars, j, fuel - 1)
        }
    } else if c == '[' {
        let j = p_ws(chars, i + 1);
        if j < chars.len() && chars[j] == ']' {
            Some(j + 1)
        } else {
            p_skip_elems(chars, j, fuel - 1)
        }
    } else {
        match p_scalar(chars, i) {
            Some((_, j)) => Some(j),
            None => None,
        }
    }
}

/// Skips `key: value` members up to and past the closing brace.
fn p_skip_members(chars: &Vec<char>, i: usize, fuel: u128) -> (r: Option<usize>)
    requires
        i <= chars@.len(),
    ensures
        match r {
            Some(j) => sp_skip_members(chars@, i as int, fuel as int) == Some(j as int) && i <= j
                <= chars@.len(),
            None => sp_skip_members(chars@, i as int, fuel as int) is None,
        },
    decreases fuel,
{
    if fuel == 0 {
        return None;
    }
    match p_jstr(chars, i) {
        Some((_, j)) => {
            let j1 = p_ws(chars, j);
            if j1 < chars.len() && chars[j1] == ':' {
                let j2 = p_ws(chars, j1 + 1);
                match p_skip_value(chars, j2, fuel - 1) {
                    Some(j3) => {
                        let j4 = p_ws(chars, j3);
                        if j4 < chars.len() && chars[j4] == ',' {
                            let j5 = p_ws(chars, j4 + 1);
                            p_skip_members(chars, j5, fuel - 1)
                        } else if j4 < chars.len() && chars[j4] == '}' {
                            Some(j4 + 1)
                        } else {
                            None
                        }
                    },
                    None => None,
                }
            } else {
                None
            }
        },
        None => None,
    }
}

/// Skips array elements up to and past the closing bracket.
fn p_skip_elems(chars: &Vec<char>, i: usize, fuel: u128) -> (r: Option<usize>)
    requires
        i <= chars@.len(),
    ensures
        match r {
            Some(j) => sp_skip_elems(chars@, i as int, fuel as int) == Some(j as int) && i <= j
                <= chars@.len(),
            None => sp_skip_elems(chars@, i as int, fuel as int) is None,
        },
    decreases fuel,
{
    if fuel == 0 {
        return None;
    }
    match p_skip_value(chars, i, fuel - 1) {
        Some(j) => {
            let j1 = p_ws(chars, j);
            if j1 < chars.len() && chars[j1] == ',' {
                let j2 = p_ws(chars, j1 + 1);
                p_skip_elems(chars, j2, fuel - 1)
            } else if j1 < chars.len() && chars[j1] == ']' {
                Some(j1 + 1)
            } else {
                None
            }
        },
        None => None,
    }
}

/// Reads payload members from the first key to past the closing brace.
fn p_data_members(chars: &Vec<char>, i: usize, fuel: u128) -> (r: Option<
    (Vec<(String, Option<Scalar>)>, usize),
>)
    requires
        i <= chars@.len(),
    ensures
        match r {
            Some(v) => sp_data_members(chars@, i as int, fuel as int) == Some(
                (fields_view(v.0@), v.1 as int),
            ) && i <= v.1 <= chars@.len(),
            None => sp_data_members(chars@, i as int, fuel as int) is None,
        },
    decreases fuel,
{
    if fuel == 0 {
        return None;
    }
    match p_jstr(chars, i) {
        Some((key, j)) => {
            let j1 = p_ws(chars, j);
            if j1 < chars.len() && chars[j1] == ':' {
                let j2 = p_ws(chars, j1 + 1);
                let parsed: Option<(Option<Scalar>, usize)> = if j2 < chars.len() && (chars[j2]
                    == '{' || chars[j2] == '[') {
                    match p_skip_value(chars, j2, fuel - 1) {
                        Some(j3) => Some((None, j3)),
                        None => None,
                    }
                } else {
                    match p_scalar(chars, j2) {
                        Some((v, j3)) => Some((Some(v), j3)),
                        None => None,
                    }
                };
                match parsed {
                    Some((v, j3)) => {
                        let ghost vv: Option<ScalarView> = match &v {
                            Some(sc) => Some(sc@),
                            None => None,
                        };
                        let j4 = p_ws(chars, j3);
                        if j4 < chars.len() && chars[j4] == ',' {
                            let j5 = p_ws(chars, j4 + 1);
                            match p_data_members(chars, j5, fuel - 1) {
                                Some((mut rest, j6)) => {
                                    let ghost rest_view = fields_view(rest@);
                                    rest.insert(0, (key, v));
                                    proof {
                                        assert(fields_view(rest@) =~= seq![
                                            (rest@[0].0@, vv)
                                        ] + rest_view);
                                    }
                                    Some((rest, j6))
                                },
                                None => None,
                            }
                        } else if j4 < chars.len() && chars[j4] == '}' {
                            let mut out: Vec<(String, Option<Scalar>)> = Vec::new();
                            out.push((key, v));
                            proof {
                                assert(fields_view(out@) =~= seq![(out@[0].0@, vv)]);
                            }
                            Some((out, j4 + 1))
                        } else {
                            None
                        }
                    },
                    None => None,
                }
            } else {
                None
            }
        },
        None => None,
    }
}

/// Reads the value of a `data` member: an object of fields or null.
fn p_data_value(chars: &Vec<char>, i: usize, fuel: u128) -> (r: Option<(FrameData, usize)>)
    requires
        i <= chars@.len(),
    ensures
        match r {
            Some(v) => sp_data_value(chars@, i as int, fuel as int) == Some(
                (v.0@, v.1 as int),
            ) && i <= v.1 <= chars@.len(),
            None => sp_data_value(chars@, i as int, fuel as int) is None,
        },
{
    if i < chars.len() && chars[i] == '{' {
        let j = p_ws(chars, i + 1);
        if j < chars.len() && chars[j] == '}' {
            let out: Vec<(String, Option<Scalar>)> = Vec::new();
            proof {
                assert(fields_view(out@) =~= Seq::<(Seq<char>, Option<ScalarView>)>::empty());
            }
            Some((FrameData::Fields(out), j + 1))
        } else {
            match p_data_members(chars, j, fuel) {
                Some((fs, j2)) => Some((FrameData::Fields(fs), j2)),
                None => None,
            }
        }
    } else {
        match expect_lit(chars, i, "null") {
            Some(j) => Some((FrameData::NullData, j)),
            None => None,
        }
    }
}

/// Reads the top-level members from the first key.
fn p_top_members(
    chars: &Vec<char>,
    i: usize,
    tag: Option<String>,
    data: Option<FrameData>,
    fuel: u128,
) -> (r: Option<(String, FrameData, usize)>)
    requires
        i <= chars@.len(),
    ensures
        match r {
            Some(v) => sp_top_members(
                chars@,
                i as int,
                match tag {
                    Some(t) => Some(t@),
                    None => None,
                },
                match data {
                    Some(d) => Some(d@),
                    None => None,
                },
                fuel as int,
            ) == Some((v.0@, v.1@, v.2 as int)) && v.2 <= chars@.len(),
            None => sp_top_members(
                chars@,
                i as int,
                match tag {
                    Some(t) => Some(t@),
                    None => None,
                },
                match data {
                    Some(d) => Some(d@),
                    None => None,
                },
                fuel as int,
            ) is None,
        },
    decreases fuel,
{
    if fuel == 0 {
        return None;
    }
    match p_jstr(chars, i) {
        Some((key, j)) => {
            let j1 = p_ws(chars, j);
            if j1 < chars.len() && chars[j1] == ':' {
                let j2 = p_ws(chars, j1 + 1);
                if str_eq(key.as_str(), "type") {
                    match tag {
                        Some(_) => None,
                        None => {
                            match p_jstr(chars, j2) {
                                Some((t, j3)) => p_top_tail(chars, j3, Some(t), data, fuel - 1),
                                None => None,
                            }
                        },
                    }
                } else if str_eq(key.as_str(), "data") {
                    match data {
                        Some(_) => None,
                        None => {
                            match p_data_value(chars, j2, fuel - 1) {
                                Some((d, j3)) => p_top_tail(chars, j3, tag, Some(d), fuel - 1),
                                None => None,
                            }
                        },
                    }
                } else {
                    None
                }
            } else {
                None
            }
        },
        None => None,
    }
}

/// After one top-level member: a comma continues, a closing brace ends
/// the frame.
fn p_top_tail(
    chars: &Vec<char>,
    i: usize,
    tag: Option<String>,
    data: Option<FrameData>,
    fuel: u128,
) -> (r: Option<(String, FrameData, usize)>)
    requires
        i <= chars@.len(),
    ensures
        match r {
            Some(v) => sp_top_tail(
                chars@,
                i as int,
                match tag {
                    Some(t) => Some(t@),
                    None => None,
                },
                match data {
                    Some(d) => Some(d@),
                    None => None,
                },
                fuel as int,
            ) == Some((v.0@, v.1@, v.2 as int)) && v.2 <= chars@.len(),
            None => sp_top_tail(
                chars@,
                i as int,
                match tag {
                    Some(t) => Some(t@),
                    None => None,
                },
                match data {
                    Some(d) => Some(d@),
                    None => None,
                },
                fuel as int,
            ) is None,
        },
    decreases fuel,
{
    if fuel == 0 {
        return None;
    }
    let j = p_ws(chars, i);
    if j < chars.len() && chars[j] == ',' {
        let j2 = p_ws(chars, j + 1);
        p_top_members(chars, j2, tag, data, fuel - 1)
    } else if j < chars.len() && chars[j] == '}' {
        match tag {
            Some(t) => {
                match data {
                    Some(d) => Some((t, d, j + 1)),
                    None => Some((t, FrameData::NoData, j + 1)),
                }
            },
            None => None,
        }
    } else {
        None
    }
}

/// Reads one whole frame: the tag and the payload.
fn p_frame(chars: &Vec<char>) -> (r: Option<(String, FrameData)>)
    ensures
        match r {
            Some(v) => sp_frame(chars@) == Some((v.0@, v.1@)),
            None => sp_frame(chars@) is None,
        },
{
    let i = p_ws(chars, 0);
    if i < chars.len() && chars[i] == '{' {
        let j = p_ws(chars, i + 1);
        let fuel: u128 = 2 * (chars.len() as u128) + 4;
        match p_top_members(chars, j, None, None, fuel) {
            Some((t, d, k)) => {
                let e = p_ws(chars, k);
                if e == chars.len() {
                    Some((t, d))
                } else {
                    None
                }
            },
            None => None,
        }
    } else {
        None
    }
}

/// Clones a scalar; the copy equals the original.
fn clone_scalar(sc: &Scalar) -> (r: Scalar)
    ensures
        r == sc,
{
    match sc {
        Scalar::SStr(t) => Scalar::SStr(t.clone()),
        Scalar::SNum(t) => Scalar::SNum(t.clone()),
        Scalar::SBool(b) => Scalar::SBool(*b),
        Scalar::SNull => Scalar::SNull,
    }
}

/// How often `name` occurs among the fields, from position `i` on.
fn e_fcount(fs: &Vec<(String, Option<Scalar>)>, name: &str, i: usize) -> (r: usize)
    requires
        i <= fs@.len(),
    ensures
        r as nat == fcount(fields_view(fs@).skip(i as int), name@),
        r <= fs@.len() - i,
    decreases fs@.len() - i,
{
    if i == fs.len() {
        proof {
            assert(fields_view(fs@).skip(i as int) =~= Seq::<
                (Seq<char>, Option<ScalarView>),
            >::empty());
        }
        0
    } else {
        let hit = str_eq(fs[i].0.as_str(), name);
        let rest = e_fcount(fs, name, i + 1);
        proof {
            let fv = fields_view(fs@);
            assert(fv.skip(i as int)[0] == fv[i as int]);
            assert(fv.skip(i as int).skip(1) =~= fv.skip(i + 1));
        }
        if hit {
            rest + 1
        } else {
            rest
        }
    }
}

/// The first value listed under `name`, from position `i` on.
fn e_ffirst(fs: &Vec<(String, Option<Scalar>)>, name: &str, i: usize) -> (r: Option<
    Option<Scalar>,
>)
    requires
        i <= fs@.len(),
    ensures
        match r {
            Some(v) => ffirst(fields_view(fs@).skip(i as int), name@) == Some(
                match v {
                    Some(sc) => Some(sc@),
                    None => None,
                },
            ),
            None => ffirst(fields_view(fs@).skip(i as int), name@) is None,
        },
    decreases fs@.len() - i,
{
    if i == fs.len() {
        proof {
            assert(fields_view(fs@).skip(i as int) =~= Seq::<
                (Seq<char>, Option<ScalarView>),
            >::empty());
        }
        None
    } else {
        proof {
            let fv = fields_view(fs@);
            assert(fv.skip(i as int)[0] == fv[i as int]);
            assert(fv.skip(i as int).skip(1) =~= fv.skip(i + 1));
        }
        if str_eq(fs[i].0.as_str(), name) {
            match &fs[i].1 {
                Some(sc) => Some(Some(clone_scalar(sc))),
                None => Some(None),
            }
        } else {
            e_ffirst(fs, name, i + 1)
        }
    }
}

/// The string field `name`, present exactly once.
fn e_fstr(fs: &Vec<(String, Option<Scalar>)>, name: &str) -> (r: Option<String>)
    ensures
        match r {
            Some(t) => fstr(fields_view(fs@), name@) == Some(t@),
            None => fstr(fields_view(fs@), name@) is None,
        },
{
    proof {
        assert(fields_view(fs@).skip(0) =~= fields_view(fs@));
    }
    if e_fcount(fs, name, 0) != 1 {
        return None;
    }
    match e_ffirst(fs, name, 0) {
        Some(Some(Scalar::SStr(t))) => Some(t),
        _ => None,
    }
}

/// The boolean field `name`, present exactly once.
fn e_fbool(fs: &Vec<(String, Option<Scalar>)>, name: &str) -> (r: Option<bool>)
    ensures
        match r {
            Some(b) => fbool(fields_view(fs@), name@) == Some(b),
            None => fbool(fields_view(fs@), name@) is None,
        },
{
    proof {
        assert(fields_view(fs@).skip(0) =~= fields_view(fs@));
    }
    if e_fcount(fs, name, 0) != 1 {
        return None;
    }
    match e_ffirst(fs, name, 0) {
        Some(Some(Scalar::SBool(b))) => Some(b),
        _ => None,
    }
}

/// A whole number text as an unsigned counter.
fn e_u64_text(t: &String) -> (r: Option<u64>)
    ensures
        r == sp_u64_text(t@),
{
    let chars = str_chars(t.as_str());
    match p_u64(&chars, 0) {
        Some((v, j)) => if j == chars.len() {
            Some(v)
        } else {
            None
        },
        None => None,
    }
}

/// A whole number text as a signed counter.
fn e_i64_text(t: &String) -> (r: Option<i64>)
    ensures
        r == sp_i64_text(t@),
{
    let chars = str_chars(t.as_str());
    match p_i64(&chars, 0) {
        Some((v, j)) => if j == chars.len() {
            Some(v)
        } else {
            None
        },
        None => None,
    }
}

/// An identifier text in the dashed hexadecimal form, either case.
fn e_uuid_text(t: &String) -> (r: Option<u128>)
    ensures
        r == sp_uuid_text(t@),
{
    let chars = str_chars(t.as_str());
    if chars.len() != 36 {
        return None;
    }
    if !(chars[8] == '-' && chars[13] == '-' && chars[18] == '-' && chars[23] == '-') {
        return None;
    }
    let mut acc: u128 = 0;
    let mut k: usize = 0;
    while k < 32
        invariant
            chars@.len() == 36,
            chars@ == t@,
            0 <= k <= 32,
            nibbles_ok(chars@, 0, k as int),
            acc as int == nibbles_value(chars@, 0, k as int),
        decreases 32 - k,
    {
        let pos = nib_pos_exec(k);
        let h = hexv(chars[pos]);
        if h < 0 {
            proof {
                if nibbles_ok(chars@, 0, 32) {
                    lemma_nibbles_ok_prefix(chars@, 0, k as int, 32);
                }
            }
            return None;
        }
        proof {
            lemma_nibbles_bound(chars@, 0, k as int);
            lemma_pow16_mono(k as int, 31);
            reveal_with_fuel(pow16, 33);
            assert(pow16(31) == 0x10000000000000000000000000000000);
        }
        acc = acc * 16 + (h as u128);
        k = k + 1;
    }
    proof {
        lemma_nibbles_bound(chars@, 0, 32);
        lemma_pow16_32();
    }
    Some(acc)
}

/// The identifier field `name`, present exactly once.
fn e_fid(fs: &Vec<(String, Option<Scalar>)>, name: &str) -> (r: Option<u128>)
    ensures
        r == fid(fields_view(fs@), name@),
{
    proof {
        assert(fields_view(fs@).skip(0) =~= fields_view(fs@));
    }
    if e_fcount(fs, name, 0) != 1 {
        return None;
    }
    match e_ffirst(fs, name, 0) {
        Some(Some(Scalar::SStr(t))) => e_uuid_text(&t),
        _ => None,
    }
}

/// The unsigned number field `name`, present exactly once.
fn e_fu64(fs: &Vec<(String, Option<Scalar>)>, name: &str) -> (r: Option<u64>)
    ensures
        r == fu64(fields_view(fs@), name@),
{
    proof {
        assert(fields_view(fs@).skip(0) =~= fields_view(fs@));
    }
    if e_fcount(fs, name, 0) != 1 {
        return None;
    }
    match e_ffirst(fs, name, 0) {
        Some(Some(Scalar::SNum(t))) => e_u64_text(&t),
        _ => None,
    }
}

/// The signed number field `name`, present exactly once.
fn e_fi64(fs: &Vec<(String, Option<Scalar>)>, name: &str) -> (r: Option<i64>)
    ensures
        r == fi64(fields_view(fs@), name@),
{
    proof {
        assert(fields_view(fs@).skip(0) =~= fields_view(fs@));
    }
    if e_fcount(fs, name, 0) != 1 {
        return None;
    }
    match e_ffirst(fs, name, 0) {
        Some(Some(Scalar::SNum(t))) => e_i64_text(&t),
        _ => None,
    }
}

/// The severity field `name`, present exactly once.
fn e_flevel(fs: &Vec<(String, Option<Scalar>)>, name: &str) -> (r: Option<NotificationLevel>)
    ensures
        r == flevel(fields_view(fs@), name@),
{
    proof {
        assert(fields_view(fs@).skip(0) =~= fields_view(fs@));
    }
    if e_fcount(fs, name, 0) != 1 {
        return None;
    }
    match e_ffirst(fs, name, 0) {
        Some(Some(Scalar::SStr(t))) => {
            if str_eq(t.as_str(), "Info") {
                Some(NotificationLevel::Info)
            } else if str_eq(t.as_str(), "Warning") {
                Some(NotificationLevel::Warning)
            } else if str_eq(t.as_str(), "Error") {
                Some(NotificationLevel::Error)
            } else if str_eq(t.as_str(), "Success") {
                Some(NotificationLevel::Success)
            } else {
                None
            }
        },
        _ => None,
    }
}

/// The message the payload fields of a tagged frame stand for.
#[verifier::loop_isolation(false)]
#[verifier::rlimit(60)]
#[verifier::spinoff_prover]
fn e_msg_fields(tag: &String, fs: &Vec<(String, Option<Scalar>)>) -> (r: Option<
    WebSocketMessage,
>)
    ensures
        match r {
            Some(m) => sp_msg_fields(tag@, fields_view(fs@)) == Some(m@),
            None => sp_msg_fields(tag@, fields_view(fs@)) is None,
        },
{
    if str_eq(tag.as_str(), "Authenticate") {
        match e_fstr(fs, "token") {
            Some(token) => Some(WebSocketMessage::Authenticate { token }),
            None => None,
        }
    } else if str_eq(tag.as_str(), "AuthenticationResult") {
        match (e_fbool(fs, "success"), e_fstr(fs, "message")) {
            (Some(success), Some(message)) => Some(
                WebSocketMessage::AuthenticationResult { success, message },
            ),
            _ => None,
        }
    } else if str_eq(tag.as_str(), "FileUploaded") {
        match (e_fid(fs, "file_id"), e_fstr(fs, "filename"), e_fi64(fs, "size")) {
            (Some(file_id), Some(filename), Some(size)) => Some(
                WebSocketMessage::FileUploaded { file_id, filename, size },
            ),
            _ => None,
        }
    } else if str_eq(tag.as_str(), "FileDeleted") {
        match (e_fid(fs, "file_id"), e_fstr(fs, "filename")) {
            (Some(file_id), Some(filename)) => Some(
                WebSocketMessage::FileDeleted { file_id, filename },
            ),
            _ => None,
        }
    } else if str_eq(tag.as_str(), "FileShared") {
        match (e_fid(fs, "share_id"), e_fid(fs, "file_id"), e_fstr(fs, "share_token")) {
            (Some(share_id), Some(file_id), Some(share_token)) => Some(
                WebSocketMessage::FileShared { share_id, file_id, share_token },
            ),
            _ => None,
        }
    } else if str_eq(tag.as_str(), "ShareAccessed") {
        match (e_fid(fs, "share_id"), e_fid(fs, "file_id"), e_fstr(fs, "filename")) {
            (Some(share_id), Some(file_id), Some(filename)) => Some(
                WebSocketMessage::ShareAccessed { share_id, file_id, filename },
            ),
            _ => None,
        }
    } else if str_eq(tag.as_str(), "ShareExpired") {
        match (e_fid(fs, "share_id"), e_fid(fs, "file_id")) {
            (Some(share_id), Some(file_id)) => Some(
                WebSocketMessage::ShareExpired { share_id, file_id },
            ),
            _ => None,
        }
    } else if str_eq(tag.as_str(), "SystemNotification") {
        match (e_fstr(fs, "message"), e_flevel(fs, "level")) {
            (Some(message), Some(level)) => Some(
                WebSocketMessage::SystemNotification { message, level },
            ),
            _ => None,
        }
    } else if str_eq(tag.as_str(), "UserOnline") {
        match (e_fid(fs, "user_id"), e_fstr(fs, "username")) {
            (Some(user_id), Some(username)) => Some(
                WebSocketMessage::UserOnline { user_id, username },
            ),
            _ => None,
        }
    } else if str_eq(tag.as_str(), "UserOffline") {
        match (e_fid(fs, "user_id"), e_fstr(fs, "username")) {
            (Some(user_id), Some(username)) => Some(
                WebSocketMessage::UserOffline { user_id, username },
            ),
            _ => None,
        }
    } else if str_eq(tag.as_str(), "UploadProgress") {
        match (e_fid(fs, "file_id"), e_fu64(fs, "progress"), e_fu64(fs, "bytes_uploaded"),
        e_fu64(fs, "total_bytes")) {
            (Some(file_id), Some(p), Some(bytes_uploaded), Some(total_bytes)) => {
                if p <= 0xFFFFFFFFu64 {
                    Some(
                        WebSocketMessage::UploadProgress {
                            file_id,
                            progress: p as u32,
                            bytes_uploaded,
                            total_bytes,
                        },
                    )
                } else {
                    None
                }
            },
            _ => None,
        }
    } else if str_eq(tag.as_str(), "DownloadStarted") {
        match (e_fid(fs, "file_id"), e_fstr(fs, "filename")) {
            (Some(file_id), Some(filename)) => Some(
                WebSocketMessage::DownloadStarted { file_id, filename },
            ),
            _ => None,
        }
    } else if str_eq(tag.as_str(), "Error") {
        match (e_fstr(fs, "code"), e_fstr(fs, "message")) {
            (Some(code), Some(message)) => Some(WebSocketMessage::Error { code, message }),
            _ => None,
        }
    } else {
        None
    }
}

/// Reads one frame; a text decodes to exactly the message the grammar
/// gives it, and to nothing otherwise.
pub fn decode_message(s: &str) -> (r: Option<WebSocketMessage>)
    ensures
        match r {
            Some(m) => sp_message(s@) == Some(m@),
            None => sp_message(s@) is None,
        },
{
    let chars = str_chars(s);
    match p_frame(&chars) {
        Some((tag, data)) => {
            if str_eq(tag.as_str(), "Ping") {
                match data {
                    FrameData::Fields(_) => None,
                    _ => Some(WebSocketMessage::Ping),
                }
            } else if str_eq(tag.as_str(), "Pong") {
                match data {
                    FrameData::Fields(_) => None,
                    _ => Some(WebSocketMessage::Pong),
                }
            } else {
                match data {
                    FrameData::Fields(fs) => e_msg_fields(&tag, &fs),
                    _ => None,
                }
            }
        },
        None => None,
    }
}

} // verus!
