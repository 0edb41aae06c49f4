//! The text of the frames a client sends.
//!
//! Every frame is a JSON object in compact form with its keys in
//! alphabetical order.

use super::model::{Channel, ChannelView};
use vstd::prelude::*;
use vstd::string::StringExecFns;
use vstd::utf8::encode_utf8;

verus! {

/// The hexadecimal digit, in lower case, for a number below sixteen.
pub open spec fn hex_digit(n: int) -> char {
    seq!['0', '1', '2', '3', '4', '5', '6', '7', '8', '9', 'a', 'b', 'c', 'd', 'e', 'f'][n]
}

/// Bytes written as hexadecimal text: two digits for each byte, the high half
/// first.
pub open spec fn hex_text(bytes: Seq<u8>) -> Seq<char> {
    Seq::new(
        2 * bytes.len(),
        |i: int|
            if i % 2 == 0 {
                hex_digit(bytes[i / 2] as int / 16)
            } else {
                hex_digit(bytes[i / 2] as int % 16)
            },
    )
}

/// A number written in decimal, without sign or leading zero.
pub open spec fn decimal_text(n: nat) -> Seq<char>
    decreases n,
{
    if n < 10 {
        seq![hex_digit(n as int)]
    } else {
        decimal_text(n / 10).push(hex_digit((n % 10) as int))
    }
}

/// How one character stands inside a JSON string: the quote, the backslash
/// and the control characters are escaped, every other character stands for
/// itself.
pub open spec fn json_escape(c: char) -> Seq<char> {
    if c == '"' {
        seq!['\\', '"']
    } else if c == '\\' {
        seq!['\\', '\\']
    } else if c == '\u{8}' {
        seq!['\\', 'b']
    } else if c == '\t' {
        seq!['\\', 't']
    } else if c == '\n' {
        seq!['\\', 'n']
    } else if c == '\u{c}' {
        seq!['\\', 'f']
    } else if c == '\r' {
        seq!['\\', 'r']
    } else if (c as u32) < 0x20 {
        seq!['\\', 'u', '0', '0', hex_digit(c as int / 16), hex_digit(c as int % 16)]
    } else {
        seq![c]
    }
}

/// A text as a JSON string: its characters escaped, between two quotes.
pub open spec fn json_string(text: Seq<char>) -> Seq<char> {
    seq!['"'] + text.map_values(|c: char| json_escape(c)).flatten() + seq!['"']
}

/// An optional text as a JSON value: `null` where there is none.
pub open spec fn json_optional_string(text: Option<Seq<char>>) -> Seq<char> {
    match text {
        Some(text) => json_string(text),
        None => "null"@,
    }
}

/// The HMAC-SHA256 authentication code of `message` under `key`.
pub uninterp spec fn hmac_sha256_tag(message: Seq<u8>, key: Seq<u8>) -> Seq<u8>;

/// The text that is signed to log in at the given time.
pub open spec fn login_payload(unix_millis: u64) -> Seq<char> {
    decimal_text(unix_millis as nat) + "websocket_login"@
}

/// The signature that proves possession of `secret` at the given time: the
/// authentication code of the login payload under the secret, in hexadecimal.
pub open spec fn signature(secret: Seq<char>, unix_millis: u64) -> Seq<char> {
    hex_text(hmac_sha256_tag(encode_utf8(login_payload(unix_millis)), encode_utf8(secret)))
}

/// The login frame for a key and a signature made at the given time.
pub open spec fn login_text(
    key: Seq<char>,
    sign: Seq<char>,
    subaccount: Option<Seq<char>>,
    unix_millis: u64,
) -> Seq<char> {
    "{\"args\":{\"key\":"@ + json_string(key) + ",\"sign\":"@ + json_string(sign)
        + ",\"subaccount\":"@ + json_optional_string(subaccount) + ",\"time\":"@ + decimal_text(
        unix_millis as nat,
    ) + "},\"op\":\"login\"}"@
}

/// The operation named in a subscription frame.
pub open spec fn operation_name(subscribe: bool) -> Seq<char> {
    if subscribe {
        "subscribe"@
    } else {
        "unsubscribe"@
    }
}

/// The frame that asks to subscribe to a channel or to unsubscribe from it.
pub open spec fn subscription_text(subscribe: bool, channel: ChannelView) -> Seq<char> {
    "{\"channel\":\""@ + channel.name() + "\",\"market\":"@ + json_string(channel.market())
        + ",\"op\":\""@ + operation_name(subscribe) + "\"}"@
}

/// The keepalive frame.
pub open spec fn ping_text() -> Seq<char> {
    "{\"op\":\"ping\"}"@
}

/// The view of an optional text.
pub open spec fn optional_text(text: Option<String>) -> Option<Seq<char>> {
    match text {
        Some(text) => Some(text@),
        None => None,
    }
}

/// Calls `hmac_sha256::HMAC::mac`, which computes the HMAC-SHA256 code of a
/// message under a key of any length. The code is named, not stated; it is
/// 32 bytes long.
#[verifier::external_body]
fn authentication_code(message: &[u8], key: &[u8]) -> (tag: Vec<u8>)
    ensures
        tag@ == hmac_sha256_tag(message@, key@),
        tag@.len() == 32,
{
    hmac_sha256::HMAC::mac(message, key).to_vec()
}

/// Calls `hex::encode`, which writes each byte as two lower-case hexadecimal
/// digits, the high half first.
#[verifier::external_body]
fn hex_encode(bytes: &[u8]) -> (text: String)
    ensures
        text@ == hex_text(bytes@),
{
    hex::encode(bytes)
}

/// Formats a `serde_json::Value::String` with its `Display`, which writes the
/// text in compact form: between two quotes, with `\"`, `\\`, `\b`, `\t`,
/// `\n`, `\f`, `\r` for those characters, `\u00` and two lower-case
/// hexadecimal digits for the other characters below U+0020, and every other
/// character unchanged.
#[verifier::external_body]
fn json_quote(text: &str) -> (quoted: String)
    ensures
        quoted@ == json_string(text@),
{
    serde_json::Value::String(text.to_owned()).to_string()
}

/// The decimal digit for a number below ten.
fn digit(n: u64) -> (text: &'static str)
    requires
        n < 10,
    ensures
        text@ == seq![hex_digit(n as int)],
{
    proof {
        reveal_strlit("0");
        reveal_strlit("1");
        reveal_strlit("2");
        reveal_strlit("3");
        reveal_strlit("4");
        reveal_strlit("5");
        reveal_strlit("6");
        reveal_strlit("7");
        reveal_strlit("8");
        reveal_strlit("9");
    }
    let text = if n == 0 {
        "0"
    } else if n == 1 {
        "1"
    } else if n == 2 {
        "2"
    } else if n == 3 {
        "3"
    } else if n == 4 {
        "4"
    } else if n == 5 {
        "5"
    } else if n == 6 {
        "6"
    } else if n == 7 {
        "7"
    } else if n == 8 {
        "8"
    } else {
        "9"
    };
    assert(text@ =~= seq![hex_digit(n as int)]);
    text
}

/// Writes a number in decimal.
pub fn decimal(n: u64) -> (text: String)
    ensures
        text@ == decimal_text(n as nat),
    decreases n,
{
    if n < 10 {
        String::from_str(digit(n))
    } else {
        let mut text = decimal(n / 10);
        text.append(digit(n % 10));
        assert(text@ =~= decimal_text((n / 10) as nat).push(hex_digit((n % 10) as int)));
        text
    }
}

/// Signs a login made at `unix_millis`, in milliseconds since the Unix epoch.
pub fn sign(secret: &str, unix_millis: u64) -> (sign: String)
    ensures
        sign@ == signature(secret@, unix_millis),
        sign@.len() == 64,
{
    let mut payload = decimal(unix_millis);
    payload.append("websocket_login");
    let tag = authentication_code(payload.as_str().as_bytes(), secret.as_bytes());
    hex_encode(tag.as_slice())
}

/// Writes the login frame that carries `sign`.
pub fn login_frame(key: &str, sign: &str, subaccount: &Option<String>, unix_millis: u64) -> (frame:
    String)
    ensures
        frame@ == login_text(key@, sign@, optional_text(*subaccount), unix_millis),
{
    let mut frame = String::from_str("{\"args\":{\"key\":");
    frame.append(json_quote(key).as_str());
    frame.append(",\"sign\":");
    frame.append(json_quote(sign).as_str());
    frame.append(",\"subaccount\":");
    match subaccount {
        Some(name) => frame.append(json_quote(name.as_str()).as_str()),
        None => frame.append("null"),
    }
    frame.append(",\"time\":");
    frame.append(decimal(unix_millis).as_str());
    frame.append("},\"op\":\"login\"}");
    frame
}

/// Writes the login frame for a key and its secret: the frame that carries
/// the signature made with the secret at `unix_millis`.
pub fn login(key: &str, secret: &str, subaccount: &Option<String>, unix_millis: u64) -> (frame:
    String)
    ensures
        frame@ == login_text(
            key@,
            signature(secret@, unix_millis),
            optional_text(*subaccount),
            unix_millis,
        ),
{
    let sign = sign(secret, unix_millis);
    login_frame(key, sign.as_str(), subaccount, unix_millis)
}

/// Writes the frame that asks to subscribe to `channel` or to unsubscribe
/// from it.
pub fn subscription(subscribe: bool, channel: &Channel) -> (frame: String)
    ensures
        frame@ == subscription_text(subscribe, channel@),
{
    let mut frame = String::from_str("{\"channel\":\"");
    frame.append(channel.name());
    frame.append("\",\"market\":");
    frame.append(json_quote(channel.market()).as_str());
    frame.append(",\"op\":\"");
    if subscribe {
        frame.append("subscribe");
    } else {
        frame.append("unsubscribe");
    }
    frame.append("\"}");
    frame
}

/// Writes the keepalive frame.
pub fn ping() -> (frame: String)
    ensures
        frame@ == ping_text(),
{
    String::from_str("{\"op\":\"ping\"}")
}

} // verus!
