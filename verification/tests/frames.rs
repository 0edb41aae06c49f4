use ftx::ws::frame::{login, login_frame, ping, sign, subscription};
use ftx::ws::Channel;

fn object(pairs: Vec<(&str, serde_json::Value)>) -> serde_json::Value {
    let mut map = serde_json::Map::new();
    for (key, value) in pairs {
        map.insert(key.to_string(), value);
    }
    serde_json::Value::Object(map)
}

fn text(value: &str) -> serde_json::Value {
    serde_json::Value::String(value.to_string())
}

#[test]
fn ping_frame_is_the_ping_operation() {
    assert_eq!(ping(), "{\"op\":\"ping\"}");
    assert_eq!(ping(), object(vec![("op", text("ping"))]).to_string());
}

#[test]
fn subscribe_frame_for_trades() {
    let frame = subscription(true, &Channel::Trades("BTC-PERP".to_string()));
    assert_eq!(frame, "{\"channel\":\"trades\",\"market\":\"BTC-PERP\",\"op\":\"subscribe\"}");
}

#[test]
fn unsubscribe_frame_for_orderbook() {
    let frame = subscription(false, &Channel::Orderbook("ETH/USD".to_string()));
    assert_eq!(frame, "{\"channel\":\"orderbook\",\"market\":\"ETH/USD\",\"op\":\"unsubscribe\"}");
}

#[test]
fn subscribe_frame_for_ticker() {
    let frame = subscription(true, &Channel::Ticker("SOL-PERP".to_string()));
    assert_eq!(frame, "{\"channel\":\"ticker\",\"market\":\"SOL-PERP\",\"op\":\"subscribe\"}");
}

#[test]
fn account_channels_name_an_empty_market() {
    assert_eq!(
        subscription(true, &Channel::Fills),
        "{\"channel\":\"fills\",\"market\":\"\",\"op\":\"subscribe\"}"
    );
    assert_eq!(
        subscription(false, &Channel::Orders),
        "{\"channel\":\"orders\",\"market\":\"\",\"op\":\"unsubscribe\"}"
    );
}

#[test]
fn subscription_frames_are_what_serde_json_writes() {
    let channels = vec![
        (Channel::Orderbook("BTC-PERP".to_string()), "orderbook", "BTC-PERP"),
        (Channel::Trades("BTC/USD".to_string()), "trades", "BTC/USD"),
        (Channel::Ticker("".to_string()), "ticker", ""),
        (Channel::Fills, "fills", ""),
        (Channel::Orders, "orders", ""),
    ];
    for (channel, name, market) in channels {
        for (subscribe, op) in [(true, "subscribe"), (false, "unsubscribe")] {
            let expected =
                object(vec![("op", text(op)), ("channel", text(name)), ("market", text(market))]);
            assert_eq!(subscription(subscribe, &channel), expected.to_string());
        }
    }
}

#[test]
fn market_names_are_escaped() {
    let frame = subscription(true, &Channel::Trades("A\"B\\C\n\u{1}\u{1f}\t\r\u{8}\u{c}é/\u{7f}".to_string()));
    assert_eq!(
        frame,
        "{\"channel\":\"trades\",\"market\":\"A\\\"B\\\\C\\n\\u0001\\u001f\\t\\r\\b\\fé/\u{7f}\",\"op\":\"subscribe\"}"
    );
    let parsed: serde_json::Value = serde_json::from_str(&frame).unwrap();
    assert_eq!(
        parsed.get("market").and_then(|market| market.as_str()),
        Some("A\"B\\C\n\u{1}\u{1f}\t\r\u{8}\u{c}é/\u{7f}")
    );
}

#[test]
fn signature_is_the_hex_of_the_authentication_code() {
    let expected =
        hex::encode(hmac_sha256::HMAC::mac(b"1557246346499websocket_login", b"Y2QTHI23f23f23jfjas23f23To0RfUwX3H42fvN-"));
    let made = sign("Y2QTHI23f23f23jfjas23f23To0RfUwX3H42fvN-", 1557246346499);
    assert_eq!(made, expected);
    assert_eq!(made.len(), 64);
    assert!(made.chars().all(|c| c.is_ascii_digit() || ('a'..='f').contains(&c)));
}

#[test]
fn signature_of_a_known_message() {
    // HMAC-SHA256 of "0websocket_login" under the key "key".
    assert_eq!(
        sign("key", 0),
        "edc58d8fed99b0fa5f454e104ed6cabdebf5ecbed439ff184aa3b9f8bf3d4957"
    );
    assert_eq!(
        sign("Y2QTHI23f23f23jfjas23f23To0RfUwX3H42fvN-", 1557246346499),
        "d10b5a67a1a941ae9463a60b285ae845cdeac1b11edc7da9977bef0228b96de9"
    );
    assert_ne!(sign("key", 0), sign("key", 1));
    assert_ne!(sign("key", 0), sign("kez", 0));
}

#[test]
fn signature_takes_long_secrets() {
    let secret = "s".repeat(200);
    let expected = hex::encode(hmac_sha256::HMAC::mac(b"18446744073709551615websocket_login", secret.as_bytes()));
    assert_eq!(sign(&secret, u64::MAX), expected);
}

#[test]
fn login_frame_holds_key_signature_time_and_subaccount() {
    let frame = login_frame("the-key", "abcdef", &Some("Bot".to_string()), 1557246346499);
    assert_eq!(
        frame,
        "{\"args\":{\"key\":\"the-key\",\"sign\":\"abcdef\",\"subaccount\":\"Bot\",\"time\":1557246346499},\"op\":\"login\"}"
    );
}

#[test]
fn login_frame_without_subaccount_says_null() {
    let frame = login_frame("k", "s", &None, 0);
    assert_eq!(
        frame,
        "{\"args\":{\"key\":\"k\",\"sign\":\"s\",\"subaccount\":null,\"time\":0},\"op\":\"login\"}"
    );
}

#[test]
fn login_frame_is_what_serde_json_writes() {
    let args = object(vec![
        ("key", text("k\"ey")),
        ("sign", text("0f")),
        ("time", serde_json::Value::Number(serde_json::Number::from(18446744073709551615u64))),
        ("subaccount", text("sub\\account")),
    ]);
    let expected = object(vec![("op", text("login")), ("args", args)]);
    assert_eq!(
        login_frame("k\"ey", "0f", &Some("sub\\account".to_string()), u64::MAX),
        expected.to_string()
    );
}

#[test]
fn login_signs_with_the_secret() {
    let frame = login("key", "secret", &None, 1234567890123);
    let parsed: serde_json::Value = serde_json::from_str(&frame).unwrap();
    assert_eq!(parsed.get("op").and_then(|op| op.as_str()), Some("login"));
    let args = parsed.get("args").unwrap();
    assert_eq!(args.get("key").and_then(|key| key.as_str()), Some("key"));
    assert_eq!(args.get("time").and_then(|time| time.as_u64()), Some(1234567890123));
    assert!(args.get("subaccount").unwrap().is_null());
    assert_eq!(
        args.get("sign").and_then(|sign| sign.as_str()),
        Some("aa5315eff51f4adff042848ba8edc17267878cc323be6f7d26a155a4fa755fdc")
    );
    assert_eq!(frame, login_frame("key", &sign("secret", 1234567890123), &None, 1234567890123));
}

#[test]
fn numbers_are_written_in_decimal() {
    assert_eq!(ftx::ws::frame::decimal(0), "0");
    assert_eq!(ftx::ws::frame::decimal(7), "7");
    assert_eq!(ftx::ws::frame::decimal(10), "10");
    assert_eq!(ftx::ws::frame::decimal(1557246346499), "1557246346499");
    assert_eq!(ftx::ws::frame::decimal(9007199254740993), "9007199254740993");
    assert_eq!(ftx::ws::frame::decimal(u64::MAX), "18446744073709551615");
}
