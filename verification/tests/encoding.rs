use ledger_core::encoding::push_decimal;
use ledger_core::{Block, Blockchain, Transaction};

fn transaction(signature: Option<&str>) -> Transaction {
    Transaction {
        sender: "alice".to_string(),
        recipient: "bob".to_string(),
        amount: 5,
        timestamp: "2024-01-01T00:00:00Z".to_string(),
        signature: signature.map(|s| s.to_string()),
    }
}

fn block() -> Block {
    Block {
        index: 3,
        timestamp: 1700000000,
        transactions: vec![transaction(Some("3045"))],
        merkle_root: "ab".repeat(32),
        nonce: 42,
        previous_hash: "cd".repeat(32),
    }
}

fn decimal_string(n: u64) -> String {
    let mut text = String::new();
    push_decimal(&mut text, n);
    text
}

#[test]
fn push_decimal_writes_small_and_large_numbers() {
    assert_eq!(decimal_string(0), "0");
    assert_eq!(decimal_string(7), "7");
    assert_eq!(decimal_string(10), "10");
    assert_eq!(decimal_string(305), "305");
    assert_eq!(decimal_string(1700000000), "1700000000");
    assert_eq!(decimal_string(u64::MAX), "18446744073709551615");
}

#[test]
fn push_decimal_appends_to_what_is_there() {
    let mut text = String::from("n=");
    push_decimal(&mut text, 120);
    assert_eq!(text, "n=120");
}

#[test]
fn unsigned_transaction_json_is_exact() {
    assert_eq!(
        transaction(None).to_json(),
        "{\"sender\":\"alice\",\"recipient\":\"bob\",\"amount\":5,\"timestamp\":\"2024-01-01T00:00:00Z\",\"signature\":null}"
    );
}

#[test]
fn signed_transaction_json_is_exact() {
    assert_eq!(
        transaction(Some("3045")).to_json(),
        "{\"sender\":\"alice\",\"recipient\":\"bob\",\"amount\":5,\"timestamp\":\"2024-01-01T00:00:00Z\",\"signature\":\"3045\"}"
    );
}

#[test]
fn signing_message_leaves_the_signature_out() {
    assert_eq!(transaction(Some("3045")).signing_message(), transaction(None).to_json());
    assert_eq!(transaction(None).signing_message(), transaction(None).to_json());
}

#[test]
fn transaction_json_escapes_strings() {
    let tx = Transaction {
        sender: "a\"b\\c".to_string(),
        recipient: "line\nbreak\ttab".to_string(),
        amount: 0,
        timestamp: "\u{1}\u{e9}".to_string(),
        signature: None,
    };
    assert_eq!(
        tx.to_json(),
        "{\"sender\":\"a\\\"b\\\\c\",\"recipient\":\"line\\nbreak\\ttab\",\"amount\":0,\"timestamp\":\"\\u0001\u{e9}\",\"signature\":null}"
    );
}

fn escaped(c: char) -> String {
    match c {
        '"' => "\\\"".to_string(),
        '\\' => "\\\\".to_string(),
        '\u{8}' => "\\b".to_string(),
        '\t' => "\\t".to_string(),
        '\n' => "\\n".to_string(),
        '\u{c}' => "\\f".to_string(),
        '\r' => "\\r".to_string(),
        c if (c as u32) < 0x20 => format!("\\u{:04x}", c as u32),
        c => c.to_string(),
    }
}

#[test]
fn every_character_is_escaped_by_the_rule() {
    let mut samples: Vec<char> = (0u32..0x300).filter_map(char::from_u32).collect();
    samples.extend(['\u{2028}', '\u{fffd}', '\u{10000}', '\u{10ffff}', '\u{d7ff}', '\u{e000}']);
    for c in samples {
        let tx = Transaction {
            sender: c.to_string(),
            recipient: format!("x{}y{}", c, c),
            amount: 1,
            timestamp: String::new(),
            signature: Some(format!("{}z", c)),
        };
        let e = escaped(c);
        let expected = format!(
            "{{\"sender\":\"{}\",\"recipient\":\"x{}y{}\",\"amount\":1,\"timestamp\":\"\",\"signature\":\"{}z\"}}",
            e, e, e, e
        );
        assert_eq!(tx.to_json(), expected);
    }
}

#[test]
fn transaction_json_is_what_serde_json_writes_for_the_fields() {
    let tx = Transaction {
        sender: "a\"b\\c/\u{7f}".to_string(),
        recipient: "\u{8}\u{c}\r".to_string(),
        amount: 18446744073709551615,
        timestamp: "t".to_string(),
        signature: Some("s\u{1f}".to_string()),
    };
    let expected = format!(
        "{{\"sender\":{},\"recipient\":{},\"amount\":{},\"timestamp\":{},\"signature\":{}}}",
        serde_json::Value::String(tx.sender.clone()),
        serde_json::Value::String(tx.recipient.clone()),
        serde_json::Value::from(tx.amount),
        serde_json::Value::String(tx.timestamp.clone()),
        serde_json::Value::String("s\u{1f}".to_string()),
    );
    assert_eq!(tx.to_json(), expected);
}

#[test]
fn header_json_is_exact() {
    assert_eq!(
        block().header_to_json(),
        format!(
            "{{\"index\":3,\"merkle_root\":\"{}\",\"nonce\":42,\"previous_hash\":\"{}\",\"timestamp\":1700000000}}",
            "ab".repeat(32),
            "cd".repeat(32)
        )
    );
}

#[test]
fn header_json_is_the_block_object_without_its_transactions() {
    let b = block();
    let mut object = serde_json::Map::new();
    object.insert("index".to_string(), serde_json::Value::from(b.index as u64));
    object.insert("timestamp".to_string(), serde_json::Value::from(b.timestamp));
    object.insert("transactions".to_string(), serde_json::Value::Array(Vec::new()));
    object.insert("merkle_root".to_string(), serde_json::Value::String(b.merkle_root.clone()));
    object.insert("nonce".to_string(), serde_json::Value::from(b.nonce));
    object.insert("previous_hash".to_string(), serde_json::Value::String(b.previous_hash.clone()));
    object.remove("transactions");
    let expected = serde_json::to_string(&serde_json::Value::Object(object)).unwrap();
    assert_eq!(b.header_to_json(), expected);
}

#[test]
fn block_id_is_the_hash_of_the_header() {
    let b = block();
    assert_eq!(Blockchain::get_block_id(&b), Blockchain::generate_hash(&b.header_to_json()));
}

#[test]
fn block_id_ignores_the_transactions() {
    let b = block();
    let mut other = block();
    other.transactions.clear();
    assert_eq!(Blockchain::get_block_id(&b), Blockchain::get_block_id(&other));
}

#[test]
fn block_id_depends_on_every_header_field() {
    let id = Blockchain::get_block_id(&block());
    let mut b = block();
    b.index = 4;
    assert_ne!(Blockchain::get_block_id(&b), id);
    let mut b = block();
    b.timestamp = 1700000001;
    assert_ne!(Blockchain::get_block_id(&b), id);
    let mut b = block();
    b.merkle_root = "ac".repeat(32);
    assert_ne!(Blockchain::get_block_id(&b), id);
    let mut b = block();
    b.nonce = 43;
    assert_ne!(Blockchain::get_block_id(&b), id);
    let mut b = block();
    b.previous_hash = "ce".repeat(32);
    assert_ne!(Blockchain::get_block_id(&b), id);
}

#[test]
fn clones_are_equal_to_what_they_copy() {
    let b = block();
    assert_eq!(b.clone(), b);
    let t = transaction(Some("3045"));
    assert_eq!(t.clone(), t);
    let u = transaction(None);
    assert_eq!(u.clone(), u);
}
