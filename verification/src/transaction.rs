//! Transactions and their canonical serialisation.

use crate::encoding::{
    decimal,
    json_string,
    json_string_literal,
    lemma_decimal_delimits,
    lemma_literal_delimits,
    lemma_regroup,
    lemma_same_beginning,
    push_decimal,
};
use vstd::prelude::*;
use vstd::string::StringExecFns;

verus! {

/// A transfer of `amount` from `sender` to `recipient`. The signature is
/// absent until the transaction has been signed.
#[derive(Debug, PartialEq, Eq)]
pub struct Transaction {
    pub sender: String,
    pub recipient: String,
    pub amount: u64,
    pub timestamp: String,
    pub signature: Option<String>,
}

/// The mathematical value of a [`Transaction`].
pub struct TransactionView {
    pub sender: Seq<char>,
    pub recipient: Seq<char>,
    pub amount: nat,
    pub timestamp: Seq<char>,
    pub signature: Option<Seq<char>>,
}

impl View for Transaction {
    type V = TransactionView;

    open spec fn view(&self) -> TransactionView {
        TransactionView {
            sender: self.sender@,
            recipient: self.recipient@,
            amount: self.amount as nat,
            timestamp: self.timestamp@,
            signature: optional_text(self.signature),
        }
    }
}

/// The values of a sequence of transactions, in order.
pub open spec fn transactions_view(txs: Seq<Transaction>) -> Seq<TransactionView> {
    Seq::new(txs.len(), |i: int| txs[i]@)
}

/// `tx` with `signature` in place of its own, and nothing else changed.
pub open spec fn with_signature(
    tx: TransactionView,
    signature: Option<Seq<char>>,
) -> TransactionView {
    TransactionView { signature, ..tx }
}

/// `tx` with its signature removed: the form that is signed.
pub open spec fn unsigned(tx: TransactionView) -> TransactionView {
    with_signature(tx, None)
}

/// The value of an optional string.
pub open spec fn optional_text(text: Option<String>) -> Option<Seq<char>> {
    match text {
        Some(s) => Some(s@),
        None => None,
    }
}

/// The JSON text of an optional signature: `null` when absent.
pub open spec fn signature_json(signature: Option<Seq<char>>) -> Seq<char> {
    match signature {
        Some(s) => json_string_literal(s),
        None => "null"@,
    }
}

/// The canonical JSON object of a transaction: its five fields in declaration
/// order, without whitespace.
pub open spec fn transaction_json(tx: TransactionView) -> Seq<char> {
    "{\"sender\":"@ + json_string_literal(tx.sender) + ",\"recipient\":"@ + json_string_literal(
        tx.recipient,
    ) + ",\"amount\":"@ + decimal(tx.amount) + ",\"timestamp\":"@ + json_string_literal(
        tx.timestamp,
    ) + ",\"signature\":"@ + signature_json(tx.signature) + "}"@
}

spec fn signature_part(tx: TransactionView) -> Seq<char> {
    ",\"signature\":"@ + (signature_json(tx.signature) + "}"@)
}

spec fn timestamp_part(tx: TransactionView) -> Seq<char> {
    ",\"timestamp\":"@ + (json_string_literal(tx.timestamp) + signature_part(tx))
}

spec fn amount_part(tx: TransactionView) -> Seq<char> {
    ",\"amount\":"@ + (decimal(tx.amount) + timestamp_part(tx))
}

spec fn recipient_part(tx: TransactionView) -> Seq<char> {
    ",\"recipient\":"@ + (json_string_literal(tx.recipient) + amount_part(tx))
}

proof fn lemma_transaction_json_parts(tx: TransactionView)
    ensures
        transaction_json(tx) == "{\"sender\":"@ + (json_string_literal(tx.sender)
            + recipient_part(tx)),
{
    let sender = json_string_literal(tx.sender);
    let recipient = json_string_literal(tx.recipient);
    let amount = decimal(tx.amount);
    let timestamp = json_string_literal(tx.timestamp);
    let signature = signature_json(tx.signature);
    let with_sender = "{\"sender\":"@ + sender;
    let to_recipient = with_sender + ",\"recipient\":"@;
    let with_recipient = to_recipient + recipient;
    let to_amount = with_recipient + ",\"amount\":"@;
    let with_amount = to_amount + amount;
    let to_timestamp = with_amount + ",\"timestamp\":"@;
    let with_timestamp = to_timestamp + timestamp;
    let to_signature = with_timestamp + ",\"signature\":"@;
    lemma_regroup(to_signature, signature, "}"@);
    lemma_regroup(with_timestamp, ",\"signature\":"@, signature + "}"@);
    lemma_regroup(to_timestamp, timestamp, signature_part(tx));
    lemma_regroup(with_amount, ",\"timestamp\":"@, timestamp + signature_part(tx));
    lemma_regroup(to_amount, amount, timestamp_part(tx));
    lemma_regroup(with_recipient, ",\"amount\":"@, amount + timestamp_part(tx));
    lemma_regroup(to_recipient, recipient, amount_part(tx));
    lemma_regroup(with_sender, ",\"recipient\":"@, recipient + amount_part(tx));
    lemma_regroup("{\"sender\":"@, sender, recipient_part(tx));
}

proof fn lemma_sender_is_determined(a: TransactionView, b: TransactionView)
    requires
        transaction_json(a) == transaction_json(b),
    ensures
        a.sender == b.sender,
        recipient_part(a) == recipient_part(b),
{
    lemma_transaction_json_parts(a);
    lemma_transaction_json_parts(b);
    lemma_same_beginning(
        "{\"sender\":"@,
        json_string_literal(a.sender) + recipient_part(a),
        json_string_literal(b.sender) + recipient_part(b),
    );
    lemma_literal_delimits(a.sender, b.sender, recipient_part(a), recipient_part(b));
}

proof fn lemma_recipient_is_determined(a: TransactionView, b: TransactionView)
    requires
        recipient_part(a) == recipient_part(b),
    ensures
        a.recipient == b.recipient,
        amount_part(a) == amount_part(b),
{
    lemma_same_beginning(
        ",\"recipient\":"@,
        json_string_literal(a.recipient) + amount_part(a),
        json_string_literal(b.recipient) + amount_part(b),
    );
    lemma_literal_delimits(a.recipient, b.recipient, amount_part(a), amount_part(b));
}

proof fn lemma_amount_is_determined(a: TransactionView, b: TransactionView)
    requires
        amount_part(a) == amount_part(b),
    ensures
        a.amount == b.amount,
        timestamp_part(a) == timestamp_part(b),
{
    lemma_same_beginning(
        ",\"amount\":"@,
        decimal(a.amount) + timestamp_part(a),
        decimal(b.amount) + timestamp_part(b),
    );
    reveal_strlit(",\"timestamp\":");
    lemma_decimal_delimits(a.amount, b.amount, timestamp_part(a), timestamp_part(b));
}

proof fn lemma_timestamp_is_determined(a: TransactionView, b: TransactionView)
    requires
        timestamp_part(a) == timestamp_part(b),
    ensures
        a.timestamp == b.timestamp,
        signature_part(a) == signature_part(b),
{
    lemma_same_beginning(
        ",\"timestamp\":"@,
        json_string_literal(a.timestamp) + signature_part(a),
        json_string_literal(b.timestamp) + signature_part(b),
    );
    lemma_literal_delimits(a.timestamp, b.timestamp, signature_part(a), signature_part(b));
}

proof fn lemma_signature_is_determined(a: TransactionView, b: TransactionView)
    requires
        signature_part(a) == signature_part(b),
    ensures
        a.signature == b.signature,
{
    let end_a = signature_json(a.signature) + "}"@;
    let end_b = signature_json(b.signature) + "}"@;
    lemma_same_beginning(",\"signature\":"@, end_a, end_b);
    reveal_strlit("null");
    match (a.signature, b.signature) {
        (Some(x), Some(y)) => {
            lemma_literal_delimits(x, y, "}"@, "}"@);
        },
        (Some(x), None) => {
            assert(end_a[0] == '"' && end_b[0] == 'n');
        },
        (None, Some(y)) => {
            assert(end_a[0] == 'n' && end_b[0] == '"');
        },
        (None, None) => {},
    }
}

/// The canonical text determines the transaction: two transactions with
/// the same canonical JSON text are the same in every field.
pub proof fn lemma_transaction_json_injective(a: TransactionView, b: TransactionView)
    requires
        transaction_json(a) == transaction_json(b),
    ensures
        a == b,
{
    lemma_sender_is_determined(a, b);
    lemma_recipient_is_determined(a, b);
    lemma_amount_is_determined(a, b);
    lemma_timestamp_is_determined(a, b);
    lemma_signature_is_determined(a, b);
}

impl Clone for Transaction {
    fn clone(&self) -> (copy: Self)
        ensures
            copy@ == self@,
    {
        Transaction {
            sender: self.sender.clone(),
            recipient: self.recipient.clone(),
            amount: self.amount,
            timestamp: self.timestamp.clone(),
            signature: match &self.signature {
                Some(s) => Some(s.clone()),
                None => None,
            },
        }
    }
}

impl Transaction {
    fn json_with(&self, signature: &Option<String>) -> (json: String)
        ensures
            json@ == transaction_json(with_signature(self@, optional_text(*signature))),
    {
        let mut json = String::from_str("{\"sender\":");
        json.append(json_string(self.sender.as_str()).as_str());
        json.append(",\"recipient\":");
        json.append(json_string(self.recipient.as_str()).as_str());
        json.append(",\"amount\":");
        push_decimal(&mut json, self.amount);
        json.append(",\"timestamp\":");
        json.append(json_string(self.timestamp.as_str()).as_str());
        json.append(",\"signature\":");
        match signature {
            Some(s) => json.append(json_string(s.as_str()).as_str()),
            None => json.append("null"),
        }
        json.append("}");
        json
    }

    /// The canonical JSON text of the transaction, signature included.
    pub fn to_json(&self) -> (json: String)
        ensures
            json@ == transaction_json(self@),
    {
        self.json_with(&self.signature)
    }

    /// The message that a signature of this transaction covers: its canonical
    /// JSON text with the signature absent.
    pub fn signing_message(&self) -> (json: String)
        ensures
            json@ == transaction_json(unsigned(self@)),
    {
        self.json_with(&None)
    }
}

/// Copies a list of transactions.
pub fn clone_transactions(txs: &Vec<Transaction>) -> (copy: Vec<Transaction>)
    ensures
        transactions_view(copy@) == transactions_view(txs@),
{
    let mut copy: Vec<Transaction> = Vec::new();
    let mut i: usize = 0;
    while i < txs.len()
        invariant
            i <= txs.len(),
            copy.len() == i,
            forall|j: int| 0 <= j < i ==> copy[j]@ == txs[j]@,
        decreases txs.len() - i,
    {
        copy.push(txs[i].clone());
        i += 1;
    }
    copy
}

} // verus!
