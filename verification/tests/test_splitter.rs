//! Splits in basis points and in fixed amounts.

use stello_pay::address::Address;
use stello_pay::payment_splitter::{
    PaymentSplitterContract, RecipientShare, ShareKind, SplitterError,
};

fn setup() -> PaymentSplitterContract {
    let mut client = PaymentSplitterContract::new();
    client.initialize(Address::new(1)).unwrap();
    client
}

#[test]
fn test_create_split_percent() {
    let mut client = setup();
    let creator = Address::new(2);
    let a = Address::new(3);
    let b = Address::new(4);
    let mut recipients = Vec::new();
    recipients.push(RecipientShare { recipient: a, kind: ShareKind::Percent(6000) });
    recipients.push(RecipientShare { recipient: b, kind: ShareKind::Percent(4000) });
    let id = client.create_split(creator, recipients).unwrap();
    assert_eq!(id, 1);
    let def = client.get_split(id).unwrap();
    assert_eq!(def.recipients.len(), 2);
}

#[test]
fn test_create_split_percent_sum_below_whole_is_refused() {
    let mut client = setup();
    let creator = Address::new(2);
    let a = Address::new(3);
    let mut recipients = Vec::new();
    recipients.push(RecipientShare { recipient: a, kind: ShareKind::Percent(5000) });
    assert_eq!(
        client.create_split(creator, recipients),
        Err(SplitterError::InvalidPercentTotal)
    );
}

#[test]
fn test_compute_split_percent() {
    let mut client = setup();
    let creator = Address::new(2);
    let a = Address::new(3);
    let b = Address::new(4);
    let mut recipients = Vec::new();
    recipients.push(RecipientShare { recipient: a, kind: ShareKind::Percent(6000) });
    recipients.push(RecipientShare { recipient: b, kind: ShareKind::Percent(4000) });
    let id = client.create_split(creator, recipients).unwrap();
    let out = client.compute_split(id, 1000).unwrap();
    assert_eq!(out.len(), 2);
    assert_eq!(out[0].0, a);
    assert_eq!(out[0].1, 600);
    assert_eq!(out[1].0, b);
    assert_eq!(out[1].1, 400);
}

#[test]
fn test_compute_split_fixed() {
    let mut client = setup();
    let creator = Address::new(2);
    let a = Address::new(3);
    let b = Address::new(4);
    let mut recipients = Vec::new();
    recipients.push(RecipientShare { recipient: a, kind: ShareKind::Fixed(300) });
    recipients.push(RecipientShare { recipient: b, kind: ShareKind::Fixed(700) });
    let id = client.create_split(creator, recipients).unwrap();
    let out = client.compute_split(id, 1000).unwrap();
    assert_eq!(out[0].1, 300);
    assert_eq!(out[1].1, 700);
    assert_eq!(client.validate_split_for_amount(id, 1000), Ok(true));
    assert_eq!(client.validate_split_for_amount(id, 500), Ok(false));
}
