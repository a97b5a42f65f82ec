use webservices::payments::{ErrorCode, Payment, PaymentError, PaymentRegistry, ValidationOutcome};

fn payment(order: &str) -> Payment<u32> {
    Payment {
        order_id: order.to_string(),
        card_number: "4111111111111111".to_string(),
        card_owner: "Jane Doe".to_string(),
        details: 250,
    }
}

#[test]
fn empty_order_id_is_refused() {
    let r: PaymentRegistry<u32> = PaymentRegistry::new();
    let e = r.check_payment(&payment("")).err().unwrap();
    assert!(matches!(e, PaymentError::EmptyOrderId));
    assert!(matches!(e.code(), ErrorCode::InvalidArgument));
    assert_eq!(e.message(), "order id must not be empty");
}

#[test]
fn valid_card_registers_once() {
    let mut r: PaymentRegistry<u32> = PaymentRegistry::new();
    let card = r.check_payment(&payment("o-1")).ok().unwrap();
    assert_eq!(card.card_number, "4111111111111111");
    assert_eq!(card.card_owner, "Jane Doe");
    let p = r.complete_payment(payment("o-1"), ValidationOutcome::Valid).ok().unwrap();
    assert_eq!(p.order_id, "o-1");
    assert_eq!(p.details, 250);
    let e = r.check_payment(&payment("o-1")).err().unwrap();
    assert!(matches!(e.code(), ErrorCode::AlreadyExists));
    assert_eq!(e.message(), "order id must be unique");
    assert_eq!(r.list_all_payments().len(), 1);
    assert!(r.has_order(&"o-1".to_string()));
}

#[test]
fn other_outcomes_register_nothing() {
    let mut r: PaymentRegistry<u32> = PaymentRegistry::new();
    let e = r.complete_payment(payment("a"), ValidationOutcome::Invalid).err().unwrap();
    assert!(matches!(e.code(), ErrorCode::InvalidArgument));
    assert_eq!(e.message(), "payment details are invalid");
    let e = r.complete_payment(payment("a"), ValidationOutcome::Unreachable).err().unwrap();
    assert!(matches!(e.code(), ErrorCode::Internal));
    assert_eq!(e.message(), "validation unreachable");
    let e = r.complete_payment(payment("a"), ValidationOutcome::Failed).err().unwrap();
    assert!(matches!(e.code(), ErrorCode::Internal));
    assert_eq!(e.message(), "validation failure");
    assert!(r.list_all_payments().is_empty());
    assert!(r.check_payment(&payment("a")).is_ok());
}
