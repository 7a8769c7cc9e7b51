use loco_mcp::ddd::DddError;
use loco_mcp::value_object::{Address, Email, Money, Percentage, ValueObject};

#[test]
fn test_email_creation() {
    let email = Email::new("test@example.com".to_string()).unwrap();
    assert_eq!(email.value(), "test@example.com");
    assert!(email.is_valid());
}

#[test]
fn test_email_validation() {
    let result = Email::new("invalid-email".to_string());
    assert!(result.is_err());
}

#[test]
fn test_money_creation() {
    let money = Money::new(100, "USD".to_string()).unwrap();
    assert_eq!(money.amount(), 100);
    assert_eq!(money.currency(), "USD");
    assert!(money.is_valid());
}

#[test]
fn test_money_addition() {
    let money1 = Money::new(100, "USD".to_string()).unwrap();
    let money2 = Money::new(50, "USD".to_string()).unwrap();
    let result = money1.add(&money2).unwrap();
    assert_eq!(result.amount(), 150);
}

#[test]
fn test_money_subtraction() {
    let money1 = Money::new(100, "USD".to_string()).unwrap();
    let money2 = Money::new(50, "USD".to_string()).unwrap();
    let result = money1.subtract(&money2).unwrap();
    assert_eq!(result.amount(), 50);
}

#[test]
fn test_value_object_email() {
    let email = Email::new("test@example.com".to_string()).unwrap();
    assert_eq!(email.value(), "test@example.com");
    assert!(email.is_valid());
}

#[test]
fn test_value_object_email_invalid() {
    let result = Email::new("invalid-email".to_string());
    assert!(result.is_err());
}

#[test]
fn test_value_object_money() {
    let money = Money::new(100, "USD".to_string()).unwrap();
    assert_eq!(money.amount(), 100);
    assert_eq!(money.currency(), "USD");
    assert!(money.is_valid());
}

#[test]
fn test_value_object_money_addition() {
    let money1 = Money::new(100, "USD".to_string()).unwrap();
    let money2 = Money::new(50, "USD".to_string()).unwrap();
    let result = money1.add(&money2).unwrap();
    assert_eq!(result.amount(), 150);
}

fn validation_text(e: DddError) -> String {
    match e {
        DddError::Validation(m) => m,
        other => panic!("expected a validation error, got {:?}", other),
    }
}

#[test]
fn email_shapes_follow_the_pattern() {
    assert!(Email::new("a.b+c@mail.example.org".to_string()).is_ok());
    assert!(Email::new("user@host.c".to_string()).is_err());
    assert!(Email::new("@example.com".to_string()).is_err());
    assert!(Email::new("user@example.c0m".to_string()).is_err());
    assert!(Email::new("user@@example.com".to_string()).is_err());
    let e = Email::new("no-at-sign".to_string()).unwrap_err();
    assert_eq!(validation_text(e), "Invalid email format");
}

#[test]
fn money_rejects_negative_and_bad_currency() {
    assert_eq!(validation_text(Money::new(-1, "USD".to_string()).unwrap_err()), "Amount cannot be negative");
    assert_eq!(validation_text(Money::new(1, "".to_string()).unwrap_err()), "Currency cannot be empty");
    assert_eq!(validation_text(Money::new(1, "US".to_string()).unwrap_err()), "Currency must be 3 characters");
    assert!(Money::new(0, "EUR".to_string()).is_ok());
}

#[test]
fn money_refuses_mixed_currencies_and_overdraft() {
    let usd = Money::new(100, "USD".to_string()).unwrap();
    let eur = Money::new(50, "EUR".to_string()).unwrap();
    assert_eq!(validation_text(usd.add(&eur).unwrap_err()), "Cannot add money with different currencies");
    assert_eq!(
        validation_text(usd.subtract(&eur).unwrap_err()),
        "Cannot subtract money with different currencies"
    );
    let more = Money::new(150, "USD".to_string()).unwrap();
    assert_eq!(validation_text(usd.subtract(&more).unwrap_err()), "Insufficient funds");
    let all = usd.subtract(&usd).unwrap();
    assert_eq!(all.amount(), 0);
    assert_eq!(all.currency(), "USD");
}

#[test]
fn money_sum_out_of_range_is_refused() {
    let big = Money::new(i64::MAX, "USD".to_string()).unwrap();
    let one = Money::new(1, "USD".to_string()).unwrap();
    assert!(big.add(&one).is_err());
}

#[test]
fn address_requires_every_part() {
    let a = Address::new(
        "1 Main St".to_string(),
        "Springfield".to_string(),
        "IL".to_string(),
        "62701".to_string(),
        "US".to_string(),
    )
    .unwrap();
    assert_eq!(a.street(), "1 Main St");
    assert_eq!(a.city(), "Springfield");
    assert_eq!(a.state(), "IL");
    assert_eq!(a.postal_code(), "62701");
    assert_eq!(a.country(), "US");
    assert!(a.is_valid());
    let e = Address::new(
        "   ".to_string(),
        "Springfield".to_string(),
        "IL".to_string(),
        "62701".to_string(),
        "US".to_string(),
    )
    .unwrap_err();
    assert_eq!(validation_text(e), "street is required");
    let e = Address::new(
        "1 Main St".to_string(),
        "Springfield".to_string(),
        "IL".to_string(),
        "62701".to_string(),
        "\t".to_string(),
    )
    .unwrap_err();
    assert_eq!(validation_text(e), "country is required");
}

#[test]
fn percentage_bounds() {
    assert_eq!(Percentage::new(50).unwrap().value(), 50);
    assert_eq!(Percentage::new(100).unwrap().value(), 100);
    assert_eq!(Percentage::new(0).unwrap().value(), 0);
    assert_eq!(validation_text(Percentage::new(101).unwrap_err()), "Percentage cannot exceed 100");
}
