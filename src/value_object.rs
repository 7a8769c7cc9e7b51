//! Immutable values defined by their attributes, each checked on creation.
use crate::ddd::{is_validation, required_message, DddError, EntityValidator};
use crate::text::{email_shape, trimmed};
use vstd::prelude::*;

verus! {

/// A value that knows when it is well-formed.
pub trait ValueObject {
    spec fn spec_valid(&self) -> bool;

    fn validate(&self) -> (r: Result<(), DddError>)
        ensures
            r is Ok <==> self.spec_valid(),
    ;

    fn is_valid(&self) -> (r: bool)
        ensures
            r == self.spec_valid(),
    {
        match self.validate() {
            Ok(()) => true,
            Err(_) => false,
        }
    }
}

/// An e-mail address.
#[derive(Debug, Clone)]
pub struct Email {
    value: String,
}

impl Email {
    pub closed spec fn spec_text(&self) -> Seq<char> {
        self.value@
    }

    /// Accepts exactly the addresses of the shape `local@domain.tld`.
    pub fn new(value: String) -> (r: Result<Email, DddError>)
        ensures
            r is Ok <==> email_shape(value@),
            r is Ok ==> r->Ok_0.spec_text() == value@,
            r is Err ==> is_validation(r, "Invalid email format"@),
    {
        let email = Email { value };
        match email.validate() {
            Ok(()) => Ok(email),
            Err(e) => Err(e),
        }
    }

    pub fn value(&self) -> (r: &str)
        ensures
            r@ == self.spec_text(),
    {
        self.value.as_str()
    }
}

impl ValueObject for Email {
    open spec fn spec_valid(&self) -> bool {
        email_shape(self.spec_text())
    }

    fn validate(&self) -> (r: Result<(), DddError>)
        ensures
            r is Err ==> is_validation(r, "Invalid email format"@),
    {
        EntityValidator::validate_email(self.value.as_str())
    }
}

/// Length of a text in UTF-8 bytes, as `str::len` reports it.
pub open spec fn utf8_len(s: Seq<char>) -> usize {
    vstd::utf8::encode_utf8(s).len() as usize
}

/// An amount in the smallest unit of a currency.
#[derive(Debug)]
pub struct Money {
    amount: i64,
    currency: String,
}

pub open spec fn money_ok(amount: i64, currency: Seq<char>) -> bool {
    amount >= 0 && utf8_len(currency) == 3
}

/// Checks an amount and a currency code.
fn check_money(amount: i64, currency: &str) -> (r: Result<(), DddError>)
    ensures
        r is Ok <==> money_ok(amount, currency@),
        amount < 0 ==> is_validation(r, "Amount cannot be negative"@),
{
    if amount < 0 {
        return Err(DddError::validation("Amount cannot be negative"));
    }
    if currency.is_empty() {
        return Err(DddError::validation("Currency cannot be empty"));
    }
    if currency.len() != 3 {
        return Err(DddError::validation("Currency must be 3 characters"));
    }
    Ok(())
}

impl Money {
    /// The amount is never negative and the currency code has three bytes.
    #[verifier::type_invariant]
    spec fn well_formed(&self) -> bool {
        money_ok(self.amount, self.currency@)
    }

    pub closed spec fn spec_amount(&self) -> i64 {
        self.amount
    }

    pub closed spec fn spec_currency(&self) -> Seq<char> {
        self.currency@
    }

    /// Accepts a non-negative amount in a three-byte currency code.
    pub fn new(amount: i64, currency: String) -> (r: Result<Money, DddError>)
        ensures
            r is Ok <==> money_ok(amount, currency@),
            r is Ok ==> r->Ok_0.spec_amount() == amount && r->Ok_0.spec_currency() == currency@,
            amount < 0 ==> is_validation(r, "Amount cannot be negative"@),
    {
        match check_money(amount, currency.as_str()) {
            Ok(()) => Ok(Money { amount, currency }),
            Err(e) => Err(e),
        }
    }

    pub fn amount(&self) -> (r: i64)
        ensures
            r == self.spec_amount(),
            r >= 0,
    {
        proof {
            use_type_invariant(self);
        }
        self.amount
    }

    pub fn currency(&self) -> (r: &str)
        ensures
            r@ == self.spec_currency(),
    {
        self.currency.as_str()
    }

    /// The sum, in the same currency. Different currencies, or a sum beyond
    /// the range of the amount, are refused.
    pub fn add(&self, other: &Money) -> (r: Result<Money, DddError>)
        ensures
            self.spec_currency() != other.spec_currency() ==> is_validation(
                r,
                "Cannot add money with different currencies"@,
            ),
            self.spec_currency() == other.spec_currency() && self.spec_amount() + other.spec_amount()
                <= i64::MAX ==> r is Ok && r->Ok_0.spec_amount() == self.spec_amount()
                + other.spec_amount() && r->Ok_0.spec_currency() == self.spec_currency(),
            self.spec_currency() == other.spec_currency() && self.spec_amount() + other.spec_amount()
                > i64::MAX ==> is_validation(r, "Amount out of range"@),
    {
        proof {
            use_type_invariant(self);
            use_type_invariant(other);
        }
        if self.currency != other.currency {
            return Err(DddError::validation("Cannot add money with different currencies"));
        }
        match self.amount.checked_add(other.amount) {
            Some(sum) => Ok(Money { amount: sum, currency: self.currency.clone() }),
            None => Err(DddError::validation("Amount out of range")),
        }
    }

    /// The difference, in the same currency. Different currencies, or taking
    /// more than there is, are refused.
    pub fn subtract(&self, other: &Money) -> (r: Result<Money, DddError>)
        ensures
            self.spec_currency() != other.spec_currency() ==> is_validation(
                r,
                "Cannot subtract money with different currencies"@,
            ),
            self.spec_currency() == other.spec_currency() && self.spec_amount()
                < other.spec_amount() ==> is_validation(r, "Insufficient funds"@),
            self.spec_currency() == other.spec_currency() && self.spec_amount()
                >= other.spec_amount() ==> r is Ok && r->Ok_0.spec_amount() == self.spec_amount()
                - other.spec_amount() && r->Ok_0.spec_currency() == self.spec_currency(),
    {
        proof {
            use_type_invariant(self);
            use_type_invariant(other);
        }
        if self.currency != other.currency {
            return Err(DddError::validation("Cannot subtract money with different currencies"));
        }
        if self.amount < other.amount {
            return Err(DddError::validation("Insufficient funds"));
        }
        Ok(Money { amount: self.amount - other.amount, currency: self.currency.clone() })
    }
}

impl ValueObject for Money {
    open spec fn spec_valid(&self) -> bool {
        money_ok(self.spec_amount(), self.spec_currency())
    }

    /// Always succeeds: a value of this type is checked when it is made.
    fn validate(&self) -> (r: Result<(), DddError>) {
        proof {
            use_type_invariant(self);
        }
        check_money(self.amount, self.currency.as_str())
    }
}

/// A postal address; every part is required.
#[derive(Debug, Clone)]
pub struct Address {
    street: String,
    city: String,
    state: String,
    postal_code: String,
    country: String,
}

pub open spec fn filled(s: Seq<char>) -> bool {
    trimmed(s).len() > 0
}

impl Address {
    pub closed spec fn parts(&self) -> Seq<Seq<char>> {
        seq![self.street@, self.city@, self.state@, self.postal_code@, self.country@]
    }

    /// Accepts an address whose parts all hold something besides white space.
    pub fn new(
        street: String,
        city: String,
        state: String,
        postal_code: String,
        country: String,
    ) -> (r: Result<Address, DddError>)
        ensures
            r is Ok <==> (filled(street@) && filled(city@) && filled(state@) && filled(
                postal_code@,
            ) && filled(country@)),
            r is Ok ==> r->Ok_0.parts() == seq![street@, city@, state@, postal_code@, country@],
            !filled(street@) ==> is_validation(r, required_message("street"@)),
            filled(street@) && !filled(city@) ==> is_validation(r, required_message("city"@)),
            filled(street@) && filled(city@) && !filled(state@) ==> is_validation(
                r,
                required_message("state"@),
            ),
            filled(street@) && filled(city@) && filled(state@) && !filled(postal_code@)
                ==> is_validation(r, required_message("postal_code"@)),
            filled(street@) && filled(city@) && filled(state@) && filled(postal_code@) && !filled(
                country@,
            ) ==> is_validation(r, required_message("country"@)),
    {
        let address = Address { street, city, state, postal_code, country };
        match address.validate() {
            Ok(()) => Ok(address),
            Err(e) => Err(e),
        }
    }

    pub fn street(&self) -> (r: &str)
        ensures
            r@ == self.parts()[0],
    {
        self.street.as_str()
    }

    pub fn city(&self) -> (r: &str)
        ensures
            r@ == self.parts()[1],
    {
        self.city.as_str()
    }

    pub fn state(&self) -> (r: &str)
        ensures
            r@ == self.parts()[2],
    {
        self.state.as_str()
    }

    pub fn postal_code(&self) -> (r: &str)
        ensures
            r@ == self.parts()[3],
    {
        self.postal_code.as_str()
    }

    pub fn country(&self) -> (r: &str)
        ensures
            r@ == self.parts()[4],
    {
        self.country.as_str()
    }
}

impl ValueObject for Address {
    open spec fn spec_valid(&self) -> bool {
        &&& filled(self.parts()[0])
        &&& filled(self.parts()[1])
        &&& filled(self.parts()[2])
        &&& filled(self.parts()[3])
        &&& filled(self.parts()[4])
    }

    fn validate(&self) -> (r: Result<(), DddError>)
        ensures
            !filled(self.parts()[0]) ==> is_validation(r, required_message("street"@)),
            filled(self.parts()[0]) && !filled(self.parts()[1]) ==> is_validation(
                r,
                required_message("city"@),
            ),
            filled(self.parts()[0]) && filled(self.parts()[1]) && !filled(self.parts()[2])
                ==> is_validation(r, required_message("state"@)),
            filled(self.parts()[0]) && filled(self.parts()[1]) && filled(self.parts()[2])
                && !filled(self.parts()[3]) ==> is_validation(r, required_message("postal_code"@)),
            filled(self.parts()[0]) && filled(self.parts()[1]) && filled(self.parts()[2])
                && filled(self.parts()[3]) && !filled(self.parts()[4]) ==> is_validation(
                r,
                required_message("country"@),
            ),
    {
        match EntityValidator::validate_required("street", Some(self.street.as_str())) {
            Err(e) => return Err(e),
            Ok(()) => {},
        }
        match EntityValidator::validate_required("city", Some(self.city.as_str())) {
            Err(e) => return Err(e),
            Ok(()) => {},
        }
        match EntityValidator::validate_required("state", Some(self.state.as_str())) {
            Err(e) => return Err(e),
            Ok(()) => {},
        }
        match EntityValidator::validate_required("postal_code", Some(self.postal_code.as_str())) {
            Err(e) => return Err(e),
            Ok(()) => {},
        }
        match EntityValidator::validate_required("country", Some(self.country.as_str())) {
            Err(e) => return Err(e),
            Ok(()) => {},
        }
        Ok(())
    }
}

/// A whole percentage, from 0 to 100.
#[derive(Debug, Clone, Copy)]
pub struct Percentage {
    value: u8,
}

impl Percentage {
    pub closed spec fn spec_value(&self) -> u8 {
        self.value
    }

    pub fn new(value: u8) -> (r: Result<Percentage, DddError>)
        ensures
            r is Ok <==> value <= 100,
            r is Ok ==> r->Ok_0.spec_value() == value,
            value > 100 ==> is_validation(r, "Percentage cannot exceed 100"@),
    {
        let p = Percentage { value };
        match p.validate() {
            Ok(()) => Ok(p),
            Err(e) => Err(e),
        }
    }

    pub fn value(&self) -> (r: u8)
        ensures
            r == self.spec_value(),
    {
        self.value
    }
}

impl ValueObject for Percentage {
    open spec fn spec_valid(&self) -> bool {
        self.spec_value() <= 100
    }

    fn validate(&self) -> (r: Result<(), DddError>)
        ensures
            r is Err ==> is_validation(r, "Percentage cannot exceed 100"@),
    {
        if self.value > 100 {
            return Err(DddError::validation("Percentage cannot exceed 100"));
        }
        Ok(())
    }
}

} // verus!
