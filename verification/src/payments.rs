//! A registry of payments, keyed by order id. A payment is registered only
//! after the card it names has been confirmed valid by a validation service;
//! the registry decides what to ask, and what to answer from the reply.
//!
//! What a payment holds besides its order id and card is carried through
//! untouched (`D`).

use vstd::prelude::*;
use vstd::string::*;

verus! {

/// A payment: the order it pays, the card, and the rest of the payment.
pub struct Payment<D> {
    pub order_id: String,
    pub card_number: String,
    pub card_owner: String,
    pub details: D,
}

/// A payment, as values.
pub struct PaymentView<D> {
    pub order_id: Seq<char>,
    pub card_number: Seq<char>,
    pub card_owner: Seq<char>,
    pub details: D,
}

impl<D> View for Payment<D> {
    type V = PaymentView<D>;

    open spec fn view(&self) -> PaymentView<D> {
        PaymentView {
            order_id: self.order_id@,
            card_number: self.card_number@,
            card_owner: self.card_owner@,
            details: self.details,
        }
    }
}

/// `b` is a copy of `a`: the same texts, and details cloned from those of `a`.
pub open spec fn is_payment_copy<D: Clone>(a: PaymentView<D>, b: PaymentView<D>) -> bool {
    &&& a.order_id == b.order_id
    &&& a.card_number == b.card_number
    &&& a.card_owner == b.card_owner
    &&& cloned(a.details, b.details)
}

impl<D: Clone> Payment<D> {
    /// A copy of the payment.
    pub fn duplicate(&self) -> (r: Payment<D>)
        ensures
            is_payment_copy(self@, r@),
    {
        Payment {
            order_id: self.order_id.clone(),
            card_number: self.card_number.clone(),
            card_owner: self.card_owner.clone(),
            details: self.details.clone(),
        }
    }
}

/// The card to have validated: its number and its owner.
pub struct Card {
    pub card_number: String,
    pub card_owner: String,
}

/// The status code of a failed request.
pub enum ErrorCode {
    InvalidArgument,
    AlreadyExists,
    Internal,
}

/// Why a payment was refused.
pub enum PaymentError {
    /// The order id is empty.
    EmptyOrderId,
    /// A payment for the order is already registered.
    DuplicateOrderId,
    /// The validation service could not be reached.
    ValidationUnreachable,
    /// The validation service found the card invalid.
    InvalidDetails,
    /// The validation service failed to answer.
    ValidationFailure,
}

/// The status code of each refusal.
pub open spec fn error_code(e: PaymentError) -> ErrorCode {
    match e {
        PaymentError::EmptyOrderId => ErrorCode::InvalidArgument,
        PaymentError::DuplicateOrderId => ErrorCode::AlreadyExists,
        PaymentError::ValidationUnreachable => ErrorCode::Internal,
        PaymentError::InvalidDetails => ErrorCode::InvalidArgument,
        PaymentError::ValidationFailure => ErrorCode::Internal,
    }
}

/// The message of each refusal.
pub open spec fn error_message(e: PaymentError) -> Seq<char> {
    match e {
        PaymentError::EmptyOrderId => "order id must not be empty"@,
        PaymentError::DuplicateOrderId => "order id must be unique"@,
        PaymentError::ValidationUnreachable => "validation unreachable"@,
        PaymentError::InvalidDetails => "payment details are invalid"@,
        PaymentError::ValidationFailure => "validation failure"@,
    }
}

impl PaymentError {
    /// The status code of the refusal.
    pub fn code(&self) -> (c: ErrorCode)
        ensures
            c == error_code(*self),
    {
        match self {
            PaymentError::EmptyOrderId => ErrorCode::InvalidArgument,
            PaymentError::DuplicateOrderId => ErrorCode::AlreadyExists,
            PaymentError::ValidationUnreachable => ErrorCode::Internal,
            PaymentError::InvalidDetails => ErrorCode::InvalidArgument,
            PaymentError::ValidationFailure => ErrorCode::Internal,
        }
    }

    /// The message of the refusal.
    pub fn message(&self) -> (s: String)
        ensures
            s@ == error_message(*self),
    {
        match self {
            PaymentError::EmptyOrderId => String::from_str("order id must not be empty"),
            PaymentError::DuplicateOrderId => String::from_str("order id must be unique"),
            PaymentError::ValidationUnreachable => String::from_str("validation unreachable"),
            PaymentError::InvalidDetails => String::from_str("payment details are invalid"),
            PaymentError::ValidationFailure => String::from_str("validation failure"),
        }
    }
}

/// What came of asking the validation service about a card.
pub enum ValidationOutcome {
    /// No connection to the service.
    Unreachable,
    /// The service answered that the card is valid.
    Valid,
    /// The service answered that the card is not valid.
    Invalid,
    /// The service answered with an error.
    Failed,
}

/// The order ids of the registered payments are pairwise distinct.
pub open spec fn payments_wf<D>(s: Seq<PaymentView<D>>) -> bool {
    forall|i: int, j: int|
        0 <= i < s.len() && 0 <= j < s.len() && i != j ==> (#[trigger] s[i]).order_id != (
        #[trigger] s[j]).order_id
}

/// A payment for order `order_id` is registered.
pub open spec fn has_order<D>(s: Seq<PaymentView<D>>, order_id: Seq<char>) -> bool {
    exists|i: int| 0 <= i < s.len() && (#[trigger] s[i]).order_id == order_id
}

/// The registry's answer before any validation: refuse an empty or a known
/// order id; otherwise the card is to be validated.
pub open spec fn precheck_error<D>(s: Seq<PaymentView<D>>, p: PaymentView<D>) -> Option<
    PaymentError,
> {
    if p.order_id.len() == 0 {
        Some(PaymentError::EmptyOrderId)
    } else if has_order(s, p.order_id) {
        Some(PaymentError::DuplicateOrderId)
    } else {
        None
    }
}

/// The refusal that a validation outcome leads to, if any.
pub open spec fn outcome_error(outcome: ValidationOutcome) -> Option<PaymentError> {
    match outcome {
        ValidationOutcome::Unreachable => Some(PaymentError::ValidationUnreachable),
        ValidationOutcome::Valid => None,
        ValidationOutcome::Invalid => Some(PaymentError::InvalidDetails),
        ValidationOutcome::Failed => Some(PaymentError::ValidationFailure),
    }
}

/// The registered payments, in the order they were registered.
pub struct PaymentRegistry<D> {
    payments: Vec<Payment<D>>,
}

impl<D> View for PaymentRegistry<D> {
    type V = Seq<PaymentView<D>>;

    closed spec fn view(&self) -> Seq<PaymentView<D>> {
        self.payments@.map_values(|p: Payment<D>| p@)
    }
}

impl<D: Clone> PaymentRegistry<D> {
    /// The registry invariant: order ids are pairwise distinct.
    pub open spec fn wf(&self) -> bool {
        payments_wf(self@)
    }

    /// An empty registry.
    pub fn new() -> (r: PaymentRegistry<D>)
        ensures
            r.wf(),
            r@ == Seq::<PaymentView<D>>::empty(),
    {
        let r = PaymentRegistry { payments: Vec::new() };
        assert(r@ =~= Seq::<PaymentView<D>>::empty());
        r
    }

    /// Whether a payment for order `order_id` is registered.
    pub fn has_order(&self, order_id: &String) -> (r: bool)
        ensures
            r == has_order(self@, order_id@),
    {
        let mut i: usize = 0;
        while i < self.payments.len()
            invariant
                i <= self.payments@.len(),
                self@.len() == self.payments@.len(),
                forall|j: int| 0 <= j < i ==> (#[trigger] self@[j]).order_id != order_id@,
            decreases self.payments.len() - i,
        {
            assert(self@[i as int] == self.payments@[i as int]@);
            if self.payments[i].order_id == *order_id {
                return true;
            }
            i = i + 1;
        }
        false
    }

    /// Copies of every registered payment, in the order of registration.
    pub fn list_all_payments(&self) -> (r: Vec<Payment<D>>)
        ensures
            r@.len() == self@.len(),
            forall|j: int| 0 <= j < r@.len() ==> is_payment_copy(#[trigger] self@[j], r@[j]@),
    {
        let mut r: Vec<Payment<D>> = Vec::new();
        let mut i: usize = 0;
        while i < self.payments.len()
            invariant
                i <= self.payments@.len(),
                self@.len() == self.payments@.len(),
                r@.len() == i,
                forall|j: int| 0 <= j < i ==> is_payment_copy(#[trigger] self@[j], r@[j]@),
            decreases self.payments.len() - i,
        {
            assert(self@[i as int] == self.payments@[i as int]@);
            let c = self.payments[i].duplicate();
            r.push(c);
            i = i + 1;
        }
        r
    }

    /// The first step of a payment: refuses an empty or known order id, and
    /// otherwise names the card that the validation service is to check.
    pub fn check_payment(&self, payment: &Payment<D>) -> (r: Result<Card, PaymentError>)
        ensures
            match precheck_error(self@, payment@) {
                Some(e) => r == Err::<Card, PaymentError>(e),
                None => r matches Ok(c) && c.card_number@ == payment.card_number@
                    && c.card_owner@ == payment.card_owner@,
            },
    {
        if payment.order_id.as_str().is_empty() {
            return Err(PaymentError::EmptyOrderId);
        }
        if self.has_order(&payment.order_id) {
            return Err(PaymentError::DuplicateOrderId);
        }
        Ok(Card { card_number: payment.card_number.clone(), card_owner: payment.card_owner.clone() })
    }

    /// The second step of a payment, once the validation service's outcome is
    /// known: a valid card registers the payment and answers a copy of it;
    /// any other outcome registers nothing.
    pub fn complete_payment(&mut self, payment: Payment<D>, outcome: ValidationOutcome) -> (r:
        Result<Payment<D>, PaymentError>)
        requires
            old(self).wf(),
            precheck_error(old(self)@, payment@) is None,
        ensures
            final(self).wf(),
            match outcome_error(outcome) {
                Some(e) => final(self)@ == old(self)@ && r == Err::<Payment<D>, PaymentError>(e),
                None => final(self)@ == old(self)@.push(payment@) && (r matches Ok(p)
                    && is_payment_copy(payment@, p@)),
            },
    {
        match outcome {
            ValidationOutcome::Unreachable => Err(PaymentError::ValidationUnreachable),
            ValidationOutcome::Invalid => Err(PaymentError::InvalidDetails),
            ValidationOutcome::Failed => Err(PaymentError::ValidationFailure),
            ValidationOutcome::Valid => {
                let ghost before = self@;
                let copy = payment.duplicate();
                self.payments.push(payment);
                proof {
                    assert(self@ =~= before.push(payment@));
                    assert forall|i: int, j: int|
                        0 <= i < self@.len() && 0 <= j < self@.len() && i != j implies (
                        #[trigger] self@[i]).order_id != (#[trigger] self@[j]).order_id by {
                        if i == before.len() as int {
                            assert(before[j] == self@[j]);
                        } else if j == before.len() as int {
                            assert(before[i] == self@[i]);
                        } else {
                            assert(before[i] == self@[i]);
                            assert(before[j] == self@[j]);
                        }
                    }
                }
                Ok(copy)
            },
        }
    }
}

/// Only a card confirmed valid leads to a registration.
pub proof fn law_only_valid_registers(outcome: ValidationOutcome)
    ensures
        outcome_error(outcome) is None <==> outcome is Valid,
{
}

/// An empty order id is refused, whatever is registered.
pub proof fn law_empty_order_refused<D>(s: Seq<PaymentView<D>>, p: PaymentView<D>)
    requires
        p.order_id.len() == 0,
    ensures
        precheck_error(s, p) == Some(PaymentError::EmptyOrderId),
{
}

/// Once a payment for an order is registered, every further payment for the
/// same order is refused as a duplicate.
pub proof fn law_no_second_payment<D>(s: Seq<PaymentView<D>>, p: PaymentView<D>, q: PaymentView<D>)
    requires
        q.order_id == p.order_id,
        p.order_id.len() > 0,
    ensures
        precheck_error(s.push(p), q) == Some(PaymentError::DuplicateOrderId),
{
    let t = s.push(p);
    assert(t[s.len() as int].order_id == q.order_id);
}

/// Registering a payment that passed the first step keeps the order ids
/// distinct.
pub proof fn law_registration_keeps_ids_distinct<D>(s: Seq<PaymentView<D>>, p: PaymentView<D>)
    requires
        payments_wf(s),
        precheck_error(s, p) is None,
    ensures
        payments_wf(s.push(p)),
{
    let t = s.push(p);
    assert forall|i: int, j: int|
        0 <= i < t.len() && 0 <= j < t.len() && i != j implies (#[trigger] t[i]).order_id != (
        #[trigger] t[j]).order_id by {
        if i == s.len() as int {
            assert(t[j] == s[j]);
        } else if j == s.len() as int {
            assert(t[i] == s[i]);
        } else {
            assert(t[i] == s[i] && t[j] == s[j]);
        }
    }
}

/// A payment for an order id that is not empty and that no registered
/// payment carries goes on to card validation, whatever the cards, owners
/// and details of the registered payments and of the new one.
pub proof fn law_fresh_order_goes_to_validation<D>(s: Seq<PaymentView<D>>, p: PaymentView<D>)
    requires
        p.order_id.len() > 0,
        forall|i: int| 0 <= i < s.len() ==> (#[trigger] s[i]).order_id != p.order_id,
    ensures
        precheck_error(s, p) is None,
{
}

/// The first step refuses a payment only for its order id: an empty one, or
/// one that a registered payment already carries. Any other payment for the
/// same order id, with another card, owner or details, gets the same answer.
pub proof fn law_precheck_reads_only_order_id<D>(
    s: Seq<PaymentView<D>>,
    p: PaymentView<D>,
    q: PaymentView<D>,
)
    requires
        q.order_id == p.order_id,
    ensures
        precheck_error(s, p) == precheck_error(s, q),
        precheck_error(s, p) is Some <==> (p.order_id.len() == 0 || exists|i: int|
            0 <= i < s.len() && (#[trigger] s[i]).order_id == p.order_id),
{
}

} // verus!
