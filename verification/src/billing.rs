//! Billing decisions behind the Stripe routes: which Stripe customer a user
//! is billed as, and what a Stripe webhook event asks of the service.

use vstd::prelude::*;
use vstd::string::*;

verus! {

/// An HTTP error answer: its status class and its message.
#[derive(Debug)]
pub enum HttpFailure {
    BadRequest(String),
    InternalServerError(String),
}

/// How a user's Stripe customer is found.
#[derive(Debug)]
pub enum CustomerPlan {
    /// The user already has this customer id.
    UseExisting(String),
    /// A customer is to be created for this email, and stored for the user.
    CreateFor(String),
}

/// Whether a stored customer id is to be used: it exists and is not empty.
pub open spec fn usable_customer_id(stored: Option<Option<String>>) -> bool {
    stored matches Some(Some(id)) && id@.len() > 0
}

/// The Stripe customer of a user whose row (if any) holds the customer id
/// `stored`, and whose email is `email`: a stored non-empty id is used;
/// otherwise a customer is created for the email, and a user without an
/// email is refused with "User email is required".
pub fn plan_customer(stored: Option<Option<String>>, email: Option<String>) -> (r: Result<
    CustomerPlan,
    HttpFailure,
>)
    ensures
        usable_customer_id(stored) ==> (r matches Ok(CustomerPlan::UseExisting(id))
            && stored matches Some(Some(s)) && id@ == s@),
        !usable_customer_id(stored) && email is Some ==> (r matches Ok(CustomerPlan::CreateFor(e))
            && e@ == email->0@),
        !usable_customer_id(stored) && email is None ==> (r matches Err(
            HttpFailure::BadRequest(m),
        ) && m@ == "User email is required"@),
{
    let customer_id = match stored {
        Some(id) => id,
        None => None,
    };
    match customer_id {
        Some(id) => {
            if !id.as_str().is_empty() {
                return Ok(CustomerPlan::UseExisting(id));
            }
        },
        None => {},
    }
    match email {
        Some(e) => Ok(CustomerPlan::CreateFor(e)),
        None => Err(HttpFailure::BadRequest(String::from_str("User email is required"))),
    }
}

/// The kinds of Stripe events that the webhook tells apart.
#[derive(Clone, Copy, Debug, PartialEq, Eq, Structural)]
pub enum WebhookEventKind {
    SetupIntentCanceled,
    SetupIntentCreated,
    SetupIntentRequiresAction,
    SetupIntentSetupFailed,
    SetupIntentSucceeded,
    Other,
}

/// What the service does for a webhook event.
#[derive(Debug)]
pub enum WebhookAction {
    /// Move this customer's user to the pay-as-you-go tier.
    UpgradeCustomer(String),
    /// Nothing beyond acknowledging the event.
    Acknowledge,
}

/// The action for an event of kind `kind` whose object is a setup intent
/// with customer `setup_intent` (`Some(customer id)` or `Some(None)`), or is
/// no setup intent (`None`): a succeeded setup intent upgrades its customer,
/// and one without a customer is refused with "No customer ID found"; every
/// other event is acknowledged.
pub fn webhook_action(kind: WebhookEventKind, setup_intent: Option<Option<String>>) -> (r: Result<
    WebhookAction,
    HttpFailure,
>)
    ensures
        kind == WebhookEventKind::SetupIntentSucceeded ==> (setup_intent matches Some(Some(c))
            ==> (r matches Ok(WebhookAction::UpgradeCustomer(id)) && id@ == c@)),
        kind == WebhookEventKind::SetupIntentSucceeded ==> (setup_intent matches Some(None) ==> (
        r matches Err(HttpFailure::BadRequest(m)) && m@ == "No customer ID found"@)),
        !(kind == WebhookEventKind::SetupIntentSucceeded && setup_intent is Some) ==> (r matches Ok(
            WebhookAction::Acknowledge,
        )),
{
    match kind {
        WebhookEventKind::SetupIntentSucceeded => match setup_intent {
            Some(Some(customer)) => Ok(WebhookAction::UpgradeCustomer(customer)),
            Some(None) => Err(HttpFailure::BadRequest(String::from_str("No customer ID found"))),
            None => Ok(WebhookAction::Acknowledge),
        },
        _ => Ok(WebhookAction::Acknowledge),
    }
}

}
