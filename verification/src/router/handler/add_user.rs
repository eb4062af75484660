use vstd::prelude::*;

use crate::state::{fresh_sync_data, public_key_parse, PubkeyRegistry, PublicKey, PublicKeySyncData};

verus! {

/// The error shown when the form's public key does not parse.
pub const INVALID_PUBLIC_KEY_MESSAGE: &'static str = "Invalid public key.";

/// The error shown when the form's public key is already registered.
pub const PUBLIC_KEY_EXISTS_MESSAGE: &'static str = "Public key already exists.";

/// The form that adds a user.
pub struct AddUserForm {
    pub public_key: String,
}

/// What the add-user page shows: the form, with an error where there is one.
pub struct AddUserTemplate {
    pub error: Option<&'static str>,
}

impl Default for AddUserTemplate {
    fn default() -> (r: Self)
        ensures
            r.error is None,
    {
        AddUserTemplate { error: None }
    }
}

/// The answer to the add-user form.
pub enum AddUserResponse {
    /// The form again, with an error.
    Form(AddUserTemplate),
    /// Back to the dashboard.
    RedirectToDashboard,
}

/// What the add-user form does to the registered keys.
pub enum AddUserOutcome {
    /// The key was registered.
    Added,
    /// The key does not parse.
    InvalidPublicKey,
    /// The key was registered already.
    AlreadyExists,
}

/// The outcome of the add-user form with `input` on the registered keys
/// `users`, and the keys registered afterwards.
pub open spec fn add_user_effect(users: Map<Seq<u8>, PublicKeySyncData>, input: Seq<char>) -> (
    AddUserOutcome,
    Map<Seq<u8>, PublicKeySyncData>,
) {
    match public_key_parse(input) {
        None => (AddUserOutcome::InvalidPublicKey, users),
        Some(key) => if users.dom().contains(key) {
            (AddUserOutcome::AlreadyExists, users)
        } else {
            (AddUserOutcome::Added, users.insert(key, fresh_sync_data()))
        },
    }
}

/// The answer to each outcome of the add-user form.
pub open spec fn add_user_response(outcome: AddUserOutcome) -> AddUserResponse {
    match outcome {
        AddUserOutcome::Added => AddUserResponse::RedirectToDashboard,
        AddUserOutcome::InvalidPublicKey => AddUserResponse::Form(
            AddUserTemplate { error: Some(INVALID_PUBLIC_KEY_MESSAGE) },
        ),
        AddUserOutcome::AlreadyExists => AddUserResponse::Form(
            AddUserTemplate { error: Some(PUBLIC_KEY_EXISTS_MESSAGE) },
        ),
    }
}

/// The add-user page, without error.
pub fn get() -> (r: AddUserTemplate)
    ensures
        r.error is None,
{
    AddUserTemplate::default()
}

/// Handles the add-user form: a key that does not parse and a key already
/// registered are answered with the form and an error and change nothing;
/// a new key is registered with fresh synchronisation data, and the answer
/// goes back to the dashboard.
pub fn post(state: &mut PubkeyRegistry, form: AddUserForm) -> (r: AddUserResponse)
    ensures
        r == add_user_response(add_user_effect(old(state)@, form.public_key@).0),
        final(state)@ == add_user_effect(old(state)@, form.public_key@).1,
{
    let public_key = match PublicKey::parse(form.public_key.as_str()) {
        Some(key) => key,
        None => {
            return AddUserResponse::Form(AddUserTemplate { error: Some(INVALID_PUBLIC_KEY_MESSAGE) });
        },
    };
    if state.insert_new(public_key, PublicKeySyncData::default()) {
        AddUserResponse::RedirectToDashboard
    } else {
        AddUserResponse::Form(AddUserTemplate { error: Some(PUBLIC_KEY_EXISTS_MESSAGE) })
    }
}


/// Submitting the same key twice: once it was added, the second submission
/// is answered that the key exists and changes nothing; where the first was
/// refused, the second is refused alike.
pub proof fn law_add_user_twice(users: Map<Seq<u8>, PublicKeySyncData>, input: Seq<char>)
    ensures
        ({
            let (first, after) = add_user_effect(users, input);
            let (second, again) = add_user_effect(after, input);
            &&& first is Added ==> second is AlreadyExists
            &&& !(first is Added) ==> second == first
            &&& again == after
        }),
{
}

/// The add-user form never removes or changes a registered key, and only the
/// submitted key can be added.
pub proof fn law_add_user_keeps_others(
    users: Map<Seq<u8>, PublicKeySyncData>,
    input: Seq<char>,
    other: Seq<u8>,
)
    requires
        public_key_parse(input) != Some(other),
    ensures
        add_user_effect(users, input).1.dom().contains(other) == users.dom().contains(other),
        users.dom().contains(other) ==> add_user_effect(users, input).1[other] == users[other],
{
}

/// A key once registered stays registered with its data, whatever is
/// submitted.
pub proof fn law_registered_keys_stay(
    users: Map<Seq<u8>, PublicKeySyncData>,
    input: Seq<char>,
    key: Seq<u8>,
)
    requires
        users.dom().contains(key),
    ensures
        add_user_effect(users, input).1.dom().contains(key),
        add_user_effect(users, input).1[key] == users[key],
{
}


/// A key that parses and is not registered yet is added: the answer is
/// `Added`, and the registry afterwards is the one before with that key and
/// fresh synchronisation data, nothing else changed.
pub proof fn law_new_key_is_added(
    users: Map<Seq<u8>, PublicKeySyncData>,
    input: Seq<char>,
    key: Seq<u8>,
)
    requires
        public_key_parse(input) == Some(key),
        !users.dom().contains(key),
    ensures
        add_user_effect(users, input).0 is Added,
        add_user_effect(users, input).1 == users.insert(key, fresh_sync_data()),
        add_user_effect(users, input).1.dom() == users.dom().insert(key),
        add_user_effect(users, input).1[key] == fresh_sync_data(),
{
}

/// The form is refused as existing exactly when its key parses to a key
/// already registered, and as invalid exactly when it does not parse.
pub proof fn law_add_user_outcomes(users: Map<Seq<u8>, PublicKeySyncData>, input: Seq<char>)
    ensures
        add_user_effect(users, input).0 is AlreadyExists <==> (public_key_parse(input) is Some
            && users.dom().contains(public_key_parse(input)->0)),
        add_user_effect(users, input).0 is InvalidPublicKey <==> public_key_parse(input) is None,
        add_user_effect(users, input).0 is Added <==> (public_key_parse(input) is Some
            && !users.dom().contains(public_key_parse(input)->0)),
{
}
} // verus!
