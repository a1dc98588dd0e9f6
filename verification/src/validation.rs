//! The rules that decide whether a message may be sent, and where to.
//!
//! A message of a kind that names a user must carry a user id or an anonymous
//! id. The context of a message must not use a reserved key. A message that
//! passes both rules is assigned the path of its kind.

use crate::message::{Kind, Message, MessageView};
use crate::text::str_eq;
use crate::value::{Entries, Object};
use vstd::prelude::*;

verus! {

/// Why a message may not be sent.
#[derive(Clone, Copy, Debug, PartialEq, Eq, Structural)]
pub enum ValidationError {
    /// The message is of a kind that names a user, and has neither a user id
    /// nor an anonymous id.
    MissingIdentity,
    /// A key of the message's context is reserved.
    ReservedKeywordConflict,
}

/// The keys that a context must not use: the library writes them itself.
pub open spec fn reserved_keys() -> Set<Seq<char>> {
    set!["library"@]
}

/// Whether `key` is reserved.
pub open spec fn is_reserved(key: Seq<char>) -> bool {
    reserved_keys().contains(key)
}

/// Whether some entry of `entries` has a reserved key.
pub open spec fn has_reserved_key(entries: Entries) -> bool {
    exists|i: int| 0 <= i < entries.len() && is_reserved((#[trigger] entries[i]).0)
}

/// Whether a message of kind `kind` must name a user.
pub open spec fn requires_identity(kind: Kind) -> bool {
    kind != Kind::Alias && kind != Kind::Batch
}

/// The path under the data plane to which messages of kind `kind` go.
pub open spec fn path_of(kind: Kind) -> Seq<char> {
    match kind {
        Kind::Identify => "/v1/identify"@,
        Kind::Track => "/v1/track"@,
        Kind::Page => "/v1/page"@,
        Kind::Screen => "/v1/screen"@,
        Kind::Group => "/v1/group"@,
        Kind::Alias => "/v1/alias"@,
        Kind::Batch => "/v1/batch"@,
    }
}

/// The rule that `message` breaks, if it breaks one. The identity rule is
/// looked at first: a message that breaks both is missing its identity.
pub open spec fn violation(message: MessageView) -> Option<ValidationError> {
    if requires_identity(message.kind()) && !message.has_identity() {
        Some(ValidationError::MissingIdentity)
    } else if message.context() matches Some(context) && has_reserved_key(context) {
        Some(ValidationError::ReservedKeywordConflict)
    } else {
        None
    }
}

/// What validating `message` gives: the path of its kind, or the rule that it
/// breaks.
pub open spec fn validation(message: MessageView) -> Result<Seq<char>, ValidationError> {
    match violation(message) {
        Some(error) => Err(error),
        None => Ok(path_of(message.kind())),
    }
}

/// The text that reports `violation`; empty where there is none.
pub open spec fn violation_text(violation: Option<ValidationError>) -> Seq<char> {
    match violation {
        Some(error) => error.text(),
        None => Seq::empty(),
    }
}

impl ValidationError {
    /// The text that reports the error.
    pub open spec fn text(self) -> Seq<char> {
        match self {
            ValidationError::MissingIdentity => "Either of user_id or anonymous_id is required"@,
            ValidationError::ReservedKeywordConflict => "Reserve keyword present in context"@,
        }
    }

    /// The text that reports the error.
    pub fn message(&self) -> (text: &'static str)
        ensures
            text@ == self.text(),
    {
        match self {
            ValidationError::MissingIdentity => "Either of user_id or anonymous_id is required",
            ValidationError::ReservedKeywordConflict => "Reserve keyword present in context",
        }
    }
}

impl Kind {
    /// Whether a message of this kind must name a user: all do but an alias
    /// and a batch.
    pub fn requires_identity(self) -> (required: bool)
        ensures
            required == requires_identity(self),
    {
        match self {
            Kind::Alias | Kind::Batch => false,
            _ => true,
        }
    }

    /// The path under the data plane to which messages of this kind go.
    pub fn path(self) -> (path: &'static str)
        ensures
            path@ == path_of(self),
    {
        match self {
            Kind::Identify => "/v1/identify",
            Kind::Track => "/v1/track",
            Kind::Page => "/v1/page",
            Kind::Screen => "/v1/screen",
            Kind::Group => "/v1/group",
            Kind::Alias => "/v1/alias",
            Kind::Batch => "/v1/batch",
        }
    }
}

/// Whether `key` is reserved.
pub fn is_reserved_key(key: &str) -> (reserved: bool)
    ensures
        reserved == is_reserved(key@),
{
    str_eq(key, "library")
}

/// Whether a key of `context` is reserved.
pub fn check_reserved_keywords_conflict(context: &Object) -> (conflict: bool)
    ensures
        conflict == has_reserved_key(context@),
{
    let n = context.len();
    let mut i: usize = 0;
    while i < n
        invariant
            i <= n,
            n == context@.len(),
            forall|j: int| 0 <= j < i ==> !is_reserved((#[trigger] context@[j]).0),
        decreases n - i,
    {
        match context.entry(i) {
            Some((key, _)) => {
                if is_reserved_key(key.as_str()) {
                    assert(is_reserved(context@[i as int].0));
                    return true;
                }
            },
            None => {},
        }
        i += 1;
    }
    false
}

/// Whether `message` names a user, and its own context.
fn identity_and_context(message: &Message) -> (parts: (bool, &Option<Object>))
    ensures
        parts.0 == message@.has_identity(),
        crate::message::opt_entries(*parts.1) == message@.context(),
{
    match message {
        Message::Identify(e) => (e.user_id.is_some() || e.anonymous_id.is_some(), &e.context),
        Message::Track(e) => (e.user_id.is_some() || e.anonymous_id.is_some(), &e.context),
        Message::Page(e) => (e.user_id.is_some() || e.anonymous_id.is_some(), &e.context),
        Message::Screen(e) => (e.user_id.is_some() || e.anonymous_id.is_some(), &e.context),
        Message::Group(e) => (e.user_id.is_some() || e.anonymous_id.is_some(), &e.context),
        Message::Alias(e) => (e.user_id.is_some() || e.anonymous_id.is_some(), &e.context),
        Message::Batch(b) => (false, &b.context),
    }
}

/// The rule that `message` breaks, if it breaks one.
pub fn check(message: &Message) -> (found: Option<ValidationError>)
    ensures
        found == violation(message@),
{
    let (identified, context) = identity_and_context(message);
    if message.kind().requires_identity() && !identified {
        return Some(ValidationError::MissingIdentity);
    }
    match context {
        Some(entries) => {
            if check_reserved_keywords_conflict(entries) {
                return Some(ValidationError::ReservedKeywordConflict);
            }
        },
        None => {},
    }
    None
}

/// Whether `result` is what validating `message` gives.
pub open spec fn is_validation_of(
    message: MessageView,
    result: Result<&'static str, ValidationError>,
) -> bool {
    match result {
        Ok(path) => validation(message) == Ok::<Seq<char>, ValidationError>(path@),
        Err(error) => validation(message) == Err::<Seq<char>, ValidationError>(error),
    }
}

/// Validates `message`: gives the path of its kind, or the rule that it
/// breaks.
pub fn validate(message: &Message) -> (result: Result<&'static str, ValidationError>)
    ensures
        is_validation_of(message@, result),
{
    match check(message) {
        Some(error) => Err(error),
        None => Ok(message.kind().path()),
    }
}

/// The text that reports the rule that `message` breaks, empty if it breaks
/// none, and the path of its kind, which is given in either case.
pub fn prepare_message(message: &Message) -> (prepared: (String, &'static str))
    ensures
        prepared.0@ == violation_text(violation(message@)),
        prepared.1@ == path_of(message@.kind()),
{
    let path = message.kind().path();
    let error_msg = match check(message) {
        Some(error) => error.message().to_owned(),
        None => String::new(),
    };
    (error_msg, path)
}

/// Whether `message` keeps both rules: it names a user where its kind must,
/// and its context uses no reserved key.
pub open spec fn well_formed(message: MessageView) -> bool {
    &&& requires_identity(message.kind()) ==> message.has_identity()
    &&& message.context() matches Some(context) ==> !has_reserved_key(context)
}

/// A message of a kind that must name a user, and that has neither a user id
/// nor an anonymous id, is refused for its missing identity, whatever its
/// context holds.
pub proof fn lemma_missing_identity(message: MessageView)
    requires
        message.kind() != Kind::Alias,
        message.kind() != Kind::Batch,
        !message.has_identity(),
    ensures
        validation(message) == Err::<Seq<char>, ValidationError>(
            ValidationError::MissingIdentity,
        ),
{
}

/// A message whose context uses a reserved key is refused for that key,
/// unless it is already refused for its missing identity.
pub proof fn lemma_reserved_key_conflict(message: MessageView)
    requires
        message.context() matches Some(context) && has_reserved_key(context),
        requires_identity(message.kind()) ==> message.has_identity(),
    ensures
        validation(message) == Err::<Seq<char>, ValidationError>(
            ValidationError::ReservedKeywordConflict,
        ),
{
}

/// A message is given a path exactly if it keeps both rules, and the path is
/// then the one of its kind.
pub proof fn lemma_well_formed_path(message: MessageView)
    ensures
        validation(message) is Ok <==> well_formed(message),
        well_formed(message) ==> validation(message) == Ok::<Seq<char>, ValidationError>(
            path_of(message.kind()),
        ),
{
}

/// An alias and a batch need no identity: without a context either is given
/// its path.
pub proof fn lemma_alias_and_batch_need_no_identity(message: MessageView)
    requires
        message.kind() == Kind::Alias || message.kind() == Kind::Batch,
        message.context() is None,
    ensures
        validation(message) == Ok::<Seq<char>, ValidationError>(path_of(message.kind())),
{
}

/// Validating one message twice gives the same result both times.
pub proof fn lemma_validation_repeats(
    message: MessageView,
    first: Result<&'static str, ValidationError>,
    second: Result<&'static str, ValidationError>,
)
    requires
        is_validation_of(message, first),
        is_validation_of(message, second),
    ensures
        first matches Ok(path) ==> (second matches Ok(again) && again@ == path@),
        first matches Err(error) ==> second == Err::<&'static str, ValidationError>(error),
{
}

/// No two kinds share a path.
pub proof fn lemma_paths_differ(a: Kind, b: Kind)
    requires
        a != b,
    ensures
        path_of(a) != path_of(b),
{
    reveal_strlit("/v1/identify");
    reveal_strlit("/v1/track");
    reveal_strlit("/v1/page");
    reveal_strlit("/v1/screen");
    reveal_strlit("/v1/group");
    reveal_strlit("/v1/alias");
    reveal_strlit("/v1/batch");
    assert(path_of(a)[4] != path_of(b)[4]);
}

} // verus!
