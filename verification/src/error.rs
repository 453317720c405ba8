//! Routing failures.

use vstd::prelude::*;
use vstd::string::StringExecFns;

use crate::text::join;

verus! {

/// Why a request could not be routed.
#[derive(Debug, PartialEq, Eq)]
pub enum RouteError {
    /// Request body missing, empty, or not a JSON object.
    Body(&'static str),
    /// Body bytes were not valid JSON.
    Json(String),
    /// Path is not a chat completions endpoint.
    UnsupportedPath,
    /// The body could not be decoded for the classifier.
    Translation(String),
    /// The rewritten body could not be serialized.
    Serialize(String),
    /// No client to call the judge with.
    MissingSubrequestClient,
    /// The judge callout failed.
    Judge(String),
    /// The classifier run failed.
    Run(String),
    /// The classifier ended without a routed decision.
    NoDecision,
    /// The decision named neither tier.
    UnknownTier(String),
}

/// Mathematical [`RouteError`].
pub enum RouteFault {
    Body(Seq<char>),
    Json(Seq<char>),
    UnsupportedPath,
    Translation(Seq<char>),
    Serialize(Seq<char>),
    MissingSubrequestClient,
    Judge(Seq<char>),
    Run(Seq<char>),
    NoDecision,
    UnknownTier(Seq<char>),
}

impl View for RouteError {
    type V = RouteFault;

    open spec fn view(&self) -> RouteFault {
        match self {
            RouteError::Body(what) => RouteFault::Body(what@),
            RouteError::Json(text) => RouteFault::Json(text@),
            RouteError::UnsupportedPath => RouteFault::UnsupportedPath,
            RouteError::Translation(text) => RouteFault::Translation(text@),
            RouteError::Serialize(text) => RouteFault::Serialize(text@),
            RouteError::MissingSubrequestClient => RouteFault::MissingSubrequestClient,
            RouteError::Judge(text) => RouteFault::Judge(text@),
            RouteError::Run(text) => RouteFault::Run(text@),
            RouteError::NoDecision => RouteFault::NoDecision,
            RouteError::UnknownTier(tag) => RouteFault::UnknownTier(tag@),
        }
    }
}

impl RouteFault {
    /// Rendered cause.
    pub open spec fn message(self) -> Seq<char> {
        match self {
            RouteFault::Body(what) => "request body "@ + what,
            RouteFault::Json(text) => "invalid JSON: "@ + text,
            RouteFault::UnsupportedPath => "unsupported path (only /chat/completions)"@,
            RouteFault::Translation(text) => "translation failed: "@ + text,
            RouteFault::Serialize(text) => "serialize failed: "@ + text,
            RouteFault::MissingSubrequestClient => "subrequest client unavailable"@,
            RouteFault::Judge(text) => "judge callout failed: "@ + text,
            RouteFault::Run(text) => "switchyard run failed: "@ + text,
            RouteFault::NoDecision => "no routing decision"@,
            RouteFault::UnknownTier(tag) => "unknown tier '"@ + tag + "'"@,
        }
    }

    /// Whether the failed request is a chat request that a fallback tier may be
    /// applied to: the body was readable and only the decision is missing.
    pub open spec fn may_apply(self) -> bool {
        match self {
            RouteFault::Body(_) => false,
            RouteFault::Json(_) => false,
            RouteFault::UnsupportedPath => false,
            RouteFault::Serialize(_) => false,
            _ => true,
        }
    }
}

impl RouteError {
    /// Renders the cause.
    pub fn message(&self) -> (text: String)
        ensures
            text@ == self@.message(),
    {
        match self {
            RouteError::Body(what) => join("request body ", what),
            RouteError::Json(text) => join("invalid JSON: ", text.as_str()),
            RouteError::UnsupportedPath => "unsupported path (only /chat/completions)".to_owned(),
            RouteError::Translation(text) => join("translation failed: ", text.as_str()),
            RouteError::Serialize(text) => join("serialize failed: ", text.as_str()),
            RouteError::MissingSubrequestClient => "subrequest client unavailable".to_owned(),
            RouteError::Judge(text) => join("judge callout failed: ", text.as_str()),
            RouteError::Run(text) => join("switchyard run failed: ", text.as_str()),
            RouteError::NoDecision => "no routing decision".to_owned(),
            RouteError::UnknownTier(tag) => join("unknown tier '", tag.as_str()).concat("'"),
        }
    }

    /// Whether a fallback tier may be applied to the failed request.
    pub fn may_apply_failure_tier(&self) -> (may: bool)
        ensures
            may == self@.may_apply(),
    {
        match self {
            RouteError::Body(_) => false,
            RouteError::Json(_) => false,
            RouteError::UnsupportedPath => false,
            RouteError::Serialize(_) => false,
            RouteError::Translation(_) => true,
            RouteError::MissingSubrequestClient => true,
            RouteError::Judge(_) => true,
            RouteError::Run(_) => true,
            RouteError::NoDecision => true,
            RouteError::UnknownTier(_) => true,
        }
    }
}

/// A fallback tier may be applied exactly where only the decision is missing,
/// and the words of the cause have no say in it: never to a request whose body,
/// JSON, path or rendering is at fault, always after any other failure.
pub proof fn law_kind_alone_decides_on_a_fallback(text: Seq<char>)
    ensures
        RouteFault::Translation(text).may_apply(),
        RouteFault::MissingSubrequestClient.may_apply(),
        RouteFault::Judge(text).may_apply(),
        RouteFault::Run(text).may_apply(),
        RouteFault::NoDecision.may_apply(),
        RouteFault::UnknownTier(text).may_apply(),
        !RouteFault::Body(text).may_apply(),
        !RouteFault::Json(text).may_apply(),
        !RouteFault::UnsupportedPath.may_apply(),
        !RouteFault::Serialize(text).may_apply(),
{
}

/// Two failures of one kind are treated alike, whatever they say.
pub proof fn law_words_do_not_change_the_treatment(left: RouteFault, right: RouteFault)
    requires
        left is Body && right is Body || left is Json && right is Json || left is Translation
            && right is Translation || left is Serialize && right is Serialize || left is Judge
            && right is Judge || left is Run && right is Run || left is UnknownTier
            && right is UnknownTier,
    ensures
        left.may_apply() == right.may_apply(),
{
}

/// A rendered cause names what failed and carries the whole text of the cause.
pub proof fn law_messages_carry_the_whole_cause(text: Seq<char>)
    ensures
        RouteFault::Body(text).message() == "request body "@ + text,
        RouteFault::Json(text).message() == "invalid JSON: "@ + text,
        RouteFault::UnsupportedPath.message() == "unsupported path (only /chat/completions)"@,
        RouteFault::Translation(text).message() == "translation failed: "@ + text,
        RouteFault::Serialize(text).message() == "serialize failed: "@ + text,
        RouteFault::MissingSubrequestClient.message() == "subrequest client unavailable"@,
        RouteFault::Judge(text).message() == "judge callout failed: "@ + text,
        RouteFault::Run(text).message() == "switchyard run failed: "@ + text,
        RouteFault::NoDecision.message() == "no routing decision"@,
        RouteFault::UnknownTier(text).message() == "unknown tier '"@ + text + "'"@,
{
}

/// An error shows its own kind and its own text.
pub proof fn law_errors_show_their_kind(what: &'static str, text: String)
    ensures
        RouteError::Body(what)@ == RouteFault::Body(what@),
        RouteError::Json(text)@ == RouteFault::Json(text@),
        RouteError::UnsupportedPath@ == RouteFault::UnsupportedPath,
        RouteError::Translation(text)@ == RouteFault::Translation(text@),
        RouteError::Serialize(text)@ == RouteFault::Serialize(text@),
        RouteError::MissingSubrequestClient@ == RouteFault::MissingSubrequestClient,
        RouteError::Judge(text)@ == RouteFault::Judge(text@),
        RouteError::Run(text)@ == RouteFault::Run(text@),
        RouteError::NoDecision@ == RouteFault::NoDecision,
        RouteError::UnknownTier(text)@ == RouteFault::UnknownTier(text@),
{
}

/// An error lets a fallback tier be applied by its kind alone.
pub proof fn law_error_kind_decides_on_a_fallback(err: &RouteError, may: bool)
    requires
        call_ensures(RouteError::may_apply_failure_tier, (err,), may),
    ensures
        may <==> !(err is Body) && !(err is Json) && !(err is UnsupportedPath) && !(err
            is Serialize),
{
}

} // verus!
