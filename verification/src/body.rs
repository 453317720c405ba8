//! The buffered request body: reading it and rewriting its model.

use vstd::prelude::*;

use crate::config::{RouteConfig, Tier};
use crate::error::{RouteError, RouteFault};
use crate::json::{
    json_bytes, json_from_slice, json_outcome, json_to_vec, law_set_field,
    law_setting_touches_one_place, lemma_find_field_at, lemma_object_view,
    lemma_set_field_keeps_plain, parsed_json, set_text_field, with_field, Json, JsonTree, Member,
    RAW_VALUE_NAME,
};

verus! {

/// View of an optional byte string.
pub open spec fn opt_bytes(body: Option<Vec<u8>>) -> Option<Seq<u8>> {
    match body {
        Some(bytes) => Some(bytes@),
        None => None,
    }
}

/// View of an optional slice of bytes.
pub open spec fn opt_slice(body: Option<&[u8]>) -> Option<Seq<u8>> {
    match body {
        Some(bytes) => Some(bytes@),
        None => None,
    }
}

/// Why there is nothing to parse in a body.
pub open spec fn body_fault(body: Option<Seq<u8>>) -> Option<RouteFault> {
    match body {
        None => Some(RouteFault::Body("missing"@)),
        Some(bytes) => if bytes.len() == 0 {
            Some(RouteFault::Body("empty"@))
        } else {
            None
        },
    }
}

/// The document in a body that parses to `parsed`.
pub open spec fn accepted(parsed: Result<JsonTree, Seq<char>>) -> Result<JsonTree, RouteFault> {
    match parsed {
        Ok(tree) => Ok(tree),
        Err(text) => Err(RouteFault::Json(text)),
    }
}

/// The document in a body.
pub open spec fn parsed_body(body: Option<Seq<u8>>) -> Result<JsonTree, RouteFault> {
    match body_fault(body) {
        Some(fault) => Err(fault),
        None => accepted(parsed_json(body->0)),
    }
}

/// View of an outcome that carries a document.
pub open spec fn document(outcome: Result<Json, RouteError>) -> Result<JsonTree, RouteFault> {
    match outcome {
        Ok(value) => Ok(value@),
        Err(err) => Err(err@),
    }
}

/// The bytes of a body that has any.
pub fn body_bytes<'a>(body: Option<&'a [u8]>) -> (bytes: Result<&'a [u8], RouteError>)
    ensures
        match body_fault(opt_slice(body)) {
            Some(fault) => bytes matches Err(err) && err@ == fault,
            None => bytes matches Ok(bytes) && Some(bytes@) == opt_slice(body),
        },
{
    match body {
        None => Err(RouteError::Body("missing")),
        Some(bytes) => {
            if bytes.len() == 0 {
                return Err(RouteError::Body("empty"));
            }
            Ok(bytes)
        },
    }
}

/// The document that a body parsed to.
pub fn accept_json(parsed: Result<Json, String>) -> (outcome: Result<Json, RouteError>)
    ensures
        document(outcome) == accepted(json_outcome(parsed)),
{
    match parsed {
        Ok(value) => Ok(value),
        Err(text) => Err(RouteError::Json(text)),
    }
}

/// Parses a body as JSON.
pub fn parse_body(body: Option<&[u8]>) -> (outcome: Result<Json, RouteError>)
    ensures
        document(outcome) == parsed_body(opt_slice(body)),
        outcome matches Ok(value) ==> value@.has_unique_names(),
{
    match body_bytes(body) {
        Ok(bytes) => accept_json(json_from_slice(bytes)),
        Err(err) => Err(err),
    }
}

/// A document with its `model` field set; only an object has one.
pub open spec fn with_model(value: JsonTree, model: Seq<char>) -> Result<JsonTree, RouteFault> {
    match value {
        JsonTree::Object(fields) => Ok(
            JsonTree::Object(with_field(fields, "model"@, JsonTree::Text(model))),
        ),
        _ => Err(RouteFault::Body("not an object"@)),
    }
}

/// Sets the `model` field of a document.
pub fn set_model(value: Json, model: &str) -> (outcome: Result<Json, RouteError>)
    ensures
        document(outcome) == with_model(value@, model@),
{
    match value {
        Json::Object(mut fields) => {
            proof {
                lemma_object_view(fields);
            }
            set_text_field(&mut fields, "model", model);
            proof {
                lemma_object_view(fields);
            }
            Ok(Json::Object(fields))
        },
        _ => Err(RouteError::Body("not an object")),
    }
}

/// Rendering of a document with its `model` field set.
pub open spec fn rewritten(value: JsonTree, model: Seq<char>) -> Result<Seq<u8>, RouteFault> {
    match with_model(value, model) {
        Ok(tree) => Ok(json_bytes(tree)),
        Err(fault) => Err(fault),
    }
}

/// View of an outcome that carries bytes.
pub open spec fn bytes_outcome(outcome: Result<Vec<u8>, RouteError>) -> Result<
    Seq<u8>,
    RouteFault,
> {
    match outcome {
        Ok(bytes) => Ok(bytes@),
        Err(err) => Err(err@),
    }
}

/// Whether `bytes`, where they parse, are an object that asks for `model` and
/// whose other fields are those of `value`, each reading as it did.
pub open spec fn asks_for(bytes: Seq<u8>, value: JsonTree, model: Seq<char>) -> bool {
    parsed_json(bytes) matches Ok(again) ==> {
        &&& again is Object
        &&& again.text_field("model"@) == Some(model)
        &&& forall|name: Seq<char>|
            name != "model"@ ==> (#[trigger] again.field(name) is Some <==> value.field(
                name,
            ) is Some)
        &&& forall|name: Seq<char>|
            name != "model"@ && again.field(name) is Some ==> (#[trigger] value.field(
                name,
            )->0).reads_as(again.field(name)->0)
    }
}

proof fn lemma_rewrite_reads_back(fields: Seq<Member>, model: Seq<char>, bytes: Seq<u8>)
    requires
        parsed_json(bytes) matches Ok(again) ==> JsonTree::Object(
            with_field(fields, "model"@, JsonTree::Text(model)),
        ).reads_as(again),
    ensures
        asks_for(bytes, JsonTree::Object(fields), model),
{
    let set = with_field(fields, "model"@, JsonTree::Text(model));
    let value = JsonTree::Object(fields);
    if let Ok(again) = parsed_json(bytes) {
        law_set_field(fields, "model"@, JsonTree::Text(model), "model"@);
        let at = lemma_find_field_at(set, "model"@);
        assert(set[at].value.reads_as(again.field("model"@)->0));
        assert forall|name: Seq<char>| name != "model"@ implies (#[trigger] again.field(name) is Some
            <==> value.field(name) is Some) by {
            law_set_field(fields, "model"@, JsonTree::Text(model), name);
            assert(JsonTree::Object(set).field(name) == value.field(name));
        }
        assert forall|name: Seq<char>| name != "model"@ && again.field(name) is Some implies (
        #[trigger] value.field(name)->0).reads_as(again.field(name)->0) by {
            law_set_field(fields, "model"@, JsonTree::Text(model), name);
            assert(JsonTree::Object(set).field(name) == value.field(name));
            let at = lemma_find_field_at(set, name);
            assert(set[at].value.reads_as(again.field(name)->0));
        }
    }
}

/// Sets the `model` field and serializes.
pub fn rewrite_model(body: Json, model: &str) -> (outcome: Result<Vec<u8>, RouteError>)
    ensures
        bytes_outcome(outcome) == rewritten(body@, model@),
        body@.is_plain() ==> (outcome matches Ok(bytes) ==> asks_for(bytes@, body@, model@)),
{
    let ghost before = body@;
    match set_model(body, model) {
        Err(err) => Err(err),
        Ok(value) => match json_to_vec(&value) {
            Err(text) => Err(RouteError::Serialize(text)),
            Ok(bytes) => {
                proof {
                    if before.is_plain() {
                        reveal_strlit("model");
                        reveal_strlit("$serde_json::private::RawValue");
                        assert("model"@.len() != RAW_VALUE_NAME@.len());
                        lemma_set_field_keeps_plain(before->Object_0, "model"@, model@);
                        lemma_rewrite_reads_back(before->Object_0, model@, bytes@);
                    }
                }
                Ok(bytes)
            },
        },
    }
}

/// Rewrites the buffered body to the tier's model and returns the tier's
/// cluster. A body that cannot be rewritten stays as it is.
pub fn rewrite_for_tier(
    config: &RouteConfig,
    body: &mut Option<Vec<u8>>,
    value: Json,
    tier: Tier,
) -> (outcome: Result<String, RouteError>)
    ensures
        match rewritten(value@, config.spec_target(tier).model@) {
            Ok(bytes) => outcome matches Ok(cluster) && cluster@ == config.spec_target(
                tier,
            ).cluster@ && opt_bytes(*final(body)) == Some(bytes) && (value@.is_plain() ==> asks_for(
                bytes,
                value@,
                config.spec_target(tier).model@,
            )),
            Err(fault) => outcome matches Err(err) && err@ == fault && *final(body) == *old(body),
        },
{
    let target = config.target(tier);
    match rewrite_model(value, target.model.as_str()) {
        Err(err) => Err(err),
        Ok(bytes) => {
            *body = Some(bytes);
            Ok(target.cluster.clone())
        },
    }
}

/// A body is refused as missing exactly where there is none, as empty exactly
/// where it has no byte, and as invalid JSON exactly where it does not parse,
/// with the parser's own words; any other body is the document it parses to.
pub proof fn law_bodies_are_read_or_refused(bytes: Seq<u8>, tree: JsonTree, cause: Seq<char>)
    ensures
        parsed_body(None) == Err::<JsonTree, RouteFault>(RouteFault::Body("missing"@)),
        bytes.len() == 0 ==> parsed_body(Some(bytes)) == Err::<JsonTree, RouteFault>(
            RouteFault::Body("empty"@),
        ),
        bytes.len() > 0 && parsed_json(bytes) == Ok::<JsonTree, Seq<char>>(tree) ==> parsed_body(
            Some(bytes),
        ) == Ok::<JsonTree, RouteFault>(tree),
        bytes.len() > 0 && parsed_json(bytes) == Err::<JsonTree, Seq<char>>(cause) ==> parsed_body(
            Some(bytes),
        ) == Err::<JsonTree, RouteFault>(RouteFault::Json(cause)),
{
}

/// Setting the model changes the model and nothing else: the document stays an
/// object, every other name reads as exactly the value it had, and no other
/// field moves or is added. What is no object is refused.
pub proof fn law_only_the_model_changes(value: JsonTree, model: Seq<char>, name: Seq<char>)
    ensures
        value is Object <==> with_model(value, model) is Ok,
        !(value is Object) ==> with_model(value, model) == Err::<JsonTree, RouteFault>(
            RouteFault::Body("not an object"@),
        ),
        with_model(value, model) matches Ok(set) ==> {
            &&& set is Object
            &&& set.field("model"@) == Some(JsonTree::Text(model))
            &&& name != "model"@ ==> set.field(name) == value.field(name)
            &&& forall|i: int|
                0 <= i < value->Object_0.len() && value->Object_0[i].name != "model"@ ==> (
                #[trigger] set->Object_0[i]) == value->Object_0[i]
            &&& set->Object_0.len() == value->Object_0.len() + if value.field("model"@) is None {
                1int
            } else {
                0int
            }
        },
{
    if let JsonTree::Object(fields) = value {
        law_set_field(fields, "model"@, JsonTree::Text(model), name);
        law_setting_touches_one_place(fields, "model"@, JsonTree::Text(model));
    }
}

/// A rewritten body is the rendering of the document in which the model, and
/// nothing else, was set: two documents that differ in another name are rendered
/// from documents that still differ there.
pub proof fn law_rewriting_renders_the_changed_document(value: JsonTree, model: Seq<char>) -> (set:
    JsonTree)
    requires
        value is Object,
    ensures
        rewritten(value, model) == Ok::<Seq<u8>, RouteFault>(json_bytes(set)),
        set is Object,
        set.field("model"@) == Some(JsonTree::Text(model)),
        forall|name: Seq<char>| name != "model"@ ==> #[trigger] set.field(name) == value.field(name),
{
    let fields = value->Object_0;
    let set = JsonTree::Object(with_field(fields, "model"@, JsonTree::Text(model)));
    law_set_field(fields, "model"@, JsonTree::Text(model), "model"@);
    assert forall|name: Seq<char>| name != "model"@ implies #[trigger] set.field(name)
        == value.field(name) by {
        law_set_field(fields, "model"@, JsonTree::Text(model), name);
    }
    set
}

/// A call that sets the model succeeds exactly on objects, and changes the model
/// and nothing else.
pub proof fn law_set_model_sets_only_the_model(
    value: Json,
    model: &str,
    outcome: Result<Json, RouteError>,
    name: Seq<char>,
)
    requires
        call_ensures(set_model, (value, model), outcome),
    ensures
        outcome is Ok <==> value is Object,
        outcome matches Ok(set) ==> set@.field("model"@) == Some(JsonTree::Text(model@)),
        outcome matches Ok(set) ==> name != "model"@ ==> set@.field(name) == value@.field(name),
        outcome matches Err(err) ==> err@ == RouteFault::Body("not an object"@),
{
    law_only_the_model_changes(value@, model@, name);
}

/// Bytes that ask for a model and parse are an object with that model, which has
/// every other name of the document, no further one, and each reading as it did.
pub proof fn law_asking_bytes_read_as_the_document(
    bytes: Seq<u8>,
    value: JsonTree,
    model: Seq<char>,
    again: JsonTree,
    name: Seq<char>,
)
    requires
        asks_for(bytes, value, model),
        parsed_json(bytes) == Ok::<JsonTree, Seq<char>>(again),
    ensures
        again is Object,
        again.field("model"@) == Some(JsonTree::Text(model)),
        name != "model"@ ==> (again.field(name) is Some <==> value.field(name) is Some),
        name != "model"@ && value.field(name) is Some ==> value.field(name)->0.reads_as(
            again.field(name)->0,
        ),
{
}

} // verus!
