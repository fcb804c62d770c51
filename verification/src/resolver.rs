//! The reference resolver: which subschema a `$ref` names.

use vstd::prelude::*;
use vstd::string::*;
use crate::context::Context;
use crate::error::{ErrorModel, ValidationError};
use crate::foreign::{
    percent_decode, percent_decoded, str_eq, url_fragment, url_fragment_part, url_join, url_join_result, url_parse,
    url_parse_result, url_strip_fragment, url_without_fragment,
};
use crate::json::{json_views, member_views, Json, JsonValue};
use crate::metaschema::{build_metaschema, metaschema_model};
use crate::pointer::pointer_model;
use crate::schemas::{draft_from_url, draft_of_url, Draft};
use crate::text::concat;

verus! {

/// The base URL of a schema that names none.
pub open spec fn document_protocol() -> Seq<char> {
    "document:///"@
}

/// The name under which a schema of a draft gives its identifier: `id` in draft 4,
/// `$id` after it.
pub open spec fn id_keyword(draft: Draft) -> Seq<char> {
    if draft == Draft::Draft4 {
        "id"@
    } else {
        "$id"@
    }
}

/// The name under which a schema of a draft gives its identifier.
pub fn id_key(draft: Draft) -> (r: &'static str)
    ensures
        r@ == id_keyword(draft),
{
    match draft {
        Draft::Draft4 => "id",
        _ => "$id",
    }
}

/// The identifier that a schema gives itself: the text of the member that its draft has
/// for it.
pub open spec fn id_of_model(draft: Draft, schema: JsonValue) -> Option<Seq<char>> {
    match schema.get(id_keyword(draft)) {
        Some(JsonValue::String(s)) => Some(s),
        _ => None,
    }
}

fn id_of<'a>(draft: Draft, schema: &'a Json) -> (r: Option<&'a str>)
    ensures
        match r {
            Some(s) => id_of_model(draft, schema@) == Some(s@),
            None => id_of_model(draft, schema@) is None,
        },
{
    match schema.get(id_key(draft)) {
        Some(v) => v.as_str(),
        None => None,
    }
}

/// The error for a URL that does not parse; `name` is the parser's name for what is
/// wrong.
pub open spec fn invalid_url_error(name: Seq<char>) -> ErrorModel {
    ErrorModel::new("Invalid URL: "@ + name, None, None)
}

impl ValidationError {
    /// The error for a URL that does not parse; `name` is the parser's name for what is
    /// wrong.
    pub fn invalid_url(name: &str) -> (r: ValidationError)
        ensures
            r@ == invalid_url_error(name@),
    {
        let msg = concat("Invalid URL: ", name);
        ValidationError::new(msg.as_str(), None, None)
    }
}

/// How a walk over the identified subschemas ended.
pub enum WalkOutcome {
    /// Every subschema was seen.
    Continue,
    /// The subschema with the wanted identifier.
    Found(JsonValue),
    /// An identifier did not join with its base; the parser's name for what is wrong.
    Failed(Seq<char>),
}

/// What a walk over the identified subschemas saw before it ended.
pub struct IdWalk {
    /// The absolute URL of each identified subschema with the subschema, in the order of
    /// the walk.
    pub ids: Seq<(Seq<char>, JsonValue)>,
    pub outcome: WalkOutcome,
}

/// The walk that saw nothing.
pub open spec fn empty_walk() -> IdWalk {
    IdWalk { ids: Seq::empty(), outcome: WalkOutcome::Continue }
}

/// One walk after another: the second is taken only where the first saw everything.
pub open spec fn walk_then(first: IdWalk, second: IdWalk) -> IdWalk {
    match first.outcome {
        WalkOutcome::Continue => IdWalk { ids: first.ids + second.ids, outcome: second.outcome },
        _ => first,
    }
}

/// The depth-first walk over a schema that joins each identifier against the base in
/// force, which an identified subschema changes for all that lies below it. It ends at
/// the first identifier that does not join, or at the first subschema whose absolute URL
/// is `target`.
pub open spec fn walk_ids(draft: Draft, schema: JsonValue, base: Seq<char>, target: Option<Seq<char>>) -> IdWalk
    decreases schema, 0nat,
{
    match schema {
        JsonValue::Object(members) => match id_of_model(draft, schema) {
            Some(id) => match url_join_result(base, id) {
                Err(name) => IdWalk { ids: Seq::empty(), outcome: WalkOutcome::Failed(name) },
                Ok(url) => if target == Some(url) {
                    IdWalk { ids: Seq::empty(), outcome: WalkOutcome::Found(schema) }
                } else {
                    walk_then(
                        IdWalk { ids: seq![(url, schema)], outcome: WalkOutcome::Continue },
                        walk_members(draft, members, url, target, members.len()),
                    )
                },
            },
            None => walk_members(draft, members, base, target, members.len()),
        },
        JsonValue::Array(items) => walk_items(draft, items, base, target, items.len()),
        _ => empty_walk(),
    }
}

/// The walk over the values of the first `n` members.
pub open spec fn walk_members(
    draft: Draft,
    members: Seq<(Seq<char>, JsonValue)>,
    base: Seq<char>,
    target: Option<Seq<char>>,
    n: nat,
) -> IdWalk
    decreases members, n,
{
    if n == 0 || n > members.len() {
        empty_walk()
    } else {
        walk_then(
            walk_members(draft, members, base, target, (n - 1) as nat),
            walk_ids(draft, members[n - 1].1, base, target),
        )
    }
}

/// The walk over the first `n` elements.
pub open spec fn walk_items(
    draft: Draft,
    items: Seq<JsonValue>,
    base: Seq<char>,
    target: Option<Seq<char>>,
    n: nat,
) -> IdWalk
    decreases items, n,
{
    if n == 0 || n > items.len() {
        empty_walk()
    } else {
        walk_then(
            walk_items(draft, items, base, target, (n - 1) as nat),
            walk_ids(draft, items[n - 1], base, target),
        )
    }
}

proof fn lemma_members_walk_stops(
    draft: Draft,
    members: Seq<(Seq<char>, JsonValue)>,
    base: Seq<char>,
    target: Option<Seq<char>>,
    k: nat,
    n: nat,
)
    requires
        k <= n <= members.len(),
        !(walk_members(draft, members, base, target, k).outcome is Continue),
    ensures
        walk_members(draft, members, base, target, n) == walk_members(draft, members, base, target, k),
    decreases n,
{
    if k < n {
        lemma_members_walk_stops(draft, members, base, target, k, (n - 1) as nat);
    }
}

proof fn lemma_items_walk_stops(
    draft: Draft,
    items: Seq<JsonValue>,
    base: Seq<char>,
    target: Option<Seq<char>>,
    k: nat,
    n: nat,
)
    requires
        k <= n <= items.len(),
        !(walk_items(draft, items, base, target, k).outcome is Continue),
    ensures
        walk_items(draft, items, base, target, n) == walk_items(draft, items, base, target, k),
    decreases n,
{
    if k < n {
        lemma_items_walk_stops(draft, items, base, target, k, (n - 1) as nat);
    }
}

/// The models of the entries of an index.
pub open spec fn id_views(ids: Seq<(String, &Json)>) -> Seq<(Seq<char>, JsonValue)> {
    Seq::new(ids.len(), |i: int| (ids[i].0@, ids[i].1@))
}

/// The model of an optional text.
pub open spec fn target_view(target: Option<&str>) -> Option<Seq<char>> {
    match target {
        Some(t) => Some(t@),
        None => None,
    }
}

/// Whether `r` and the entries added to an index are what a walk came to. Entries are
/// added only by a walk that looks for no target.
pub open spec fn walk_agrees(
    walk: IdWalk,
    collecting: bool,
    r: Result<Option<&Json>, ValidationError>,
    before: Seq<(String, &Json)>,
    after: Seq<(String, &Json)>,
) -> bool {
    &&& id_views(after) == if collecting {
        id_views(before) + walk.ids
    } else {
        id_views(before)
    }
    &&& match r {
        Ok(Some(x)) => walk.outcome == WalkOutcome::Found(x@),
        Ok(None) => walk.outcome is Continue,
        Err(e) => walk.outcome is Failed && e@ == invalid_url_error(walk.outcome->Failed_0),
    }
}

/// What the walk does at an identified subschema, given its absolute URL: with a target
/// the subschema is handed back where the URL is the target; without one it is entered
/// into `ids` under the URL.
pub fn visit_id<'a>(url: &str, schema: &'a Json, target: Option<&str>, ids: &mut Vec<(String, &'a Json)>) -> (found:
    Option<&'a Json>)
    ensures
        match found {
            Some(x) => x@ == schema@ && target_view(target) == Some(url@),
            None => target_view(target) != Some(url@),
        },
        id_views(final(ids)@) == if target is None {
            id_views(old(ids)@).push((url@, schema@))
        } else {
            id_views(old(ids)@)
        },
{
    match target {
        Some(t) => {
            if str_eq(url, t) {
                Some(schema)
            } else {
                None
            }
        },
        None => {
            ids.push((url.to_string(), schema));
            assert(id_views(ids@) =~= id_views(old(ids)@).push((url@, schema@)));
            None
        },
    }
}

/// Iterate through all of the document fragments with an assigned id. Without a target
/// each one is entered into `ids` under its absolute URL; with a target the first one
/// whose absolute URL is the target is handed back.
#[verifier::loop_isolation(false)]
pub fn find_ids<'a>(
    draft: Draft,
    schema: &'a Json,
    base_url: &str,
    target: Option<&str>,
    ids: &mut Vec<(String, &'a Json)>,
) -> (r: Result<Option<&'a Json>, ValidationError>)
    ensures
        walk_agrees(
            walk_ids(draft, schema@, base_url@, target_view(target)),
            target is None,
            r,
            old(ids)@,
            final(ids)@,
        ),
    decreases schema,
{
    let ghost start = ids@;
    let ghost goal = target_view(target);
    match schema {
        Json::Object(members) => {
            assert(schema@ == JsonValue::Object(member_views(members@)));
            let ghost models = member_views(members@);
            match id_of(draft, schema) {
                Some(id) => {
                    let new_url = match url_join(base_url, id) {
                        Ok(u) => u,
                        Err(e) => {
                            assert(id_views(ids@) + Seq::empty() =~= id_views(ids@));
                            return Err(ValidationError::invalid_url(e.as_str()));
                        },
                    };
                    match visit_id(new_url.as_str(), schema, target, ids) {
                        Some(x) => {
                            return Ok(Some(x));
                        },
                        None => {
                            if target.is_none() {
                                assert(id_views(ids@) =~= id_views(start) + seq![(new_url@, schema@)]);
                            }
                        },
                    }
                    let ghost own = seq![(new_url@, schema@)];
                    let ghost base = new_url@;
                    let mut i: usize = 0;
                    while i < members.len()
                        invariant
                            i <= members.len(),
                            walk_members(draft, models, base, goal, i as nat).outcome is Continue,
                            id_views(ids@) == if target is None {
                                id_views(start) + (own + walk_members(draft, models, base, goal, i as nat).ids)
                            } else {
                                id_views(start)
                            },
                        decreases members.len() - i,
                    {
                        let ghost before = ids@;
                        let ghost prefix = walk_members(draft, models, base, goal, i as nat);
                        let found = find_ids(draft, &members[i].1, new_url.as_str(), target, ids);
                        let ghost step = walk_ids(draft, models[i as int].1, base, goal);
                        let ghost next = walk_members(draft, models, base, goal, (i + 1) as nat);
                        proof {
                            assert(next == walk_then(prefix, step));
                            assert(next.ids =~= prefix.ids + step.ids);
                            if target is None {
                                assert(id_views(ids@) =~= id_views(start) + (own + next.ids));
                            }
                        }
                        match found {
                            Ok(None) => {},
                            _ => {
                                proof {
                                    lemma_members_walk_stops(
                                        draft,
                                        models,
                                        base,
                                        goal,
                                        (i + 1) as nat,
                                        models.len(),
                                    );
                                    let whole = walk_ids(draft, schema@, base_url@, goal);
                                    assert(whole.ids =~= own + next.ids);
                                }
                                return found;
                            },
                        }
                        i += 1;
                    }
                    Ok(None)
                },
                None => {
                    let ghost base = base_url@;
                    let mut i: usize = 0;
                    assert(id_views(start) + Seq::empty() =~= id_views(start));
                    while i < members.len()
                        invariant
                            i <= members.len(),
                            walk_members(draft, models, base, goal, i as nat).outcome is Continue,
                            id_views(ids@) == if target is None {
                                id_views(start) + walk_members(draft, models, base, goal, i as nat).ids
                            } else {
                                id_views(start)
                            },
                        decreases members.len() - i,
                    {
                        let ghost prefix = walk_members(draft, models, base, goal, i as nat);
                        let found = find_ids(draft, &members[i].1, base_url, target, ids);
                        let ghost step = walk_ids(draft, models[i as int].1, base, goal);
                        let ghost next = walk_members(draft, models, base, goal, (i + 1) as nat);
                        proof {
                            assert(next == walk_then(prefix, step));
                            assert(next.ids =~= prefix.ids + step.ids);
                            if target is None {
                                assert(id_views(ids@) =~= id_views(start) + next.ids);
                            }
                        }
                        match found {
                            Ok(None) => {},
                            _ => {
                                proof {
                                    lemma_members_walk_stops(
                                        draft,
                                        models,
                                        base,
                                        goal,
                                        (i + 1) as nat,
                                        models.len(),
                                    );
                                }
                                return found;
                            },
                        }
                        i += 1;
                    }
                    Ok(None)
                },
            }
        },
        Json::Array(items) => {
            assert(schema@ == JsonValue::Array(json_views(items@)));
            let ghost models = json_views(items@);
            let ghost base = base_url@;
            let mut i: usize = 0;
            assert(id_views(start) + Seq::empty() =~= id_views(start));
            while i < items.len()
                invariant
                    i <= items.len(),
                    walk_items(draft, models, base, goal, i as nat).outcome is Continue,
                    id_views(ids@) == if target is None {
                        id_views(start) + walk_items(draft, models, base, goal, i as nat).ids
                    } else {
                        id_views(start)
                    },
                decreases items.len() - i,
            {
                let ghost prefix = walk_items(draft, models, base, goal, i as nat);
                let found = find_ids(draft, &items[i], base_url, target, ids);
                let ghost step = walk_ids(draft, models[i as int], base, goal);
                let ghost next = walk_items(draft, models, base, goal, (i + 1) as nat);
                proof {
                    assert(next == walk_then(prefix, step));
                    assert(next.ids =~= prefix.ids + step.ids);
                    if target is None {
                        assert(id_views(ids@) =~= id_views(start) + next.ids);
                    }
                }
                match found {
                    Ok(None) => {},
                    _ => {
                        proof {
                            lemma_items_walk_stops(draft, models, base, goal, (i + 1) as nat, models.len());
                        }
                        return found;
                    },
                }
                i += 1;
            }
            Ok(None)
        },
        _ => {
            assert(id_views(start) + Seq::empty() =~= id_views(start));
            Ok(None)
        },
    }
}

/// The reference resolver of one schema: its base URL, the index of its identified
/// subschemas, and the meta-schemas.
pub struct Resolver<'a> {
    base_url: String,
    id_mapping: Vec<(String, &'a Json)>,
    draft4: Json,
    draft6: Json,
    draft7: Json,
}

/// The mathematical model of a resolver.
pub struct ResolverModel {
    /// The base URL as the schema gives it, or `document:///`.
    pub base_url: Seq<char>,
    /// The absolute URL of each identified subschema with the subschema, in the order of
    /// the walk. Where a URL stands twice, the last entry counts.
    pub ids: Seq<(Seq<char>, JsonValue)>,
}

/// The last entry of the first `n` that stands under `url`.
pub open spec fn lookup_last(ids: Seq<(Seq<char>, JsonValue)>, url: Seq<char>, n: nat) -> Option<JsonValue>
    decreases n,
{
    if n == 0 || n > ids.len() {
        None
    } else if ids[n - 1].0 == url {
        Some(ids[n - 1].1)
    } else {
        lookup_last(ids, url, (n - 1) as nat)
    }
}

/// The base URL for an identifier, given whether it is an absolute URL: the identifier
/// itself where there is one and it is absolute, else `document:///`.
pub open spec fn base_url_for(id: Option<Seq<char>>, absolute: bool) -> Seq<char> {
    match id {
        Some(url) => if absolute {
            url
        } else {
            document_protocol()
        },
        None => document_protocol(),
    }
}

/// The base URL that a schema gives: its own identifier where that is an absolute URL,
/// else `document:///`.
pub open spec fn base_url_of(draft: Draft, schema: JsonValue) -> Seq<char> {
    base_url_for(
        id_of_model(draft, schema),
        match id_of_model(draft, schema) {
            Some(id) => url_parse_result(id) is Ok,
            None => false,
        },
    )
}

/// The base URL for an identifier, given whether it is an absolute URL.
pub fn choose_base_url(id: Option<&str>, absolute: bool) -> (r: String)
    ensures
        r@ == base_url_for(target_view(id), absolute),
{
    match id {
        Some(url) => {
            if absolute {
                url.to_string()
            } else {
                "document:///".to_string()
            }
        },
        None => "document:///".to_string(),
    }
}

/// The resolver of a schema, or the error of an identifier that is no URL.
pub open spec fn resolver_of(draft: Draft, schema: JsonValue) -> Result<ResolverModel, ErrorModel> {
    match url_parse_result(base_url_of(draft, schema)) {
        Err(name) => Err(invalid_url_error(name)),
        Ok(base) => {
            let walk = walk_ids(draft, schema, base, None);
            match walk.outcome {
                WalkOutcome::Failed(name) => Err(invalid_url_error(name)),
                _ => Ok(ResolverModel { base_url: base_url_of(draft, schema), ids: walk.ids }),
            }
        },
    }
}

/// The URL that the identifiers of the first frames of a scope chain give, joined one
/// after another onto `base` from the root frame on; or the name of the first error.
pub open spec fn join_scope(draft: Draft, base: Seq<char>, scope: Seq<JsonValue>) -> Result<Seq<char>, Seq<char>>
    decreases scope.len(),
{
    if scope.len() == 0 {
        Ok(base)
    } else {
        match join_scope(draft, base, scope.drop_last()) {
            Err(name) => Err(name),
            Ok(url) => match id_of_model(draft, scope.last()) {
                Some(id) => url_join_result(url, id),
                None => Ok(url),
            },
        }
    }
}

/// The absolute URL of a reference made under a scope chain: the resolver's base URL,
/// then the identifier of every frame from the root on, then the reference, each joined
/// onto what came before; or the name of the first error.
pub open spec fn join_url_model(
    base_url: Seq<char>,
    draft: Draft,
    url_ref: Seq<char>,
    scope: Seq<JsonValue>,
) -> Result<
    Seq<char>,
    Seq<char>,
> {
    match url_parse_result(base_url) {
        Err(name) => Err(name),
        Ok(base) => match join_scope(draft, base, scope) {
            Err(name) => Err(name),
            Ok(url) => url_join_result(url, url_ref),
        },
    }
}

/// The document that a URL without fragment names: the root for `document:///`, the
/// meta-schema for a meta-schema's URL, else the indexed subschema.
pub open spec fn resolve_url_model(resolver: ResolverModel, url: Seq<char>, root: JsonValue) -> Result<
    JsonValue,
    ErrorModel,
> {
    if url == document_protocol() {
        Ok(root)
    } else {
        match draft_of_url(url) {
            Some(draft) => Ok(metaschema_model(draft)),
            None => match lookup_last(resolver.ids, url, resolver.ids.len()) {
                Some(v) => Ok(v),
                None => Err(ErrorModel::new("Can't resolve url "@ + url, None, None)),
            },
        }
    }
}

/// The part of the document named by `resource` that the JSON pointer `fragment` names;
/// `url` is the whole URL, for the message of the error.
pub open spec fn resolve_pointer_model(
    resolver: ResolverModel,
    url: Seq<char>,
    resource: Seq<char>,
    fragment: Seq<char>,
    root: JsonValue,
) -> Result<JsonValue, ErrorModel> {
    match resolve_url_model(resolver, resource, root) {
        Err(e) => Err(e),
        Ok(document) => match pointer_model(document, fragment) {
            Some(x) => Ok(x),
            None => Err(ErrorModel::new("Couldn't resolve JSON pointer "@ + url, None, None)),
        },
    }
}

/// What a reference made under a scope chain names: the URL of the resource, which is
/// the new base, and the subschema.
///
/// The reference is made absolute. A subschema of the root whose identifier is that very
/// URL, fragment and all, is the answer. Otherwise the URL without its fragment names a
/// document and the percent-decoded fragment, read as a JSON pointer, a part of it.
pub open spec fn resolve_fragment_model(
    resolver: ResolverModel,
    draft: Draft,
    url_ref: Seq<char>,
    scope: Seq<JsonValue>,
    root: JsonValue,
) -> Result<(Seq<char>, JsonValue), ErrorModel> {
    match join_url_model(resolver.base_url, draft, url_ref, scope) {
        Err(name) => Err(invalid_url_error(name)),
        Ok(url) => {
            let resource = url_without_fragment(url);
            let raw = match url_fragment_part(url) {
                Some(f) => f,
                None => Seq::empty(),
            };
            match percent_decoded(raw) {
                None => Err(ErrorModel::new("Invalid fragment in "@ + url, None, None)),
                Some(fragment) => match url_parse_result(document_protocol()) {
                    Err(name) => Err(invalid_url_error(name)),
                    Ok(base) => {
                        let walk = walk_ids(draft, root, base, Some(url));
                        match walk.outcome {
                            WalkOutcome::Failed(name) => Err(invalid_url_error(name)),
                            WalkOutcome::Found(x) => Ok((resource, x)),
                            WalkOutcome::Continue => match resolve_pointer_model(
                                resolver,
                                url,
                                resource,
                                fragment,
                                root,
                            ) {
                                Err(e) => Err(e),
                                Ok(x) => Ok((resource, x)),
                            },
                        }
                    },
                },
            }
        },
    }
}

fn join_frames(draft: Draft, base: String, ctx: &Context) -> (r: Result<String, String>)
    ensures
        match r {
            Ok(url) => join_scope(draft, base@, ctx@) == Ok::<Seq<char>, Seq<char>>(url@),
            Err(name) => join_scope(draft, base@, ctx@) == Err::<Seq<char>, Seq<char>>(name@),
        },
    decreases ctx,
{
    let below = match ctx.parent {
        Some(parent) => {
            assert(ctx@ == parent@.push(ctx.x@));
            assert(ctx@.drop_last() =~= parent@);
            join_frames(draft, base, parent)
        },
        None => {
            assert(ctx@ == seq![ctx.x@]);
            assert(ctx@.drop_last() =~= Seq::<JsonValue>::empty());
            assert(join_scope(draft, base@, ctx@.drop_last()) == Ok::<Seq<char>, Seq<char>>(base@));
            Ok(base)
        },
    };
    match below {
        Err(e) => Err(e),
        Ok(url) => match id_of(draft, ctx.x) {
            Some(id) => url_join(url.as_str(), id),
            None => Ok(url),
        },
    }
}

impl<'a> View for Resolver<'a> {
    type V = ResolverModel;

    closed spec fn view(&self) -> ResolverModel {
        ResolverModel { base_url: self.base_url@, ids: id_views(self.id_mapping@) }
    }
}

impl<'a> Resolver<'a> {
    #[verifier::type_invariant]
    spec fn holds_metaschemas(self) -> bool {
        &&& self.draft4@ == metaschema_model(Draft::Draft4)
        &&& self.draft6@ == metaschema_model(Draft::Draft6)
        &&& self.draft7@ == metaschema_model(Draft::Draft7)
    }

    /// The resolver of a schema: its base URL and the index of its identified
    /// subschemas. Fails where an identifier is no URL.
    pub fn from_schema(draft: Draft, schema: &'a Json) -> (r: Result<Resolver<'a>, ValidationError>)
        ensures
            match r {
                Ok(resolver) => resolver_of(draft, schema@) == Ok::<ResolverModel, ErrorModel>(resolver@),
                Err(e) => resolver_of(draft, schema@) == Err::<ResolverModel, ErrorModel>(e@),
            },
    {
        let id = id_of(draft, schema);
        let absolute = match id {
            Some(url) => url_parse(url).is_ok(),
            None => false,
        };
        let base_url = choose_base_url(id, absolute);
        let parsed = match url_parse(base_url.as_str()) {
            Ok(u) => u,
            Err(e) => {
                return Err(ValidationError::invalid_url(e.as_str()));
            },
        };
        let mut id_mapping: Vec<(String, &'a Json)> = Vec::new();
        assert(id_views(id_mapping@) + walk_ids(draft, schema@, parsed@, None).ids =~= walk_ids(
            draft,
            schema@,
            parsed@,
            None,
        ).ids);
        match find_ids(draft, schema, parsed.as_str(), None, &mut id_mapping) {
            Err(e) => Err(e),
            Ok(_) => Ok(
                Resolver {
                    base_url,
                    id_mapping,
                    draft4: build_metaschema(Draft::Draft4),
                    draft6: build_metaschema(Draft::Draft6),
                    draft7: build_metaschema(Draft::Draft7),
                },
            ),
        }
    }

    /// The meta-schema of a draft.
    pub fn metaschema(&self, draft: Draft) -> (r: &Json)
        ensures
            r@ == metaschema_model(draft),
    {
        proof {
            use_type_invariant(self);
        }
        match draft {
            Draft::Draft4 => &self.draft4,
            Draft::Draft6 => &self.draft6,
            Draft::Draft7 => &self.draft7,
        }
    }

    /// The absolute URL of a reference made under the scope chain `ctx`.
    pub fn join_url(&self, draft: Draft, url_ref: &str, ctx: &Context) -> (r: Result<String, ValidationError>)
        ensures
            match r {
                Ok(url) => join_url_model(self@.base_url, draft, url_ref@, ctx@) == Ok::<Seq<char>, Seq<char>>(
                    url@,
                ),
                Err(e) => {
                    &&& join_url_model(self@.base_url, draft, url_ref@, ctx@) is Err
                    &&& e@ == invalid_url_error(join_url_model(self@.base_url, draft, url_ref@, ctx@)->Err_0)
                },
            },
    {
        let base = match url_parse(self.base_url.as_str()) {
            Ok(u) => u,
            Err(e) => {
                return Err(ValidationError::invalid_url(e.as_str()));
            },
        };
        let scoped = match join_frames(draft, base, ctx) {
            Ok(u) => u,
            Err(e) => {
                return Err(ValidationError::invalid_url(e.as_str()));
            },
        };
        match url_join(scoped.as_str(), url_ref) {
            Ok(u) => Ok(u),
            Err(e) => Err(ValidationError::invalid_url(e.as_str())),
        }
    }

    /// The document that a URL without fragment names: the root for `document:///`, the
    /// meta-schema for a meta-schema's URL, else the subschema that was last entered
    /// into the index under it. `instance` is the root document.
    #[verifier::loop_isolation(false)]
    pub fn resolve_url<'b>(&'b self, url: &str, instance: &'b Json) -> (r: Result<&'b Json, ValidationError>)
        ensures
            match r {
                Ok(v) => resolve_url_model(self@, url@, instance@) == Ok::<JsonValue, ErrorModel>(v@),
                Err(e) => resolve_url_model(self@, url@, instance@) == Err::<JsonValue, ErrorModel>(e@),
            },
    {
        if str_eq(url, "document:///") {
            return Ok(instance);
        }
        match draft_from_url(url) {
            Some(draft) => Ok(self.metaschema(draft)),
            None => {
                let ghost ids = id_views(self.id_mapping@);
                let mut n: usize = self.id_mapping.len();
                while n > 0
                    invariant
                        n <= self.id_mapping.len(),
                        ids == id_views(self.id_mapping@),
                        lookup_last(ids, url@, ids.len()) == lookup_last(ids, url@, n as nat),
                    decreases n,
                {
                    assert(ids[n - 1] == (self.id_mapping@[n - 1].0@, self.id_mapping@[n - 1].1@));
                    if str_eq(self.id_mapping[n - 1].0.as_str(), url) {
                        return Ok(self.id_mapping[n - 1].1);
                    }
                    n -= 1;
                }
                let msg = concat("Can't resolve url ", url);
                Err(ValidationError::new(msg.as_str(), None, None))
            },
        }
    }

    /// The part of the document named by `resource` that the JSON pointer `fragment`
    /// names; `url` is the whole URL, for the message of the error.
    pub fn resolve_pointer<'b>(&'b self, url: &str, resource: &str, fragment: &str, instance: &'b Json) -> (r:
        Result<&'b Json, ValidationError>)
        ensures
            match r {
                Ok(v) => resolve_pointer_model(self@, url@, resource@, fragment@, instance@) == Ok::<
                    JsonValue,
                    ErrorModel,
                >(v@),
                Err(e) => resolve_pointer_model(self@, url@, resource@, fragment@, instance@) == Err::<
                    JsonValue,
                    ErrorModel,
                >(e@),
            },
    {
        let document = match self.resolve_url(resource, instance) {
            Ok(d) => d,
            Err(e) => {
                return Err(e);
            },
        };
        match document.pointer(fragment) {
            Some(x) => Ok(x),
            None => {
                let msg = concat("Couldn't resolve JSON pointer ", url);
                Err(ValidationError::new(msg.as_str(), None, None))
            },
        }
    }

    /// What a reference made under the scope chain `ctx` names: the URL of the resource
    /// and the subschema. `instance` is the root document.
    pub fn resolve_fragment<'b>(&'b self, draft: Draft, url: &str, ctx: &Context, instance: &'b Json) -> (r:
        Result<(String, &'b Json), ValidationError>)
        ensures
            match r {
                Ok((resource, x)) => resolve_fragment_model(self@, draft, url@, ctx@, instance@) == Ok::<
                    (Seq<char>, JsonValue),
                    ErrorModel,
                >((resource@, x@)),
                Err(e) => resolve_fragment_model(self@, draft, url@, ctx@, instance@) == Err::<
                    (Seq<char>, JsonValue),
                    ErrorModel,
                >(e@),
            },
    {
        let url = match self.join_url(draft, url, ctx) {
            Ok(u) => u,
            Err(e) => {
                return Err(e);
            },
        };
        let resource = url_strip_fragment(url.as_str());
        let raw = match url_fragment(url.as_str()) {
            Some(f) => f,
            None => String::new(),
        };
        let fragment = match percent_decode(raw.as_str()) {
            Some(f) => f,
            None => {
                let msg = concat("Invalid fragment in ", url.as_str());
                return Err(ValidationError::new(msg.as_str(), None, None));
            },
        };
        let base = match url_parse("document:///") {
            Ok(u) => u,
            Err(e) => {
                return Err(ValidationError::invalid_url(e.as_str()));
            },
        };
        let mut unused: Vec<(String, &'b Json)> = Vec::new();
        match find_ids(draft, instance, base.as_str(), Some(url.as_str()), &mut unused) {
            Err(e) => {
                return Err(e);
            },
            Ok(Some(x)) => {
                return Ok((resource, x));
            },
            Ok(None) => {},
        }
        match self.resolve_pointer(url.as_str(), resource.as_str(), fragment.as_str(), instance) {
            Ok(x) => Ok((resource, x)),
            Err(e) => Err(e),
        }
    }
}

} // verus!
