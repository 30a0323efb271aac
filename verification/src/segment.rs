//! The client: it turns alias, identify and track calls into queries and
//! submits them to its worker, and says how a query is to be posted.

use crate::json::{comma_separated, member, object_text, quoted, written_as, ToJsonString};
use crate::json::{lemma_comma_separated_push, push_member, push_text_member};
use crate::model::WorkerModel;
use crate::worker::{SingleWorker, WorkerClosure};
use vstd::prelude::*;
use vstd::string::*;

verus! {

/// Where alias calls are posted.
pub const ALIAS_URL: &'static str = "https://api.segment.io/v1/alias";

/// Where identify calls are posted.
pub const IDENTIFY_URL: &'static str = "https://api.segment.io/v1/identify";

/// Where track calls are posted.
pub const TRACK_URL: &'static str = "https://api.segment.io/v1/track";

/// How long a post may wait for the service, reading or writing, in seconds.
pub const TIMEOUT_SECS: u64 = 5;

/// The status with which the service accepts a query.
pub const STATUS_OK: u16 = 200;

/// A query as plain text.
pub struct QueryView {
    pub url: Seq<char>,
    pub body: Seq<char>,
}

/// One request to the service: where it goes and what it carries.
#[derive(Debug, Clone)]
pub struct SegmentQuery {
    url: String,
    body: String,
}

impl View for SegmentQuery {
    type V = QueryView;

    closed spec fn view(&self) -> QueryView {
        QueryView { url: self.url@, body: self.body@ }
    }
}

impl SegmentQuery {
    /// A query for `url` that carries `body`.
    pub fn new(url: String, body: String) -> (query: Self)
        ensures
            query@ == (QueryView { url: url@, body: body@ }),
    {
        SegmentQuery { url, body }
    }

    /// Where the query goes.
    pub fn url(&self) -> (url: &str)
        ensures
            url@ == self@.url,
    {
        self.url.as_str()
    }

    /// What the query carries.
    pub fn body(&self) -> (body: &str)
        ensures
            body@ == self@.body,
    {
        self.body.as_str()
    }
}

/// What has to go over the wire for one query: a POST of `body` to `url`,
/// marked as JSON, with basic authorization for `username` and no password,
/// and with `timeout_secs` as the limit for reading and for writing.
pub struct PostRequest {
    pub url: String,
    pub body: String,
    pub username: String,
    pub timeout_secs: u64,
}

/// Says how `query` is to be posted. Without a write key nothing is sent;
/// with one, the key is the user name of the request.
pub fn post(write_key: &Option<String>, query: &SegmentQuery) -> (request: Option<PostRequest>)
    ensures
        request.is_some() == write_key.is_some(),
        request matches Some(r) ==> {
            &&& r.url@ == query@.url
            &&& r.body@ == query@.body
            &&& r.username@ == write_key.unwrap()@
            &&& r.timeout_secs == TIMEOUT_SECS
        },
{
    match write_key {
        Some(key) => Some(
            PostRequest {
                url: query.url.clone(),
                body: query.body.clone(),
                username: key.clone(),
                timeout_secs: TIMEOUT_SECS,
            },
        ),
        None => None,
    }
}

/// Whether the service accepted a query, by the status of its response.
pub fn accepted(status: u16) -> (ok: bool)
    ensures
        ok == (status == STATUS_OK),
{
    status == STATUS_OK
}

/// The members of `members` that are there, in their order.
pub open spec fn present(members: Seq<Option<Seq<char>>>) -> Seq<Seq<char>>
    decreases members.len(),
{
    if members.len() == 0 {
        Seq::empty()
    } else {
        match members.last() {
            Some(m) => present(members.drop_last()).push(m),
            None => present(members.drop_last()),
        }
    }
}

/// The member `name` with a string value, if the value is given.
pub open spec fn text_member(name: Seq<char>, value: Option<Seq<char>>) -> Option<Seq<char>> {
    match value {
        Some(v) => Some(member(name, quoted(v))),
        None => None,
    }
}

/// The member `name` with a value that is JSON text already, if the value is given.
pub open spec fn json_member(name: Seq<char>, value: Option<Seq<char>>) -> Option<Seq<char>> {
    match value {
        Some(v) => Some(member(name, v)),
        None => None,
    }
}

/// The body of an alias call: `{"previousId":"..","userId":".."}`.
pub open spec fn alias_body(previous_id: Seq<char>, user_id: Seq<char>) -> Seq<char> {
    object_text(
        seq![member("previousId"@, quoted(previous_id)), member("userId"@, quoted(user_id))],
    )
}

/// The body of an identify call: an object with those of `anonymousId`,
/// `userId`, `traits` and `context` that are given, in this order. The two
/// ids are written as strings, traits and context as they are.
pub open spec fn identify_body(
    anonymous_id: Option<Seq<char>>,
    user_id: Option<Seq<char>>,
    traits: Option<Seq<char>>,
    context: Option<Seq<char>>,
) -> Seq<char> {
    object_text(
        present(
            seq![
                text_member("anonymousId"@, anonymous_id),
                text_member("userId"@, user_id),
                json_member("traits"@, traits),
                json_member("context"@, context),
            ],
        ),
    )
}

/// The body of a track call: an object with the event, and with those of
/// `anonymousId`, `userId`, `properties` and `context` that are given, in
/// this order. The event and the two ids are written as strings, properties
/// and context as they are.
pub open spec fn track_body(
    event: Seq<char>,
    anonymous_id: Option<Seq<char>>,
    user_id: Option<Seq<char>>,
    properties: Option<Seq<char>>,
    context: Option<Seq<char>>,
) -> Seq<char> {
    object_text(
        present(
            seq![
                text_member("event"@, Some(event)),
                text_member("anonymousId"@, anonymous_id),
                text_member("userId"@, user_id),
                json_member("properties"@, properties),
                json_member("context"@, context),
            ],
        ),
    )
}

/// The text of an optional string.
pub open spec fn text_of(s: Option<&str>) -> Option<Seq<char>> {
    match s {
        Some(s) => Some(s@),
        None => None,
    }
}

/// Builds the body of an alias call.
pub fn build_alias_body(previous_id: &str, user_id: &str) -> (body: String)
    ensures
        body@ == alias_body(previous_id@, user_id@),
{
    let mut body = String::new();
    body.append("{");
    push_text_member(&mut body, "previousId", previous_id);
    body.append(",");
    push_text_member(&mut body, "userId", user_id);
    body.append("}");
    proof {
        let first = member("previousId"@, quoted(previous_id@));
        let second = member("userId"@, quoted(user_id@));
        lemma_comma_separated_push(seq![first], second);
        assert(seq![first].push(second) =~= seq![first, second]);
        assert(body@ =~= alias_body(previous_id@, user_id@));
    }
    body
}

/// The member that [`push_if_given`] writes for `value`.
spec fn given_member(name: Seq<char>, value: Option<Seq<char>>, text: bool) -> Option<Seq<char>> {
    if text {
        text_member(name, value)
    } else {
        json_member(name, value)
    }
}

/// Continues an object that holds the members of `done` so far: writes the
/// member `name` if `value` is given, behind a comma if it is not the first.
/// Returns whether the object has a member now.
fn push_if_given(
    body: &mut String,
    any: bool,
    name: &str,
    value: Option<&str>,
    text: bool,
    Ghost(done): Ghost<Seq<Option<Seq<char>>>>,
) -> (now: bool)
    requires
        old(body)@ == "{"@ + comma_separated(present(done)),
        any == (present(done).len() > 0),
    ensures
        final(body)@ == "{"@ + comma_separated(
            present(done.push(given_member(name@, text_of(value), text))),
        ),
        now == (present(done.push(given_member(name@, text_of(value), text))).len() > 0),
{
    proof {
        assert(done.push(given_member(name@, text_of(value), text)).drop_last() =~= done);
    }
    match value {
        Some(v) => {
            if any {
                body.append(",");
            }
            if text {
                push_text_member(body, name, v);
            } else {
                push_member(body, name, v);
            }
            proof {
                let m = given_member(name@, text_of(value), text).unwrap();
                lemma_comma_separated_push(present(done), m);
                assert(body@ =~= "{"@ + comma_separated(present(done).push(m)));
            }
            true
        },
        None => any,
    }
}

/// Builds the body of an identify call from the ids and from the texts of
/// traits and context.
pub fn build_identify_body(
    anonymous_id: Option<&str>,
    user_id: Option<&str>,
    traits: Option<&str>,
    context: Option<&str>,
) -> (body: String)
    ensures
        body@ == identify_body(
            text_of(anonymous_id),
            text_of(user_id),
            text_of(traits),
            text_of(context),
        ),
{
    let mut body = String::new();
    body.append("{");
    let ghost none: Seq<Option<Seq<char>>> = Seq::empty();
    let ghost m0 = text_member("anonymousId"@, text_of(anonymous_id));
    let ghost m1 = text_member("userId"@, text_of(user_id));
    let ghost m2 = json_member("traits"@, text_of(traits));
    let ghost m3 = json_member("context"@, text_of(context));
    proof {
        assert(body@ =~= "{"@ + comma_separated(present(none)));
    }
    let any = push_if_given(&mut body, false, "anonymousId", anonymous_id, true, Ghost(none));
    let any = push_if_given(&mut body, any, "userId", user_id, true, Ghost(none.push(m0)));
    let any = push_if_given(&mut body, any, "traits", traits, false, Ghost(none.push(m0).push(m1)));
    let _ = push_if_given(
        &mut body,
        any,
        "context",
        context,
        false,
        Ghost(none.push(m0).push(m1).push(m2)),
    );
    body.append("}");
    proof {
        assert(none.push(m0).push(m1).push(m2).push(m3) =~= seq![m0, m1, m2, m3]);
    }
    body
}

/// Builds the body of a track call from the event, the ids and the texts of
/// properties and context.
pub fn build_track_body(
    event: &str,
    anonymous_id: Option<&str>,
    user_id: Option<&str>,
    properties: Option<&str>,
    context: Option<&str>,
) -> (body: String)
    ensures
        body@ == track_body(
            event@,
            text_of(anonymous_id),
            text_of(user_id),
            text_of(properties),
            text_of(context),
        ),
{
    let mut body = String::new();
    body.append("{");
    let ghost none: Seq<Option<Seq<char>>> = Seq::empty();
    let ghost m0 = text_member("event"@, Some(event@));
    let ghost m1 = text_member("anonymousId"@, text_of(anonymous_id));
    let ghost m2 = text_member("userId"@, text_of(user_id));
    let ghost m3 = json_member("properties"@, text_of(properties));
    let ghost m4 = json_member("context"@, text_of(context));
    proof {
        assert(body@ =~= "{"@ + comma_separated(present(none)));
    }
    let any = push_if_given(&mut body, false, "event", Some(event), true, Ghost(none));
    let any = push_if_given(&mut body, any, "anonymousId", anonymous_id, true, Ghost(none.push(m0)));
    let any = push_if_given(&mut body, any, "userId", user_id, true, Ghost(none.push(m0).push(m1)));
    let any = push_if_given(
        &mut body,
        any,
        "properties",
        properties,
        false,
        Ghost(none.push(m0).push(m1).push(m2)),
    );
    let _ = push_if_given(
        &mut body,
        any,
        "context",
        context,
        false,
        Ghost(none.push(m0).push(m1).push(m2).push(m3)),
    );
    body.append("}");
    proof {
        assert(none.push(m0).push(m1).push(m2).push(m3).push(m4) =~= seq![m0, m1, m2, m3, m4]);
    }
    body
}

/// The client. Its worker holds the write key as its parameters and the
/// queries that wait to be posted.
pub struct Segment<F> {
    pub worker: SingleWorker<SegmentQuery, Option<String>, F>,
}

/// A submission took the worker from `before` to `after`, and what was
/// submitted is a query for `url` that carries `body`.
pub open spec fn submitted(
    before: WorkerModel<SegmentQuery>,
    after: WorkerModel<SegmentQuery>,
    url: Seq<char>,
    body: Seq<char>,
) -> bool {
    exists|query: SegmentQuery|
        query@ == (QueryView { url, body }) && after == #[trigger] before.submit(query)
}

/// The text of an optional `String`.
spec fn string_of(s: Option<String>) -> Option<Seq<char>> {
    match s {
        Some(s) => Some(s@),
        None => None,
    }
}

/// An identify call took the worker from `before` to `after`: what was
/// submitted is a query for the identify url whose body holds the ids and
/// what traits and context wrote themselves as.
pub open spec fn identify_submitted<T1: ToJsonString, T2: ToJsonString>(
    before: WorkerModel<SegmentQuery>,
    after: WorkerModel<SegmentQuery>,
    anonymous_id: Option<Seq<char>>,
    user_id: Option<Seq<char>>,
    traits: Option<T1>,
    context: Option<T2>,
) -> bool {
    exists|traits_text: Option<Seq<char>>, context_text: Option<Seq<char>>|
        #![trigger written_as(traits, traits_text), written_as(context, context_text)]
        {
            &&& written_as(traits, traits_text)
            &&& written_as(context, context_text)
            &&& submitted(
                before,
                after,
                IDENTIFY_URL@,
                identify_body(anonymous_id, user_id, traits_text, context_text),
            )
        }
}

/// A track call took the worker from `before` to `after`: what was submitted
/// is a query for the track url whose body holds the event, the ids and what
/// properties and context wrote themselves as.
pub open spec fn track_submitted<T1: ToJsonString, T2: ToJsonString>(
    before: WorkerModel<SegmentQuery>,
    after: WorkerModel<SegmentQuery>,
    event: Seq<char>,
    anonymous_id: Option<Seq<char>>,
    user_id: Option<Seq<char>>,
    properties: Option<T1>,
    context: Option<T2>,
) -> bool {
    exists|properties_text: Option<Seq<char>>, context_text: Option<Seq<char>>|
        #![trigger written_as(properties, properties_text), written_as(context, context_text)]
        {
            &&& written_as(properties, properties_text)
            &&& written_as(context, context_text)
            &&& submitted(
                before,
                after,
                TRACK_URL@,
                track_body(event, anonymous_id, user_id, properties_text, context_text),
            )
        }
}

/// The text that an optional value writes itself as.
fn json_text<J: ToJsonString>(value: &Option<J>) -> (text: Option<String>)
    ensures
        written_as(*value, string_of(text)),
{
    match value {
        Some(v) => Some(v.to_json_string()),
        None => None,
    }
}

/// The string inside an optional `String`.
fn as_text(s: &Option<String>) -> (text: Option<&str>)
    ensures
        text.is_some() == s.is_some(),
        text matches Some(t) ==> t@ == s.unwrap()@,
{
    match s {
        Some(s) => Some(s.as_str()),
        None => None,
    }
}

impl<F: WorkerClosure<SegmentQuery, Option<String>>> Segment<F> {
    /// A client that posts with `write_key` through `handler`. Its worker is
    /// alive and its queue is empty.
    pub fn new(write_key: Option<String>, handler: F) -> (segment: Self)
        ensures
            segment.worker@ == WorkerModel::<SegmentQuery>::started(),
            segment.worker@.live == 1,
            segment.worker.spec_parameters() == write_key,
            segment.worker.spec_handler() == handler,
    {
        Segment { worker: SingleWorker::new(write_key, handler) }
    }

    /// Submits `body` for `url` to the worker.
    fn send(&mut self, url: &str, body: String) -> (spawned: bool)
        ensures
            submitted(old(self).worker@, final(self).worker@, url@, body@),
            spawned == old(self).worker@.needs_spawn(),
            final(self).worker.same_setup(&old(self).worker),
    {
        let query = SegmentQuery::new(url.to_owned(), body);
        let spawned = self.worker.work_with(query);
        assert(self.worker@ == old(self).worker@.submit(query));
        spawned
    }

    /// Merges two identities: queues the alias of `previous_id` to `user_id`.
    /// Tells whether the worker had to be revived.
    pub fn alias(&mut self, previous_id: &str, user_id: &str) -> (spawned: bool)
        ensures
            submitted(
                old(self).worker@,
                final(self).worker@,
                ALIAS_URL@,
                alias_body(previous_id@, user_id@),
            ),
            spawned == old(self).worker@.needs_spawn(),
            final(self).worker.same_setup(&old(self).worker),
    {
        let body = build_alias_body(previous_id, user_id);
        self.send(ALIAS_URL, body)
    }

    /// Queues what is known of a user: the ids, the traits and the context,
    /// as far as they are given. Tells whether the worker had to be revived.
    pub fn identify<T1: ToJsonString, T2: ToJsonString>(
        &mut self,
        anonymous_id: Option<&str>,
        user_id: Option<&str>,
        traits: Option<T1>,
        context: Option<T2>,
    ) -> (spawned: bool)
        ensures
            identify_submitted(
                old(self).worker@,
                final(self).worker@,
                text_of(anonymous_id),
                text_of(user_id),
                traits,
                context,
            ),
            spawned == old(self).worker@.needs_spawn(),
            final(self).worker.same_setup(&old(self).worker),
    {
        let traits_text = json_text(&traits);
        let context_text = json_text(&context);
        let traits_given = as_text(&traits_text);
        let context_given = as_text(&context_text);
        let body = build_identify_body(anonymous_id, user_id, traits_given, context_given);
        proof {
            assert(text_of(traits_given) == string_of(traits_text));
            assert(text_of(context_given) == string_of(context_text));
        }
        self.send(IDENTIFY_URL, body)
    }

    /// Queues an event of a user, with its properties and its context as far
    /// as they are given. Tells whether the worker had to be revived.
    pub fn track<T1: ToJsonString, T2: ToJsonString>(
        &mut self,
        anonymous_id: Option<&str>,
        user_id: Option<&str>,
        event: &str,
        properties: Option<T1>,
        context: Option<T2>,
    ) -> (spawned: bool)
        ensures
            track_submitted(
                old(self).worker@,
                final(self).worker@,
                event@,
                text_of(anonymous_id),
                text_of(user_id),
                properties,
                context,
            ),
            spawned == old(self).worker@.needs_spawn(),
            final(self).worker.same_setup(&old(self).worker),
    {
        let properties_text = json_text(&properties);
        let context_text = json_text(&context);
        let properties_given = as_text(&properties_text);
        let context_given = as_text(&context_text);
        let body = build_track_body(
            event,
            anonymous_id,
            user_id,
            properties_given,
            context_given,
        );
        proof {
            assert(text_of(properties_given) == string_of(properties_text));
            assert(text_of(context_given) == string_of(context_text));
        }
        self.send(TRACK_URL, body)
    }
}

} // verus!
