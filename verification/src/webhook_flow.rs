//! Processing a GitHub webhook delivery, as a state machine: read the body,
//! find the repository, store the event, check the signature where the
//! repository has a webhook secret, act on a push, mark the event
//! processed and answer. The caller performs each action (the database, the
//! push handling, the reply) and hands back what came of it.
use vstd::prelude::*;
use crate::errors::{error_view, ApiError};
use crate::json::{get_spec, json_document, str_at, JsonValue};
use crate::repository::{push_ok, push_readable, PushEvent};
use crate::stack_flow::opt_text;
use crate::text::{owned, starts_with};
use crate::webhooks::{
    opt_member, parse_webhook_payload, payload_repository_name, push_to_handle, signature_valid,
    str_member, webhook_authorized,
};

verus! {

/// Where the processing of a delivery stands.
#[derive(Debug, Clone, Copy, PartialEq, Eq, Structural)]
pub enum WebhookStage {
    /// Nothing done yet.
    Start,
    /// Waiting for the repository to be looked up.
    FindingRepo,
    /// Waiting for the event to be stored.
    StoringEvent,
    /// Waiting for the signature check (`valid` or not) to be recorded.
    RecordingSignature { valid: bool },
    /// Waiting for the push to be handled.
    HandlingPush,
    /// Waiting for the event to be marked processed.
    MarkingProcessed,
    /// Nothing more to do.
    Done,
}

/// A repository as webhook processing needs it: its id and webhook secret.
#[derive(Debug)]
pub struct WebhookRepo {
    pub id: String,
    pub webhook_secret: Option<String>,
}

/// A delivery being processed: what came with it (event type, delivery id,
/// signature, body, and the repository id in the address where there was
/// one), where it stands, and what was learnt so far.
#[derive(Debug)]
pub struct WebhookTask {
    pub event_type: String,
    pub delivery: Option<String>,
    pub signature: Option<String>,
    pub body: Vec<u8>,
    pub repo_id: Option<String>,
    pub stage: WebhookStage,
    /// The body as JSON, once read; the event is stored with it.
    pub payload: Option<JsonValue>,
    pub repo: Option<WebhookRepo>,
    pub event_id: Option<String>,
}

/// What came of the last action.
#[derive(Debug)]
pub enum WebhookEvent {
    /// The delivery came in.
    Begin,
    RepoFound(Result<Option<WebhookRepo>, ApiError>),
    /// The stored event's id.
    EventStored(Result<String, ApiError>),
    SignatureRecorded(Result<(), ApiError>),
    PushHandled(Result<(), ApiError>),
    Processed(Result<(), ApiError>),
}

/// What to do next.
#[derive(Debug)]
pub enum WebhookAction {
    FindRepoById(String),
    /// Look the repository up by its GitHub full name.
    FindRepoByName(String),
    /// Store the event, with the payload the task holds.
    StoreEvent { repo_id: Option<String>, event_type: String, headers: JsonValue, signature: Option<String> },
    /// Record whether the stored event's signature is valid.
    RecordSignature { event_id: String, valid: bool },
    /// Trigger the pipelines this push starts.
    HandlePush(PushEvent),
    MarkProcessed(String),
    /// Answer with this status, or this error.
    Respond(Result<u16, ApiError>),
    Stop,
}

pub struct WebhookView {
    pub event_type: Seq<char>,
    pub delivery: Option<Seq<char>>,
    pub signature: Option<Seq<char>>,
    pub body: Seq<u8>,
    pub repo_id: Option<Seq<char>>,
    pub stage: WebhookStage,
    pub payload: Option<JsonValue>,
    pub repo: Option<(Seq<char>, Option<Seq<char>>)>,
    pub event_id: Option<Seq<char>>,
}

pub enum WebhookEventView {
    Begin,
    RepoFound(Result<Option<(Seq<char>, Option<Seq<char>>)>, (u16, Seq<char>)>),
    EventStored(Result<Seq<char>, (u16, Seq<char>)>),
    SignatureRecorded(Result<(), (u16, Seq<char>)>),
    PushHandled(Result<(), (u16, Seq<char>)>),
    Processed(Result<(), (u16, Seq<char>)>),
}

pub enum WebhookActionView {
    FindRepoById(Seq<char>),
    FindRepoByName(Seq<char>),
    StoreEvent { repo_id: Option<Seq<char>>, event_type: Seq<char>, signature: Option<Seq<char>> },
    RecordSignature { event_id: Seq<char>, valid: bool },
    HandlePush,
    MarkProcessed(Seq<char>),
    Respond(Result<u16, (u16, Seq<char>)>),
    Stop,
}

pub open spec fn repo_view(r: WebhookRepo) -> (Seq<char>, Option<Seq<char>>) {
    (r.id@, opt_text(r.webhook_secret))
}

pub open spec fn unit_result(r: Result<(), ApiError>) -> Result<(), (u16, Seq<char>)> {
    match r {
        Ok(_) => Ok(()),
        Err(e) => Err(error_view(e)),
    }
}

impl View for WebhookTask {
    type V = WebhookView;

    open spec fn view(&self) -> WebhookView {
        WebhookView {
            event_type: self.event_type@,
            delivery: opt_text(self.delivery),
            signature: opt_text(self.signature),
            body: self.body@,
            repo_id: opt_text(self.repo_id),
            stage: self.stage,
            payload: self.payload,
            repo: match self.repo {
                Some(r) => Some(repo_view(r)),
                None => None,
            },
            event_id: opt_text(self.event_id),
        }
    }
}

impl View for WebhookEvent {
    type V = WebhookEventView;

    open spec fn view(&self) -> WebhookEventView {
        match self {
            WebhookEvent::Begin => WebhookEventView::Begin,
            WebhookEvent::RepoFound(r) => WebhookEventView::RepoFound(
                match r {
                    Ok(Some(x)) => Ok(Some(repo_view(*x))),
                    Ok(None) => Ok(None),
                    Err(e) => Err(error_view(*e)),
                },
            ),
            WebhookEvent::EventStored(r) => WebhookEventView::EventStored(
                match r {
                    Ok(id) => Ok(id@),
                    Err(e) => Err(error_view(*e)),
                },
            ),
            WebhookEvent::SignatureRecorded(r) => WebhookEventView::SignatureRecorded(unit_result(*r)),
            WebhookEvent::PushHandled(r) => WebhookEventView::PushHandled(unit_result(*r)),
            WebhookEvent::Processed(r) => WebhookEventView::Processed(unit_result(*r)),
        }
    }
}

impl View for WebhookAction {
    type V = WebhookActionView;

    open spec fn view(&self) -> WebhookActionView {
        match self {
            WebhookAction::FindRepoById(id) => WebhookActionView::FindRepoById(id@),
            WebhookAction::FindRepoByName(n) => WebhookActionView::FindRepoByName(n@),
            WebhookAction::StoreEvent { repo_id, event_type, headers, signature } => WebhookActionView::StoreEvent {
                repo_id: opt_text(*repo_id),
                event_type: event_type@,
                signature: opt_text(*signature),
            },
            WebhookAction::RecordSignature { event_id, valid } => WebhookActionView::RecordSignature {
                event_id: event_id@,
                valid: *valid,
            },
            WebhookAction::HandlePush(_) => WebhookActionView::HandlePush,
            WebhookAction::MarkProcessed(id) => WebhookActionView::MarkProcessed(id@),
            WebhookAction::Respond(r) => WebhookActionView::Respond(
                match r {
                    Ok(c) => Ok(*c),
                    Err(e) => Err(error_view(*e)),
                },
            ),
            WebhookAction::Stop => WebhookActionView::Stop,
        }
    }
}

/// The full name of the repository a payload is about.
pub open spec fn repo_name_of(p: JsonValue) -> Option<Seq<char>> {
    match get_spec(p, "repository"@) {
        Some(r) => str_at(r, "full_name"@),
        None => None,
    }
}

/// The headers an event is stored with: the delivery id (or `null`) and
/// the event type.
pub open spec fn headers_record(h: JsonValue, event_type: Seq<char>, delivery: Option<Seq<char>>) -> bool {
    &&& h is Object
    &&& h->Object_0.len() == 2
    &&& opt_member(h->Object_0@[0], "delivery"@, delivery)
    &&& str_member(h->Object_0@[1], "event"@, event_type)
}

pub open spec fn at_stage(t: WebhookView, stage: WebhookStage) -> WebhookView {
    WebhookView { stage, ..t }
}

pub open spec fn store_action(t: WebhookView) -> WebhookActionView {
    WebhookActionView::StoreEvent {
        repo_id: match t.repo {
            Some(r) => Some(r.0),
            None => None,
        },
        event_type: t.event_type,
        signature: t.signature,
    }
}

/// After the event is stored and any signature check passed: a `push` whose
/// payload reads as one is handled; any other event is marked processed.
pub open spec fn route(t: WebhookView) -> (WebhookView, WebhookActionView) {
    match (t.payload, t.event_id) {
        (Some(p), Some(id)) => if t.event_type == "push"@ && push_readable(p) {
            (at_stage(t, WebhookStage::HandlingPush), WebhookActionView::HandlePush)
        } else {
            (at_stage(t, WebhookStage::MarkingProcessed), WebhookActionView::MarkProcessed(id))
        },
        _ => (at_stage(t, WebhookStage::Done), WebhookActionView::Stop),
    }
}

/// One step of processing a delivery whose body reads as JSON (a body that
/// does not is answered at once with a bad request). The repository is the
/// one the address names, else the one the payload names, else none; the
/// event is stored either way; where the repository has a webhook secret,
/// whether the signature is valid is recorded and an invalid one is
/// answered 401 without acting on the event; then a push is handled, the
/// event marked processed and the delivery answered 200. Any failure of an
/// action is the answer.
pub open spec fn webhook_step(t: WebhookView, e: WebhookEventView) -> (WebhookView, WebhookActionView) {
    match (t.stage, e) {
        (WebhookStage::Start, WebhookEventView::Begin) => match json_document(t.body) {
            Some(p) => {
                let t1 = WebhookView { payload: Some(p), ..t };
                match t.repo_id {
                    Some(id) => (at_stage(t1, WebhookStage::FindingRepo), WebhookActionView::FindRepoById(id)),
                    None => match repo_name_of(p) {
                        Some(n) => (at_stage(t1, WebhookStage::FindingRepo), WebhookActionView::FindRepoByName(n)),
                        None => (at_stage(t1, WebhookStage::StoringEvent), store_action(t1)),
                    },
                }
            },
            None => (at_stage(t, WebhookStage::Done), WebhookActionView::Stop),
        },
        (WebhookStage::FindingRepo, WebhookEventView::RepoFound(Ok(r))) => {
            let t1 = WebhookView { stage: WebhookStage::StoringEvent, repo: r, ..t };
            (t1, store_action(t1))
        },
        (WebhookStage::StoringEvent, WebhookEventView::EventStored(Ok(id))) => {
            let t1 = WebhookView { event_id: Some(id), ..t };
            match t.repo {
                Some((_, Some(secret))) => {
                    let valid = signature_valid(secret, t.body, t.signature);
                    (
                        at_stage(t1, WebhookStage::RecordingSignature { valid }),
                        WebhookActionView::RecordSignature { event_id: id, valid },
                    )
                },
                _ => route(t1),
            }
        },
        (WebhookStage::RecordingSignature { valid }, WebhookEventView::SignatureRecorded(Ok(_))) => if valid {
            route(t)
        } else {
            (at_stage(t, WebhookStage::Done), WebhookActionView::Respond(Ok(401)))
        },
        (WebhookStage::HandlingPush, WebhookEventView::PushHandled(Ok(_))) => match t.event_id {
            Some(id) => (at_stage(t, WebhookStage::MarkingProcessed), WebhookActionView::MarkProcessed(id)),
            None => (at_stage(t, WebhookStage::Done), WebhookActionView::Stop),
        },
        (WebhookStage::MarkingProcessed, WebhookEventView::Processed(Ok(_))) => (
            at_stage(t, WebhookStage::Done),
            WebhookActionView::Respond(Ok(200)),
        ),
        (WebhookStage::FindingRepo, WebhookEventView::RepoFound(Err(x)))
        | (WebhookStage::StoringEvent, WebhookEventView::EventStored(Err(x)))
        | (WebhookStage::RecordingSignature { .. }, WebhookEventView::SignatureRecorded(Err(x)))
        | (WebhookStage::HandlingPush, WebhookEventView::PushHandled(Err(x)))
        | (WebhookStage::MarkingProcessed, WebhookEventView::Processed(Err(x))) => (
            at_stage(t, WebhookStage::Done),
            WebhookActionView::Respond(Err(x)),
        ),
        _ => (at_stage(t, WebhookStage::Done), WebhookActionView::Stop),
    }
}

/// A body that does not read as JSON at the start.
pub open spec fn unreadable_start(t: WebhookView, e: WebhookEventView) -> bool {
    t.stage == WebhookStage::Start && e is Begin && json_document(t.body) is None
}

impl WebhookTask {
    /// A delivery as received: the `X-GitHub-Event` header (`unknown` where
    /// missing), the delivery id, the `X-Hub-Signature-256` header, the body,
    /// and the repository id in the address.
    pub fn new(
        event_header: Option<String>,
        delivery: Option<String>,
        signature: Option<String>,
        body: Vec<u8>,
        repo_id: Option<String>,
    ) -> (r: Self)
        ensures
            r.event_type@ == match event_header {
                Some(h) => h@,
                None => "unknown"@,
            },
            r.delivery == delivery,
            r.signature == signature,
            r.body == body,
            r.repo_id == repo_id,
            r.stage == WebhookStage::Start,
            r.payload is None,
            r.repo is None,
            r.event_id is None,
    {
        let event_type = match event_header {
            Some(h) => h,
            None => owned("unknown"),
        };
        WebhookTask {
            event_type,
            delivery,
            signature,
            body,
            repo_id,
            stage: WebhookStage::Start,
            payload: None,
            repo: None,
            event_id: None,
        }
    }

    fn moved(self, stage: WebhookStage) -> (r: Self)
        ensures
            r@ == at_stage(self@, stage),
    {
        WebhookTask { stage, ..self }
    }

    fn store(&self) -> (a: WebhookAction)
        ensures
            a@ == store_action(self@),
            a matches WebhookAction::StoreEvent { headers, .. } && headers_record(
                headers,
                self@.event_type,
                self@.delivery,
            ),
    {
        let repo_id = match &self.repo {
            Some(r) => Some(r.id.clone()),
            None => None,
        };
        let delivery = match &self.delivery {
            Some(d) => JsonValue::String(d.clone()),
            None => JsonValue::Null,
        };
        let mut ms: Vec<(String, JsonValue)> = Vec::new();
        ms.push((owned("delivery"), delivery));
        ms.push((owned("event"), JsonValue::String(self.event_type.clone())));
        WebhookAction::StoreEvent {
            repo_id,
            event_type: self.event_type.clone(),
            headers: JsonValue::Object(ms),
            signature: match &self.signature {
                Some(s) => Some(s.clone()),
                None => None,
            },
        }
    }

    fn routed(self) -> (r: (Self, WebhookAction))
        ensures
            r.0@ == route(self@).0,
            r.1@ == route(self@).1,
            r.1 matches WebhookAction::HandlePush(p) ==> (self.payload matches Some(x) && push_ok(x, p)),
    {
        let push = match &self.payload {
            Some(p) => push_to_handle(self.event_type.as_str(), p),
            None => None,
        };
        if self.payload.is_none() || self.event_id.is_none() {
            return (self.moved(WebhookStage::Done), WebhookAction::Stop);
        }
        let id = match &self.event_id {
            Some(i) => i.clone(),
            None => owned(""),
        };
        match push {
            Some(e) => (self.moved(WebhookStage::HandlingPush), WebhookAction::HandlePush(e)),
            None => (self.moved(WebhookStage::MarkingProcessed), WebhookAction::MarkProcessed(id)),
        }
    }

    /// One step: the task after the outcome `event` of the last action, and
    /// the next action. A body that does not read as JSON is answered with a
    /// bad request whose message starts `Invalid JSON: `; the event is
    /// stored with the headers record of its delivery id and event type; the
    /// push handled is the one the payload describes.
    pub fn step(self, event: WebhookEvent) -> (r: (Self, WebhookAction))
        ensures
            !unreadable_start(self@, event@) ==> r.0@ == webhook_step(self@, event@).0,
            !unreadable_start(self@, event@) ==> r.1@ == webhook_step(self@, event@).1,
            unreadable_start(self@, event@) ==> r.0@ == at_stage(self@, WebhookStage::Done) && (r.1 matches WebhookAction::Respond(
                Err(ApiError::BadRequest(m)),
            ) && starts_with(m@, "Invalid JSON: "@)),
            r.1 matches WebhookAction::StoreEvent { headers, .. } ==> headers_record(
                headers,
                self@.event_type,
                self@.delivery,
            ),
            r.1 matches WebhookAction::HandlePush(p) ==> (r.0.payload matches Some(x) && push_ok(x, p)),
    {
        match (self.stage, event) {
            (WebhookStage::Start, WebhookEvent::Begin) => {
                let parsed = parse_webhook_payload(self.body.as_slice());
                match parsed {
                    Err(e) => (self.moved(WebhookStage::Done), WebhookAction::Respond(Err(e))),
                    Ok(p) => {
                        let by_name: Option<String> = match payload_repository_name(&p) {
                            Some(n) => Some(owned(n)),
                            None => None,
                        };
                        let by_id: Option<String> = match &self.repo_id {
                            Some(id) => Some(id.clone()),
                            None => None,
                        };
                        let t = WebhookTask { payload: Some(p), ..self };
                        match by_id {
                            Some(id) => (t.moved(WebhookStage::FindingRepo), WebhookAction::FindRepoById(id)),
                            None => match by_name {
                                Some(n) => (t.moved(WebhookStage::FindingRepo), WebhookAction::FindRepoByName(n)),
                                None => {
                                    let t = t.moved(WebhookStage::StoringEvent);
                                    let a = t.store();
                                    (t, a)
                                },
                            },
                        }
                    },
                }
            },
            (WebhookStage::FindingRepo, WebhookEvent::RepoFound(Ok(r))) => {
                let t = WebhookTask { stage: WebhookStage::StoringEvent, repo: r, ..self };
                let a = t.store();
                (t, a)
            },
            (WebhookStage::StoringEvent, WebhookEvent::EventStored(Ok(id))) => {
                let secret: Option<String> = match &self.repo {
                    Some(r) => match &r.webhook_secret {
                        Some(s) => Some(s.clone()),
                        None => None,
                    },
                    None => None,
                };
                let t = WebhookTask { event_id: Some(id), ..self };
                match secret {
                    Some(s) => {
                        let sig: Option<&str> = match &t.signature {
                            Some(x) => Some(x.as_str()),
                            None => None,
                        };
                        let valid = webhook_authorized(Some(s.as_str()), t.body.as_slice(), sig);
                        let eid = match &t.event_id {
                            Some(i) => i.clone(),
                            None => owned(""),
                        };
                        (
                            t.moved(WebhookStage::RecordingSignature { valid }),
                            WebhookAction::RecordSignature { event_id: eid, valid },
                        )
                    },
                    None => t.routed(),
                }
            },
            (WebhookStage::RecordingSignature { valid }, WebhookEvent::SignatureRecorded(Ok(_))) => {
                if valid {
                    self.routed()
                } else {
                    (self.moved(WebhookStage::Done), WebhookAction::Respond(Ok(401)))
                }
            },
            (WebhookStage::HandlingPush, WebhookEvent::PushHandled(Ok(_))) => {
                let id = match &self.event_id {
                    Some(i) => Some(i.clone()),
                    None => None,
                };
                match id {
                    Some(i) => (self.moved(WebhookStage::MarkingProcessed), WebhookAction::MarkProcessed(i)),
                    None => (self.moved(WebhookStage::Done), WebhookAction::Stop),
                }
            },
            (WebhookStage::MarkingProcessed, WebhookEvent::Processed(Ok(_))) => (
                self.moved(WebhookStage::Done),
                WebhookAction::Respond(Ok(200)),
            ),
            (WebhookStage::FindingRepo, WebhookEvent::RepoFound(Err(x)))
            | (WebhookStage::StoringEvent, WebhookEvent::EventStored(Err(x)))
            | (WebhookStage::RecordingSignature { .. }, WebhookEvent::SignatureRecorded(Err(x)))
            | (WebhookStage::HandlingPush, WebhookEvent::PushHandled(Err(x)))
            | (WebhookStage::MarkingProcessed, WebhookEvent::Processed(Err(x))) => (
                self.moved(WebhookStage::Done),
                WebhookAction::Respond(Err(x)),
            ),
            _ => (self.moved(WebhookStage::Done), WebhookAction::Stop),
        }
    }
}

} // verus!
