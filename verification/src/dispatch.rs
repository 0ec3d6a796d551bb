//! The course of one request, as a state machine.
//!
//! The caller performs what an action asks for (the permission lookup, the
//! rendering of a template, the hand-over to the provider, the answer to
//! the client) and comes back with the event that tells how it went.
//! Checking the request needs nothing from outside, so it happens within
//! the step that follows the permission service's answer. No step is tried
//! twice, and every failure ends the request; a template that fails to
//! render is no failure of the request.

use vstd::prelude::*;
use vstd::string::*;
use crate::error::{Error, ErrorModel};
use crate::json::JsonValue;
use crate::legacy::email::{EmailRequestLegacy, RequestModel};
use crate::legacy::request::parse_request;
use crate::content::{after_render, RenderRequest};
use crate::message::{
    envelope_of, outcome_matches, prepare, prepared, prepared_of, Assembled, Prepared,
};
use crate::text::{concat2, same_text, trim, trimmed};

verus! {

pub const STATUS_OK: u16 = 200;

/// Where a request stands.
pub enum DispatchState {
    /// Nothing has been looked at yet.
    Received,
    /// The permission service has been asked about the request's key.
    Authorizing(EmailRequestLegacy),
    /// The request is in order, and its template has been asked to render.
    Rendering(Prepared),
    /// The message has been handed to the provider.
    Dispatching,
    /// The provider took the message under this identifier.
    Done(String),
    /// The request has failed.
    Failed(Error),
}

/// What happened outside.
pub enum DispatchEvent {
    /// A request came in. `payload` is `None` where the body was neither
    /// JSON nor a form. `hive_url` is the configured address of the
    /// permission service, or why there is none; `hive_secret` the
    /// configured secret for it.
    Arrived {
        payload: Option<EmailRequestLegacy>,
        hive_url: Result<String, String>,
        hive_secret: Option<String>,
    },
    /// The permission service answered with this text, or could not be
    /// reached.
    PermissionAnswered(Result<String, String>),
    /// The template rendered this text, or failed to render.
    Rendered(Result<String, String>),
    /// The provider took the message under this identifier, or refused it.
    Sent(Result<String, String>),
}

/// What the caller is to do next.
pub enum DispatchAction {
    /// Ask the permission service at `url`, showing `secret`.
    CheckPermission { url: String, secret: String },
    /// Render the template of this name with this data.
    Render(RenderRequest),
    /// Hand the message to the provider.
    Send(Assembled),
    /// Answer the client.
    Respond { status: u16, body: String },
    /// The event does not belong to the state: nothing is to be done.
    Nothing,
}

impl DispatchState {
    /// Whether a request that is held is short enough for the encoder.
    pub open spec fn wf(self) -> bool {
        self matches DispatchState::Authorizing(request) ==> request@.fits()
    }
}

impl DispatchEvent {
    /// Whether a request that comes in is short enough for the encoder.
    pub open spec fn admissible(self) -> bool {
        self matches DispatchEvent::Arrived { payload: Some(request), .. } ==> request@.fits()
    }
}

/// The request that a body holds.
///
/// `json` is the body read as JSON, `form` the body read as a form, each
/// where the body is of that kind. A body of neither kind holds no request,
/// and neither does one that is not a request: JSON is asked first, and a
/// form only where JSON gives none.
pub open spec fn payload_of(json: Option<JsonValue>, form: Option<JsonValue>) -> Option<
    RequestModel,
> {
    match json {
        Some(value) if parse_request(value) is Ok => Some(parse_request(value)->Ok_0),
        _ => match form {
            Some(value) if parse_request(value) is Ok => Some(parse_request(value)->Ok_0),
            _ => None,
        },
    }
}

/// The request that a body holds.
pub fn read_payload(json: &Option<JsonValue>, form: &Option<JsonValue>) -> (r: Option<
    EmailRequestLegacy,
>)
    ensures
        match r {
            Some(request) => payload_of(*json, *form) == Some(request@),
            None => payload_of(*json, *form) is None,
        },
{
    if let Some(value) = json {
        if let Ok(request) = EmailRequestLegacy::from_json(value) {
            return Some(request);
        }
    }
    if let Some(value) = form {
        if let Ok(request) = EmailRequestLegacy::from_json(value) {
            return Some(request);
        }
    }
    None
}

/// Where the permission of `key` is looked up.
pub open spec fn permission_url(hive_url: Seq<char>, key: Seq<char>) -> Seq<char> {
    hive_url + "/token/"@ + key + "/permission/send"@
}

/// Where the permission of `key` is looked up.
pub fn permission_url_for(hive_url: &str, key: &str) -> (url: String)
    ensures
        url@ == permission_url(hive_url@, key@),
{
    let mut url = String::from_str(hive_url);
    url.append("/token/");
    url.append(key);
    url.append("/permission/send");
    url
}

/// What stands in the way of the permission lookup when a request comes
/// in: a body of an unknown kind, or a missing piece of configuration.
pub open spec fn arrival_failure(
    payload_present: bool,
    hive_url: Result<Seq<char>, Seq<char>>,
    secret_present: bool,
) -> Option<ErrorModel> {
    if !payload_present {
        Some(ErrorModel::InvalidContentType)
    } else {
        match hive_url {
            Err(detail) => Some(ErrorModel::EnvVarMissing("HIVE_URL missing: "@ + detail)),
            Ok(_) => if !secret_present {
                Some(ErrorModel::EnvVarMissing("HIVE_SECRET"@))
            } else {
                None
            },
        }
    }
}

/// What the permission service's answer means: permission where the
/// trimmed text is `true`, none where it is `false`; any other text, and
/// no answer at all, is a failed lookup.
pub open spec fn authorization(answer: Result<Seq<char>, Seq<char>>) -> Result<(), ErrorModel> {
    match answer {
        Err(detail) => Err(ErrorModel::ApiKeyLookup(detail)),
        Ok(text) => if trimmed(text) == "true"@ {
            Ok(())
        } else if trimmed(text) == "false"@ {
            Err(ErrorModel::ApiKeyInvalid)
        } else {
            Err(
                ErrorModel::ApiKeyLookup(
                    "Key parse failed: provided string was not `true` or `false`"@,
                ),
            )
        },
    }
}

/// A text or a failure's detail, over sequences of characters.
pub open spec fn outside_result(r: Result<String, String>) -> Result<Seq<char>, Seq<char>> {
    match r {
        Ok(text) => Ok(text@),
        Err(detail) => Err(detail@),
    }
}

/// What the permission service's answer means.
pub fn authorize(answer: &Result<String, String>) -> (r: Result<(), Error>)
    ensures
        match r {
            Ok(_) => authorization(outside_result(*answer)) is Ok,
            Err(e) => authorization(outside_result(*answer)) == Err::<(), ErrorModel>(e@),
        },
{
    match answer {
        Err(detail) => Err(Error::ApiKeyLookup(detail.clone())),
        Ok(text) => {
            let word = trim(text.as_str());
            if same_text(word, "true") {
                Ok(())
            } else if same_text(word, "false") {
                Err(Error::ApiKeyInvalid)
            } else {
                Err(
                    Error::ApiKeyLookup(
                        String::from_str(
                            "Key parse failed: provided string was not `true` or `false`",
                        ),
                    ),
                )
            }
        },
    }
}

/// The failure of a message that the provider refused.
pub open spec fn send_failure(detail: Seq<char>) -> ErrorModel {
    ErrorModel::EmailSend("Email failed to send: "@ + detail)
}

/// Whether `next` and `action` are how a request fails with `failure`: the
/// state holds the failure, and the client is answered with its status and
/// its text.
pub open spec fn fails_with(next: DispatchState, action: DispatchAction, failure: ErrorModel)
    -> bool {
    &&& next matches DispatchState::Failed(e) && e@ == failure
    &&& action matches DispatchAction::Respond { status, body } && status == failure.status()
        && body@ == failure.text()
}

/// Whether `next` and `action` are what `state` and `event` lead to.
pub open spec fn leads_to(
    state: DispatchState,
    event: DispatchEvent,
    next: DispatchState,
    action: DispatchAction,
) -> bool {
    match (state, event) {
        (DispatchState::Received, DispatchEvent::Arrived { payload, hive_url, hive_secret }) => {
            match arrival_failure(payload is Some, outside_result(hive_url), hive_secret is Some) {
                Some(failure) => fails_with(next, action, failure),
                None => {
                    &&& next == DispatchState::Authorizing(payload->Some_0)
                    &&& action matches DispatchAction::CheckPermission { url, secret } && url@
                        == permission_url(hive_url->Ok_0@, payload->Some_0.key@) && secret@
                        == hive_secret->Some_0@
                },
            }
        },
        (DispatchState::Authorizing(request), DispatchEvent::PermissionAnswered(answer)) => {
            match authorization(outside_result(answer)) {
                Err(failure) => fails_with(next, action, failure),
                Ok(_) => match prepared_of(request@) {
                    None => next matches DispatchState::Failed(e) && prepared(request@, Err(e))
                        && fails_with(next, action, e@),
                    Some(ready) => match ready.rendering() {
                        None => {
                            &&& next is Dispatching
                            &&& action matches DispatchAction::Send(done) && done.message@
                                == ready.with_body(ready.untemplated_body())
                                && done.render_failure is None
                        },
                        Some(asked) => {
                            &&& next matches DispatchState::Rendering(held) && held@ == ready
                            &&& action matches DispatchAction::Render(request) && request@
                                == asked
                        },
                    },
                },
            }
        },
        (DispatchState::Rendering(held), DispatchEvent::Rendered(result)) => {
            &&& next is Dispatching
            &&& action matches DispatchAction::Send(done) && done.message@ == held@.with_body(
                after_render(held@.envelope.content, outside_result(result)).body(),
            ) && outcome_matches(
                after_render(held@.envelope.content, outside_result(result)),
                done.message@.html_body,
                done.render_failure,
            )
        },
        (DispatchState::Dispatching, DispatchEvent::Sent(result)) => {
            match result {
                Ok(id) => {
                    &&& next matches DispatchState::Done(kept) && kept@ == id@
                    &&& action matches DispatchAction::Respond { status, body } && status
                        == STATUS_OK && body@ == id@
                },
                Err(detail) => fails_with(next, action, send_failure(detail@)),
            }
        },
        _ => next == state && action is Nothing,
    }
}

/// The state of a failed request and the answer to the client.
pub fn fail(e: Error) -> (r: (DispatchState, DispatchAction))
    ensures
        fails_with(r.0, r.1, e@),
        r.0 == DispatchState::Failed(e),
{
    let status = e.status_code();
    let body = e.to_string();
    (DispatchState::Failed(e), DispatchAction::Respond { status, body })
}

/// Takes a request one step further.
///
/// A template is asked to render, and the provider is handed a message,
/// only after the permission service has answered `true` and the request
/// was found in order. Whatever the template comes to, the message goes
/// out.
pub fn step(state: DispatchState, event: DispatchEvent) -> (r: (DispatchState, DispatchAction))
    requires
        state.wf(),
        event.admissible(),
    ensures
        leads_to(state, event, r.0, r.1),
        r.0.wf(),
        r.1 is Send || r.1 is Render ==> state is Rendering || (state matches DispatchState::Authorizing(
            request,
        ) && (event matches DispatchEvent::PermissionAnswered(answer) && authorization(
            outside_result(answer),
        ) is Ok && envelope_of(request@) is Ok)),
        r.1 is Render ==> state is Authorizing,
        state is Rendering && event is Rendered ==> r.1 is Send,
{
    match (state, event) {
        (DispatchState::Received, DispatchEvent::Arrived { payload, hive_url, hive_secret }) => {
            let request = match payload {
                Some(request) => request,
                None => {
                    return fail(Error::InvalidContentType);
                },
            };
            let base = match hive_url {
                Ok(base) => base,
                Err(detail) => {
                    return fail(
                        Error::EnvVarMissing(concat2("HIVE_URL missing: ", detail.as_str())),
                    );
                },
            };
            let secret = match hive_secret {
                Some(secret) => secret,
                None => {
                    return fail(Error::EnvVarMissing(String::from_str("HIVE_SECRET")));
                },
            };
            let url = permission_url_for(base.as_str(), request.key.as_str());
            (DispatchState::Authorizing(request), DispatchAction::CheckPermission { url, secret })
        },
        (DispatchState::Authorizing(request), DispatchEvent::PermissionAnswered(answer)) => {
            match authorize(&answer) {
                Err(e) => fail(e),
                Ok(_) => match prepare(&request) {
                    Err(e) => fail(e),
                    Ok(ready) => match ready.rendering() {
                        None => (
                            DispatchState::Dispatching,
                            DispatchAction::Send(ready.complete_untemplated()),
                        ),
                        Some(asked) => (
                            DispatchState::Rendering(ready),
                            DispatchAction::Render(asked),
                        ),
                    },
                },
            }
        },
        (DispatchState::Rendering(held), DispatchEvent::Rendered(result)) => {
            (DispatchState::Dispatching, DispatchAction::Send(held.complete(result)))
        },
        (DispatchState::Dispatching, DispatchEvent::Sent(result)) => {
            match result {
                Ok(id) => {
                    let body = id.clone();
                    (DispatchState::Done(id), DispatchAction::Respond { status: STATUS_OK, body })
                },
                Err(detail) => fail(
                    Error::EmailSend(concat2("Email failed to send: ", detail.as_str())),
                ),
            }
        },
        (state, _) => (state, DispatchAction::Nothing),
    }
}

} // verus!
