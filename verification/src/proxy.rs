//! The forwarder's decisions: where a request goes, which headers go with
//! it, which come back, and what the caller is told when nothing can be
//! reached.

use vstd::prelude::*;
use vstd::string::{StringExecFns, StringSliceAdditionalSpecFns};
use vstd::utf8::encode_utf8;
use axum::http::HeaderMap;
use axum::http::HeaderValue;
use crate::headers::{
    copy_headers, has_room_for_two, header_values, is_header_value, is_value_text,
    lemma_known_names, remove_header, set_header, HeaderEdit,
};
use crate::registry::AppState;
use crate::selector::{choose_server, healthy_indices, select};
use crate::text::{join, trim_trailing_slashes, without_trailing_slashes};

verus! {

/// Status of the answer when no backend is healthy.
pub const SERVICE_UNAVAILABLE: u16 = 503;

/// Status of the answer when the chosen backend could not be reached.
pub const BAD_GATEWAY: u16 = 502;

/// Why a request could not be prepared for a backend.
#[derive(Clone, Copy, Debug, PartialEq, Eq, Structural)]
pub enum ForwardError {
    /// The backend's base URL is no URL.
    InvalidBackendUrl,
    /// The backend's host or base URL cannot stand in a header.
    InvalidHeaderValue,
    /// The request has more headers than a header map can hold.
    TooManyHeaders,
}

/// A request ready to be sent to a backend.
pub struct ForwardPlan {
    /// The address to call: base URL, path and query.
    pub url: String,
    /// The backend's host name, as sent in the `Host` header.
    pub host: String,
    /// The headers to send.
    pub headers: HeaderMap<HeaderValue>,
}

/// What to do with an inbound request.
pub enum ProxyAction {
    /// Answer at once; no backend is called.
    Respond { status: u16, body: String },
    /// Send the request on as planned, and relay what comes back.
    Forward(ForwardPlan),
}

/// The host of `text` read as a URL: `None` where it is no URL, `Some(None)`
/// for a URL without a host.
pub uninterp spec fn url_host(text: Seq<char>) -> Option<Option<Seq<char>>>;

/// The address to call: the base URL without the slashes at its end, then
/// the path, then the query behind a question mark if there is one.
pub open spec fn target_address(base_url: Seq<char>, path: Seq<char>, query: Option<Seq<char>>) -> Seq<
    char,
> {
    let query_part = match query {
        Some(q) => "?"@ + q,
        None => Seq::empty(),
    };
    without_trailing_slashes(base_url) + path + query_part
}

/// The host name to send: the URL's host, or nothing where it has none.
pub open spec fn host_or_empty(host: Option<Seq<char>>) -> Seq<char> {
    match host {
        Some(h) => h,
        None => Seq::empty(),
    }
}

/// The headers sent to the backend: those of the inbound request, with
/// `host` naming the backend, `referer` set to its base URL, and
/// `accept-encoding` taken out.
pub open spec fn forwarded_values(
    inbound: Map<Seq<char>, Seq<Seq<u8>>>,
    host: Seq<u8>,
    referer: Seq<u8>,
) -> Map<Seq<char>, Seq<Seq<u8>>> {
    inbound.insert("host"@, seq![host]).insert("referer"@, seq![referer]).remove(
        "accept-encoding"@,
    )
}

/// The headers relayed to the caller: those of the backend's response but
/// `content-security-policy` and `x-frame-options`.
pub open spec fn relayed_values(upstream: Map<Seq<char>, Seq<Seq<u8>>>) -> Map<
    Seq<char>,
    Seq<Seq<u8>>,
> {
    upstream.remove("content-security-policy"@).remove("x-frame-options"@)
}

/// The error that the inputs alone decide, if any: no URL, or a host or base
/// URL that cannot stand in a header.
pub open spec fn plan_failure(base_url: Seq<char>, host: Option<Option<Seq<char>>>) -> Option<
    ForwardError,
> {
    match host {
        None => Some(ForwardError::InvalidBackendUrl),
        Some(h) => if is_header_value(encode_utf8(host_or_empty(h))) && is_header_value(
            encode_utf8(base_url),
        ) {
            None
        } else {
            Some(ForwardError::InvalidHeaderValue)
        },
    }
}

/// The plan is the one for this request and this host.
pub open spec fn is_plan_for(
    plan: ForwardPlan,
    base_url: Seq<char>,
    path: Seq<char>,
    query: Option<Seq<char>>,
    inbound: Map<Seq<char>, Seq<Seq<u8>>>,
    host: Option<Seq<char>>,
) -> bool {
    &&& plan.url@ == target_address(base_url, path, query)
    &&& plan.host@ == host_or_empty(host)
    &&& header_values(plan.headers) == forwarded_values(
        inbound,
        encode_utf8(host_or_empty(host)),
        encode_utf8(base_url),
    )
}

/// The outcome of planning is the right one for this request and this host:
/// the error that the inputs decide where they decide one; else the plan for
/// the request, or the report that the header map is full.
pub open spec fn plans_or_fails(
    result: Result<ForwardPlan, ForwardError>,
    base_url: Seq<char>,
    path: Seq<char>,
    query: Option<Seq<char>>,
    inbound: Map<Seq<char>, Seq<Seq<u8>>>,
    host: Option<Option<Seq<char>>>,
) -> bool {
    match result {
        Ok(plan) => plan_failure(base_url, host) is None && is_plan_for(
            plan,
            base_url,
            path,
            query,
            inbound,
            host->0,
        ),
        Err(e) => match plan_failure(base_url, host) {
            Some(decided) => e == decided,
            None => e == ForwardError::TooManyHeaders,
        },
    }
}

/// The action answers the caller at once, saying that no backend is alive.
pub open spec fn is_unavailable(action: ProxyAction) -> bool {
    action matches ProxyAction::Respond { status, body } && status == SERVICE_UNAVAILABLE && body@
        == "No backend servers alive"@
}

/// Routing ended with a request to send on.
pub open spec fn forwards(result: Result<ProxyAction, ForwardError>) -> bool {
    result matches Ok(ProxyAction::Forward(_))
}

/// Routing ended with the immediate answer that no backend is alive.
pub open spec fn answers_unavailable(result: Result<ProxyAction, ForwardError>) -> bool {
    result matches Ok(action) && is_unavailable(action)
}

/// The outcome of routing is the right one for this request and this
/// selection: the immediate answer where nothing was selected, else what
/// planning for the selected backend gives.
pub open spec fn routes(
    result: Result<ProxyAction, ForwardError>,
    selected: Option<Seq<char>>,
    path: Seq<char>,
    query: Option<Seq<char>>,
    inbound: Map<Seq<char>, Seq<Seq<u8>>>,
) -> bool {
    match selected {
        None => answers_unavailable(result),
        Some(base_url) => match result {
            Ok(action) => action matches ProxyAction::Forward(plan) && plans_or_fails(
                Ok(plan),
                base_url,
                path,
                query,
                inbound,
                url_host(base_url),
            ),
            Err(e) => plans_or_fails(Err(e), base_url, path, query, inbound, url_host(base_url)),
        },
    }
}

/// The view of an optional text.
pub open spec fn text_view(text: Option<&str>) -> Option<Seq<char>> {
    match text {
        Some(t) => Some(t@),
        None => None,
    }
}

/// The view of what reading a URL's host gave.
pub open spec fn host_view(host: Option<Option<String>>) -> Option<Option<Seq<char>>> {
    match host {
        None => None,
        Some(None) => Some(None),
        Some(Some(h)) => Some(Some(h@)),
    }
}

/// Reads `text` as a URL and hands out its host.
///
/// Calls `reqwest::Url::parse` and, on the URL it gives, `host_str`. The
/// result depends on the text alone.
#[verifier::external_body]
fn parse_host(text: &str) -> (host: Option<Option<String>>)
    ensures
        host_view(host) == url_host(text@),
{
    match reqwest::Url::parse(text) {
        Ok(url) => match url.host_str() {
            Some(host) => Some(Some(host.to_string())),
            None => Some(None),
        },
        Err(_) => None,
    }
}

/// The address to call for a request to `path` with `query` on the backend
/// at `base_url`.
pub fn target_url(base_url: &str, path: &str, query: Option<&str>) -> (url: String)
    ensures
        url@ == target_address(base_url@, path@, text_view(query)),
{
    let stem = join(trim_trailing_slashes(base_url), path);
    match query {
        Some(q) => {
            let with_mark = stem.concat("?").concat(q);
            assert(with_mark@ =~= target_address(base_url@, path@, text_view(query)));
            with_mark
        },
        None => {
            assert(stem@ =~= target_address(base_url@, path@, text_view(query)));
            stem
        },
    }
}

/// What an attempt to set a header means for the request.
pub fn edit_result(edit: HeaderEdit) -> (result: Result<(), ForwardError>)
    ensures
        result == match edit {
            HeaderEdit::Done => Ok::<(), ForwardError>(()),
            HeaderEdit::BadValue => Err(ForwardError::InvalidHeaderValue),
            HeaderEdit::Full => Err(ForwardError::TooManyHeaders),
        },
{
    match edit {
        HeaderEdit::Done => Ok(()),
        HeaderEdit::BadValue => Err(ForwardError::InvalidHeaderValue),
        HeaderEdit::Full => Err(ForwardError::TooManyHeaders),
    }
}

/// The headers to send to a backend, made from those of the inbound
/// request, which stay as they are.
///
/// Fails with `InvalidHeaderValue` exactly when `host` or `referer` cannot
/// stand in a header. Otherwise the headers are as `forwarded_values` says,
/// unless the header map reports that it is full, which a map with room for
/// two more names never does.
pub fn request_headers(inbound: &HeaderMap<HeaderValue>, host: &str, referer: &str) -> (result: Result<
    HeaderMap<HeaderValue>,
    ForwardError,
>)
    ensures
        match result {
            Ok(headers) => {
                &&& is_header_value(host.spec_bytes())
                &&& is_header_value(referer.spec_bytes())
                &&& header_values(headers) == forwarded_values(
                    header_values(*inbound),
                    host.spec_bytes(),
                    referer.spec_bytes(),
                )
            },
            Err(e) => if is_header_value(host.spec_bytes()) && is_header_value(
                referer.spec_bytes(),
            ) {
                e == ForwardError::TooManyHeaders
            } else {
                e == ForwardError::InvalidHeaderValue
            },
        },
        is_header_value(host.spec_bytes()) && is_header_value(referer.spec_bytes())
            && has_room_for_two(*inbound) ==> result is Ok,
{
    proof {
        lemma_known_names();
    }
    if !is_value_text(host) || !is_value_text(referer) {
        return Err(ForwardError::InvalidHeaderValue);
    }
    let mut headers = copy_headers(inbound);
    match edit_result(set_header(&mut headers, "host", host)) {
        Ok(()) => {},
        Err(e) => {
            return Err(e);
        },
    }
    match edit_result(set_header(&mut headers, "referer", referer)) {
        Ok(()) => {},
        Err(e) => {
            return Err(e);
        },
    }
    remove_header(&mut headers, "accept-encoding");
    Ok(headers)
}

/// The headers to relay to the caller, made from those of the backend's
/// response, which stay as they are.
pub fn response_headers(upstream: &HeaderMap<HeaderValue>) -> (headers: HeaderMap<HeaderValue>)
    ensures
        header_values(headers) == relayed_values(header_values(*upstream)),
{
    proof {
        lemma_known_names();
    }
    let mut headers = copy_headers(upstream);
    remove_header(&mut headers, "content-security-policy");
    remove_header(&mut headers, "x-frame-options");
    headers
}

/// Plans the request to the backend at `base_url`, given what reading that
/// URL's host gave.
///
/// An error that the inputs decide is returned as `plan_failure` says.
/// Otherwise the plan is the one for this request, unless the header map
/// reports that it is full, which a map with room for two more names never
/// does.
pub fn plan_with_host(
    base_url: &str,
    path: &str,
    query: Option<&str>,
    inbound: &HeaderMap<HeaderValue>,
    host: Option<Option<String>>,
) -> (result: Result<ForwardPlan, ForwardError>)
    ensures
        plans_or_fails(
            result,
            base_url@,
            path@,
            text_view(query),
            header_values(*inbound),
            host_view(host),
        ),
        plan_failure(base_url@, host_view(host)) is None && has_room_for_two(*inbound)
            ==> result is Ok,
{
    let host_name: String = match host {
        None => {
            return Err(ForwardError::InvalidBackendUrl);
        },
        Some(Some(h)) => h,
        Some(None) => String::new(),
    };
    let headers = match request_headers(inbound, host_name.as_str(), base_url) {
        Ok(headers) => headers,
        Err(e) => {
            return Err(e);
        },
    };
    let url = target_url(base_url, path, query);
    Ok(ForwardPlan { url, host: host_name, headers })
}

/// Plans the request to the backend at `base_url`: the address to call, the
/// host to name, the headers to send. Where the URL and its host can stand
/// in headers and the inbound headers leave room for two more names, there
/// is a plan.
pub fn plan_forward(
    base_url: &str,
    path: &str,
    query: Option<&str>,
    inbound: &HeaderMap<HeaderValue>,
) -> (result: Result<ForwardPlan, ForwardError>)
    ensures
        plans_or_fails(
            result,
            base_url@,
            path@,
            text_view(query),
            header_values(*inbound),
            url_host(base_url@),
        ),
        plan_failure(base_url@, url_host(base_url@)) is None && has_room_for_two(*inbound)
            ==> result is Ok,
{
    plan_with_host(base_url, path, query, inbound, parse_host(base_url))
}

/// The answer when no backend is healthy.
pub fn unavailable() -> (action: ProxyAction)
    ensures
        is_unavailable(action),
{
    ProxyAction::Respond {
        status: SERVICE_UNAVAILABLE,
        body: String::from_str("No backend servers alive"),
    }
}

/// The answer when the backend could not be reached: the failure's own
/// words behind `Bad Gateway: `.
pub fn bad_gateway(detail: &str) -> (action: ProxyAction)
    ensures
        action matches ProxyAction::Respond { status, body } && status == BAD_GATEWAY && body@
            == "Bad Gateway: "@ + detail@,
{
    ProxyAction::Respond { status: BAD_GATEWAY, body: join("Bad Gateway: ", detail) }
}

/// Decides what happens to a request, given the backend selected for it.
///
/// With no backend selected the caller is answered at once with
/// `SERVICE_UNAVAILABLE`, and no backend is called. Otherwise the request is
/// planned for the selected backend, and is sent on wherever `plan_forward`
/// owes a plan.
pub fn route(
    selected: Option<String>,
    path: &str,
    query: Option<&str>,
    inbound: &HeaderMap<HeaderValue>,
) -> (result: Result<ProxyAction, ForwardError>)
    ensures
        routes(
            result,
            match selected {
                Some(base_url) => Some(base_url@),
                None => None,
            },
            path@,
            text_view(query),
            header_values(*inbound),
        ),
        selected matches Some(base_url) ==> (plan_failure(base_url@, url_host(base_url@)) is None
            && has_room_for_two(*inbound) ==> forwards(result)),
{
    match selected {
        None => Ok(unavailable()),
        Some(base_url) => match plan_forward(base_url.as_str(), path, query, inbound) {
            Ok(plan) => Ok(ProxyAction::Forward(plan)),
            Err(e) => Err(e),
        },
    }
}

/// Handles one inbound request: selects the backend for the client, then
/// decides what happens to the request.
///
/// The registry changes as selection says. With no healthy backend the
/// caller is answered at once with `SERVICE_UNAVAILABLE`, and no backend is
/// called. With a backend selected the request is sent on wherever
/// `plan_forward` owes a plan.
pub fn dispatch(
    state: &mut AppState,
    client_id: &str,
    path: &str,
    query: Option<&str>,
    inbound: &HeaderMap<HeaderValue>,
) -> (result: Result<ProxyAction, ForwardError>)
    ensures
        final(state)@ == select(old(state)@, client_id@).0,
        routes(
            result,
            select(old(state)@, client_id@).1,
            path@,
            text_view(query),
            header_values(*inbound),
        ),
        healthy_indices(old(state)@.servers).len() == 0 ==> final(state)@ == old(state)@
            && answers_unavailable(result),
        select(old(state)@, client_id@).1 matches Some(base_url) ==> (plan_failure(
            base_url,
            url_host(base_url),
        ) is None && has_room_for_two(*inbound) ==> forwards(result)),
{
    let selected = choose_server(state, client_id);
    route(selected, path, query, inbound)
}

} // verus!
