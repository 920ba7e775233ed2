//! The data of the token manager, and the pure parts of the OAuth flow:
//! the authorisation link and the parameters of the redirect back.
use vstd::prelude::*;
use crate::random::{is_token, random_token, STATE_BYTES};
use crate::tags::split_once_spec;
use crate::text::{find_char, split_at_any, split_spec, str_eq, string_of, to_chars};

verus! {

/// A user's OAuth token.
#[derive(Clone, Debug)]
pub struct OAuthToken(pub String);

/// The access and refresh tokens in use, and the OAuth token they came from,
/// if any.
#[derive(Clone, Debug)]
pub struct Credentials {
    pub oauth: Option<OAuthToken>,
    pub access_token: String,
    pub refresh_token: String,
}

/// What the OAuth server needs.
pub struct OAuthServerData {
    pub client_id: String,
    /// `address:port`, without a protocol.
    pub host_address: String,
    /// `/path`.
    pub response_path: String,
    pub scopes: Vec<String>,
}

/// One parameter, `key=value`.
pub open spec fn param_spec(s: Seq<char>) -> Option<(Seq<char>, Seq<char>)> {
    split_once_spec(s, '=')
}

/// Each of `parts` read as a parameter, if all are.
pub open spec fn param_list_spec(parts: Seq<Seq<char>>) -> Option<Seq<(Seq<char>, Seq<char>)>>
    decreases parts.len(),
{
    if parts.len() == 0 {
        Some(Seq::empty())
    } else {
        match (param_list_spec(parts.drop_last()), param_spec(parts.last())) {
            (Some(v), Some(p)) => Some(v.push(p)),
            _ => None,
        }
    }
}

/// A query string, `key=value&key=value...`.
pub open spec fn url_params_spec(s: Seq<char>) -> Option<Seq<(Seq<char>, Seq<char>)>> {
    param_list_spec(split_spec(s, "&"@))
}

pub open spec fn pairs_view(v: Seq<(String, String)>) -> Seq<(Seq<char>, Seq<char>)> {
    v.map_values(|b: (String, String)| (b.0@, b.1@))
}

proof fn lemma_prefix_none_params(parts: Seq<Seq<char>>, k: int)
    requires
        0 <= k <= parts.len(),
        param_list_spec(parts.subrange(0, k)) is None,
    ensures
        param_list_spec(parts) is None,
    decreases parts.len() - k,
{
    if k < parts.len() {
        assert(parts.subrange(0, k + 1).drop_last() =~= parts.subrange(0, k));
        lemma_prefix_none_params(parts, k + 1);
    } else {
        assert(parts.subrange(0, k) =~= parts);
    }
}

/// Reads a query string into its parameters, in order: see
/// `url_params_spec`.
pub fn parse_url_params(params: &str) -> (r: Option<Vec<(String, String)>>)
    ensures
        match r {
            Some(v) => url_params_spec(params@) == Some(pairs_view(v@)),
            None => url_params_spec(params@) is None,
        },
{
    let cs = to_chars(params);
    let n = cs.len();
    assert(cs@.subrange(0, n as int) =~= params@);
    let parts = split_at_any(&cs, 0, n, "&");
    let ghost pv = parts.deep_view();
    let mut out: Vec<(String, String)> = Vec::new();
    let mut i: usize = 0;
    while i < parts.len()
        invariant
            pv == parts.deep_view(),
            pv == split_spec(params@, "&"@),
            pv.len() == parts@.len(),
            i <= parts@.len(),
            param_list_spec(pv.subrange(0, i as int)) == Some(pairs_view(out@)),
        decreases parts@.len() - i,
    {
        let pc = to_chars(parts[i].as_str());
        let m = pc.len();
        assert(pv[i as int] == parts@[i as int]@);
        assert(pv.subrange(0, i + 1).drop_last() =~= pv.subrange(0, i as int));
        match find_char(&pc, 0, m, '=') {
            None => {
                proof {
                    crate::text::lemma_first_index_none(pc@, '=');
                    lemma_prefix_none_params(pv, i + 1);
                }
                return None;
            },
            Some(k) => {
                proof { crate::text::lemma_first_index_at(pc@, '=', k as int); }
                let key = string_of(&pc, 0, k);
                let value = string_of(&pc, k + 1, m);
                let ghost before = pairs_view(out@);
                out.push((key, value));
                assert(pairs_view(out@) =~= before.push((key@, value@)));
            },
        }
        i = i + 1;
    }
    assert(pv.subrange(0, i as int) =~= pv);
    Some(out)
}

/// The value of the last parameter named `key`.
pub open spec fn param_lookup(ps: Seq<(Seq<char>, Seq<char>)>, key: Seq<char>) -> Option<Seq<char>>
    decreases ps.len(),
{
    if ps.len() == 0 {
        None
    } else if ps.last().0 == key {
        Some(ps.last().1)
    } else {
        param_lookup(ps.drop_last(), key)
    }
}

/// Looks up a parameter: see `param_lookup`.
pub fn param_value<'a>(params: &'a Vec<(String, String)>, key: &str) -> (r: Option<&'a String>)
    ensures
        match r {
            Some(v) => param_lookup(pairs_view(params@), key@) == Some(v@),
            None => param_lookup(pairs_view(params@), key@) is None,
        },
{
    let mut k: usize = params.len();
    let ghost pv = pairs_view(params@);
    assert(pv.subrange(0, k as int) =~= pv);
    while k > 0
        invariant
            pv == pairs_view(params@),
            k <= params@.len(),
            param_lookup(pv, key@) == param_lookup(pv.subrange(0, k as int), key@),
        decreases k,
    {
        assert(pv.subrange(0, k as int).drop_last() =~= pv.subrange(0, k - 1));
        if str_eq(params[k - 1].0.as_str(), key) {
            return Some(&params[k - 1].1);
        }
        k = k - 1;
    }
    None
}

/// `s` with every `+` turned into a space.
pub open spec fn plus_to_space(s: Seq<char>) -> Seq<char> {
    s.map_values(|c: char| if c == '+' { ' ' } else { c })
}

fn replace_plus(s: &str) -> (r: String)
    ensures
        r@ == plus_to_space(s@),
{
    let cs = to_chars(s);
    let mut r = String::new();
    let mut i: usize = 0;
    while i < cs.len()
        invariant
            cs@ == s@,
            i <= cs@.len(),
            r@ == plus_to_space(s@).subrange(0, i as int),
        decreases cs@.len() - i,
    {
        let c = cs[i];
        crate::text::push_char(&mut r, if c == '+' { ' ' } else { c });
        assert(r@ =~= plus_to_space(s@).subrange(0, i + 1));
        i = i + 1;
    }
    assert(plus_to_space(s@).subrange(0, i as int) =~= plus_to_space(s@));
    r
}

/// What the OAuth server does with one request.
pub enum OAuthRoute {
    /// Draw a new state, remember it, and redirect to the authorisation
    /// link.
    Redirect,
    /// Answer with this status and text, and wait for the next request.
    Respond { code: u16, text: &'static str },
    /// Answer that it worked, and finish with this OAuth token.
    Token(String),
    /// Answer that the platform refused, and finish with its error and
    /// description.
    Denied { error: String, description: String },
}

pub ghost enum RouteModel {
    Redirect,
    Respond(u16, Seq<char>),
    Token(Seq<char>),
    Denied(Seq<char>, Seq<char>),
}

impl View for OAuthRoute {
    type V = RouteModel;

    open spec fn view(&self) -> RouteModel {
        match self {
            OAuthRoute::Redirect => RouteModel::Redirect,
            OAuthRoute::Respond { code, text } => RouteModel::Respond(*code, text@),
            OAuthRoute::Token(t) => RouteModel::Token(t@),
            OAuthRoute::Denied { error, description } => RouteModel::Denied(error@, description@),
        }
    }
}

pub open spec fn invalid_response() -> RouteModel {
    RouteModel::Respond(400, "Invalid response."@)
}

pub open spec fn invalid_state() -> RouteModel {
    RouteModel::Respond(403, "Invalid state."@)
}

pub open spec fn seq_starts_with(s: Seq<char>, p: Seq<char>) -> bool {
    p.len() <= s.len() && s.subrange(0, p.len() as int) == p
}

/// The redirect back from the platform, carrying `params`.
pub open spec fn callback_spec(params: Seq<(Seq<char>, Seq<char>)>, current: Option<Seq<char>>) -> RouteModel {
    match (param_lookup(params, "error"@), param_lookup(params, "error_description"@)) {
        (Some(e), Some(d)) => RouteModel::Denied(e, plus_to_space(d)),
        _ => match (param_lookup(params, "code"@), param_lookup(params, "state"@)) {
            (Some(code), Some(state)) => if current == Some(state) {
                RouteModel::Token(code)
            } else {
                invalid_state()
            },
            _ => invalid_response(),
        },
    }
}

/// An error redirect from the platform, carrying `params`.
pub open spec fn error_callback_spec(params: Seq<(Seq<char>, Seq<char>)>, current: Option<Seq<char>>) -> RouteModel {
    match (param_lookup(params, "error"@), param_lookup(params, "error_description"@), param_lookup(params, "state"@)) {
        (Some(e), Some(d), Some(state)) => if current == Some(state) {
            RouteModel::Denied(e, plus_to_space(d))
        } else {
            invalid_state()
        },
        _ => invalid_response(),
    }
}

/// The decision for a request to `url`, for a server whose redirect path is
/// `response_path` and whose last state is `current`: `/` redirects to the
/// platform; the redirect path carries a query whose parameters finish the
/// flow or are refused; `/?error...` is the platform's refusal; anything
/// else is not found.
pub open spec fn route_spec(url: Seq<char>, response_path: Seq<char>, current: Option<Seq<char>>) -> RouteModel {
    if url == "/"@ {
        RouteModel::Redirect
    } else if seq_starts_with(url, response_path) {
        match split_once_spec(url, '?') {
            Some((_, query)) => match url_params_spec(query) {
                Some(params) => callback_spec(params, current),
                None => invalid_response(),
            },
            None => invalid_response(),
        }
    } else if seq_starts_with(url, "/?error"@) {
        match url_params_spec(url.subrange(2, url.len() as int)) {
            Some(params) => error_callback_spec(params, current),
            None => invalid_response(),
        }
    } else {
        RouteModel::Respond(404, "Not found."@)
    }
}

fn opt_eq(a: Option<&str>, b: &String) -> (r: bool)
    ensures
        r == (match a {
            Some(x) => Some(x@),
            None => None::<Seq<char>>,
        } == Some(b@)),
{
    match a {
        Some(x) => str_eq(x, b.as_str()),
        None => false,
    }
}

fn callback(params: &Vec<(String, String)>, current: Option<&str>) -> (r: OAuthRoute)
    ensures
        r@ == callback_spec(pairs_view(params@), match current {
            Some(x) => Some(x@),
            None => None,
        }),
{
    match (param_value(params, "error"), param_value(params, "error_description")) {
        (Some(e), Some(d)) => OAuthRoute::Denied { error: e.clone(), description: replace_plus(d.as_str()) },
        _ => match (param_value(params, "code"), param_value(params, "state")) {
            (Some(code), Some(state)) => {
                if opt_eq(current, state) {
                    OAuthRoute::Token(code.clone())
                } else {
                    OAuthRoute::Respond { code: 403, text: "Invalid state." }
                }
            },
            _ => OAuthRoute::Respond { code: 400, text: "Invalid response." },
        },
    }
}

fn error_callback(params: &Vec<(String, String)>, current: Option<&str>) -> (r: OAuthRoute)
    ensures
        r@ == error_callback_spec(pairs_view(params@), match current {
            Some(x) => Some(x@),
            None => None,
        }),
{
    match (param_value(params, "error"), param_value(params, "error_description"), param_value(params, "state")) {
        (Some(e), Some(d), Some(state)) => {
            if opt_eq(current, state) {
                OAuthRoute::Denied { error: e.clone(), description: replace_plus(d.as_str()) }
            } else {
                OAuthRoute::Respond { code: 403, text: "Invalid state." }
            }
        },
        _ => OAuthRoute::Respond { code: 400, text: "Invalid response." },
    }
}

/// The OAuth server's decision for one request: see `route_spec`.
pub fn oauth_route(url: &str, response_path: &str, current: Option<&str>) -> (r: OAuthRoute)
    ensures
        r@ == route_spec(url@, response_path@, match current {
            Some(x) => Some(x@),
            None => None,
        }),
{
    if str_eq(url, "/") {
        return OAuthRoute::Redirect;
    }
    let cs = to_chars(url);
    let n = cs.len();
    if crate::text::chars_start_with(&cs, response_path) {
        return match find_char(&cs, 0, n, '?') {
            None => {
                proof { crate::text::lemma_first_index_none(url@, '?'); }
                OAuthRoute::Respond { code: 400, text: "Invalid response." }
            },
            Some(k) => {
                proof { crate::text::lemma_first_index_at(url@, '?', k as int); }
                let query = string_of(&cs, k + 1, n);
                match parse_url_params(query.as_str()) {
                    Some(params) => callback(&params, current),
                    None => OAuthRoute::Respond { code: 400, text: "Invalid response." },
                }
            },
        };
    }
    if crate::text::chars_start_with(&cs, "/?error") {
        proof { reveal_strlit("/?error"); }
        let query = string_of(&cs, 2, n);
        return match parse_url_params(query.as_str()) {
            Some(params) => error_callback(&params, current),
            None => OAuthRoute::Respond { code: 400, text: "Invalid response." },
        };
    }
    OAuthRoute::Respond { code: 404, text: "Not found." }
}

/// `s` with each byte that is not alphanumeric nor one of `-_.~`
/// percent-encoded.
pub uninterp spec fn url_encoded(s: Seq<char>) -> Seq<char>;

/// Relies on `urlencoding::encode`: percent-encodes every byte but
/// alphanumerics and `-`, `_`, `.`, `~`; the result depends on the text
/// alone.
#[verifier::external_body]
fn url_encode(s: &str) -> (r: String)
    ensures
        r@ == url_encoded(s@),
{
    urlencoding::encode(s).into_owned()
}

/// The words of `ws`, one space between two.
pub open spec fn joined(ws: Seq<Seq<char>>) -> Seq<char>
    decreases ws.len(),
{
    if ws.len() == 0 {
        Seq::empty()
    } else if ws.len() == 1 {
        ws[0]
    } else {
        joined(ws.drop_last()) + " "@ + ws.last()
    }
}

fn join_words(ws: &Vec<String>) -> (r: String)
    ensures
        r@ == joined(ws.deep_view()),
{
    let mut r = String::new();
    let mut i: usize = 0;
    let ghost dv = ws.deep_view();
    while i < ws.len()
        invariant
            dv == ws.deep_view(),
            dv.len() == ws@.len(),
            i <= ws@.len(),
            r@ == joined(dv.subrange(0, i as int)),
        decreases ws@.len() - i,
    {
        let ghost before = r@;
        assert(dv[i as int] == ws@[i as int]@);
        assert(dv.subrange(0, i + 1).drop_last() =~= dv.subrange(0, i as int));
        if i > 0 {
            r.append(" ");
        }
        r.append(ws[i].as_str());
        proof {
            if i == 0 {
                assert(before =~= Seq::<char>::empty());
                assert(r@ =~= dv[0]);
            }
        }
        i = i + 1;
    }
    assert(dv.subrange(0, i as int) =~= dv);
    r
}

/// The authorisation link for the state `state`.
pub open spec fn redirect_link_spec(client_id: Seq<char>, response_url: Seq<char>, scopes: Seq<Seq<char>>, state: Seq<char>) -> Seq<char> {
    "https://id.twitch.tv/oauth2/authorize?response_type=code&client_id="@ + client_id + "&redirect_uri="@
        + response_url + "&state="@ + state + "&scope="@ + url_encoded(joined(scopes))
}

/// The authorisation link for a given state: see `redirect_link_spec`.
pub fn redirect_link(client_id: &str, response_url: &str, scopes: &Vec<String>, state: &str) -> (r: String)
    ensures
        r@ == redirect_link_spec(client_id@, response_url@, scopes.deep_view(), state@),
{
    let scope = url_encode(join_words(scopes).as_str());
    let mut r = String::from_str("https://id.twitch.tv/oauth2/authorize?response_type=code&client_id=");
    r.append(client_id);
    r.append("&redirect_uri=");
    r.append(response_url);
    r.append("&state=");
    r.append(state);
    r.append("&scope=");
    r.append(scope.as_str());
    r
}

/// A fresh state, from a single draw of the random source, and the
/// authorisation link that carries it; `None` when the draw failed.
pub fn oauth_redirect_link(client_id: &str, response_url: &str, scopes: &Vec<String>, rng: &ring::rand::SystemRandom) -> (r: Option<(String, String)>)
    ensures
        r matches Some((link, state)) ==> is_token(state@, STATE_BYTES as nat)
            && link@ == redirect_link_spec(client_id@, response_url@, scopes.deep_view(), state@),
{
    match random_token(rng, STATE_BYTES) {
        Some(state) => {
            let link = redirect_link(client_id, response_url, scopes, state.as_str());
            Some((link, state))
        },
        None => None,
    }
}

} // verus!
