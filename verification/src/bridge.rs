//! The bridge client: addressing, requests and the reading of responses.

use vstd::prelude::*;
use vstd::string::*;
use crate::catalog::{catalog_of, Catalog};
use crate::error::{DecodeError, LightError, LightErrorView};
use crate::group::decoded;
use crate::json::{json_document, parse_json};

verus! {

/// Where the bridge is and how to authenticate against it.
///
/// The values are fixed at construction. Whether an unverifiable
/// certificate is accepted is an explicit choice of the caller: a bridge on
/// a local network usually presents a self-signed certificate, and trusting
/// it gives up the protection that certificate validation offers.
pub struct BridgeConfig {
    host: String,
    token: String,
    trust_any_certificate: bool,
}

/// The mathematical content of a [`BridgeConfig`].
pub struct BridgeConfigView {
    pub host: Seq<char>,
    pub token: Seq<char>,
    pub trust_any_certificate: bool,
}

impl View for BridgeConfig {
    type V = BridgeConfigView;

    closed spec fn view(&self) -> BridgeConfigView {
        BridgeConfigView {
            host: self.host@,
            token: self.token@,
            trust_any_certificate: self.trust_any_certificate,
        }
    }
}

/// The address of the group listing: `https://<host>/api/<token>/groups`.
pub open spec fn groups_url(host: Seq<char>, token: Seq<char>) -> Seq<char> {
    "https://"@ + host + "/api/"@ + token + "/groups"@
}

/// A setting that the configuration requires and that is absent.
#[derive(Clone, Copy, Debug, PartialEq, Eq, Structural)]
pub enum MissingSetting {
    /// The address of the bridge.
    Host,
    /// The access token.
    Token,
}

impl BridgeConfig {
    /// A configuration from the settings as they were found. Both the
    /// address and the token are required: where one is absent there is no
    /// configuration, and the process must not start. The address is
    /// looked at first.
    pub fn resolve(
        host: Option<String>,
        token: Option<String>,
        trust_any_certificate: bool,
    ) -> (config: Result<BridgeConfig, MissingSetting>)
        ensures
            match (host, token) {
                (Some(host), Some(token)) => config matches Ok(found) && found@ == (
                BridgeConfigView { host: host@, token: token@, trust_any_certificate }),
                (None, _) => config == Err::<BridgeConfig, MissingSetting>(MissingSetting::Host),
                (Some(_), None) => config == Err::<BridgeConfig, MissingSetting>(
                    MissingSetting::Token,
                ),
            },
    {
        match host {
            None => Err(MissingSetting::Host),
            Some(host) => match token {
                None => Err(MissingSetting::Token),
                Some(token) => Ok(BridgeConfig { host, token, trust_any_certificate }),
            },
        }
    }

    /// A configuration from the address of the bridge, the access token,
    /// and the choice whether to accept a certificate that cannot be
    /// verified.
    pub fn new(host: String, token: String, trust_any_certificate: bool) -> (config: BridgeConfig)
        ensures
            config@.host == host@,
            config@.token == token@,
            config@.trust_any_certificate == trust_any_certificate,
    {
        BridgeConfig { host, token, trust_any_certificate }
    }

    /// The address of the bridge.
    pub fn host(&self) -> (host: &String)
        ensures
            host@ == self@.host,
    {
        &self.host
    }

    /// The access token.
    pub fn token(&self) -> (token: &String)
        ensures
            token@ == self@.token,
    {
        &self.token
    }

    /// Whether a certificate that cannot be verified is accepted.
    pub fn trust_any_certificate(&self) -> (trust: bool)
        ensures
            trust == self@.trust_any_certificate,
    {
        self.trust_any_certificate
    }
}

/// The address from which the bridge lists its groups.
pub fn get_hue_url(config: &BridgeConfig) -> (url: String)
    ensures
        url@ == groups_url(config@.host, config@.token),
{
    let mut url = String::from_str("https://");
    url.append(config.host.as_str());
    url.append("/api/");
    url.append(config.token.as_str());
    url.append("/groups");
    url
}

/// The address of the action of one group: `https://<host>/<group>/action`.
/// The address holds no token: the request carries it as its credential.
pub open spec fn action_url(host: Seq<char>, group: Seq<char>) -> Seq<char> {
    "https://"@ + host + "/"@ + group + "/action"@
}

/// The body of a power change: a JSON object whose only member is `on`.
pub open spec fn power_patch(on: bool) -> Seq<char> {
    if on {
        "{\"on\":true}"@
    } else {
        "{\"on\":false}"@
    }
}

/// A character that a JSON string holds as it is, without an escape.
pub open spec fn plain_char(c: char) -> bool {
    c != '"' && c != '\\' && c as u32 >= 0x20
}

/// The text of a JSON object with a single member that holds `true` or
/// `false`, in the compact form: no white space.
pub open spec fn flag_object_text(name: Seq<char>, flag: bool) -> Seq<char> {
    "{\""@ + name + "\":"@ + (if flag {
        "true"@
    } else {
        "false"@
    }) + "}"@
}

/// Builds a `serde_json::Map` with one member, by `Map::insert`, and writes
/// it with `serde_json::Value`'s `to_string`. The contract claims that the
/// text is the compact form of the object: braces, the name in quotes, a
/// colon and the word `true` or `false`. It is claimed only of a name that
/// needs no escape.
#[verifier::external_body]
fn write_flag_object(name: &str, flag: bool) -> (text: String)
    requires
        forall|i: int| 0 <= i < name@.len() ==> plain_char(#[trigger] name@[i]),
    ensures
        text@ == flag_object_text(name@, flag),
{
    let mut object = serde_json::Map::new();
    object.insert(name.to_string(), serde_json::Value::Bool(flag));
    serde_json::Value::Object(object).to_string()
}

/// How a request is made.
#[derive(Clone, Copy, Debug, PartialEq, Eq, Structural)]
pub enum Method {
    Get,
    Put,
}

/// One request to the bridge, for the caller to send.
#[derive(Clone, Debug, PartialEq, Eq)]
pub struct BridgeRequest {
    pub method: Method,
    pub url: String,
    /// The JSON body, where the request has one.
    pub body: Option<String>,
    /// The access token, where the address does not hold it: the caller
    /// sends it as the bearer credential of the request.
    pub credential: Option<String>,
    /// Whether the connection accepts a certificate that cannot be
    /// verified.
    pub trust_any_certificate: bool,
}

/// The mathematical content of a [`BridgeRequest`].
pub struct BridgeRequestView {
    pub method: Method,
    pub url: Seq<char>,
    pub body: Option<Seq<char>>,
    pub credential: Option<Seq<char>>,
    pub trust_any_certificate: bool,
}

impl View for BridgeRequest {
    type V = BridgeRequestView;

    open spec fn view(&self) -> BridgeRequestView {
        BridgeRequestView {
            method: self.method,
            url: self.url@,
            body: match self.body {
                Some(text) => Some(text@),
                None => None,
            },
            credential: match self.credential {
                Some(token) => Some(token@),
                None => None,
            },
            trust_any_certificate: self.trust_any_certificate,
        }
    }
}

/// The request that lists the groups. The token in the address is what
/// authenticates it.
pub open spec fn listing_request(config: BridgeConfigView) -> BridgeRequestView {
    BridgeRequestView {
        method: Method::Get,
        url: groups_url(config.host, config.token),
        body: None,
        credential: None,
        trust_any_certificate: config.trust_any_certificate,
    }
}

/// The request that turns a group on or off: a PUT to the action of the
/// group, authenticated by the token, with the power state as its body.
pub open spec fn power_request(
    config: BridgeConfigView,
    group: Seq<char>,
    on: bool,
) -> BridgeRequestView {
    BridgeRequestView {
        method: Method::Put,
        url: action_url(config.host, group),
        body: Some(power_patch(on)),
        credential: Some(config.token),
        trust_any_certificate: config.trust_any_certificate,
    }
}

/// The body of a power change.
pub fn power_body(on: bool) -> (body: String)
    ensures
        body@ == power_patch(on),
{
    proof {
        reveal_strlit("on");
        reveal_strlit("{\"");
        reveal_strlit("\":");
        reveal_strlit("true");
        reveal_strlit("false");
        reveal_strlit("}");
        reveal_strlit("{\"on\":true}");
        reveal_strlit("{\"on\":false}");
        assert(flag_object_text("on"@, on) =~= power_patch(on));
    }
    write_flag_object("on", on)
}

/// The request that lists the groups of the bridge.
pub fn get_hue_request(config: &BridgeConfig) -> (request: BridgeRequest)
    ensures
        request@ == listing_request(config@),
{
    BridgeRequest {
        method: Method::Get,
        url: get_hue_url(config),
        body: None,
        credential: None,
        trust_any_certificate: config.trust_any_certificate,
    }
}

/// The request that turns a group on or off.
///
/// It is a partial update: the body holds the power state and nothing
/// else, so every other field of the group's action stays as the bridge
/// has it.
pub fn change_hue_group(config: &BridgeConfig, group: &str, state: bool) -> (request:
    BridgeRequest)
    ensures
        request@ == power_request(config@, group@, state),
{
    let mut url = String::from_str("https://");
    url.append(config.host.as_str());
    url.append("/");
    url.append(group);
    url.append("/action");
    BridgeRequest {
        method: Method::Put,
        url,
        body: Some(power_body(state)),
        credential: Some(config.token.clone()),
        trust_any_certificate: config.trust_any_certificate,
    }
}

/// Reads the catalog from the body of a listing.
///
/// Fails with `Syntax` exactly where the body is no JSON document, and
/// otherwise as the reading of the document as a catalog fails.
pub fn read_listing(body: &[u8]) -> (reading: Result<Catalog, DecodeError>)
    ensures
        match json_document(body@) {
            Some(tree) => decoded(reading) == catalog_of(tree),
            None => reading matches Err(error) && error is Syntax,
        },
{
    match parse_json(body) {
        Ok(tree) => Catalog::from_json(&tree),
        Err(error) => Err(error),
    }
}

/// Judges the outcome of the listing request: the body that the bridge
/// sent, or the reason why the transport failed.
///
/// A failed transport is a `Transport` error with that reason. A body is
/// read as a catalog, and a body that is none is a `Decode` error.
pub fn get_hue(outcome: Result<Vec<u8>, String>) -> (listing: Result<Catalog, LightError>)
    ensures
        match outcome {
            Err(reason) => listing matches Err(error) && error@ == LightErrorView::Transport(
                reason@,
            ),
            Ok(body) => match json_document(body@) {
                Some(tree) => match catalog_of(tree) {
                    Ok(entries) => listing matches Ok(catalog) && catalog@ == entries,
                    Err(defect) => listing matches Err(error) && error@ == LightErrorView::Decode(
                        defect,
                    ),
                },
                None => listing matches Err(LightError::Decode(defect)) && defect is Syntax,
            },
        },
{
    match outcome {
        Err(reason) => Err(LightError::Transport(reason)),
        Ok(body) => match read_listing(body.as_slice()) {
            Ok(catalog) => Ok(catalog),
            Err(defect) => Err(LightError::Decode(defect)),
        },
    }
}

/// Judges the outcome of a power change: whatever the bridge answered is
/// taken as acceptance, and only a failed transport is an error.
pub fn change_hue_group_reply(outcome: Result<Vec<u8>, String>) -> (reply: Result<(), LightError>)
    ensures
        match outcome {
            Err(reason) => reply matches Err(error) && error@ == LightErrorView::Transport(
                reason@,
            ),
            Ok(_) => reply is Ok,
        },
{
    match outcome {
        Err(reason) => Err(LightError::Transport(reason)),
        Ok(_) => Ok(()),
    }
}

} // verus!
