//! The checks that the HTTP transport makes on a `POST /mcp` request before
//! the request is handled, and the body of the health check.
use vstd::prelude::*;
use vstd::string::StringExecFns;
use crate::json::{JsonModel, JsonValue, member, members_model, object};
use crate::protocol::{JsonRpcRequest, RequestModel};
use crate::server::{server_version, server_version_str};
use crate::text::{concat3, owned, str_eq};

verus! {

pub const STATUS_BAD_REQUEST: u16 = 400;
pub const STATUS_UNAUTHORIZED: u16 = 401;

/// What the HTTP transport does with a `POST /mcp` request.
#[derive(Debug)]
pub enum HttpDecision {
    /// Hand the JSON-RPC request to the server.
    Handle,
    /// Answer with this status and plain-text body.
    Reject(u16, String),
}

pub ghost enum HttpDecisionModel {
    Handle,
    Reject(u16, Seq<char>),
}

impl View for HttpDecision {
    type V = HttpDecisionModel;

    open spec fn view(&self) -> HttpDecisionModel {
        match self {
            HttpDecision::Handle => HttpDecisionModel::Handle,
            HttpDecision::Reject(s, b) => HttpDecisionModel::Reject(*s, b@),
        }
    }
}

/// The headers of a `POST /mcp` request that the transport reads, each as
/// visible ASCII text when present.
pub struct McpHeaders<'a> {
    pub api_key: Option<&'a str>,
    pub protocol_version: Option<&'a str>,
    pub method: Option<&'a str>,
    pub name: Option<&'a str>,
}

pub open spec fn opt_str(o: Option<&str>) -> Option<Seq<char>> {
    match o {
        Some(s) => Some(s@),
        None => None,
    }
}

/// The checks, in order: the API key when one is configured, then the
/// protocol-version header, then the method header against the body, then
/// for `tools/call` the name header against the tool name in the parameters.
pub open spec fn check_spec(
    api_key: Option<Seq<char>>,
    key_header: Option<Seq<char>>,
    version_header: Option<Seq<char>>,
    method_header: Option<Seq<char>>,
    name_header: Option<Seq<char>>,
    payload: RequestModel,
) -> HttpDecisionModel {
    if api_key is Some && key_header != api_key {
        HttpDecisionModel::Reject(401, "Invalid or missing X-Api-Key header"@)
    } else if version_header is None {
        HttpDecisionModel::Reject(400, "Missing or invalid MCP-Protocol-Version header"@)
    } else if method_header is None {
        HttpDecisionModel::Reject(400, "Missing or invalid Mcp-Method header"@)
    } else if method_header->0 != payload.method {
        HttpDecisionModel::Reject(
            400,
            "Mcp-Method header '"@ + method_header->0 + "' does not match JSON-RPC body method '"@ + payload.method + "'"@,
        )
    } else if payload.method == "tools/call"@ {
        let tool_name = match payload.params {
            Some(p) => p.get_str("name"@),
            None => None,
        };
        if name_header is None {
            HttpDecisionModel::Reject(400, "Missing or invalid Mcp-Name header for tools/call"@)
        } else if tool_name is None {
            HttpDecisionModel::Reject(400, "Missing tool name inside request parameters object"@)
        } else if name_header->0 != tool_name->0 {
            HttpDecisionModel::Reject(
                400,
                "Mcp-Name header '"@ + name_header->0 + "' does not match parameter name '"@ + tool_name->0 + "'"@,
            )
        } else {
            HttpDecisionModel::Handle
        }
    } else {
        HttpDecisionModel::Handle
    }
}

/// The value of the `MCP-Protocol-Version` header never decides anything:
/// two requests that differ only in it get the same answer as long as both
/// carry the header.  A request with the header, without a configured API
/// key, whose method header matches its body (and, for `tools/call`, whose
/// name header matches the tool name in its parameters) is handled.
pub proof fn lemma_protocol_version_value_is_not_checked(
    api_key: Option<Seq<char>>,
    key_header: Option<Seq<char>>,
    v1: Seq<char>,
    v2: Seq<char>,
    method_header: Option<Seq<char>>,
    name_header: Option<Seq<char>>,
    payload: RequestModel,
)
    ensures
        check_spec(api_key, key_header, Some(v1), method_header, name_header, payload)
            == check_spec(api_key, key_header, Some(v2), method_header, name_header, payload),
        api_key is None && method_header == Some(payload.method) && (payload.method == "tools/call"@ ==> ({
            &&& payload.params matches Some(p)
            &&& p.get_str("name"@) is Some
            &&& name_header == p.get_str("name"@)
        })) ==> check_spec(api_key, key_header, Some(v1), method_header, name_header, payload) == HttpDecisionModel::Handle,
{
}

/// Checks a `POST /mcp` request: the configured API key, the MCP headers,
/// and that they agree with the JSON-RPC body.
pub fn check_mcp_post(api_key: Option<&str>, headers: &McpHeaders, payload: &JsonRpcRequest) -> (r: HttpDecision)
    ensures
        r@ == check_spec(
            opt_str(api_key),
            opt_str(headers.api_key),
            opt_str(headers.protocol_version),
            opt_str(headers.method),
            opt_str(headers.name),
            payload@,
        ),
{
    if let Some(expected) = api_key {
        let ok = match headers.api_key {
            Some(k) => str_eq(k, expected),
            None => false,
        };
        if !ok {
            return HttpDecision::Reject(STATUS_UNAUTHORIZED, owned("Invalid or missing X-Api-Key header"));
        }
    }
    if headers.protocol_version.is_none() {
        return HttpDecision::Reject(STATUS_BAD_REQUEST, owned("Missing or invalid MCP-Protocol-Version header"));
    }
    let method_header = match headers.method {
        Some(m) => m,
        None => {
            return HttpDecision::Reject(STATUS_BAD_REQUEST, owned("Missing or invalid Mcp-Method header"));
        },
    };
    if !str_eq(method_header, payload.method.as_str()) {
        let mut body = concat3("Mcp-Method header '", method_header, "' does not match JSON-RPC body method '");
        body.append(payload.method.as_str());
        body.append("'");
        return HttpDecision::Reject(STATUS_BAD_REQUEST, body);
    }
    if str_eq(payload.method.as_str(), "tools/call") {
        let name_header = match headers.name {
            Some(n) => n,
            None => {
                return HttpDecision::Reject(STATUS_BAD_REQUEST, owned("Missing or invalid Mcp-Name header for tools/call"));
            },
        };
        let tool_name = match &payload.params {
            Some(p) => p.get_str("name"),
            None => None,
        };
        match tool_name {
            Some(name) => {
                if !str_eq(name_header, name) {
                    let mut body = concat3("Mcp-Name header '", name_header, "' does not match parameter name '");
                    body.append(name);
                    body.append("'");
                    return HttpDecision::Reject(STATUS_BAD_REQUEST, body);
                }
            },
            None => {
                return HttpDecision::Reject(STATUS_BAD_REQUEST, owned("Missing tool name inside request parameters object"));
            },
        }
    }
    HttpDecision::Handle
}

/// `{"status": "ok", "version"}`
pub open spec fn health_json() -> JsonModel {
    JsonModel::Object(seq![
        ("status"@, JsonModel::String("ok"@)),
        ("version"@, JsonModel::String(server_version())),
    ])
}

/// The body of the health check.
pub fn health_body() -> (r: JsonValue)
    ensures
        r@ == health_json(),
{
    let es = vec![member("status", JsonValue::string("ok")), member("version", JsonValue::string(server_version_str()))];
    let r = object(es);
    proof {
        assert(members_model(es@) =~= health_json()->Object_0);
    }
    r
}

/// Which origins the CORS layer allows.
#[derive(Debug)]
pub enum CorsOrigin {
    /// No origin setting: the layer's default.
    Unset,
    /// `*`: any origin.
    Any,
    /// Exactly this origin.
    Exact(String),
}

/// Whether a text is a valid HTTP header value: each character is a tab, or
/// at least a space and not DEL (a character beyond ASCII is encoded in
/// bytes of 128 and up, which are all allowed).
pub open spec fn valid_header_text(s: Seq<char>) -> bool {
    forall|i: int| 0 <= i < s.len() ==> {
        let u = #[trigger] s[i] as u32;
        u == 9 || (u >= 32 && u != 127)
    }
}

/// Calls `axum::http::HeaderValue::from_str`, whose source accepts a text
/// exactly when each of its bytes is a tab, or at least 32 and not 127.
#[verifier::external_body]
fn header_value_accepts(s: &str) -> (r: bool)
    ensures
        r == valid_header_text(s@),
{
    axum::http::HeaderValue::from_str(s).is_ok()
}

/// The CORS origin setting: `*` allows any origin, any other value exactly
/// that origin, which must be a valid header value.
pub fn cors_origin(allow_origin: Option<String>) -> (r: Result<CorsOrigin, String>)
    ensures
        match allow_origin {
            None => r matches Ok(CorsOrigin::Unset),
            Some(o) => if o@ == "*"@ {
                r matches Ok(CorsOrigin::Any)
            } else if valid_header_text(o@) {
                r matches Ok(CorsOrigin::Exact(e)) && e@ == o@
            } else {
                r matches Err(m) && m@ == "Invalid CORS allow-origin value '"@ + o@ + "': failed to parse header value"@
            },
        },
{
    match allow_origin {
        None => Ok(CorsOrigin::Unset),
        Some(o) => if str_eq(o.as_str(), "*") {
            Ok(CorsOrigin::Any)
        } else if header_value_accepts(o.as_str()) {
            Ok(CorsOrigin::Exact(o))
        } else {
            Err(concat3("Invalid CORS allow-origin value '", o.as_str(), "': failed to parse header value"))
        },
    }
}

} // verus!
