use vstd::prelude::*;
use vstd::utf8::encode_utf8;

use crate::models::opt_str;
use crate::names::{new_uuid_string, sanitize_message_id, sanitized_message_id};
use crate::text::{chars_of, owned, string_from_chars, trim};
use crate::url::{
    first_param, percent_decode_safe, query_has_token, query_param, query_param_decodable,
    spec_query_has_token,
    spec_query_param, spec_split_target, split_on, split_target,
};

verus! {

/// The request methods that the transfer server tells apart.
pub enum HttpMethod {
    Get,
    Post,
    Other,
}

/// What the transfer server does with a request.
pub enum RouteAction {
    /// Answer with a plain-text status and body.
    Text { status: u16, body: &'static str },
    /// Answer with a JSON status and body.
    Json { status: u16, body: &'static str },
    /// Serve the phone page.
    Page,
    /// Serve the application icon.
    Icon,
    /// Serve the chat messages.
    Messages,
    /// Serve a file that the computer sent.
    File { file_id: String },
    /// Receive a JSON clipboard payload.
    ReceivePayload,
    /// Receive plain text.
    ReceiveText,
    /// Receive an image, under the given message identifier.
    ReceiveImage { message_id: Option<String> },
    /// Receive a file with a name and a type, under the given message identifier.
    ReceiveFile { file_name: String, mime_type: String, message_id: Option<String> },
}

/// Whether the action hands out or takes in data of the session.
pub open spec fn touches_session(a: RouteAction) -> bool {
    a is Page || a is Messages || a is File || a is ReceivePayload || a is ReceiveText
        || a is ReceiveImage || a is ReceiveFile
}

/// The path without every leading copy of `/api/files/` (`str::trim_start_matches`).
pub open spec fn strip_files_prefix(path: Seq<char>) -> Seq<char>
    decreases path.len(),
{
    let p = "/api/files/"@;
    if p.len() <= path.len() && path.take(p.len() as int) == p && p.len() > 0 {
        strip_files_prefix(path.skip(p.len() as int))
    } else {
        path
    }
}

/// The decoded query parameter, or a default.
pub open spec fn param_or(query: Seq<char>, key: Seq<char>, default: Seq<char>) -> Seq<char> {
    match spec_query_param(query, key) {
        Some(v) => v,
        None => default,
    }
}

/// Whether every query parameter that the file route decodes can be decoded without slicing
/// inside a character.
pub open spec fn query_decodable(query: Seq<char>, key: Seq<char>) -> bool {
    first_param(split_on(query, '&'), key) matches Some(v) ==> percent_decode_safe(encode_utf8(v))
}

fn strip_files_prefix_chars(path: &Vec<char>) -> (r: String)
    ensures
        r@ == strip_files_prefix(path@),
{
    let p = chars_of("/api/files/");
    proof {
        reveal_strlit("/api/files/");
    }
    let mut i: usize = 0;
    assert(path@.skip(0) =~= path@);
    while path.len() - i >= p.len() && crate::text::chars_equal(
        &crate::text::sub_chars(path, i, i + p.len()),
        &p,
    )
        invariant
            p@ == "/api/files/"@,
            p@.len() == 11,
            i <= path.len(),
            strip_files_prefix(path@) == strip_files_prefix(path@.skip(i as int)),
        decreases path.len() - i,
    {
        proof {
            let rest = path@.skip(i as int);
            assert(rest.take(11) =~= path@.subrange(i as int, i + 11));
            assert(rest.skip(11) =~= path@.skip(i + 11));
        }
        i = i + p.len();
    }
    proof {
        let rest = path@.skip(i as int);
        if rest.len() >= 11 {
            assert(rest.take(11) =~= path@.subrange(i as int, i + 11));
        }
    }
    let r = crate::text::sub_chars(path, i, path.len());
    assert(r@ =~= path@.skip(i as int));
    string_from_chars(&r)
}

/// The message identifier that the phone chose, made safe, or a new random one.
pub open spec fn client_id_ok(query: Seq<char>, id: Option<Seq<char>>) -> bool {
    match spec_query_param(query, "clientId"@) {
        Some(v) => id matches Some(m) && (trim(v).len() > 0 ==> m == sanitized_message_id(v)) && (
        trim(v).len() == 0 ==> crate::names::is_uuid_v4_text(m)),
        None => id is None,
    }
}

fn client_message_id(query: &str) -> (r: Option<String>)
    requires
        query_decodable(query@, "clientId"@),
    ensures
        client_id_ok(query@, opt_str(r)),
{
    match query_param(query, "clientId") {
        Some(v) => Some(sanitize_message_id(v.as_str())),
        None => None,
    }
}

/// Whether the query parameters that an authorized upload of an image or a file decodes can be
/// decoded without slicing inside a character. No other request decodes a parameter.
pub open spec fn route_params_decodable(method: HttpMethod, target: Seq<char>, token: Seq<char>) -> bool {
    let (path, query) = spec_split_target(target);
    let upload = method is Post && spec_query_has_token(query, token);
    &&& (upload && (path == "/api/clipboard/image"@ || path == "/api/clipboard/file"@))
        ==> query_decodable(query, "clientId"@)
    &&& (upload && path == "/api/clipboard/file"@) ==> query_decodable(query, "name"@)
        && query_decodable(query, "mime"@)
}

/// Tells whether `route_request` can decide the request: false exactly when an authorized
/// upload carries a parameter whose percent escapes split a character.
pub fn route_params_are_decodable(method: &HttpMethod, target: &str, token: &str) -> (r: bool)
    ensures
        r == route_params_decodable(*method, target@, token@),
{
    let (path, query) = split_target(target);
    let is_post = match method {
        HttpMethod::Post => true,
        _ => false,
    };
    if !is_post || !query_has_token(query.as_str(), token) {
        return true;
    }
    proof {
        reveal_strlit("/api/clipboard/image");
        reveal_strlit("/api/clipboard/file");
        assert("/api/clipboard/image"@.len() != "/api/clipboard/file"@.len());
    }
    if crate::text::str_equal(path.as_str(), "/api/clipboard/image") {
        return query_param_decodable(query.as_str(), "clientId");
    }
    if crate::text::str_equal(path.as_str(), "/api/clipboard/file") {
        return query_param_decodable(query.as_str(), "clientId")
            && query_param_decodable(query.as_str(), "name")
            && query_param_decodable(query.as_str(), "mime");
    }
    true
}

/// Decides how the transfer server answers a request with the given method and target. The
/// identifiers chosen for image and file messages, and the file name and type of a file, come
/// from the query.
pub fn route_request(method: HttpMethod, target: &str, token: &str) -> (r: RouteAction)
    requires
        route_params_decodable(method, target@, token@),
    ensures
        ({
            let (path, query) = spec_split_target(target@);
            let authorized = spec_query_has_token(query, token@);
            &&& touches_session(r) ==> authorized
            &&& (method is Get && path == "/"@) ==> (if authorized {
                r is Page
            } else {
                r == RouteAction::Text { status: 403, body: "invalid token" }
            })
            &&& (method is Get && path == "/app-icon.png"@) ==> r is Icon
            &&& (method is Get && path == "/api/messages"@) ==> (if authorized {
                r is Messages
            } else {
                r == RouteAction::Json { status: 403, body: "{\"ok\":false,\"message\":\"invalid_token\"}" }
            })
            &&& (method is Get && path != "/"@ && path != "/app-icon.png"@ && path != "/api/messages"@
                && path.len() >= 11 && path.take(11) == "/api/files/"@) ==> (if authorized {
                r matches RouteAction::File { file_id } && file_id@ == strip_files_prefix(path)
            } else {
                r == RouteAction::Text { status: 403, body: "invalid token" }
            })
            &&& (method is Post && path == "/api/clipboard"@) ==> (if authorized {
                r is ReceivePayload
            } else {
                r == RouteAction::Json { status: 403, body: "{\"ok\":false,\"message\":\"invalid_token\"}" }
            })
            &&& (method is Post && path == "/api/clipboard/text"@) ==> (if authorized {
                r is ReceiveText
            } else {
                r == RouteAction::Json { status: 403, body: "{\"ok\":false,\"message\":\"invalid_token\"}" }
            })
            &&& (method is Post && path == "/api/clipboard/image"@) ==> (if authorized {
                r matches RouteAction::ReceiveImage { message_id } && client_id_ok(query, opt_str(message_id))
            } else {
                r == RouteAction::Json { status: 403, body: "{\"ok\":false,\"message\":\"invalid_token\"}" }
            })
            &&& (method is Post && path == "/api/clipboard/file"@) ==> (if authorized {
                r matches RouteAction::ReceiveFile { file_name, mime_type, message_id }
                    && file_name@ == param_or(query, "name"@, "transfer-file"@)
                    && mime_type@ == param_or(query, "mime"@, "application/octet-stream"@)
                    && client_id_ok(query, opt_str(message_id))
            } else {
                r == RouteAction::Json { status: 403, body: "{\"ok\":false,\"message\":\"invalid_token\"}" }
            })
            &&& !((method is Get && (path == "/"@ || path == "/app-icon.png"@ || path == "/api/messages"@
                || (path.len() >= 11 && path.take(11) == "/api/files/"@))) || (method is Post && (
            path == "/api/clipboard"@ || path == "/api/clipboard/text"@ || path
                == "/api/clipboard/image"@ || path == "/api/clipboard/file"@))) ==> r
                == RouteAction::Text { status: 404, body: "not found" }
        }),
{
    let (path, query) = split_target(target);
    let pv = chars_of(path.as_str());
    let is_get = match method {
        HttpMethod::Get => true,
        _ => false,
    };
    let is_post = match method {
        HttpMethod::Post => true,
        _ => false,
    };
    proof {
        reveal_strlit("/api/files/");
        reveal_strlit("/");
        reveal_strlit("/app-icon.png");
        reveal_strlit("/api/messages");
        reveal_strlit("/api/clipboard");
        reveal_strlit("/api/clipboard/text");
        reveal_strlit("/api/clipboard/image");
        reveal_strlit("/api/clipboard/file");
        assert("/app-icon.png"@.take(11)[3] != "/api/files/"@[3]);
        assert("/api/clipboard/text"@[15] != "/api/clipboard/file"@[15]);
        assert("/api/clipboard/text"@.take(11)[10] != "/api/files/"@[10]);
    }
    if is_get && crate::text::str_equal(path.as_str(), "/") {
        if !query_has_token(query.as_str(), token) {
            return RouteAction::Text { status: 403, body: "invalid token" };
        }
        return RouteAction::Page;
    }
    if is_get && crate::text::str_equal(path.as_str(), "/app-icon.png") {
        return RouteAction::Icon;
    }
    if is_get && crate::text::str_equal(path.as_str(), "/api/messages") {
        if !query_has_token(query.as_str(), token) {
            return RouteAction::Json {
                status: 403,
                body: "{\"ok\":false,\"message\":\"invalid_token\"}",
            };
        }
        return RouteAction::Messages;
    }
    if is_get && crate::text::chars_start_with(&pv, "/api/files/") {
        if !query_has_token(query.as_str(), token) {
            return RouteAction::Text { status: 403, body: "invalid token" };
        }
        return RouteAction::File { file_id: strip_files_prefix_chars(&pv) };
    }
    if is_post && crate::text::str_equal(path.as_str(), "/api/clipboard") {
        if !query_has_token(query.as_str(), token) {
            return RouteAction::Json {
                status: 403,
                body: "{\"ok\":false,\"message\":\"invalid_token\"}",
            };
        }
        return RouteAction::ReceivePayload;
    }
    if is_post && crate::text::str_equal(path.as_str(), "/api/clipboard/text") {
        if !query_has_token(query.as_str(), token) {
            return RouteAction::Json {
                status: 403,
                body: "{\"ok\":false,\"message\":\"invalid_token\"}",
            };
        }
        return RouteAction::ReceiveText;
    }
    if is_post && crate::text::str_equal(path.as_str(), "/api/clipboard/image") {
        if !query_has_token(query.as_str(), token) {
            return RouteAction::Json {
                status: 403,
                body: "{\"ok\":false,\"message\":\"invalid_token\"}",
            };
        }
        let message_id = client_message_id(query.as_str());
        return RouteAction::ReceiveImage { message_id };
    }
    if is_post && crate::text::str_equal(path.as_str(), "/api/clipboard/file") {
        if !query_has_token(query.as_str(), token) {
            return RouteAction::Json {
                status: 403,
                body: "{\"ok\":false,\"message\":\"invalid_token\"}",
            };
        }
        let file_name = match query_param(query.as_str(), "name") {
            Some(v) => v,
            None => owned("transfer-file"),
        };
        let mime_type = match query_param(query.as_str(), "mime") {
            Some(v) => v,
            None => owned("application/octet-stream"),
        };
        let message_id = client_message_id(query.as_str());
        return RouteAction::ReceiveFile { file_name, mime_type, message_id };
    }
    RouteAction::Text { status: 404, body: "not found" }
}

} // verus!
