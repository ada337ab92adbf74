//! The HTTP client tool: how a call is read, which methods it accepts, and
//! the result it reports.

use vstd::prelude::*;
use crate::engine::executor::is_text;
use crate::error::Error;
use crate::json::JsonValue;
use crate::registry::Registry;
use crate::tools::types::{ParameterType, ToolParameter, ToolParams, ToolResult, declares, get_text_param,
    require_text_param, text_param};
use crate::tools::web_scraper::number_is;
use crate::text::{concat, owned, str_eq, u64_text};

verus! {

/// The uppercase form of a text, as `str::to_uppercase` gives it.
pub uninterp spec fn uppercase_text(s: Seq<char>) -> Seq<char>;

/// `str::to_uppercase`: named by `uppercase_text`.
#[verifier::external_body]
fn to_uppercase(s: &str) -> (r: String)
    ensures
        r@ == uppercase_text(s@),
{
    s.to_uppercase()
}

/// The HTTP methods the tool sends.
#[derive(Debug, Clone, Copy, PartialEq, Eq, Structural)]
pub enum HttpMethod {
    Get,
    Post,
    Put,
    Delete,
    Patch,
}

/// The method that a name denotes, without regard to case.
pub open spec fn method_named(name: Seq<char>) -> Option<HttpMethod> {
    let u = uppercase_text(name);
    if u == "GET"@ {
        Some(HttpMethod::Get)
    } else if u == "POST"@ {
        Some(HttpMethod::Post)
    } else if u == "PUT"@ {
        Some(HttpMethod::Put)
    } else if u == "DELETE"@ {
        Some(HttpMethod::Delete)
    } else if u == "PATCH"@ {
        Some(HttpMethod::Patch)
    } else {
        None
    }
}

/// The request that a call asks for.
#[derive(Debug)]
pub struct ApiCall {
    pub method: String,
    pub url: String,
    pub headers: Option<Registry<String>>,
    pub body: Option<String>,
}

/// The string-valued members of an object, by name.
pub open spec fn string_members(v: JsonValue, headers: Map<Seq<char>, String>) -> bool {
    &&& v matches JsonValue::Object(entries)
    &&& forall|k: Seq<char>| #[trigger] headers.contains_key(k) ==>
            exists|i: int| 0 <= i < entries@.len() && entries@[i].0@ == k && is_text(entries@[i].1, headers[k]@)
            && forall|j: int| i < j < entries@.len() ==> !(entries@[j].0@ == k && entries@[j].1 is String)
    &&& forall|i: int| 0 <= i < entries@.len() && (#[trigger] entries@[i]).1 is String ==> headers.contains_key(entries@[i].0@)
}

/// The headers given in an object: each member that holds a string.
fn header_map(v: &JsonValue) -> (r: Option<Registry<String>>)
    ensures
        match r {
            Some(h) => string_members(*v, h.view()),
            None => !(v is Object),
        },
{
    match v {
        JsonValue::Object(entries) => {
            let mut h: Registry<String> = Registry::new();
            let mut i: usize = 0;
            while i < entries.len()
                invariant
                    i <= entries@.len(),
                    forall|k: Seq<char>| #[trigger] h.view().contains_key(k) ==>
                        exists|a: int| 0 <= a < i && entries@[a].0@ == k && is_text(entries@[a].1, h.view()[k]@)
                        && forall|b: int| a < b < i ==> !(entries@[b].0@ == k && entries@[b].1 is String),
                    forall|a: int| 0 <= a < i && (#[trigger] entries@[a]).1 is String ==> h.view().contains_key(entries@[a].0@),
                decreases entries@.len() - i,
            {
                if let JsonValue::String(s) = &entries[i].1 {
                    let ghost before = h.view();
                    h.set(entries[i].0.as_str(), s.clone());
                    proof {
                        let key = entries@[i as int].0@;
                        assert forall|k: Seq<char>| #[trigger] h.view().contains_key(k) implies
                            exists|a: int| 0 <= a < i + 1 && entries@[a].0@ == k && is_text(entries@[a].1, h.view()[k]@)
                            && forall|b: int| a < b < i + 1 ==> !(entries@[b].0@ == k && entries@[b].1 is String) by {
                            if k == key {
                                assert(entries@[i as int].0@ == k);
                            } else {
                                assert(before.contains_key(k));
                                let a = choose|a: int| 0 <= a < i && entries@[a].0@ == k && is_text(entries@[a].1, before[k]@)
                                    && forall|b: int| a < b < i ==> !(entries@[b].0@ == k && entries@[b].1 is String);
                                assert(forall|b: int| a < b < i + 1 ==> !(entries@[b].0@ == k && entries@[b].1 is String));
                            }
                        }
                    }
                }
                i = i + 1;
            }
            Some(h)
        },
        _ => None,
    }
}

/// Sends HTTP requests with custom headers and body.
pub struct ApiClientTool;

impl ApiClientTool {
    /// The tool's name.
    pub fn name(&self) -> (s: &'static str)
        ensures
            s@ == "api_client"@,
    {
        "api_client"
    }

    /// What the tool does.
    pub fn description(&self) -> (s: &'static str)
        ensures
            s@ == "Make HTTP requests (GET, POST, PUT, DELETE, PATCH) with custom headers and body"@,
    {
        "Make HTTP requests (GET, POST, PUT, DELETE, PATCH) with custom headers and body"
    }

    /// The parameters the tool takes.
    pub fn parameters(&self) -> (ps: Vec<ToolParameter>)
        ensures
            ps@.len() == 4,
            declares(ps@[0], "method"@, "HTTP method: GET, POST, PUT, DELETE, PATCH"@, ParameterType::String, true),
            declares(ps@[1], "url"@, "Request URL"@, ParameterType::String, true),
            declares(ps@[2], "headers"@, "Request headers as JSON object"@, ParameterType::Object, false),
            declares(ps@[3], "body"@, "Request body (for POST, PUT, PATCH)"@, ParameterType::String, false),
    {
        let mut ps: Vec<ToolParameter> = Vec::new();
        ps.push(ToolParameter::new("method", "HTTP method: GET, POST, PUT, DELETE, PATCH", ParameterType::String, true));
        ps.push(ToolParameter::new("url", "Request URL", ParameterType::String, true));
        ps.push(ToolParameter::new("headers", "Request headers as JSON object", ParameterType::Object, false));
        ps.push(ToolParameter::new("body", "Request body (for POST, PUT, PATCH)", ParameterType::String, false));
        ps
    }

    /// The request that a call asks for.
    pub fn plan(params: &ToolParams) -> (r: Result<ApiCall, Error>)
        ensures
            match text_param(*params, "method"@) {
                None => r matches Err(Error::Internal(m)) && m@ == "Missing method parameter"@,
                Some(mt) => match text_param(*params, "url"@) {
                    None => r matches Err(Error::Internal(m)) && m@ == "Missing url parameter"@,
                    Some(u) => r matches Ok(call) && call.method@ == mt && call.url@ == u
                        && match text_param(*params, "body"@) {
                            Some(b) => call.body matches Some(x) && x@ == b,
                            None => call.body is None,
                        }
                        && match call.headers {
                            Some(h) => params.view().contains_key("headers"@)
                                && string_members(params.view()["headers"@], h.view()),
                            None => !(params.view().contains_key("headers"@) && params.view()["headers"@] is Object),
                        },
                },
            },
    {
        let method = require_text_param(params, "method", "Missing method parameter")?;
        let url = require_text_param(params, "url", "Missing url parameter")?;
        let headers = match params.get("headers") {
            Some(v) => header_map(v),
            None => None,
        };
        let body = get_text_param(params, "body");
        Ok(ApiCall { method, url, headers, body })
    }

    /// The method a call names, without regard to case, or the error for
    /// one the tool does not send.
    pub fn parse_method(method: &str) -> (r: Result<HttpMethod, Error>)
        ensures
            match method_named(method@) {
                Some(m) => r == Ok::<HttpMethod, Error>(m),
                None => r matches Err(Error::Internal(e)) && e@ == "Unsupported HTTP method: "@ + uppercase_text(method@),
            },
    {
        let u = to_uppercase(method);
        let s = u.as_str();
        if str_eq(s, "GET") {
            Ok(HttpMethod::Get)
        } else if str_eq(s, "POST") {
            Ok(HttpMethod::Post)
        } else if str_eq(s, "PUT") {
            Ok(HttpMethod::Put)
        } else if str_eq(s, "DELETE") {
            Ok(HttpMethod::Delete)
        } else if str_eq(s, "PATCH") {
            Ok(HttpMethod::Patch)
        } else {
            Err(Error::Internal(concat("Unsupported HTTP method: ", s)))
        }
    }

    /// The result of a request: the body, the headers (an object of
    /// strings), and the status.
    pub fn response_result(status: u16, headers: &Registry<String>, body: String) -> (r: ToolResult)
        ensures
            r.success && r.error is None,
            r.output matches JsonValue::Object(f) && f@.len() == 3
                && f@[0].0@ == "body"@ && is_text(f@[0].1, body@)
                && f@[1].0@ == "headers"@ && (f@[1].1 matches JsonValue::Object(h)
                    && h@.len() == headers.order().len()
                    && forall|k: int| 0 <= k < h@.len() ==> (#[trigger] h@[k]).0@ == headers.order()[k]
                        && is_text(h@[k].1, headers.view()[headers.order()[k]]@))
                && f@[2].0@ == "status"@ && number_is(f@[2].1, status as nat),
    {
        let names = headers.names();
        let mut h: Vec<(String, JsonValue)> = Vec::new();
        let mut i: usize = 0;
        while i < names.len()
            invariant
                names@.map_values(|s: String| s@) == headers.order(),
                names@.map_values(|s: String| s@).to_set() == headers.view().dom(),
                i <= names@.len(),
                h@.len() == i,
                forall|k: int| 0 <= k < i ==> (#[trigger] h@[k]).0@ == headers.order()[k]
                    && is_text(h@[k].1, headers.view()[headers.order()[k]]@),
            decreases names@.len() - i,
        {
            let ghost key = names@[i as int]@;
            assert(names@.map_values(|s: String| s@)[i as int] == key);
            assert(headers.view().dom().contains(key));
            let ghost prev = h@;
            match headers.get(names[i].as_str()) {
                Some(v) => {
                    h.push((names[i].clone(), JsonValue::String(v.clone())));
                },
                None => {
                    assert(false);
                },
            }
            assert forall|k: int| 0 <= k < i + 1 implies (#[trigger] h@[k]).0@ == headers.order()[k]
                && is_text(h@[k].1, headers.view()[headers.order()[k]]@) by {
                if k < i {
                    assert(h@[k] == prev[k]);
                }
            }
            i = i + 1;
        }
        let mut f: Vec<(String, JsonValue)> = Vec::new();
        f.push((owned("body"), JsonValue::String(body)));
        f.push((owned("headers"), JsonValue::Object(h)));
        f.push((owned("status"), JsonValue::Number(u64_text(status as u64))));
        ToolResult::success(JsonValue::Object(f))
    }
}

} // verus!
