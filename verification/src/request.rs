//! Requests as plain values: what to send, where, and with which session.

use vstd::prelude::*;
use vstd::string::StringExecFns;
use crate::error::{RunError, RunErrorModel};
use crate::json::{optional_object_model, JsonModel, JsonObject};
use crate::template::{resolve, resolve_path};
use crate::text::join;
use crate::types::{duplicate_optional_object, BoundModel, FlattenStep};

verus! {

/// A fully specified request. `cookie` is the raw value of the `Cookie`
/// header, where the request carries one; `body` is sent as JSON.
#[derive(Debug)]
pub struct HttpRequest {
    pub method: String,
    pub url: String,
    pub body: Option<JsonObject>,
    pub cookie: Option<String>,
}

/// A request with its texts as character sequences and its body as a
/// model.
pub struct RequestModel {
    pub method: Seq<char>,
    pub url: Seq<char>,
    pub body: Option<Map<Seq<char>, JsonModel>>,
    pub cookie: Option<Seq<char>>,
}

impl View for HttpRequest {
    type V = RequestModel;

    open spec fn view(&self) -> RequestModel {
        RequestModel {
            method: self.method@,
            url: self.url@,
            body: optional_object_model(self.body),
            cookie: optional_text(self.cookie),
        }
    }
}

/// The characters of an optional text.
pub open spec fn optional_text(text: Option<String>) -> Option<Seq<char>> {
    match text {
        Some(t) => Some(t@),
        None => None,
    }
}

/// The characters of an optional borrowed text.
pub open spec fn optional_text_ref(text: Option<&String>) -> Option<Seq<char>> {
    match text {
        Some(t) => Some(t@),
        None => None,
    }
}

/// A character that may stand in the name of an HTTP method.
pub open spec fn is_method_char(c: char) -> bool {
    ||| c == '!'
    ||| c == '*'
    ||| c == '+'
    ||| c == '-'
    ||| c == '.'
    ||| ('0' <= c && c <= '9')
    ||| ('A' <= c && c <= 'Z')
    ||| c == '^'
    ||| c == '_'
    ||| c == '`'
    ||| ('a' <= c && c <= 'z')
    ||| c == '|'
    ||| c == '~'
}

/// A text that names an HTTP method: not empty, and made of method
/// characters only.
pub open spec fn is_method(text: Seq<char>) -> bool {
    text.len() > 0 && forall|i: int| 0 <= i < text.len() ==> is_method_char(#[trigger] text[i])
}

/// Whether `reqwest::Method::from_bytes` accepts the bytes of `text`. It
/// refuses the empty text, and any text with a byte that its table of method
/// characters leaves out; the table holds `!`, `*`, `+`, `-`, `.`, `^`, `_`,
/// the backquote, `|`, `~`, the ASCII digits and the ASCII letters. It
/// accepts every other text, the standard verbs among them.
#[verifier::external_body]
fn parses_as_method(text: &str) -> (accepted: bool)
    ensures
        accepted == is_method(text@),
{
    reqwest::Method::from_bytes(text.as_bytes()).is_ok()
}

/// The method a request is sent with: the configured one where it names a
/// method, `GET` in place of anything else.
pub open spec fn effective_method(method: Seq<char>) -> Seq<char> {
    if is_method(method) {
        method
    } else {
        "GET"@
    }
}

/// The effective method always names a method.
pub proof fn lemma_effective_method_is_method(method: Seq<char>)
    ensures
        is_method(effective_method(method)),
{
    reveal_strlit("GET");
    assert(is_method_char("GET"@[0]) && is_method_char("GET"@[1]) && is_method_char("GET"@[2]));
}

/// The method to send a request with.
pub fn method_or_get(method: &str) -> (chosen: String)
    ensures
        chosen@ == effective_method(method@),
{
    if parses_as_method(method) {
        method.to_owned()
    } else {
        String::from_str("GET")
    }
}

/// The request of a bound step: the base address and the resolved path put
/// together as they are, the effective method, the body of the step, and
/// the session cookie handed in.
pub open spec fn build(base_url: Seq<char>, step: BoundModel, cookie: Option<Seq<char>>) -> Result<
    RequestModel,
    RunErrorModel,
> {
    match resolve(step.path, step.input_data.query) {
        Ok(path) => Ok(
            RequestModel {
                method: effective_method(step.method),
                url: base_url + path,
                body: step.input_data.body,
                cookie,
            },
        ),
        Err(e) => Err(e),
    }
}

/// A request result with both sides as models.
pub open spec fn request_result_model(result: Result<HttpRequest, RunError>) -> Result<
    RequestModel,
    RunErrorModel,
> {
    match result {
        Ok(request) => Ok(request@),
        Err(e) => Err(e@),
    }
}

/// Builds the request of a bound step. It fails only where a placeholder of
/// the path has no query entry.
pub fn build_request(base_url: &str, step: &FlattenStep, cookie: Option<&String>) -> (result:
    Result<HttpRequest, RunError>)
    ensures
        request_result_model(result) == build(base_url@, step@, optional_text_ref(cookie)),
{
    match resolve_path(step.path.as_str(), &step.input_data.query) {
        Ok(path) => {
            let cookie_copy = match cookie {
                Some(c) => Some(c.clone()),
                None => None,
            };
            Ok(
                HttpRequest {
                    method: method_or_get(step.method.as_str()),
                    url: join(base_url, path.as_str()),
                    body: duplicate_optional_object(&step.input_data.body),
                    cookie: cookie_copy,
                },
            )
        },
        Err(e) => Err(e),
    }
}

} // verus!
