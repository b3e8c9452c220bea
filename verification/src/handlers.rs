//! The route handlers: greet by name as text or JSON, echo a received JSON
//! body, and pair an authenticated user with the body it sent.

use vstd::prelude::*;
use crate::auth::User;
use crate::json;

verus! {

/// The greeting text for one path-captured name: `Hello, {name}!`.
pub open spec fn spec_greeting(name: Seq<char>) -> Seq<char> {
    "Hello, "@ + name + "!"@
}

/// The JSON body shape `{ "data": <string> }`.
#[derive(Debug, Clone, PartialEq)]
pub struct HelloJson {
    pub data: String,
}

impl View for HelloJson {
    type V = Seq<char>;

    open spec fn view(&self) -> Seq<char> {
        self.data@
    }
}

/// The response shape of the authenticated route: the user and the body.
#[derive(Debug, Clone, PartialEq)]
pub struct WithAuthJson {
    pub user: User,
    pub body: HelloJson,
}

/// Builds the plain-text greeting for one path-captured name.
pub fn hello(name: &str) -> (r: String)
    ensures
        r@ == spec_greeting(name@),
{
    let mut s = String::from_str("Hello, ");
    s.append(name);
    s.append("!");
    s
}

/// Builds the JSON greeting body for one path-captured name.
pub fn hello_json(name: &str) -> (r: HelloJson)
    ensures
        r@ == spec_greeting(name@),
{
    HelloJson { data: hello(name) }
}

/// Echoes a decoded body back unchanged.
pub fn receive_json(body: HelloJson) -> (r: HelloJson)
    ensures
        r == body,
{
    body
}

/// Pairs the authenticated user with the body it sent.
pub fn with_auth(user: User, body: HelloJson) -> (r: WithAuthJson)
    ensures
        r.user == user,
        r.body == body,
{
    WithAuthJson { user, body }
}

/// Writes a greeting or echo body as `{"data":"..."}`.
pub fn serialize_hello_json(h: &HelloJson) -> (r: String)
    ensures
        r@ == json::spec_serialize_data(h@),
{
    json::serialize_data(h.data.as_str())
}

/// Writes an authenticated echo as `{"user":...,"body":...}`.
pub fn serialize_with_auth_json(w: &WithAuthJson) -> (r: String)
    ensures
        r@ == json::spec_serialize_with_auth(w.user.id as nat, w.user.name@, w.body@),
{
    json::serialize_with_auth(w.user.id, w.user.name.as_str(), w.body.data.as_str())
}

} // verus!
