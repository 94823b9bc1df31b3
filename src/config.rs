//! Where the server listens and what it says its body is.
use vstd::prelude::*;
use vstd::string::StringExecFns;

verus! {

/// The address that the server binds when none is given.
pub open spec fn default_addr_text() -> Seq<char> {
    "127.0.0.1:3030"@
}

/// The content type that the server announces when none is given.
pub open spec fn default_content_type_text() -> Seq<char> {
    "text/html; charset=utf-8"@
}

/// The address that the command line binds when it is given none.
pub open spec fn command_line_default_addr_text() -> Seq<char> {
    "127.0.0.1:8080"@
}

/// The text of an optional value, or `default` when there is none.
pub open spec fn text_or(v: Option<String>, default: Seq<char>) -> Seq<char> {
    match v {
        Some(s) => s@,
        None => default,
    }
}

/// The settings of a server: the address to bind and the announced content type.
pub struct ServeConfig {
    pub addr: String,
    pub content_type: String,
}

impl ServeConfig {
    /// Takes the given address and content type, each falling back to its
    /// default when absent.
    pub fn new(addr: Option<String>, content_type: Option<String>) -> (r: ServeConfig)
        ensures
            r.addr@ == text_or(addr, default_addr_text()),
            r.content_type@ == text_or(content_type, default_content_type_text()),
    {
        let addr = match addr {
            Some(a) => a,
            None => String::from_str("127.0.0.1:3030"),
        };
        let content_type = match content_type {
            Some(c) => c,
            None => String::from_str("text/html; charset=utf-8"),
        };
        ServeConfig { addr, content_type }
    }
}

/// The address that the command line binds: its first argument, if any.
pub fn command_line_addr(arg: Option<String>) -> (r: String)
    ensures
        r@ == text_or(arg, command_line_default_addr_text()),
{
    match arg {
        Some(a) => a,
        None => String::from_str("127.0.0.1:8080"),
    }
}

/// The line printed once the listener is bound.
pub fn listening_message(addr: &str) -> (r: String)
    ensures
        r@ == "Listening on http://"@ + addr@,
{
    let mut line = String::from_str("Listening on http://");
    line.append(addr);
    line
}

} // verus!
