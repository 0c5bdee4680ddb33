//! The library's error type.

use vstd::prelude::*;
use crate::text::{chars_of, decimal, decimal_chars, extend, extend_str, string_of};

verus! {

/// Errors of configuration, graph building, recipe execution and caching.
#[derive(Debug)]
pub enum Error {
    Config { path: String, message: String },
    CycleDetected { cycle: String },
    UnknownRecipe { name: String },
    RecipeFailed { name: String, code: i32, stderr: String },
    ToolchainNotFound { target: String, hint: String },
    ToolNotFound { tool: String, hint: String },
    Cache(String),
    Io(String),
}

/// The decimal text of a signed integer.
pub open spec fn signed_decimal(n: int) -> Seq<char> {
    if n < 0 {
        seq!['-'] + decimal((-n) as nat)
    } else {
        decimal(n as nat)
    }
}

/// `e` is a configuration error about `path` with text `message`.
pub open spec fn is_config_error(e: Error, path: Seq<char>, message: Seq<char>) -> bool {
    e matches Error::Config { path: p, message: m } && p@ == path && m@ == message
}

/// The text of an error.
pub open spec fn message_spec(e: Error) -> Seq<char> {
    match e {
        Error::Config { path, message } => "config error in "@ + path@ + ": "@ + message@,
        Error::CycleDetected { cycle } => "cycle detected in recipe graph: "@ + cycle@,
        Error::UnknownRecipe { name } => "unknown recipe '"@ + name@ + "'"@,
        Error::RecipeFailed { name, code, stderr } => "recipe '"@ + name@
            + "' failed with exit code "@ + signed_decimal(code as int) + ":\n"@ + stderr@,
        Error::ToolchainNotFound { target, hint } => "toolchain not found for target '"@ + target@
            + "': "@ + hint@,
        Error::ToolNotFound { tool, hint } => tool@ + " not found: "@ + hint@,
        Error::Cache(m) => "cache error: "@ + m@,
        Error::Io(m) => "io error: "@ + m@,
    }
}

/// The decimal text of `n`.
pub fn signed_decimal_chars(n: i32) -> (r: Vec<char>)
    ensures
        r@ == signed_decimal(n as int),
{
    if n < 0 {
        let m: u32 = if n == i32::MIN {
            2147483648u32
        } else {
            (-n) as u32
        };
        let mut v: Vec<char> = Vec::new();
        v.push('-');
        extend(&mut v, &decimal_chars(m as usize));
        v
    } else {
        decimal_chars(n as usize)
    }
}

impl Error {
    /// The error's text.
    pub fn message(&self) -> (r: String)
        ensures
            r@ == message_spec(*self),
    {
        let mut v: Vec<char> = Vec::new();
        match self {
            Error::Config { path, message } => {
                extend_str(&mut v, "config error in ");
                extend_str(&mut v, path.as_str());
                extend_str(&mut v, ": ");
                extend_str(&mut v, message.as_str());
            },
            Error::CycleDetected { cycle } => {
                extend_str(&mut v, "cycle detected in recipe graph: ");
                extend_str(&mut v, cycle.as_str());
            },
            Error::UnknownRecipe { name } => {
                extend_str(&mut v, "unknown recipe '");
                extend_str(&mut v, name.as_str());
                extend_str(&mut v, "'");
            },
            Error::RecipeFailed { name, code, stderr } => {
                extend_str(&mut v, "recipe '");
                extend_str(&mut v, name.as_str());
                extend_str(&mut v, "' failed with exit code ");
                extend(&mut v, &signed_decimal_chars(*code));
                extend_str(&mut v, ":\n");
                extend_str(&mut v, stderr.as_str());
            },
            Error::ToolchainNotFound { target, hint } => {
                extend_str(&mut v, "toolchain not found for target '");
                extend_str(&mut v, target.as_str());
                extend_str(&mut v, "': ");
                extend_str(&mut v, hint.as_str());
            },
            Error::ToolNotFound { tool, hint } => {
                extend_str(&mut v, tool.as_str());
                extend_str(&mut v, " not found: ");
                extend_str(&mut v, hint.as_str());
            },
            Error::Cache(m) => {
                extend_str(&mut v, "cache error: ");
                extend_str(&mut v, m.as_str());
            },
            Error::Io(m) => {
                extend_str(&mut v, "io error: ");
                extend_str(&mut v, m.as_str());
            },
        }
        string_of(&v)
    }
}

} // verus!
