//! The server's own answers: the greeting tool and the one resource it offers.
use vstd::prelude::*;
use crate::text::{append_str, chars_of, eq_str, to_string};

verus! {

/// The address of the operator list resource.
pub const OPERATORS_URI: &'static str = "prts://operators";

/// The name of the operator list resource.
pub const OPERATORS_RESOURCE_NAME: &'static str = "干员列表";

/// What the operator list resource holds.
pub const OPERATORS_RESOURCE_DESCRIPTION: &'static str = "PRTS Wiki所有的干员数据列表，包含编号，中文名，外文名，职业，职业分支，稀有度";

/// The media type of the operator list resource.
pub const OPERATORS_RESOURCE_MIME: &'static str = "text/markdown";

/// A tool that takes one argument and answers `hello,world`.
pub struct HelloWorldTool {
    pub arg: String,
}

impl HelloWorldTool {
    /// The tool's answer, whatever the argument.
    pub fn call_tool(&self) -> (r: String)
        ensures
            r@ == "hello,world"@,
    {
        "hello,world".to_string()
    }
}

/// The server's request handler.
pub struct MyServerHandler;

/// The resource a read request names, or the message refusing an unknown address.
pub open spec fn resource_for(uri: Seq<char>) -> Result<(), Seq<char>> {
    if uri == OPERATORS_URI@ {
        Ok(())
    } else {
        Err("Unknown resource URI: "@ + uri)
    }
}

impl MyServerHandler {
    /// Checks the address of a resource read: the operator list is the only resource.
    pub fn resource_target(&self, uri: &str) -> (r: Result<(), String>)
        ensures
            match resource_for(uri@) {
                Ok(()) => r is Ok,
                Err(m) => r matches Err(x) && x@ == m,
            },
    {
        let u = chars_of(uri);
        if eq_str(&u, OPERATORS_URI) {
            Ok(())
        } else {
            let mut m = chars_of("Unknown resource URI: ");
            append_str(&mut m, uri);
            Err(to_string(&m))
        }
    }
}

} // verus!
