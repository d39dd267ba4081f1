//! A greeting.

use vstd::prelude::*;

verus! {

/// Returns `Hello, <name>!`.
pub fn hello(name: &str) -> (r: String)
    ensures
        r@ == "Hello, "@ + name@ + "!"@,
{
    let mut out = String::from_str("Hello, ");
    out.append(name);
    out.append("!");
    out
}

} // verus!
