use vstd::prelude::*;

verus! {

/// The body of the front page.
pub fn index() -> (body: String)
    ensures
        body@ == "Hello world!"@,
{
    String::from_str("Hello world!")
}

/// The greeting for a name taken from the path.
pub fn hello(name: &str) -> (greeting: String)
    ensures
        greeting@ == "Hello "@ + name@ + "!"@,
{
    let mut s = String::from_str("Hello ");
    s.append(name);
    s.append("!");
    s
}

} // verus!
