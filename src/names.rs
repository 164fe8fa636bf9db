use vstd::prelude::*;

verus! {

/// The name of the global that holds the initial value of `name`.
pub open spec fn initializer_name_spec(name: Seq<char>) -> Seq<char> {
    "__"@ + name + "__init"@
}

/// Builds the name of the global that holds the initial value of a variable or type.
pub fn initializer_name(name: &str) -> (r: String)
    ensures
        r@ == initializer_name_spec(name@),
{
    let prefix = String::from_str("__");
    let with_name = prefix.concat(name);
    with_name.concat("__init")
}

/// The name of the local slot that holds a function's return value.
pub open spec fn return_slot_name_spec(call_name: Seq<char>) -> Seq<char> {
    call_name + "_ret"@
}

/// Builds the name of the local slot that holds a function's return value.
pub fn return_slot_name(call_name: &str) -> (r: String)
    ensures
        r@ == return_slot_name_spec(call_name@),
{
    let base = String::from_str(call_name);
    base.concat("_ret")
}

} // verus!
