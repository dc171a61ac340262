//! The annotation keys of the system, each made of a prefix, a slash and a
//! fixed name, and the selector that narrows a watch to one object.

use vstd::prelude::*;
use vstd::string::StringExecFns;

verus! {

/// The key `<prefix>/<name>` as a text.
pub open spec fn key_text(prefix: Seq<char>, name: Seq<char>) -> Seq<char> {
    prefix + "/"@ + name
}

/// The text of the key under which the backend addresses are written.
pub open spec fn endpoints_key_text(prefix: Seq<char>) -> Seq<char> {
    key_text(prefix, "endpoints"@)
}

/// The text of the key under which the hardware report is published.
pub open spec fn hw_info_key_text(prefix: Seq<char>) -> Seq<char> {
    key_text(prefix, "hw_info"@)
}

/// The text of the key under which the metric samples are published.
pub open spec fn metrics_key_text(prefix: Seq<char>) -> Seq<char> {
    key_text(prefix, "triton_metrics"@)
}

/// The text of the selector that matches the object named `name` alone.
pub open spec fn field_selector_text(name: Seq<char>) -> Seq<char> {
    "metadata.name="@ + name
}

fn key(prefix: &str, name: &str) -> (key: String)
    ensures
        key@ == key_text(prefix@, name@),
{
    prefix.to_owned().concat("/").concat(name)
}

/// The key under which the backend addresses are written.
pub fn endpoints_key(prefix: &str) -> (key: String)
    ensures
        key@ == endpoints_key_text(prefix@),
{
    key(prefix, "endpoints")
}

/// The key under which the hardware report is published.
pub fn hw_info_key(prefix: &str) -> (key: String)
    ensures
        key@ == hw_info_key_text(prefix@),
{
    key(prefix, "hw_info")
}

/// The key under which the metric samples are published.
pub fn metrics_key(prefix: &str) -> (key: String)
    ensures
        key@ == metrics_key_text(prefix@),
{
    key(prefix, "triton_metrics")
}

/// The selector that narrows a watch to the object named `name`.
pub fn field_selector(name: &str) -> (selector: String)
    ensures
        selector@ == field_selector_text(name@),
{
    "metadata.name=".to_owned().concat(name)
}

} // verus!
