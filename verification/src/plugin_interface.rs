//! The plugin's registry: which commands it offers the hosting shell, by
//! name and in registration order.  The host-runtime registration protocol
//! itself stays outside the library.

use vstd::prelude::*;
use vstd::string::StringExecFns;

verus! {

/// The plugin: a registry of the document commands.
pub struct NuPluginServo;

impl NuPluginServo {
    /// The names of the commands this plugin registers, in registration
    /// order.
    pub fn commands(&self) -> (r: Vec<String>)
        ensures
            r@.len() == 6,
            r@[0]@ == "servo html parse"@,
            r@[1]@ == "servo html query"@,
            r@[2]@ == "servo xml parse"@,
            r@[3]@ == "servo xml query"@,
            r@[4]@ == "servo data-url parse"@,
            r@[5]@ == "servo mime parse"@,
    {
        let mut out: Vec<String> = Vec::new();
        out.push(String::from_str("servo html parse"));
        out.push(String::from_str("servo html query"));
        out.push(String::from_str("servo xml parse"));
        out.push(String::from_str("servo xml query"));
        out.push(String::from_str("servo data-url parse"));
        out.push(String::from_str("servo mime parse"));
        out
    }
}

} // verus!
