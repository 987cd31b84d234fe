//! A container lifecycle event as the watchdog reports it.
use crate::text::{int_decimal, push_i32_decimal, same_text};
use vstd::prelude::*;

verus! {

/// A container event that the watchdog acts on.
#[derive(Debug, Clone)]
pub struct ContainerEvent {
    pub container_id: String,
    pub container_name: String,
    pub action: String,
    pub exit_code: Option<i32>,
}

/// A failure is a non-zero exit code, or, when no exit code is known, a `die` action.
pub open spec fn failure_of(exit_code: Option<i32>, action: Seq<char>) -> bool {
    match exit_code {
        Some(code) => code != 0,
        None => action == "die"@,
    }
}

/// The one-line description of an event.
pub open spec fn summary_text(id: Seq<char>, name: Seq<char>, action: Seq<char>, exit_code: Option<i32>) -> Seq<char> {
    "Container '"@ + name + "' ("@ + id + ") action='"@ + action + "' exit_code="@ + match exit_code {
        Some(code) => int_decimal(code as int),
        None => "unknown"@,
    }
}

impl ContainerEvent {
    /// Whether the event reports a failed container.
    pub fn is_failure(&self) -> (r: bool)
        ensures
            r == failure_of(self.exit_code, self.action@),
    {
        match self.exit_code {
            Some(code) => code != 0,
            None => same_text(self.action.as_str(), "die"),
        }
    }

    /// `Container '<name>' (<id>) action='<action>' exit_code=<code or unknown>`.
    pub fn summary(&self) -> (r: String)
        ensures
            r@ == summary_text(self.container_id@, self.container_name@, self.action@, self.exit_code),
    {
        let mut s = String::new();
        s.append("Container '");
        s.append(self.container_name.as_str());
        s.append("' (");
        s.append(self.container_id.as_str());
        s.append(") action='");
        s.append(self.action.as_str());
        s.append("' exit_code=");
        match self.exit_code {
            Some(code) => push_i32_decimal(&mut s, code),
            None => s.append("unknown"),
        }
        s
    }
}

} // verus!
