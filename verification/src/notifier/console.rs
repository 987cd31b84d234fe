//! The notifier that writes alerts to the watchdog's own log.
use crate::docker::events::{failure_of, summary_text, ContainerEvent};
use vstd::prelude::*;

verus! {

/// Reports events on the console.
pub struct ConsoleNotifier;

/// The lines that the console notifier writes for an event: the alert, a note when the
/// container failed, and the logs when there are any.
pub open spec fn alert_lines(event: ContainerEvent, logs: Seq<char>) -> Seq<Seq<char>> {
    let alert = seq!["ALERT: "@ + summary_text(event.container_id@, event.container_name@, event.action@, event.exit_code)];
    let failed = if failure_of(event.exit_code, event.action@) {
        seq!["Container '"@ + event.container_name@ + "' exited with a non-zero exit code!"@]
    } else {
        Seq::empty()
    };
    let tail = if logs.len() > 0 {
        seq!["Last logs:\n"@ + logs]
    } else {
        Seq::empty()
    };
    alert + failed + tail
}

/// An alert always opens with the event's summary line, adds the failure note exactly when
/// the container failed (a non-zero exit code, or a plain `die` with no code), and, whenever
/// there are logs, ends with them, whatever the exit code; with no logs no log line is written.
pub proof fn law_alert_shows_logs(event: ContainerEvent, logs: Seq<char>)
    ensures
        alert_lines(event, logs).len() == 1
            + (if (match event.exit_code {
                Some(c) => c != 0,
                None => event.action@ == "die"@,
            }) { 1int } else { 0int })
            + (if logs.len() > 0 { 1int } else { 0int }),
        alert_lines(event, logs)[0] == "ALERT: "@ + summary_text(
            event.container_id@,
            event.container_name@,
            event.action@,
            event.exit_code,
        ),
        logs.len() > 0 ==> alert_lines(event, logs).last() == "Last logs:\n"@ + logs,
{
}

impl ConsoleNotifier {
    pub fn new() -> Self {
        ConsoleNotifier
    }

    /// The notifier's name.
    pub fn name(&self) -> (r: &'static str)
        ensures
            r@ == "console"@,
    {
        "console"
    }

    /// The warning lines to write for `event`, in order.
    pub fn alert_lines(&self, event: &ContainerEvent, logs: &str) -> (r: Vec<String>)
        ensures
            r@.map_values(|l: String| l@) == alert_lines(*event, logs@),
    {
        let mut out: Vec<String> = Vec::new();
        let mut alert = String::new();
        alert.append("ALERT: ");
        let summary = event.summary();
        alert.append(summary.as_str());
        out.push(alert);
        if event.is_failure() {
            let mut note = String::new();
            note.append("Container '");
            note.append(event.container_name.as_str());
            note.append("' exited with a non-zero exit code!");
            out.push(note);
        }
        if !logs.is_empty() {
            let mut tail = String::new();
            tail.append("Last logs:\n");
            tail.append(logs);
            out.push(tail);
        }
        assert(out@.map_values(|l: String| l@) =~= alert_lines(*event, logs@));
        out
    }
}

} // verus!
