//! The watchdog's decisions about Docker events, container scans and reconnecting.
use crate::config::settings::{opt_view, strings_view, AppConfig};
use crate::docker::events::{failure_of, ContainerEvent};
use crate::keyed::lookup;
use crate::monitor::dedup::{dedup_step, EventDedup};
use crate::monitor::metrics::{crash_count, with_crash, CrashMetrics};
use crate::utils::helpers::{is_short_id_cuttable, short_id, short_id_chars, short_id_cuttable};
use vstd::utf8::{is_ascii_chars, is_ascii_chars_encode_utf8};
use crate::restarter::engine::{lemma_pow2_monotone, pow2};
use crate::text::{
    chars_of, contains_chars, strip_leading_slash_chars, strip_leading_slashes, string_of, contains_seq, find_char, find_named, index_of, parse_i32, parse_i32_of,
    parse_u32, parse_u32_of, same_text, starts_with, starts_with_chars, string_pairs,
};
use vstd::prelude::*;

verus! {

/// Longest wait between attempts to reach the Docker daemon, in seconds.
pub const MAX_RECONNECT_DELAY_SECS: u64 = 60;

/// How often, and after how long, stale restart records are dropped, in seconds.
pub const STALE_CLEANUP_SECS: u64 = 3600;

/// Wait before the next attempt to reach the daemon after `attempts` failed ones:
/// `2^min(attempts, 6)` seconds, at most a minute.
pub open spec fn reconnect_delay(attempts: u32) -> u64 {
    let k: nat = if attempts <= 6 { attempts as nat } else { 6 };
    if pow2(k) <= MAX_RECONNECT_DELAY_SECS { pow2(k) as u64 } else { MAX_RECONNECT_DELAY_SECS }
}

/// The delay never exceeds a minute and never shrinks as failures accumulate.
pub proof fn law_reconnect_delay_bounded(a: u32, b: u32)
    ensures
        1 <= reconnect_delay(a) <= MAX_RECONNECT_DELAY_SECS,
        a <= b ==> reconnect_delay(a) <= reconnect_delay(b),
{
    let ka: nat = if a <= 6 { a as nat } else { 6 };
    let kb: nat = if b <= 6 { b as nat } else { 6 };
    lemma_pow2_positive(ka);
    if a <= b {
        lemma_pow2_monotone(ka, kb);
    }
}

proof fn lemma_pow2_positive(k: nat)
    ensures
        pow2(k) >= 1,
    decreases k,
{
    if k > 0 {
        lemma_pow2_positive((k - 1) as nat);
    }
}

/// Counts failed attempts to reach the Docker daemon.
pub struct ReconnectBackoff {
    pub attempts: u32,
}

impl ReconnectBackoff {
    pub fn new() -> (b: Self)
        ensures
            b.attempts == 0,
    {
        ReconnectBackoff { attempts: 0 }
    }

    /// The daemon was reached: returns how many attempts failed before, if any, and clears them.
    pub fn connected(&mut self) -> (previous: Option<u32>)
        ensures
            final(self).attempts == 0,
            previous == (if old(self).attempts > 0 { Some(old(self).attempts) } else { None }),
    {
        let previous = if self.attempts > 0 {
            Some(self.attempts)
        } else {
            None
        };
        self.attempts = 0;
        previous
    }

    /// An attempt failed: counts it and returns the seconds to wait before the next one.
    pub fn connection_failed(&mut self) -> (delay_secs: u64)
        requires
            old(self).attempts < u32::MAX,
        ensures
            final(self).attempts == old(self).attempts + 1,
            delay_secs == reconnect_delay(final(self).attempts),
    {
        self.attempts = self.attempts + 1;
        let k: u32 = if self.attempts <= 6 {
            self.attempts
        } else {
            6
        };
        let mut p: u64 = 1;
        let mut j: u32 = 0;
        while j < k
            invariant
                j <= k <= 6,
                p == pow2(j as nat),
            decreases k - j,
        {
            proof {
                lemma_pow2_monotone((j + 1) as nat, 6);
                reveal_with_fuel(pow2, 7);
            }
            p = p * 2;
            j = j + 1;
        }
        if p <= MAX_RECONNECT_DELAY_SECS {
            p
        } else {
            MAX_RECONNECT_DELAY_SECS
        }
    }

    /// The event stream ended or failed: that counts as a failed attempt.
    pub fn stream_ended(&mut self)
        requires
            old(self).attempts < u32::MAX,
        ensures
            final(self).attempts == old(self).attempts + 1,
    {
        self.attempts = self.attempts + 1;
    }
}

/// The status text can be cut between its first `(` and its first `)` (when it has both).
pub open spec fn status_cuttable(status: Seq<char>) -> bool {
    match (index_of(status, '('), index_of(status, ')')) {
        (Some(a), Some(b)) => a + 1 <= b,
        _ => true,
    }
}

/// The exit code in a status such as `Exited (1) 5 minutes ago`: what lies between the first
/// `(` and the first `)`, read as an `i32`.
pub open spec fn exit_code_in(status: Seq<char>) -> Option<i32> {
    match (index_of(status, '('), index_of(status, ')')) {
        (Some(a), Some(b)) => parse_i32_of(status.subrange(a + 1, b)),
        _ => None,
    }
}

/// The exit code that a container status reports, if any.
pub fn extract_exit_code_from_status(status: &str) -> (code: Option<i32>)
    requires
        status_cuttable(status@),
    ensures
        code == exit_code_in(status@),
{
    let cs = chars_of(status);
    let n = cs.len();
    let start = match find_char(cs.as_slice(), '(') {
        Some(a) => a + 1,
        None => {
            return None;
        },
    };
    let end = match find_char(cs.as_slice(), ')') {
        Some(b) => b,
        None => {
            return None;
        },
    };
    let mut inner: Vec<char> = Vec::new();
    let mut i: usize = start;
    while i < end
        invariant
            start <= i <= end <= cs@.len(),
            inner@ == cs@.subrange(start as int, i as int),
        decreases end - i,
    {
        inner.push(cs[i]);
        i = i + 1;
    }
    parse_i32(inner.as_slice())
}

/// Per-container overrides read from the `watchdog.*` labels.
#[derive(Debug, Clone, Copy)]
pub struct LabelOverrides {
    pub enabled: bool,
    pub max_restarts: Option<u32>,
}

/// Watching is on unless `watchdog.enabled` is `false` or `0`.
pub open spec fn label_enabled(attrs: Option<Seq<(Seq<char>, Seq<char>)>>) -> bool {
    match attrs {
        Some(a) => match lookup(a, "watchdog.enabled"@) {
            Some(v) => v != "false"@ && v != "0"@,
            None => true,
        },
        None => true,
    }
}

/// The restart limit that `watchdog.max-restarts` sets, if it holds a `u32`.
pub open spec fn label_max_restarts(attrs: Option<Seq<(Seq<char>, Seq<char>)>>) -> Option<u32> {
    match attrs {
        Some(a) => match lookup(a, "watchdog.max-restarts"@) {
            Some(v) => parse_u32_of(v),
            None => None,
        },
        None => None,
    }
}

pub open spec fn attrs_view(attrs: Option<&Vec<(String, String)>>) -> Option<Seq<(Seq<char>, Seq<char>)>> {
    match attrs {
        Some(a) => Some(string_pairs(a@)),
        None => None,
    }
}

impl LabelOverrides {
    /// The overrides that a container's labels (name and value pairs) set.
    pub fn from_attrs(attrs: Option<&Vec<(String, String)>>) -> (o: Self)
        ensures
            o.enabled == label_enabled(attrs_view(attrs)),
            o.max_restarts == label_max_restarts(attrs_view(attrs)),
    {
        let attrs = match attrs {
            Some(a) => a,
            None => {
                return LabelOverrides { enabled: true, max_restarts: None };
            },
        };
        let enabled = match find_named(attrs.as_slice(), "watchdog.enabled") {
            Some(i) => !same_text(attrs[i].1.as_str(), "false") && !same_text(attrs[i].1.as_str(), "0"),
            None => true,
        };
        let max_restarts = match find_named(attrs.as_slice(), "watchdog.max-restarts") {
            Some(i) => {
                let cs = chars_of(attrs[i].1.as_str());
                parse_u32(cs.as_slice())
            },
            None => None,
        };
        LabelOverrides { enabled, max_restarts }
    }
}

/// What a `health_status` event says of a container.
#[derive(Debug, Clone, Copy, PartialEq, Eq, Structural)]
pub enum HealthState {
    Unhealthy,
    Healthy,
    Other,
}

/// `unhealthy` anywhere in the action wins over `healthy`.
pub open spec fn health_state_of(action: Seq<char>) -> HealthState {
    if contains_seq(action, "unhealthy"@) {
        HealthState::Unhealthy
    } else if contains_seq(action, "healthy"@) {
        HealthState::Healthy
    } else {
        HealthState::Other
    }
}

/// A health report: what the action says and the line to log about it.
#[derive(Debug, Clone)]
pub struct HealthReport {
    pub state: HealthState,
    pub message: String,
}

/// The line logged for a health report.
pub open spec fn health_message(state: HealthState, action: Seq<char>, name: Seq<char>) -> Seq<char> {
    match state {
        HealthState::Unhealthy => "[HEALTH] Container '"@ + name + "' is unhealthy. Health check is failing."@,
        HealthState::Healthy => "[HEALTH] Container '"@ + name + "' is healthy."@,
        HealthState::Other => "[HEALTH] Container '"@ + name + "' health_status: "@ + action,
    }
}

/// Classifies a `health_status...` action of container `name` and words the report.
pub fn handle_health_status(action: &str, name: &str) -> (report: HealthReport)
    ensures
        report.state == health_state_of(action@),
        report.message@ == health_message(report.state, action@, name@),
{
    let cs = chars_of(action);
    let unhealthy = chars_of("unhealthy");
    let healthy = chars_of("healthy");
    let mut message = "[HEALTH] Container '".to_owned();
    message.append(name);
    let state = if contains_chars(cs.as_slice(), unhealthy.as_slice()) {
        message.append("' is unhealthy. Health check is failing.");
        HealthState::Unhealthy
    } else if contains_chars(cs.as_slice(), healthy.as_slice()) {
        message.append("' is healthy.");
        HealthState::Healthy
    } else {
        message.append("' health_status: ");
        message.append(action);
        HealthState::Other
    };
    HealthReport { state, message }
}

/// A filter of a Docker query: a name and the values it accepts.
pub open spec fn filters_view(v: Seq<(String, Vec<String>)>) -> Seq<(Seq<char>, Seq<Seq<char>>)> {
    v.map_values(|e: (String, Vec<String>)| (e.0@, strings_view(e.1@)))
}

/// The compose-project label filter, when a project is set.
pub open spec fn project_filter(project: Option<Seq<char>>) -> Seq<(Seq<char>, Seq<Seq<char>>)> {
    match project {
        Some(p) => seq![("label"@, seq!["com.docker.compose.project="@ + p])],
        None => Seq::empty(),
    }
}

/// The filters of the event subscription: container events of kind die, start or
/// health_status, of the compose project if one is set.
pub open spec fn event_filters(project: Option<Seq<char>>) -> Seq<(Seq<char>, Seq<Seq<char>>)> {
    seq![("type"@, seq!["container"@]), ("event"@, seq!["die"@, "start"@, "health_status"@])] + project_filter(project)
}

/// The filters of the startup scan: exited containers, of the compose project if one is set.
pub open spec fn scan_filters(project: Option<Seq<char>>) -> Seq<(Seq<char>, Seq<Seq<char>>)> {
    seq![("status"@, seq!["exited"@])] + project_filter(project)
}

fn one_filter(name: &str, values: Vec<String>) -> (f: (String, Vec<String>))
    ensures
        f.0@ == name@,
        f.1@ == values@,
{
    (name.to_owned(), values)
}

fn push_project_filter(filters: &mut Vec<(String, Vec<String>)>, project: &Option<String>)
    ensures
        filters_view(final(filters)@) == filters_view(old(filters)@) + project_filter(opt_view(*project)),
{
    match project {
        Some(p) => {
            let mut label = "com.docker.compose.project=".to_owned();
            label.append(p.as_str());
            let mut values: Vec<String> = Vec::new();
            values.push(label);
            let ghost before = filters@;
            filters.push(one_filter("label", values));
            assert(strings_view(values@) =~= seq!["com.docker.compose.project="@ + p@]);
            assert(filters_view(filters@) =~= filters_view(before) + project_filter(opt_view(*project)));
        },
        None => {
            assert(filters_view(filters@) =~= filters_view(filters@) + project_filter(opt_view(*project)));
        },
    }
}

/// The filters for subscribing to container events.
pub fn build_event_filters(config: &AppConfig) -> (f: Vec<(String, Vec<String>)>)
    ensures
        filters_view(f@) == event_filters(opt_view(config.compose_project)),
{
    let mut filters: Vec<(String, Vec<String>)> = Vec::new();
    let mut types: Vec<String> = Vec::new();
    types.push("container".to_owned());
    assert(strings_view(types@) =~= seq!["container"@]);
    filters.push(one_filter("type", types));
    let mut kinds: Vec<String> = Vec::new();
    kinds.push("die".to_owned());
    kinds.push("start".to_owned());
    kinds.push("health_status".to_owned());
    assert(strings_view(kinds@) =~= seq!["die"@, "start"@, "health_status"@]);
    filters.push(one_filter("event", kinds));
    let ghost base = filters@;
    assert(filters_view(base) =~= seq![("type"@, seq!["container"@]), ("event"@, seq!["die"@, "start"@, "health_status"@])]);
    push_project_filter(&mut filters, &config.compose_project);
    filters
}

/// The filters for listing exited containers at startup.
pub fn build_scan_filters(config: &AppConfig) -> (f: Vec<(String, Vec<String>)>)
    ensures
        filters_view(f@) == scan_filters(opt_view(config.compose_project)),
{
    let mut filters: Vec<(String, Vec<String>)> = Vec::new();
    let mut status: Vec<String> = Vec::new();
    status.push("exited".to_owned());
    assert(strings_view(status@) =~= seq!["exited"@]);
    filters.push(one_filter("status", status));
    assert(filters_view(filters@) =~= seq![("status"@, seq!["exited"@])]);
    push_project_filter(&mut filters, &config.compose_project);
    filters
}

/// A container as the startup scan lists it.
#[derive(Debug, Clone)]
pub struct ContainerRow {
    pub id: Option<String>,
    pub names: Option<Vec<String>>,
    pub status: Option<String>,
}

/// A container that the startup scan found crashed.
#[derive(Debug, Clone)]
pub struct CrashedContainer {
    pub name: String,
    pub short_id: String,
    pub exit_code: i32,
    pub status: String,
}

/// A row's name: its first name without leading slashes, else `unknown`.
pub open spec fn row_name(r: ContainerRow) -> Seq<char> {
    match r.names {
        Some(ns) => if ns@.len() > 0 {
            strip_leading_slashes(ns@[0]@)
        } else {
            "unknown"@
        },
        None => "unknown"@,
    }
}

pub open spec fn row_status(r: ContainerRow) -> Seq<char> {
    match r.status {
        Some(s) => s@,
        None => Seq::empty(),
    }
}

pub open spec fn row_id(r: ContainerRow) -> Seq<char> {
    match r.id {
        Some(s) => s@,
        None => "unknown"@,
    }
}

/// The row is not ignored and its status reports a non-zero exit code.
pub open spec fn row_crashed(ignore: Seq<Seq<char>>, r: ContainerRow) -> bool {
    &&& !ignore.contains(row_name(r))
    &&& exit_code_in(row_status(r)) matches Some(c)
    &&& c != 0
}

/// A row that is not ignored can be read without a panic.
pub open spec fn row_scannable(ignore: Seq<Seq<char>>, r: ContainerRow) -> bool {
    !ignore.contains(row_name(r)) ==> (short_id_cuttable(row_id(r)) && status_cuttable(row_status(r)))
}

/// The crashed containers among `rows`, in order: name, short id, exit code and status.
pub open spec fn crash_report(ignore: Seq<Seq<char>>, rows: Seq<ContainerRow>) -> Seq<(Seq<char>, Seq<char>, i32, Seq<char>)>
    decreases rows.len(),
{
    if rows.len() == 0 {
        Seq::empty()
    } else {
        let r = rows.last();
        let before = crash_report(ignore, rows.drop_last());
        if row_crashed(ignore, r) {
            before.push((row_name(r), short_id_chars(row_id(r)), exit_code_in(row_status(r))->0, row_status(r)))
        } else {
            before
        }
    }
}

pub open spec fn crashed_view(v: Seq<CrashedContainer>) -> Seq<(Seq<char>, Seq<char>, i32, Seq<char>)> {
    v.map_values(|c: CrashedContainer| (c.name@, c.short_id@, c.exit_code, c.status@))
}

proof fn lemma_unknown_cuttable()
    ensures
        short_id_cuttable("unknown"@),
{
    reveal_strlit("unknown");
    assert(is_ascii_chars("unknown"@));
    is_ascii_chars_encode_utf8("unknown"@);
}

/// Whether `name` is one of the ignored container names.
pub fn is_ignored(ignore: &Vec<String>, name: &str) -> (r: bool)
    ensures
        r == strings_view(ignore@).contains(name@),
{
    let mut i: usize = 0;
    while i < ignore.len()
        invariant
            i <= ignore@.len(),
            forall|j: int| 0 <= j < i ==> ignore@[j]@ != name@,
        decreases ignore@.len() - i,
    {
        if same_text(ignore[i].as_str(), name) {
            assert(strings_view(ignore@)[i as int] == name@);
            return true;
        }
        i = i + 1;
    }
    assert forall|j: int| 0 <= j < strings_view(ignore@).len() implies strings_view(ignore@)[j] != name@ by {
        assert(strings_view(ignore@)[j] == ignore@[j]@);
    }
    false
}

/// The name, id and status of a row, or `None` when its container is ignored.
fn read_row<'a>(config: &AppConfig, row: &'a ContainerRow) -> (r: Option<(String, &'a str, &'a str)>)
    ensures
        r is Some <==> !strings_view(config.ignore_containers@).contains(row_name(*row)),
        r matches Some(t) ==> t.0@ == row_name(*row) && t.1@ == row_id(*row) && t.2@ == row_status(*row),
{
    let name: String = match &row.names {
        Some(ns) => {
            if ns.len() > 0 {
                let cs = chars_of(ns[0].as_str());
                let stripped = strip_leading_slash_chars(cs.as_slice());
                string_of(stripped.as_slice())
            } else {
                "unknown".to_owned()
            }
        },
        None => "unknown".to_owned(),
    };
    assert(name@ == row_name(*row));
    if is_ignored(&config.ignore_containers, name.as_str()) {
        return None;
    }
    let status: &str = match &row.status {
        Some(s) => s.as_str(),
        None => "",
    };
    proof {
        reveal_strlit("");
    }
    assert(status@ == row_status(*row));
    let id: &str = match &row.id {
        Some(s) => s.as_str(),
        None => "unknown",
    };
    assert(id@ == row_id(*row));
    Some((name, id, status))
}

/// The containers among `rows` that crashed while the watchdog was not watching: those not
/// ignored whose status reports a non-zero exit code.
pub fn scan_crashed_containers(config: &AppConfig, rows: &Vec<ContainerRow>) -> (crashed: Vec<CrashedContainer>)
    requires
        forall|i: int| 0 <= i < rows@.len() ==> row_scannable(strings_view(config.ignore_containers@), #[trigger] rows@[i]),
    ensures
        crashed_view(crashed@) == crash_report(strings_view(config.ignore_containers@), rows@),
{
    let ghost ignore = strings_view(config.ignore_containers@);
    let mut crashed: Vec<CrashedContainer> = Vec::new();
    let mut i: usize = 0;
    assert(rows@.take(0) =~= Seq::<ContainerRow>::empty());
    assert(crashed_view(crashed@) =~= Seq::<(Seq<char>, Seq<char>, i32, Seq<char>)>::empty());
    while i < rows.len()
        invariant
            ignore == strings_view(config.ignore_containers@),
            forall|k: int| 0 <= k < rows@.len() ==> row_scannable(ignore, #[trigger] rows@[k]),
            i <= rows@.len(),
            crashed_view(crashed@) == crash_report(ignore, rows@.take(i as int)),
        decreases rows@.len() - i,
    {
        let row = &rows[i];
        assert(rows@.take(i + 1).drop_last() =~= rows@.take(i as int));
        assert(rows@.take(i + 1).last() == *row);
        assert(row_scannable(ignore, *row));
        match read_row(config, row) {
            None => {},
            Some((name, id, status)) => {
                proof {
                    lemma_unknown_cuttable();
                }
                let short = short_id(id);
                match extract_exit_code_from_status(status) {
                    Some(code) => {
                        if code != 0 {
                            let entry = CrashedContainer {
                                name,
                                short_id: short.to_owned(),
                                exit_code: code,
                                status: status.to_owned(),
                            };
                            let ghost before = crashed@;
                            crashed.push(entry);
                            assert(crashed_view(crashed@) =~= crashed_view(before).push(
                                (row_name(*row), short_id_chars(row_id(*row)), code, row_status(*row)),
                            ));
                        }
                    },
                    None => {},
                }
            },
        }
        i = i + 1;
    }
    assert(rows@.take(rows@.len() as int) =~= rows@);
    crashed
}

/// The actor of a Docker event: the container id and its attributes (name, labels, exit code).
#[derive(Debug, Clone)]
pub struct EventActor {
    pub id: Option<String>,
    pub attributes: Option<Vec<(String, String)>>,
}

/// A Docker event as the watchdog reads it.
#[derive(Debug, Clone)]
pub struct DockerEvent {
    /// The event concerns a container.
    pub is_container: bool,
    pub action: Option<String>,
    pub actor: Option<EventActor>,
}

/// What to do about an event.
#[derive(Debug)]
pub enum EventOutcome {
    /// Nothing: not a watched container event.
    Ignored,
    /// Report the container's health.
    Health { name: String, report: HealthReport },
    /// The container started.
    Started { name: String },
    /// A repeated death event, suppressed.
    DuplicateDeath { name: String },
    /// The container died: report it, fetch its logs, notify, and restart it if it is a candidate.
    Died {
        event: ContainerEvent,
        full_id: String,
        oom_killed: bool,
        restart_candidate: bool,
        max_override: Option<u32>,
    },
}

pub open spec fn ev_attrs(e: DockerEvent) -> Option<Seq<(Seq<char>, Seq<char>)>> {
    match e.actor {
        Some(a) => match a.attributes {
            Some(v) => Some(string_pairs(v@)),
            None => None,
        },
        None => None,
    }
}

/// The container name: the `name` attribute, else `unknown`.
pub open spec fn ev_name(e: DockerEvent) -> Seq<char> {
    match ev_attrs(e) {
        Some(a) => match lookup(a, "name"@) {
            Some(n) => n,
            None => "unknown"@,
        },
        None => "unknown"@,
    }
}

/// The full container id, else `unknown`.
pub open spec fn ev_full_id(e: DockerEvent) -> Seq<char> {
    match e.actor {
        Some(a) => match a.id {
            Some(i) => i@,
            None => "unknown"@,
        },
        None => "unknown"@,
    }
}

/// The `exitCode` attribute, if it holds an `i32`.
pub open spec fn ev_exit_code(e: DockerEvent) -> Option<i32> {
    match ev_attrs(e) {
        Some(a) => match lookup(a, "exitCode"@) {
            Some(v) => parse_i32_of(v),
            None => None,
        },
        None => None,
    }
}

pub open spec fn ev_action(e: DockerEvent) -> Seq<char> {
    match e.action {
        Some(a) => a@,
        None => Seq::empty(),
    }
}

/// A container event with an action and an actor, of a container that is neither ignored by
/// name nor switched off by its label.
pub open spec fn ev_watched(ignore: Seq<Seq<char>>, e: DockerEvent) -> bool {
    &&& e.is_container
    &&& e.action is Some
    &&& e.actor is Some
    &&& !ignore.contains(ev_name(e))
    &&& label_enabled(ev_attrs(e))
}

pub open spec fn ev_is_health(ignore: Seq<Seq<char>>, e: DockerEvent) -> bool {
    ev_watched(ignore, e) && starts_with(ev_action(e), "health_status"@)
}

pub open spec fn ev_is_start(ignore: Seq<Seq<char>>, e: DockerEvent) -> bool {
    ev_watched(ignore, e) && !starts_with(ev_action(e), "health_status"@) && ev_action(e) == "start"@
}

pub open spec fn ev_is_death(ignore: Seq<Seq<char>>, e: DockerEvent) -> bool {
    &&& ev_watched(ignore, e)
    &&& !starts_with(ev_action(e), "health_status"@)
    &&& ev_action(e) != "start"@
    &&& starts_with(ev_action(e), "die"@)
}

/// `outcome` is what a death event that got past the dedup check gives.
pub open spec fn death_outcome(config: AppConfig, e: DockerEvent, outcome: EventOutcome) -> bool {
    match outcome {
        EventOutcome::Died { event, full_id, oom_killed, restart_candidate, max_override } => {
            &&& event.container_id@ == short_id_chars(ev_full_id(e))
            &&& event.container_name@ == ev_name(e)
            &&& event.action@ == ev_action(e)
            &&& event.exit_code == ev_exit_code(e)
            &&& full_id@ == ev_full_id(e)
            &&& oom_killed == (ev_exit_code(e) == Some(137i32))
            &&& restart_candidate == (config.auto_restart && failure_of(ev_exit_code(e), ev_action(e)))
            &&& max_override == label_max_restarts(ev_attrs(e))
        },
        _ => false,
    }
}

/// The outcome of event `e` at time `now`, and whether the dedup let it through.
pub open spec fn event_outcome_ok(
    config: AppConfig,
    e: DockerEvent,
    d0: Map<(Seq<char>, Seq<char>), u128>,
    d1: Map<(Seq<char>, Seq<char>), u128>,
    window: u128,
    m0: Seq<(Seq<char>, u32)>,
    m1: Seq<(Seq<char>, u32)>,
    now: u128,
    outcome: EventOutcome,
) -> bool {
    let ignore = strings_view(config.ignore_containers@);
    if ev_is_health(ignore, e) {
        &&& d1 == d0
        &&& m1 == m0
        &&& outcome matches EventOutcome::Health { name, report }
        &&& name@ == ev_name(e)
        &&& report.state == health_state_of(ev_action(e))
        &&& report.message@ == health_message(report.state, ev_action(e), ev_name(e))
    } else if ev_is_start(ignore, e) {
        &&& d1 == d0
        &&& m1 == m0
        &&& outcome matches EventOutcome::Started { name }
        &&& name@ == ev_name(e)
    } else if ev_is_death(ignore, e) {
        let (d, dup) = dedup_step(d0, window, (ev_full_id(e), ev_action(e)), now);
        &&& d1 == d
        &&& dup ==> (m1 == m0 && (outcome matches EventOutcome::DuplicateDeath { name } && name@ == ev_name(e)))
        &&& !dup ==> m1 == with_crash(m0, ev_name(e)) && death_outcome(config, e, outcome)
    } else {
        &&& d1 == d0
        &&& m1 == m0
        &&& outcome is Ignored
    }
}

/// What the screening of an event found: the fields that its handling reads.
enum Screened<'a> {
    /// Not a watched container event, or an action the watchdog does not handle.
    Skip,
    Health { name: &'a str, action: &'a str },
    Start { name: &'a str },
    Death {
        full_id: &'a str,
        action: &'a str,
        name: &'a str,
        attrs: Option<&'a Vec<(String, String)>>,
        max_override: Option<u32>,
    },
}

/// Sorts event `e` into a health report, a start, a death, or nothing to handle.
fn screen_event<'a>(config: &AppConfig, e: &'a DockerEvent) -> (s: Screened<'a>)
    ensures
        s is Health <==> ev_is_health(strings_view(config.ignore_containers@), *e),
        s is Start <==> ev_is_start(strings_view(config.ignore_containers@), *e),
        s is Death <==> ev_is_death(strings_view(config.ignore_containers@), *e),
        s matches Screened::Health { name, action } ==> name@ == ev_name(*e) && action@ == ev_action(*e),
        s matches Screened::Start { name } ==> name@ == ev_name(*e),
        s matches Screened::Death { full_id, action, name, attrs, max_override } ==> {
            &&& full_id@ == ev_full_id(*e)
            &&& action@ == ev_action(*e)
            &&& name@ == ev_name(*e)
            &&& attrs_view(attrs) == ev_attrs(*e)
            &&& max_override == label_max_restarts(ev_attrs(*e))
        },
{
    let ghost ignore = strings_view(config.ignore_containers@);
    if !e.is_container {
        return Screened::Skip;
    }
    let action: &String = match &e.action {
        Some(a) => a,
        None => {
            return Screened::Skip;
        },
    };
    let actor: &EventActor = match &e.actor {
        Some(a) => a,
        None => {
            return Screened::Skip;
        },
    };
    let attrs: Option<&Vec<(String, String)>> = match &actor.attributes {
        Some(a) => Some(a),
        None => None,
    };
    assert(attrs_view(attrs) == ev_attrs(*e));
    proof {
        reveal_strlit("unknown");
    }
    let full_id: &str = match &actor.id {
        Some(i) => i.as_str(),
        None => "unknown",
    };
    assert(full_id@ == ev_full_id(*e));
    let name: &str = match attrs {
        Some(a) => match find_named(a.as_slice(), "name") {
            Some(i) => a[i].1.as_str(),
            None => "unknown",
        },
        None => "unknown",
    };
    assert(name@ == ev_name(*e));
    if is_ignored(&config.ignore_containers, name) {
        return Screened::Skip;
    }
    let overrides = LabelOverrides::from_attrs(attrs);
    if !overrides.enabled {
        return Screened::Skip;
    }
    assert(ev_watched(ignore, *e));
    let action_chars = chars_of(action.as_str());
    if starts_with_chars(action_chars.as_slice(), "health_status") {
        return Screened::Health { name, action: action.as_str() };
    }
    if same_text(action.as_str(), "start") {
        return Screened::Start { name };
    }
    if !starts_with_chars(action_chars.as_slice(), "die") {
        return Screened::Skip;
    }
    Screened::Death { full_id, action: action.as_str(), name, attrs, max_override: overrides.max_restarts }
}

/// What the watchdog does about event `e`, with the dedup check made at time `now`.
pub fn process_event_at(
    config: &AppConfig,
    dedup: &mut EventDedup,
    metrics: &mut CrashMetrics,
    e: &DockerEvent,
    now: u128,
) -> (outcome: EventOutcome)
    requires
        ev_is_death(strings_view(config.ignore_containers@), *e)
            && !dedup_step(old(dedup)@, old(dedup).window(), (ev_full_id(*e), ev_action(*e)), now).1
            ==> short_id_cuttable(ev_full_id(*e)) && crash_count(old(metrics)@, ev_name(*e)) < u32::MAX,
    ensures
        final(dedup).window() == old(dedup).window(),
        final(dedup).last_reading() == old(dedup).last_reading(),
        event_outcome_ok(*config, *e, old(dedup)@, final(dedup)@, old(dedup).window(), old(metrics)@, final(metrics)@, now, outcome),
{
    let (full_id, action, name, attrs, max_override) = match screen_event(config, e) {
        Screened::Skip => {
            return EventOutcome::Ignored;
        },
        Screened::Health { name, action } => {
            let report = handle_health_status(action, name);
            return EventOutcome::Health { name: name.to_owned(), report };
        },
        Screened::Start { name } => {
            return EventOutcome::Started { name: name.to_owned() };
        },
        Screened::Death { full_id, action, name, attrs, max_override } => (full_id, action, name, attrs, max_override),
    };
    if dedup.is_duplicate_at(full_id, action, now) {
        return EventOutcome::DuplicateDeath { name: name.to_owned() };
    }
    let short = short_id(full_id);
    let exit_code: Option<i32> = match attrs {
        Some(a) => match find_named(a.as_slice(), "exitCode") {
            Some(i) => {
                let cs = chars_of(a[i].1.as_str());
                parse_i32(cs.as_slice())
            },
            None => None,
        },
        None => None,
    };
    assert(exit_code == ev_exit_code(*e));
    let event = ContainerEvent {
        container_id: short.to_owned(),
        container_name: name.to_owned(),
        action: action.to_owned(),
        exit_code,
    };
    metrics.record_crash(name);
    let oom_killed = match exit_code {
        Some(code) => code == 137,
        None => false,
    };
    let restart_candidate = config.auto_restart && event.is_failure();
    EventOutcome::Died { event, full_id: full_id.to_owned(), oom_killed, restart_candidate, max_override }
}

/// What the watchdog does about event `e`: nothing, a health report, a start note, a
/// suppressed repeat, or the handling of a dead container (whose crash is counted here).
pub fn process_event(
    config: &AppConfig,
    dedup: &mut EventDedup,
    metrics: &mut CrashMetrics,
    e: &DockerEvent,
) -> (outcome: EventOutcome)
    requires
        ev_is_death(strings_view(config.ignore_containers@), *e)
            ==> short_id_cuttable(ev_full_id(*e)) && crash_count(old(metrics)@, ev_name(*e)) < u32::MAX,
    ensures
        final(dedup).window() == old(dedup).window(),
        final(dedup).last_reading() >= old(dedup).last_reading(),
        event_outcome_ok(*config, *e, old(dedup)@, final(dedup)@, old(dedup).window(), old(metrics)@, final(metrics)@,
            final(dedup).last_reading(), outcome),
{
    let now = dedup.now();
    process_event_at(config, dedup, metrics, e, now)
}

/// A dead container is a restart candidate only when auto-restart is on: with it off no
/// outcome is ever a restart candidate. With it on, a death counts as a candidate exactly
/// when the container failed: a non-zero exit code, or a plain `die` with no code.
pub proof fn law_restart_candidates(
    config: AppConfig,
    e: DockerEvent,
    d0: Map<(Seq<char>, Seq<char>), u128>,
    d1: Map<(Seq<char>, Seq<char>), u128>,
    window: u128,
    m0: Seq<(Seq<char>, u32)>,
    m1: Seq<(Seq<char>, u32)>,
    now: u128,
    outcome: EventOutcome,
)
    requires
        event_outcome_ok(config, e, d0, d1, window, m0, m1, now, outcome),
    ensures
        !config.auto_restart ==> !(outcome matches EventOutcome::Died { restart_candidate: true, .. }),
        outcome matches EventOutcome::Died { event, restart_candidate, .. } ==> (restart_candidate <==> (
            config.auto_restart && match event.exit_code {
                Some(c) => c != 0,
                None => event.action@ == "die"@,
            })),
{
}

/// Events of ignored containers, of containers whose `watchdog.enabled` label is `false` or
/// `0`, and events that are not about a container are ignored and change nothing. A death
/// that is let through counts one more crash of that container name, remembers the time
/// of the event for its (container, action) pair when the dedup window is open, and is
/// marked out of memory exactly when its exit code is 137.
pub proof fn law_event_outcomes(
    config: AppConfig,
    e: DockerEvent,
    d0: Map<(Seq<char>, Seq<char>), u128>,
    d1: Map<(Seq<char>, Seq<char>), u128>,
    window: u128,
    m0: Seq<(Seq<char>, u32)>,
    m1: Seq<(Seq<char>, u32)>,
    now: u128,
    outcome: EventOutcome,
)
    requires
        event_outcome_ok(config, e, d0, d1, window, m0, m1, now, outcome),
    ensures
        strings_view(config.ignore_containers@).contains(ev_name(e)) ==> outcome is Ignored && d1 == d0 && m1 == m0,
        !e.is_container ==> outcome is Ignored && d1 == d0 && m1 == m0,
        (ev_attrs(e) matches Some(a) && (lookup(a, "watchdog.enabled"@) == Some("false"@)
            || lookup(a, "watchdog.enabled"@) == Some("0"@))) ==> outcome is Ignored && d1 == d0 && m1 == m0,
        outcome matches EventOutcome::Died { oom_killed, event, .. } ==> (oom_killed <==> event.exit_code == Some(137i32)),
        outcome matches EventOutcome::Died { event, .. } ==> event.container_name@ == ev_name(e) && m1 == with_crash(m0, ev_name(e)),
        outcome is Died && window > 0 ==> d1.contains_key((ev_full_id(e), ev_action(e))) && d1[(ev_full_id(e), ev_action(e))] == now,
        outcome is DuplicateDeath ==> m1 == m0 && d1 == d0,
{
}

/// The event subscription and the startup scan are limited to the same compose project:
/// with a project `p` both carry the filter `label=com.docker.compose.project=p`, without
/// one neither has a label filter, and they agree on every label filter. The subscription
/// always asks for container events of kind die, start and health_status; the scan for
/// exited containers.
pub proof fn law_filters_follow_project(project: Option<Seq<char>>)
    ensures
        project matches Some(p) ==> event_filters(project).contains(("label"@, seq!["com.docker.compose.project="@ + p])),
        project matches Some(p) ==> scan_filters(project).contains(("label"@, seq!["com.docker.compose.project="@ + p])),
        project is None ==> forall|i: int| 0 <= i < event_filters(project).len() ==> #[trigger] event_filters(project)[i].0 != "label"@,
        project is None ==> forall|i: int| 0 <= i < scan_filters(project).len() ==> #[trigger] scan_filters(project)[i].0 != "label"@,
        forall|f: (Seq<char>, Seq<Seq<char>>)| f.0 == "label"@ ==> (#[trigger] event_filters(project).contains(f) <==> scan_filters(project).contains(f)),
        event_filters(project).contains(("type"@, seq!["container"@])),
        event_filters(project).contains(("event"@, seq!["die"@, "start"@, "health_status"@])),
        scan_filters(project).contains(("status"@, seq!["exited"@])),
{
    reveal_strlit("label");
    reveal_strlit("type");
    reveal_strlit("event");
    reveal_strlit("status");
    let ev = event_filters(project);
    let sc = scan_filters(project);
    assert(ev[0] == ("type"@, seq!["container"@]));
    assert(ev[1] == ("event"@, seq!["die"@, "start"@, "health_status"@]));
    assert(sc[0] == ("status"@, seq!["exited"@]));
    assert("type"@.len() != "label"@.len());
    assert("event"@[0] != "label"@[0]);
    assert("status"@.len() != "label"@.len());
    match project {
        Some(p) => {
            assert(ev.len() == 3 && ev[2] == ("label"@, seq!["com.docker.compose.project="@ + p]));
            assert(sc.len() == 2 && sc[1] == ("label"@, seq!["com.docker.compose.project="@ + p]));
            assert forall|f: (Seq<char>, Seq<Seq<char>>)| f.0 == "label"@ implies (#[trigger] ev.contains(f) <==> sc.contains(f)) by {
                if ev.contains(f) {
                    let i = choose|i: int| 0 <= i < ev.len() && ev[i] == f;
                    assert(i == 2);
                    assert(sc[1] == f);
                }
                if sc.contains(f) {
                    let i = choose|i: int| 0 <= i < sc.len() && sc[i] == f;
                    assert(i == 1);
                    assert(ev[2] == f);
                }
            }
        },
        None => {
            assert(ev.len() == 2);
            assert(sc.len() == 1);
            assert forall|f: (Seq<char>, Seq<Seq<char>>)| f.0 == "label"@ implies (#[trigger] ev.contains(f) <==> sc.contains(f)) by {
                if ev.contains(f) {
                    let i = choose|i: int| 0 <= i < ev.len() && ev[i] == f;
                }
                if sc.contains(f) {
                    let i = choose|i: int| 0 <= i < sc.len() && sc[i] == f;
                }
            }
        },
    }
}

/// Whether the status text can be cut between its first `(` and its first `)`.
pub fn is_status_cuttable(status: &str) -> (r: bool)
    ensures
        r == status_cuttable(status@),
{
    let cs = chars_of(status);
    match (find_char(cs.as_slice(), '('), find_char(cs.as_slice(), ')')) {
        (Some(a), Some(b)) => a < b,
        _ => true,
    }
}

/// Whether the startup scan can read every row of `rows` without a panic.
pub fn rows_scannable(config: &AppConfig, rows: &Vec<ContainerRow>) -> (r: bool)
    ensures
        r == forall|i: int| 0 <= i < rows@.len() ==> row_scannable(strings_view(config.ignore_containers@), #[trigger] rows@[i]),
{
    let ghost ignore = strings_view(config.ignore_containers@);
    let mut i: usize = 0;
    while i < rows.len()
        invariant
            ignore == strings_view(config.ignore_containers@),
            i <= rows@.len(),
            forall|k: int| 0 <= k < i ==> row_scannable(ignore, #[trigger] rows@[k]),
        decreases rows@.len() - i,
    {
        match read_row(config, &rows[i]) {
            None => {},
            Some((_, id, status)) => {
                if !is_short_id_cuttable(id) || !is_status_cuttable(status) {
                    return false;
                }
            },
        }
        i = i + 1;
    }
    true
}

/// Whether `process_event` can handle `e` at any time without a panic: a death event needs
/// an id that can be shortened and a crash count below `u32::MAX`.
pub fn event_processable(config: &AppConfig, metrics: &CrashMetrics, e: &DockerEvent) -> (r: bool)
    ensures
        r == (ev_is_death(strings_view(config.ignore_containers@), *e) ==> short_id_cuttable(ev_full_id(*e))
            && crash_count(metrics@, ev_name(*e)) < u32::MAX),
{
    match screen_event(config, e) {
        Screened::Death { full_id, name, .. } => is_short_id_cuttable(full_id) && metrics.count_of(name) < u32::MAX,
        _ => true,
    }
}

/// Whether `process_event_at` can handle `e` at time `now` without a panic: a death event
/// that the dedup lets through needs an id that can be shortened and a crash count below
/// `u32::MAX`.
pub fn event_processable_at(
    config: &AppConfig,
    dedup: &EventDedup,
    metrics: &CrashMetrics,
    e: &DockerEvent,
    now: u128,
) -> (r: bool)
    ensures
        r == (ev_is_death(strings_view(config.ignore_containers@), *e)
            && !dedup_step(dedup@, dedup.window(), (ev_full_id(*e), ev_action(*e)), now).1
            ==> short_id_cuttable(ev_full_id(*e)) && crash_count(metrics@, ev_name(*e)) < u32::MAX),
{
    match screen_event(config, e) {
        Screened::Death { full_id, action, name, .. } => dedup.suppresses_at(full_id, action, now) || (
        is_short_id_cuttable(full_id) && metrics.count_of(name) < u32::MAX),
        _ => true,
    }
}

} // verus!
