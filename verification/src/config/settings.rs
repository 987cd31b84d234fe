//! Watchdog settings: defaults, reading them from environment variables, and validation.
use crate::keyed::lookup;
use crate::text::{
    chars_of, find_named, is_true_word, parse_u32, parse_u32_of, parse_u64, parse_u64_of, split_chars,
    split_on, string_of, string_pairs, trim, trim_chars, true_word,
};
use vstd::prelude::*;

verus! {

/// All settings of the watchdog.
#[derive(Debug, Clone)]
pub struct AppConfig {
    pub log_tail_lines: u64,
    pub log_level: String,
    pub colored_output: bool,
    pub auto_restart: bool,
    pub max_restarts: u32,
    pub restart_delay_secs: u64,
    pub compose_project: Option<String>,
    pub ignore_containers: Vec<String>,
    pub cooldown_secs: u64,
    pub restart_backoff: bool,
    pub heartbeat_secs: u64,
    pub event_timeout_secs: u64,
    pub dry_run: bool,
    pub startup_scan: bool,
    pub dedup_window_secs: u64,
}

/// A setting that validation changed, or a mode worth warning about.
#[derive(Debug, Clone, Copy)]
pub enum ConfigWarning {
    /// `WATCHDOG_MAX_RESTARTS` was above 100 and was capped.
    MaxRestartsCapped(u32),
    /// `WATCHDOG_RESTART_DELAY` was above an hour and was capped.
    RestartDelayCapped(u64),
    /// `WATCHDOG_HEARTBEAT_SECS` was below 10 and was raised.
    HeartbeatRaised(u64),
    /// `WATCHDOG_EVENT_TIMEOUT_SECS` was below 30 and was raised.
    EventTimeoutRaised(u64),
    /// `WATCHDOG_LOG_TAIL` was above 10000 and was capped.
    LogTailCapped(u64),
    /// Dry-run mode is on: nothing will be restarted.
    DryRunEnabled,
}

pub const MAX_RESTARTS_CAP: u32 = 100;
pub const RESTART_DELAY_CAP_SECS: u64 = 3600;
pub const HEARTBEAT_FLOOR_SECS: u64 = 10;
pub const EVENT_TIMEOUT_FLOOR_SECS: u64 = 30;
pub const LOG_TAIL_CAP: u64 = 10000;

pub open spec fn cap_max_restarts(v: u32) -> u32 {
    if v > MAX_RESTARTS_CAP { MAX_RESTARTS_CAP } else { v }
}

pub open spec fn cap_restart_delay(v: u64) -> u64 {
    if v > RESTART_DELAY_CAP_SECS { RESTART_DELAY_CAP_SECS } else { v }
}

pub open spec fn floor_heartbeat(v: u64) -> u64 {
    if v < HEARTBEAT_FLOOR_SECS { HEARTBEAT_FLOOR_SECS } else { v }
}

pub open spec fn floor_event_timeout(v: u64) -> u64 {
    if v < EVENT_TIMEOUT_FLOOR_SECS { EVENT_TIMEOUT_FLOOR_SECS } else { v }
}

pub open spec fn cap_log_tail(v: u64) -> u64 {
    if v > LOG_TAIL_CAP { LOG_TAIL_CAP } else { v }
}

/// The warnings that validation gives for these settings, in the order it checks them.
pub open spec fn warnings_of(max_restarts: u32, restart_delay: u64, heartbeat: u64, event_timeout: u64, log_tail: u64, dry_run: bool) -> Seq<ConfigWarning> {
    (if max_restarts > MAX_RESTARTS_CAP { seq![ConfigWarning::MaxRestartsCapped(max_restarts)] } else { Seq::empty() })
    + (if restart_delay > RESTART_DELAY_CAP_SECS { seq![ConfigWarning::RestartDelayCapped(restart_delay)] } else { Seq::empty() })
    + (if heartbeat < HEARTBEAT_FLOOR_SECS { seq![ConfigWarning::HeartbeatRaised(heartbeat)] } else { Seq::empty() })
    + (if event_timeout < EVENT_TIMEOUT_FLOOR_SECS { seq![ConfigWarning::EventTimeoutRaised(event_timeout)] } else { Seq::empty() })
    + (if log_tail > LOG_TAIL_CAP { seq![ConfigWarning::LogTailCapped(log_tail)] } else { Seq::empty() })
    + (if dry_run { seq![ConfigWarning::DryRunEnabled] } else { Seq::empty() })
}

/// The settings after validation.
pub open spec fn validated(c: AppConfig) -> AppConfig {
    AppConfig {
        max_restarts: cap_max_restarts(c.max_restarts),
        restart_delay_secs: cap_restart_delay(c.restart_delay_secs),
        heartbeat_secs: floor_heartbeat(c.heartbeat_secs),
        event_timeout_secs: floor_event_timeout(c.event_timeout_secs),
        log_tail_lines: cap_log_tail(c.log_tail_lines),
        ..c
    }
}

/// The character sequences of a list of strings.
pub open spec fn strings_view(v: Seq<String>) -> Seq<Seq<char>> {
    v.map_values(|s: String| s@)
}

pub open spec fn opt_view(o: Option<String>) -> Option<Seq<char>> {
    match o {
        Some(s) => Some(s@),
        None => None,
    }
}

/// Two settings agree in every field (lists by their contents).
pub open spec fn same_settings(a: AppConfig, b: AppConfig) -> bool {
    &&& a.log_tail_lines == b.log_tail_lines
    &&& a.log_level == b.log_level
    &&& a.colored_output == b.colored_output
    &&& a.auto_restart == b.auto_restart
    &&& a.max_restarts == b.max_restarts
    &&& a.restart_delay_secs == b.restart_delay_secs
    &&& a.compose_project == b.compose_project
    &&& a.ignore_containers@ == b.ignore_containers@
    &&& a.cooldown_secs == b.cooldown_secs
    &&& a.restart_backoff == b.restart_backoff
    &&& a.heartbeat_secs == b.heartbeat_secs
    &&& a.event_timeout_secs == b.event_timeout_secs
    &&& a.dry_run == b.dry_run
    &&& a.startup_scan == b.startup_scan
    &&& a.dedup_window_secs == b.dedup_window_secs
}

/// The built-in settings.
pub open spec fn is_default_config(c: AppConfig) -> bool {
    &&& c.log_tail_lines == 50
    &&& c.log_level@ == "info"@
    &&& c.colored_output
    &&& c.auto_restart
    &&& c.max_restarts == 3
    &&& c.restart_delay_secs == 5
    &&& c.compose_project is None
    &&& c.ignore_containers@.len() == 0
    &&& c.cooldown_secs == 300
    &&& c.restart_backoff
    &&& c.heartbeat_secs == 300
    &&& c.event_timeout_secs == 600
    &&& !c.dry_run
    &&& c.startup_scan
    &&& c.dedup_window_secs == 5
}

/// A number read from variable `key`, or `default` when it is unset or does not parse.
pub open spec fn env_u64_or(vars: Seq<(Seq<char>, Seq<char>)>, key: Seq<char>, default: u64) -> u64 {
    match lookup(vars, key) {
        Some(v) => match parse_u64_of(v) {
            Some(n) => n,
            None => default,
        },
        None => default,
    }
}

pub open spec fn env_u32_or(vars: Seq<(Seq<char>, Seq<char>)>, key: Seq<char>, default: u32) -> u32 {
    match lookup(vars, key) {
        Some(v) => match parse_u32_of(v) {
            Some(n) => n,
            None => default,
        },
        None => default,
    }
}

/// A flag value is on when it is `1` or `true` in any ASCII case.
pub open spec fn flag_value(v: Seq<char>) -> bool {
    v == "1"@ || is_true_word(v)
}

pub open spec fn env_flag(vars: Seq<(Seq<char>, Seq<char>)>, key: Seq<char>) -> Option<bool> {
    match lookup(vars, key) {
        Some(v) => Some(flag_value(v)),
        None => None,
    }
}

pub open spec fn flag_or(f: Option<bool>, default: bool) -> bool {
    match f {
        Some(b) => b,
        None => default,
    }
}

/// The pieces that are not empty, in order.
pub open spec fn nonempty_only(ps: Seq<Seq<char>>) -> Seq<Seq<char>>
    decreases ps.len(),
{
    if ps.len() == 0 {
        Seq::empty()
    } else if ps.last().len() > 0 {
        nonempty_only(ps.drop_last()).push(ps.last())
    } else {
        nonempty_only(ps.drop_last())
    }
}

/// A comma-separated list: each piece trimmed, empty pieces dropped.
pub open spec fn name_list(v: Seq<char>) -> Seq<Seq<char>> {
    nonempty_only(split_on(v, ',').map_values(|p: Seq<char>| trim(p)))
}

/// The settings that environment variables `e` give before validation: each variable that is
/// set and reads well replaces the built-in value.
pub open spec fn env_log_tail(e: Seq<(Seq<char>, Seq<char>)>) -> u64 { env_u64_or(e, "WATCHDOG_LOG_TAIL"@, 50) }
pub open spec fn env_max_restarts(e: Seq<(Seq<char>, Seq<char>)>) -> u32 { env_u32_or(e, "WATCHDOG_MAX_RESTARTS"@, 3) }
pub open spec fn env_restart_delay(e: Seq<(Seq<char>, Seq<char>)>) -> u64 { env_u64_or(e, "WATCHDOG_RESTART_DELAY"@, 5) }
pub open spec fn env_heartbeat(e: Seq<(Seq<char>, Seq<char>)>) -> u64 { env_u64_or(e, "WATCHDOG_HEARTBEAT_SECS"@, 300) }
pub open spec fn env_event_timeout(e: Seq<(Seq<char>, Seq<char>)>) -> u64 { env_u64_or(e, "WATCHDOG_EVENT_TIMEOUT_SECS"@, 600) }
pub open spec fn env_dry_run(e: Seq<(Seq<char>, Seq<char>)>) -> bool { flag_or(env_flag(e, "WATCHDOG_DRY_RUN"@), false) }

/// `c` holds the validated settings that environment variables `e` give.
pub open spec fn env_settings(e: Seq<(Seq<char>, Seq<char>)>, c: AppConfig) -> bool {
    &&& c.log_tail_lines == cap_log_tail(env_log_tail(e))
    &&& c.log_level@ == match lookup(e, "WATCHDOG_LOG_LEVEL"@) {
        Some(v) => v,
        None => "info"@,
    }
    &&& c.colored_output == (env_flag(e, "WATCHDOG_NO_COLOR"@) != Some(true))
    &&& c.auto_restart == flag_or(env_flag(e, "WATCHDOG_AUTO_RESTART"@), true)
    &&& c.max_restarts == cap_max_restarts(env_max_restarts(e))
    &&& c.restart_delay_secs == cap_restart_delay(env_restart_delay(e))
    &&& opt_view(c.compose_project) == match lookup(e, "WATCHDOG_COMPOSE_PROJECT"@) {
        Some(v) => if v.len() > 0 { Some(v) } else { None },
        None => None,
    }
    &&& strings_view(c.ignore_containers@) == match lookup(e, "WATCHDOG_IGNORE_CONTAINERS"@) {
        Some(v) => name_list(v),
        None => Seq::empty(),
    }
    &&& c.cooldown_secs == env_u64_or(e, "WATCHDOG_COOLDOWN_SECS"@, 300)
    &&& c.restart_backoff == flag_or(env_flag(e, "WATCHDOG_RESTART_BACKOFF"@), true)
    &&& c.heartbeat_secs == floor_heartbeat(env_heartbeat(e))
    &&& c.event_timeout_secs == floor_event_timeout(env_event_timeout(e))
    &&& c.dry_run == env_dry_run(e)
    &&& c.startup_scan == flag_or(env_flag(e, "WATCHDOG_STARTUP_SCAN"@), true)
    &&& c.dedup_window_secs == env_u64_or(e, "WATCHDOG_DEDUP_WINDOW_SECS"@, 5)
}

/// With none of the watchdog's variables set, the settings are the built-in ones.
pub proof fn law_unset_environment_gives_defaults(e: Seq<(Seq<char>, Seq<char>)>, c: AppConfig)
    requires
        env_settings(e, c),
        lookup(e, "WATCHDOG_LOG_TAIL"@) is None,
        lookup(e, "WATCHDOG_LOG_LEVEL"@) is None,
        lookup(e, "WATCHDOG_NO_COLOR"@) is None,
        lookup(e, "WATCHDOG_AUTO_RESTART"@) is None,
        lookup(e, "WATCHDOG_MAX_RESTARTS"@) is None,
        lookup(e, "WATCHDOG_RESTART_DELAY"@) is None,
        lookup(e, "WATCHDOG_COMPOSE_PROJECT"@) is None,
        lookup(e, "WATCHDOG_IGNORE_CONTAINERS"@) is None,
        lookup(e, "WATCHDOG_COOLDOWN_SECS"@) is None,
        lookup(e, "WATCHDOG_RESTART_BACKOFF"@) is None,
        lookup(e, "WATCHDOG_HEARTBEAT_SECS"@) is None,
        lookup(e, "WATCHDOG_EVENT_TIMEOUT_SECS"@) is None,
        lookup(e, "WATCHDOG_DRY_RUN"@) is None,
        lookup(e, "WATCHDOG_STARTUP_SCAN"@) is None,
        lookup(e, "WATCHDOG_DEDUP_WINDOW_SECS"@) is None,
    ensures
        is_default_config(c),
{
    assert(c.ignore_containers@.len() == strings_view(c.ignore_containers@).len());
}

/// Settings validation caps or raises each bounded setting into its range and changes
/// nothing else; validating again changes nothing.
pub proof fn law_validation_bounds_and_idempotence(c: AppConfig)
    ensures
        validated(c).max_restarts <= MAX_RESTARTS_CAP,
        validated(c).restart_delay_secs <= RESTART_DELAY_CAP_SECS,
        validated(c).heartbeat_secs >= HEARTBEAT_FLOOR_SECS,
        validated(c).event_timeout_secs >= EVENT_TIMEOUT_FLOOR_SECS,
        validated(c).log_tail_lines <= LOG_TAIL_CAP,
        validated(validated(c)) == validated(c),
        warnings_of(
            validated(c).max_restarts,
            validated(c).restart_delay_secs,
            validated(c).heartbeat_secs,
            validated(c).event_timeout_secs,
            validated(c).log_tail_lines,
            validated(c).dry_run,
        ) == (if c.dry_run { seq![ConfigWarning::DryRunEnabled] } else { Seq::<ConfigWarning>::empty() }),
{
    assert(warnings_of(
        validated(c).max_restarts,
        validated(c).restart_delay_secs,
        validated(c).heartbeat_secs,
        validated(c).event_timeout_secs,
        validated(c).log_tail_lines,
        validated(c).dry_run,
    ) =~= (if c.dry_run { seq![ConfigWarning::DryRunEnabled] } else { Seq::<ConfigWarning>::empty() }));
}

/// Validation changes a bounded setting only when it is out of range, and then sets it to
/// the bound it crossed: at most 100 restarts, a restart delay of at most an hour, a
/// heartbeat of at least 10 s, an event timeout of at least 30 s, at most 10000 log lines.
/// Every other setting is kept. Validation gives one warning per setting it changed, plus a
/// dry-run note last when dry-run mode is on; a capped restart limit is warned about first,
/// with the value that was given.
pub proof fn law_validation_keeps_in_range(c: AppConfig)
    ensures
        c.max_restarts <= 100 ==> validated(c).max_restarts == c.max_restarts,
        c.max_restarts > 100 ==> validated(c).max_restarts == 100,
        c.restart_delay_secs <= 3600 ==> validated(c).restart_delay_secs == c.restart_delay_secs,
        c.restart_delay_secs > 3600 ==> validated(c).restart_delay_secs == 3600,
        c.heartbeat_secs >= 10 ==> validated(c).heartbeat_secs == c.heartbeat_secs,
        c.heartbeat_secs < 10 ==> validated(c).heartbeat_secs == 10,
        c.event_timeout_secs >= 30 ==> validated(c).event_timeout_secs == c.event_timeout_secs,
        c.event_timeout_secs < 30 ==> validated(c).event_timeout_secs == 30,
        c.log_tail_lines <= 10000 ==> validated(c).log_tail_lines == c.log_tail_lines,
        c.log_tail_lines > 10000 ==> validated(c).log_tail_lines == 10000,
        validated(c).log_level == c.log_level,
        validated(c).colored_output == c.colored_output,
        validated(c).auto_restart == c.auto_restart,
        validated(c).compose_project == c.compose_project,
        validated(c).ignore_containers == c.ignore_containers,
        validated(c).cooldown_secs == c.cooldown_secs,
        validated(c).restart_backoff == c.restart_backoff,
        validated(c).dry_run == c.dry_run,
        validated(c).startup_scan == c.startup_scan,
        validated(c).dedup_window_secs == c.dedup_window_secs,
        warnings_of(c.max_restarts, c.restart_delay_secs, c.heartbeat_secs, c.event_timeout_secs,
            c.log_tail_lines, c.dry_run).len() == (if c.max_restarts > 100 { 1int } else { 0int })
            + (if c.restart_delay_secs > 3600 { 1int } else { 0int })
            + (if c.heartbeat_secs < 10 { 1int } else { 0int })
            + (if c.event_timeout_secs < 30 { 1int } else { 0int })
            + (if c.log_tail_lines > 10000 { 1int } else { 0int })
            + (if c.dry_run { 1int } else { 0int }),
        c.max_restarts > 100 ==> warnings_of(c.max_restarts, c.restart_delay_secs, c.heartbeat_secs,
            c.event_timeout_secs, c.log_tail_lines, c.dry_run)[0] == ConfigWarning::MaxRestartsCapped(c.max_restarts),
        c.dry_run ==> warnings_of(c.max_restarts, c.restart_delay_secs, c.heartbeat_secs,
            c.event_timeout_secs, c.log_tail_lines, c.dry_run).last() == ConfigWarning::DryRunEnabled,
{
}

/// A copy of `v`.
fn copy_strings(v: &Vec<String>) -> (r: Vec<String>)
    ensures
        r@ == v@,
{
    let mut r: Vec<String> = Vec::new();
    let mut i: usize = 0;
    while i < v.len()
        invariant
            i <= v@.len(),
            r@ == v@.subrange(0, i as int),
        decreases v@.len() - i,
    {
        r.push(v[i].clone());
        i = i + 1;
    }
    r
}

/// The value of variable `key`.
fn env_chars(vars: &[(String, String)], key: &str) -> (r: Option<Vec<char>>)
    ensures
        match r {
            Some(v) => lookup(string_pairs(vars@), key@) == Some(v@),
            None => lookup(string_pairs(vars@), key@) is None,
        },
{
    match find_named(vars, key) {
        Some(i) => Some(chars_of(vars[i].1.as_str())),
        None => None,
    }
}

fn env_u64(vars: &[(String, String)], key: &str, default: u64) -> (r: u64)
    ensures
        r == env_u64_or(string_pairs(vars@), key@, default),
{
    match env_chars(vars, key) {
        Some(v) => match parse_u64(v.as_slice()) {
            Some(n) => n,
            None => default,
        },
        None => default,
    }
}

fn env_u32(vars: &[(String, String)], key: &str, default: u32) -> (r: u32)
    ensures
        r == env_u32_or(string_pairs(vars@), key@, default),
{
    match env_chars(vars, key) {
        Some(v) => match parse_u32(v.as_slice()) {
            Some(n) => n,
            None => default,
        },
        None => default,
    }
}

fn flag_of(v: &[char]) -> (r: bool)
    ensures
        r == flag_value(v@),
{
    proof {
        reveal_strlit("1");
    }
    if v.len() == 1 && v[0] == '1' {
        assert(v@ =~= "1"@);
        true
    } else {
        true_word(v)
    }
}

fn env_bool(vars: &[(String, String)], key: &str) -> (r: Option<bool>)
    ensures
        r == env_flag(string_pairs(vars@), key@),
{
    match env_chars(vars, key) {
        Some(v) => Some(flag_of(v.as_slice())),
        None => None,
    }
}

/// The names in a comma-separated list, trimmed, empty ones dropped.
pub fn parse_name_list(v: &[char]) -> (r: Vec<String>)
    ensures
        strings_view(r@) == name_list(v@),
{
    let pieces = split_chars(v, ',');
    let ghost trimmed = split_on(v@, ',').map_values(|p: Seq<char>| trim(p));
    let mut r: Vec<String> = Vec::new();
    let mut i: usize = 0;
    assert(trimmed.take(0) =~= Seq::<Seq<char>>::empty());
    assert(strings_view(r@) =~= Seq::<Seq<char>>::empty());
    while i < pieces.len()
        invariant
            crate::text::deep(pieces@) == split_on(v@, ','),
            trimmed == split_on(v@, ',').map_values(|p: Seq<char>| trim(p)),
            i <= pieces@.len(),
            strings_view(r@) == nonempty_only(trimmed.take(i as int)),
        decreases pieces@.len() - i,
    {
        let t = trim_chars(pieces[i].as_slice());
        assert(t@ == trimmed[i as int]);
        assert(trimmed.take(i + 1).drop_last() =~= trimmed.take(i as int));
        if t.len() > 0 {
            let s = string_of(t.as_slice());
            r.push(s);
            assert(strings_view(r@) =~= nonempty_only(trimmed.take(i as int)).push(t@));
        }
        i = i + 1;
    }
    assert(trimmed.take(pieces@.len() as int) =~= trimmed);
    r
}

impl Default for AppConfig {
    fn default() -> (c: Self)
        ensures
            is_default_config(c),
    {
        let c = AppConfig {
            log_tail_lines: 50,
            log_level: "info".to_owned(),
            colored_output: true,
            auto_restart: true,
            max_restarts: 3,
            restart_delay_secs: 5,
            compose_project: None,
            ignore_containers: Vec::new(),
            cooldown_secs: 300,
            restart_backoff: true,
            heartbeat_secs: 300,
            event_timeout_secs: 600,
            dry_run: false,
            startup_scan: true,
            dedup_window_secs: 5,
        };
        c
    }
}

impl AppConfig {
    /// A copy of these settings.
    pub fn duplicate(&self) -> (c: AppConfig)
        ensures
            same_settings(c, *self),
    {
        let project = match &self.compose_project {
            Some(p) => Some(p.clone()),
            None => None,
        };
        AppConfig {
            log_tail_lines: self.log_tail_lines,
            log_level: self.log_level.clone(),
            colored_output: self.colored_output,
            auto_restart: self.auto_restart,
            max_restarts: self.max_restarts,
            restart_delay_secs: self.restart_delay_secs,
            compose_project: project,
            ignore_containers: copy_strings(&self.ignore_containers),
            cooldown_secs: self.cooldown_secs,
            restart_backoff: self.restart_backoff,
            heartbeat_secs: self.heartbeat_secs,
            event_timeout_secs: self.event_timeout_secs,
            dry_run: self.dry_run,
            startup_scan: self.startup_scan,
            dedup_window_secs: self.dedup_window_secs,
        }
    }

    /// The validated settings that environment variables `vars` (name and value pairs; the
    /// first pair of a name counts) give, with the validation warnings.
    pub fn from_env_vars(vars: &[(String, String)]) -> (r: (AppConfig, Vec<ConfigWarning>))
        ensures
            env_settings(string_pairs(vars@), r.0),
            r.1@ == warnings_of(
                env_max_restarts(string_pairs(vars@)),
                env_restart_delay(string_pairs(vars@)),
                env_heartbeat(string_pairs(vars@)),
                env_event_timeout(string_pairs(vars@)),
                env_log_tail(string_pairs(vars@)),
                env_dry_run(string_pairs(vars@)),
            ),
    {
        let mut c = AppConfig::default();
        c.log_tail_lines = env_u64(vars, "WATCHDOG_LOG_TAIL", c.log_tail_lines);
        match find_named(vars, "WATCHDOG_LOG_LEVEL") {
            Some(i) => {
                c.log_level = vars[i].1.clone();
            },
            None => {},
        }
        c.max_restarts = env_u32(vars, "WATCHDOG_MAX_RESTARTS", c.max_restarts);
        c.restart_delay_secs = env_u64(vars, "WATCHDOG_RESTART_DELAY", c.restart_delay_secs);
        c.cooldown_secs = env_u64(vars, "WATCHDOG_COOLDOWN_SECS", c.cooldown_secs);
        c.heartbeat_secs = env_u64(vars, "WATCHDOG_HEARTBEAT_SECS", c.heartbeat_secs);
        c.event_timeout_secs = env_u64(vars, "WATCHDOG_EVENT_TIMEOUT_SECS", c.event_timeout_secs);
        c.dedup_window_secs = env_u64(vars, "WATCHDOG_DEDUP_WINDOW_SECS", c.dedup_window_secs);
        match env_bool(vars, "WATCHDOG_NO_COLOR") {
            Some(true) => {
                c.colored_output = false;
            },
            _ => {},
        }
        match env_bool(vars, "WATCHDOG_AUTO_RESTART") {
            Some(v) => {
                c.auto_restart = v;
            },
            None => {},
        }
        match env_bool(vars, "WATCHDOG_RESTART_BACKOFF") {
            Some(v) => {
                c.restart_backoff = v;
            },
            None => {},
        }
        match env_bool(vars, "WATCHDOG_DRY_RUN") {
            Some(v) => {
                c.dry_run = v;
            },
            None => {},
        }
        match env_bool(vars, "WATCHDOG_STARTUP_SCAN") {
            Some(v) => {
                c.startup_scan = v;
            },
            None => {},
        }
        match find_named(vars, "WATCHDOG_COMPOSE_PROJECT") {
            Some(i) => {
                if !vars[i].1.as_str().is_empty() {
                    c.compose_project = Some(vars[i].1.clone());
                }
            },
            None => {},
        }
        match env_chars(vars, "WATCHDOG_IGNORE_CONTAINERS") {
            Some(v) => {
                c.ignore_containers = parse_name_list(v.as_slice());
            },
            None => {
                assert(strings_view(c.ignore_containers@) =~= Seq::<Seq<char>>::empty());
            },
        }
        let warnings = c.validate();
        (c, warnings)
    }

    /// These settings, with the compose project detected from the watchdog's own container
    /// when none is configured.
    pub fn with_detected_project(&self, detected: Option<String>) -> (c: AppConfig)
        ensures
            same_settings(c, AppConfig { compose_project: c.compose_project, ..*self }),
            c.compose_project == (if self.compose_project is Some {
                self.compose_project
            } else {
                detected
            }),
    {
        let mut c = self.duplicate();
        if self.compose_project.is_none() {
            c.compose_project = detected;
        }
        c
    }

    /// Brings the bounded settings into range and lists what it changed, in order.
    pub fn validate(&mut self) -> (warnings: Vec<ConfigWarning>)
        ensures
            *final(self) == validated(*old(self)),
            warnings@ == warnings_of(
                old(self).max_restarts,
                old(self).restart_delay_secs,
                old(self).heartbeat_secs,
                old(self).event_timeout_secs,
                old(self).log_tail_lines,
                old(self).dry_run,
            ),
    {
        let warnings = warnings_for(
            self.max_restarts,
            self.restart_delay_secs,
            self.heartbeat_secs,
            self.event_timeout_secs,
            self.log_tail_lines,
            self.dry_run,
        );
        if self.max_restarts > MAX_RESTARTS_CAP {
            self.max_restarts = MAX_RESTARTS_CAP;
        }
        if self.restart_delay_secs > RESTART_DELAY_CAP_SECS {
            self.restart_delay_secs = RESTART_DELAY_CAP_SECS;
        }
        if self.heartbeat_secs < HEARTBEAT_FLOOR_SECS {
            self.heartbeat_secs = HEARTBEAT_FLOOR_SECS;
        }
        if self.event_timeout_secs < EVENT_TIMEOUT_FLOOR_SECS {
            self.event_timeout_secs = EVENT_TIMEOUT_FLOOR_SECS;
        }
        if self.log_tail_lines > LOG_TAIL_CAP {
            self.log_tail_lines = LOG_TAIL_CAP;
        }
        warnings
    }
}

fn one_warning(on: bool, w: ConfigWarning) -> (r: Vec<ConfigWarning>)
    ensures
        r@ == (if on { seq![w] } else { Seq::<ConfigWarning>::empty() }),
{
    let mut r: Vec<ConfigWarning> = Vec::new();
    if on {
        r.push(w);
    }
    assert(r@ =~= (if on { seq![w] } else { Seq::<ConfigWarning>::empty() }));
    r
}

/// The warnings that validation gives for these settings.
fn warnings_for(max_restarts: u32, restart_delay: u64, heartbeat: u64, event_timeout: u64, log_tail: u64, dry_run: bool) -> (r: Vec<ConfigWarning>)
    ensures
        r@ == warnings_of(max_restarts, restart_delay, heartbeat, event_timeout, log_tail, dry_run),
{
    let mut r = one_warning(max_restarts > MAX_RESTARTS_CAP, ConfigWarning::MaxRestartsCapped(max_restarts));
    let mut b = one_warning(restart_delay > RESTART_DELAY_CAP_SECS, ConfigWarning::RestartDelayCapped(restart_delay));
    r.append(&mut b);
    let mut b = one_warning(heartbeat < HEARTBEAT_FLOOR_SECS, ConfigWarning::HeartbeatRaised(heartbeat));
    r.append(&mut b);
    let mut b = one_warning(event_timeout < EVENT_TIMEOUT_FLOOR_SECS, ConfigWarning::EventTimeoutRaised(event_timeout));
    r.append(&mut b);
    let mut b = one_warning(log_tail > LOG_TAIL_CAP, ConfigWarning::LogTailCapped(log_tail));
    r.append(&mut b);
    let mut b = one_warning(dry_run, ConfigWarning::DryRunEnabled);
    r.append(&mut b);
    r
}

} // verus!
