//! The power-policy services that compete with the optimizer: finding them,
//! disabling them with a backup of their start type and state, and
//! restoring them.
use vstd::prelude::*;
use crate::text::{contains_seq, contains_chars, to_chars, from_chars, eq_ignore_ascii_case, ascii_lower_code, chars_eq_ignore_ascii_case, decimal_u32, parse_decimal_u32, string_views};
use crate::grammar::{Pattern, capture, capture_exec};
use crate::command::{CommandLine, command_words, result_view};

verus! {

/// The status of a service that was stopped and disabled.
pub const SERVICE_STATUS_DISABLED: &'static str = "disabled";

/// The status of a service whose start type and state were restored.
pub const SERVICE_STATUS_RESTORED: &'static str = "restored";

/// The status of a service that is not installed.
pub const SERVICE_STATUS_NOT_FOUND: &'static str = "not_found";

/// The status of a service whose handling failed.
pub const SERVICE_STATUS_FAILED: &'static str = "failed";

/// The display name of Lenovo's thermal service, restored when no backup exists.
pub const ITS_POWER_MODE_CONTROL_DISPLAY_NAME: &'static str = "Lenovo ITS Power Mode Control";

/// The file, next to the plan backups, that records the disabled services.
pub const POWER_POLICY_SERVICE_BACKUP_NAME: &'static str = "power-policy-services-backup.json";

/// The file of an older version that recorded one service.
pub const LEGACY_SERVICE_BACKUP_NAME: &'static str = "its-service-backup.json";

/// A service that may write power settings: a label, the display names it
/// may have, and the service names it may have.
pub struct ServiceCandidate {
    pub label: String,
    pub display_names: Vec<String>,
    pub service_names: Vec<String>,
}

/// A candidate by the views of its fields.
pub struct CandidateModel {
    pub label: Seq<char>,
    pub display_names: Seq<Seq<char>>,
    pub service_names: Seq<Seq<char>>,
}

impl View for ServiceCandidate {
    type V = CandidateModel;

    open spec fn view(&self) -> CandidateModel {
        CandidateModel {
            label: self.label@,
            display_names: string_views(self.display_names@),
            service_names: string_views(self.service_names@),
        }
    }
}

/// The services that the optimizer stops, in order.
pub open spec fn candidate_table() -> Seq<CandidateModel> {
    seq![
        CandidateModel {
            label: "Lenovo ITS Power Mode Control"@,
            display_names: seq!["Lenovo ITS Power Mode Control"@, "Lenovo Intelligent Thermal Solution Service"@],
            service_names: seq!["LITSSVC"@, "LITSSvc"@],
        },
        CandidateModel {
            label: "Lenovo Vantage Service"@,
            display_names: seq!["Lenovo Vantage Service"@],
            service_names: seq!["LenovoVantageService"@],
        },
        CandidateModel {
            label: "Lenovo Service Engine"@,
            display_names: seq!["Lenovo Service Engine"@],
            service_names: seq!["LenovoServiceAS"@],
        },
        CandidateModel {
            label: "Lenovo System Interface Foundation"@,
            display_names: seq!["Lenovo System Interface Foundation"@],
            service_names: seq!["LISFService"@],
        },
        CandidateModel {
            label: "Lenovo Smart Standby"@,
            display_names: seq!["Lenovo Smart Standby"@],
            service_names: seq!["LenovoSmartStandby"@],
        },
        CandidateModel {
            label: "Lenovo Modern ImController"@,
            display_names: seq!["Lenovo.Modern.ImController"@],
            service_names: seq!["ImControllerService"@],
        },
        CandidateModel {
            label: "Lenovo Platform Service"@,
            display_names: seq!["Lenovo Platform Service"@],
            service_names: seq!["LPlatSvc"@],
        },
        CandidateModel {
            label: "Intel DPTF"@,
            display_names: seq!["Intel(R) Dynamic Platform and Thermal Framework"@],
            service_names: seq!["dptftcs"@],
        },
        CandidateModel {
            label: "Intel Dynamic Tuning"@,
            display_names: seq!["Intel(R) Dynamic Tuning Service"@],
            service_names: seq!["ipfsvc"@],
        },
        CandidateModel {
            label: "Intel Energy Server"@,
            display_names: seq!["Intel(R) Energy Server Service"@, "Energy Server Service"@],
            service_names: seq!["esifsvc"@],
        },
        CandidateModel {
            label: "ThinkPad Power Management"@,
            display_names: seq!["ThinkPad Power Management Service"@],
            service_names: seq!["IBMPMSVC"@],
        },
    ]
}

fn candidate(label: &str, display_names: Vec<String>, service_names: Vec<String>) -> (c:
    ServiceCandidate)
    ensures
        c@ == (CandidateModel {
            label: label@,
            display_names: string_views(display_names@),
            service_names: string_views(service_names@),
        }),
{
    ServiceCandidate { label: label.to_owned(), display_names, service_names }
}

fn names1(a: &str) -> (v: Vec<String>)
    ensures
        string_views(v@) == seq![a@],
{
    let v = vec![a.to_owned()];
    assert(string_views(v@) == seq![a@]);
    v
}

fn names2(a: &str, b: &str) -> (v: Vec<String>)
    ensures
        string_views(v@) == seq![a@, b@],
{
    let v = vec![a.to_owned(), b.to_owned()];
    assert(string_views(v@) == seq![a@, b@]);
    v
}

/// The services that the optimizer stops.
pub fn power_policy_service_candidates() -> (v: Vec<ServiceCandidate>)
    ensures
        v@.map_values(|c: ServiceCandidate| c@) == candidate_table(),
{
    let v = vec![
        candidate("Lenovo ITS Power Mode Control", names2("Lenovo ITS Power Mode Control", "Lenovo Intelligent Thermal Solution Service"), names2("LITSSVC", "LITSSvc")),
        candidate("Lenovo Vantage Service", names1("Lenovo Vantage Service"), names1("LenovoVantageService")),
        candidate("Lenovo Service Engine", names1("Lenovo Service Engine"), names1("LenovoServiceAS")),
        candidate("Lenovo System Interface Foundation", names1("Lenovo System Interface Foundation"), names1("LISFService")),
        candidate("Lenovo Smart Standby", names1("Lenovo Smart Standby"), names1("LenovoSmartStandby")),
        candidate("Lenovo Modern ImController", names1("Lenovo.Modern.ImController"), names1("ImControllerService")),
        candidate("Lenovo Platform Service", names1("Lenovo Platform Service"), names1("LPlatSvc")),
        candidate("Intel DPTF", names1("Intel(R) Dynamic Platform and Thermal Framework"), names1("dptftcs")),
        candidate("Intel Dynamic Tuning", names1("Intel(R) Dynamic Tuning Service"), names1("ipfsvc")),
        candidate("Intel Energy Server", names2("Intel(R) Energy Server Service", "Energy Server Service"), names1("esifsvc")),
        candidate("ThinkPad Power Management", names1("ThinkPad Power Management Service"), names1("IBMPMSVC")),
    ];
    assert(v@[0]@ == candidate_table()[0]);
    assert(v@[1]@ == candidate_table()[1]);
    assert(v@[2]@ == candidate_table()[2]);
    assert(v@[3]@ == candidate_table()[3]);
    assert(v@[4]@ == candidate_table()[4]);
    assert(v@[5]@ == candidate_table()[5]);
    assert(v@[6]@ == candidate_table()[6]);
    assert(v@[7]@ == candidate_table()[7]);
    assert(v@[8]@ == candidate_table()[8]);
    assert(v@[9]@ == candidate_table()[9]);
    assert(v@[10]@ == candidate_table()[10]);
    assert(v@.map_values(|c: ServiceCandidate| c@) =~= candidate_table());
    v
}


/// What `str::to_lowercase` gives for `s`: its Unicode lower-case mapping.
pub uninterp spec fn lowercase(s: Seq<char>) -> Seq<char>;

/// Every character of `s` is ASCII.
pub open spec fn is_ascii_text(s: Seq<char>) -> bool {
    forall|i: int| 0 <= i < s.len() ==> (#[trigger] s[i] as u32) < 128
}

/// `s` with its ASCII upper-case letters in lower case.
pub open spec fn ascii_lowercase(s: Seq<char>) -> Seq<char> {
    s.map_values(|c: char| ascii_lower_code(c) as char)
}

/// Calls `str::to_lowercase`. Its Unicode mapping is named, not stated; on
/// ASCII text it is the ASCII lower-case mapping.
#[verifier::external_body]
fn to_lowercase(s: &str) -> (r: String)
    ensures
        r@ == lowercase(s@),
        is_ascii_text(s@) ==> r@ == ascii_lowercase(s@),
{
    s.to_lowercase()
}

/// An error of `sc` that says the service does not exist: its lower-case
/// text holds `1060` or `does not exist`.
pub open spec fn is_not_found_message(message: Seq<char>) -> bool {
    let lower = lowercase(message);
    ||| contains_seq(lower, "1060"@)
    ||| contains_seq(lower, "does not exist"@)
    ||| contains_seq(lower, "specified service does not exist"@)
}

/// Whether `message` says that the service does not exist.
pub fn is_service_not_found_error(message: &str) -> (b: bool)
    ensures
        b == is_not_found_message(message@),
        is_ascii_text(message@) ==> b == (contains_seq(ascii_lowercase(message@), "1060"@)
            || contains_seq(ascii_lowercase(message@), "does not exist"@) || contains_seq(
            ascii_lowercase(message@),
            "specified service does not exist"@,
        )),
{
    let lower = to_chars(to_lowercase(message).as_str());
    let a = to_chars("1060");
    let b = to_chars("does not exist");
    let c = to_chars("specified service does not exist");
    contains_chars(lower.as_slice(), a.as_slice()) || contains_chars(lower.as_slice(), b.as_slice())
        || contains_chars(lower.as_slice(), c.as_slice())
}

/// Whether a service exists, from how `sc query <name>` went: it exists when
/// the query succeeded, not when the query failed with a not-found error;
/// any other failure is passed on.
pub open spec fn existence(query: Result<Seq<char>, Seq<char>>) -> Result<bool, Seq<char>> {
    match query {
        Ok(_) => Ok(true),
        Err(e) => if is_not_found_message(e) {
            Ok(false)
        } else {
            Err(e)
        },
    }
}

/// A result of a boolean or a message, by the view of the message.
pub open spec fn bool_result_view(r: Result<bool, String>) -> Result<bool, Seq<char>> {
    match r {
        Ok(b) => Ok(b),
        Err(e) => Err(e@),
    }
}

/// Whether a service exists, from the outcome of `sc query <name>`.
pub fn service_exists(query: Result<String, String>) -> (r: Result<bool, String>)
    ensures
        bool_result_view(r) == existence(result_view(query)),
{
    match query {
        Ok(_) => Ok(true),
        Err(e) => {
            if is_service_not_found_error(e.as_str()) {
                Ok(false)
            } else {
                Err(e)
            }
        },
    }
}

/// The `sc config ... start=` keyword for a start type: 2 is `auto`, 3 is
/// `demand`, 4 is `disabled`, and any other is `auto`.
pub open spec fn start_value(start_type: u32) -> Seq<char> {
    if start_type == 2 {
        "auto"@
    } else if start_type == 3 {
        "demand"@
    } else if start_type == 4 {
        "disabled"@
    } else {
        "auto"@
    }
}

/// The `sc config ... start=` keyword for a start type.
pub fn start_type_to_value(start_type: u32) -> (r: &'static str)
    ensures
        r@ == start_value(start_type),
{
    match start_type {
        2 => "auto",
        3 => "demand",
        4 => "disabled",
        _ => "auto",
    }
}

/// The words of `sc <verb> <name>`.
pub open spec fn sc_words(verb: Seq<char>, name: Seq<char>) -> (Seq<char>, Seq<Seq<char>>) {
    ("sc"@, seq![verb, name])
}

fn sc2(verb: &str, name: &str) -> (c: CommandLine)
    ensures
        command_words(&c) == sc_words(verb@, name@),
        !c.dynamic,
{
    let args = vec![verb.to_owned(), name.to_owned()];
    let c = CommandLine { program: "sc".to_owned(), args, dynamic: false };
    assert(string_views(c.args@) == sc_words(verb@, name@).1);
    c
}

/// `sc query <name>`: fails unless the service exists, and shows its state.
pub fn query_service_command(name: &str) -> (c: CommandLine)
    ensures
        command_words(&c) == sc_words("query"@, name@),
        !c.dynamic,
{
    sc2("query", name)
}

/// `sc qc <name>`: shows the service's configuration.
pub fn query_config_command(name: &str) -> (c: CommandLine)
    ensures
        command_words(&c) == sc_words("qc"@, name@),
        !c.dynamic,
{
    sc2("qc", name)
}

/// `sc getkeyname <display name>`: shows the service name.
pub fn key_name_command(display_name: &str) -> (c: CommandLine)
    ensures
        command_words(&c) == sc_words("getkeyname"@, display_name@),
        !c.dynamic,
{
    sc2("getkeyname", display_name)
}

/// `sc stop <name>`.
pub fn stop_service_command(name: &str) -> (c: CommandLine)
    ensures
        command_words(&c) == sc_words("stop"@, name@),
        !c.dynamic,
{
    sc2("stop", name)
}

/// `sc start <name>`.
pub fn start_service_command(name: &str) -> (c: CommandLine)
    ensures
        command_words(&c) == sc_words("start"@, name@),
        !c.dynamic,
{
    sc2("start", name)
}

/// The words of `sc config <name> start= <value>`.
pub open spec fn sc_config_words(name: Seq<char>, value: Seq<char>) -> (Seq<char>, Seq<Seq<char>>) {
    ("sc"@, seq!["config"@, name, "start="@, value])
}

/// `sc config <name> start= <value>`: sets the service's start type.
pub fn set_start_command(name: &str, value: &str) -> (c: CommandLine)
    ensures
        command_words(&c) == sc_config_words(name@, value@),
        !c.dynamic,
{
    let args = vec!["config".to_owned(), name.to_owned(), "start=".to_owned(), value.to_owned()];
    let c = CommandLine { program: "sc".to_owned(), args, dynamic: false };
    assert(string_views(c.args@) == sc_config_words(name@, value@).1);
    c
}

/// The message for a display name that names no service.
pub open spec fn service_not_found_message(display_name: Seq<char>) -> Seq<char> {
    "\u{65e0}\u{6cd5}\u{627e}\u{5230}\u{670d}\u{52a1}: "@ + display_name
}

/// The service name that `sc getkeyname` reported: a failed lookup is passed
/// on; else the first `NAME:` value of its output, or a message when there
/// is none.
pub open spec fn key_name_outcome(display_name: Seq<char>, lookup: Result<Seq<char>, Seq<char>>) -> Result<
    Seq<char>,
    Seq<char>,
> {
    match lookup {
        Err(e) => Err(e),
        Ok(out) => match capture(Pattern::KeyName, out) {
            Some(n) => Ok(n),
            None => Err(service_not_found_message(display_name)),
        },
    }
}

/// The service name for `display_name`, from the outcome of
/// `sc getkeyname <display_name>`.
pub fn get_service_name_by_display(display_name: &str, lookup: Result<String, String>) -> (r: Result<
    String,
    String,
>)
    ensures
        result_view(r) == key_name_outcome(display_name@, result_view(lookup)),
{
    match lookup {
        Err(e) => Err(e),
        Ok(out) => {
            let chars = to_chars(out.as_str());
            match capture_exec(Pattern::KeyName, chars.as_slice()) {
                Some(n) => Ok(from_chars(n.as_slice())),
                None => {
                    let mut m = String::new();
                    m.append("\u{65e0}\u{6cd5}\u{627e}\u{5230}\u{670d}\u{52a1}: ");
                    m.append(display_name);
                    Err(m)
                },
            }
        },
    }
}

/// The start type shown by `sc qc`: the first `START_TYPE : <n>` number, or 2
/// (automatic) when there is none or it is not a `u32`.
pub open spec fn shown_start_type(qc: Seq<char>) -> u32 {
    match capture(Pattern::StartType, qc) {
        Some(digits) => match decimal_u32(digits) {
            Some(v) => v,
            None => 2,
        },
        None => 2,
    }
}

/// Whether `sc query` shows the service running: its first
/// `STATE : <n> <word>` has the word `RUNNING` in any ASCII case.
pub open spec fn shown_running(query: Seq<char>) -> bool {
    match capture(Pattern::State, query) {
        Some(word) => eq_ignore_ascii_case(word, "RUNNING"@),
        None => false,
    }
}

/// The start type and whether the service runs, from the outputs of
/// `sc qc` and `sc query`.
pub fn get_service_start_and_running(qc: &str, query: &str) -> (r: (u32, bool))
    ensures
        r == (shown_start_type(qc@), shown_running(query@)),
{
    let qc_chars = to_chars(qc);
    let start_type = match capture_exec(Pattern::StartType, qc_chars.as_slice()) {
        Some(digits) => match parse_decimal_u32(digits.as_slice()) {
            Some(v) => v,
            None => 2,
        },
        None => 2,
    };
    let query_chars = to_chars(query);
    let running = match capture_exec(Pattern::State, query_chars.as_slice()) {
        Some(word) => {
            let running_word = to_chars("RUNNING");
            chars_eq_ignore_ascii_case(word.as_slice(), running_word.as_slice())
        },
        None => false,
    };
    (start_type, running)
}

/// How one lookup of a service went.
pub enum LookupOutcome {
    /// `sc query` on a service name, read by `service_exists`.
    ServiceQueried(Result<bool, String>),
    /// `sc getkeyname` on a display name, read by `get_service_name_by_display`.
    KeyNameFound(Result<String, String>),
}

/// What to do next to find a candidate's service.
pub enum ResolveAction {
    /// Check whether the service of this name exists.
    QueryService(String),
    /// Look up the service name of this display name.
    LookupKeyName(String),
    /// The search is over: the service name, none, or an error.
    Resolved(Result<Option<String>, String>),
}

/// An action by the views of its strings.
pub enum ResolveActionModel {
    QueryService(Seq<char>),
    LookupKeyName(Seq<char>),
    Resolved(Result<Option<Seq<char>>, Seq<char>>),
}

/// An action by the views of its strings.
pub open spec fn action_view(a: ResolveAction) -> ResolveActionModel {
    match a {
        ResolveAction::QueryService(n) => ResolveActionModel::QueryService(n@),
        ResolveAction::LookupKeyName(n) => ResolveActionModel::LookupKeyName(n@),
        ResolveAction::Resolved(Ok(Some(n))) => ResolveActionModel::Resolved(Ok(Some(n@))),
        ResolveAction::Resolved(Ok(None)) => ResolveActionModel::Resolved(Ok(None)),
        ResolveAction::Resolved(Err(e)) => ResolveActionModel::Resolved(Err(e@)),
    }
}

/// The `j`-th lookup of the search: the service names first, then the
/// display names; after the last, no service.
pub open spec fn lookup_at(c: CandidateModel, j: int) -> ResolveActionModel {
    if 0 <= j < c.service_names.len() {
        ResolveActionModel::QueryService(c.service_names[j])
    } else if c.service_names.len() <= j < c.service_names.len() + c.display_names.len() {
        ResolveActionModel::LookupKeyName(c.display_names[j - c.service_names.len()])
    } else {
        ResolveActionModel::Resolved(Ok(None))
    }
}

/// The next action of the search after `step` lookups, the last of which went
/// as `last`. A service name that exists ends the search with that name; one
/// that does not moves on; any other error ends the search. A display name
/// that resolves ends the search with its service name; a not-found error
/// moves on; any other error ends the search.
pub open spec fn resolve_next(c: CandidateModel, step: int, last: Option<LookupOutcome>) -> ResolveActionModel {
    if step == 0 {
        lookup_at(c, 0)
    } else {
        match last {
            Some(LookupOutcome::ServiceQueried(Ok(true))) => ResolveActionModel::Resolved(
                Ok(Some(c.service_names[step - 1])),
            ),
            Some(LookupOutcome::ServiceQueried(Ok(false))) => lookup_at(c, step),
            Some(LookupOutcome::ServiceQueried(Err(e))) => ResolveActionModel::Resolved(Err(e@)),
            Some(LookupOutcome::KeyNameFound(Ok(n))) => ResolveActionModel::Resolved(Ok(Some(n@))),
            Some(LookupOutcome::KeyNameFound(Err(e))) => if is_not_found_message(e@) {
                lookup_at(c, step)
            } else {
                ResolveActionModel::Resolved(Err(e@))
            },
            None => lookup_at(c, step),
        }
    }
}

fn lookup_at_exec(c: &ServiceCandidate, j: usize) -> (a: ResolveAction)
    ensures
        action_view(a) == lookup_at(c@, j as int),
{
    let ns = c.service_names.len();
    if j < ns {
        ResolveAction::QueryService(c.service_names[j].clone())
    } else if j - ns < c.display_names.len() {
        ResolveAction::LookupKeyName(c.display_names[j - ns].clone())
    } else {
        ResolveAction::Resolved(Ok(None))
    }
}

/// The next step of the search for a candidate's installed service, after
/// `step` lookups of which `last` is the latest.
pub fn resolve_service_name(candidate: &ServiceCandidate, step: usize, last: Option<LookupOutcome>) -> (a:
    ResolveAction)
    requires
        step <= candidate.service_names@.len() + candidate.display_names@.len(),
        step == 0 <==> last is None,
        step > 0 && step <= candidate.service_names@.len() ==> last matches Some(
            LookupOutcome::ServiceQueried(_),
        ),
        step > candidate.service_names@.len() ==> last matches Some(LookupOutcome::KeyNameFound(_)),
    ensures
        action_view(a) == resolve_next(candidate@, step as int, last),
{
    if step == 0 {
        return lookup_at_exec(candidate, 0);
    }
    match last {
        Some(LookupOutcome::ServiceQueried(Ok(true))) => ResolveAction::Resolved(
            Ok(Some(candidate.service_names[step - 1].clone())),
        ),
        Some(LookupOutcome::ServiceQueried(Ok(false))) => lookup_at_exec(candidate, step),
        Some(LookupOutcome::ServiceQueried(Err(e))) => ResolveAction::Resolved(Err(e)),
        Some(LookupOutcome::KeyNameFound(Ok(n))) => ResolveAction::Resolved(Ok(Some(n))),
        Some(LookupOutcome::KeyNameFound(Err(e))) => {
            if is_service_not_found_error(e.as_str()) {
                lookup_at_exec(candidate, step)
            } else {
                ResolveAction::Resolved(Err(e))
            }
        },
        None => lookup_at_exec(candidate, step),
    }
}

/// What happened to one service.
pub struct ServiceActionResult {
    pub display_name: String,
    pub service_name: Option<String>,
    pub status: String,
    pub error: Option<String>,
}

/// A service report by the views of its strings.
pub struct ServiceActionModel {
    pub display_name: Seq<char>,
    pub service_name: Option<Seq<char>>,
    pub status: Seq<char>,
    pub error: Option<Seq<char>>,
}

/// An optional string by its view.
pub open spec fn opt_string(o: Option<String>) -> Option<Seq<char>> {
    match o {
        Some(s) => Some(s@),
        None => None,
    }
}

impl View for ServiceActionResult {
    type V = ServiceActionModel;

    open spec fn view(&self) -> ServiceActionModel {
        ServiceActionModel {
            display_name: self.display_name@,
            service_name: opt_string(self.service_name),
            status: self.status@,
            error: opt_string(self.error),
        }
    }
}

/// A service report.
pub open spec fn report(
    display_name: Seq<char>,
    service_name: Option<Seq<char>>,
    status: Seq<char>,
    error: Option<Seq<char>>,
) -> ServiceActionModel {
    ServiceActionModel { display_name, service_name, status, error }
}

fn make_report(display_name: &str, service_name: Option<String>, status: &str, error: Option<String>) -> (r:
    ServiceActionResult)
    ensures
        r@ == report(display_name@, opt_string(service_name), status@, opt_string(error)),
{
    ServiceActionResult {
        display_name: display_name.to_owned(),
        service_name,
        status: status.to_owned(),
        error,
    }
}

/// A service's start type and state before it was disabled.
pub struct ServiceBackup {
    pub display_name: String,
    pub service_name: String,
    pub start_type: u32,
    pub was_running: bool,
}

/// What to do with a candidate once its service is looked up.
pub enum DisableStep {
    /// The candidate is settled: its report.
    Done(ServiceActionResult),
    /// Read the start type and state of this service.
    ReadStatus(String),
}

/// After the lookup: a failed lookup is reported failed with its error, a
/// missing service is reported not found, and a found service moves on.
pub fn disable_after_resolve(label: &str, resolved: Result<Option<String>, String>) -> (r: DisableStep)
    ensures
        match resolved {
            Err(e) => r matches DisableStep::Done(rep) && rep@ == report(
                label@,
                None,
                SERVICE_STATUS_FAILED@,
                Some(e@),
            ),
            Ok(None) => r matches DisableStep::Done(rep) && rep@ == report(
                label@,
                None,
                SERVICE_STATUS_NOT_FOUND@,
                None,
            ),
            Ok(Some(n)) => r matches DisableStep::ReadStatus(m) && m == n,
        },
{
    match resolved {
        Err(e) => DisableStep::Done(make_report(label, None, SERVICE_STATUS_FAILED, Some(e))),
        Ok(None) => DisableStep::Done(make_report(label, None, SERVICE_STATUS_NOT_FOUND, None)),
        Ok(Some(n)) => DisableStep::ReadStatus(n),
    }
}

/// After reading the service's status: a failed read is reported failed;
/// else the start type and state are kept as the backup, and the service is
/// stopped and disabled next.
pub fn disable_after_status(label: &str, service_name: String, status: Result<(u32, bool), String>) -> (r:
    Result<ServiceBackup, ServiceActionResult>)
    ensures
        match status {
            Err(e) => r matches Err(rep) && rep@ == report(
                label@,
                Some(service_name@),
                SERVICE_STATUS_FAILED@,
                Some(e@),
            ),
            Ok((t, running)) => r matches Ok(b) && b.display_name@ == label@ && b.service_name
                == service_name && b.start_type == t && b.was_running == running,
        },
{
    match status {
        Err(e) => Err(make_report(label, Some(service_name), SERVICE_STATUS_FAILED, Some(e))),
        Ok((t, running)) => Ok(
            ServiceBackup {
                display_name: label.to_owned(),
                service_name,
                start_type: t,
                was_running: running,
            },
        ),
    }
}

/// The command that disables a service.
pub fn disable_service_command(name: &str) -> (c: CommandLine)
    ensures
        command_words(&c) == sc_config_words(name@, "disabled"@),
        !c.dynamic,
{
    set_start_command(name, "disabled")
}

/// After disabling: reported disabled, or failed with the error.
pub fn disable_result(label: &str, service_name: String, config: Result<String, String>) -> (r:
    ServiceActionResult)
    ensures
        r@ == match config {
            Ok(_) => report(label@, Some(service_name@), SERVICE_STATUS_DISABLED@, None),
            Err(e) => report(label@, Some(service_name@), SERVICE_STATUS_FAILED@, Some(e@)),
        },
{
    match config {
        Ok(_) => make_report(label, Some(service_name), SERVICE_STATUS_DISABLED, None),
        Err(e) => make_report(label, Some(service_name), SERVICE_STATUS_FAILED, Some(e)),
    }
}

/// The report for a backup file that could not be written.
pub fn backup_write_failure(state_path: &str, error: &str) -> (r: ServiceActionResult)
    ensures
        r@ == report(
            "Backup file"@,
            Some(state_path@),
            SERVICE_STATUS_FAILED@,
            Some("Write backup failed: "@ + error@),
        ),
{
    let mut m = String::new();
    m.append("Write backup failed: ");
    m.append(error);
    make_report("Backup file", Some(state_path.to_owned()), SERVICE_STATUS_FAILED, Some(m))
}

/// The command that gives a backed-up service its former start type.
pub fn restore_config_command(backup: &ServiceBackup) -> (c: CommandLine)
    ensures
        command_words(&c) == sc_config_words(
            backup.service_name@,
            start_value(backup.start_type),
        ),
        !c.dynamic,
{
    set_start_command(backup.service_name.as_str(), start_type_to_value(backup.start_type))
}

/// The report for a backed-up service that is no longer installed.
pub fn restore_not_found(backup: ServiceBackup) -> (r: ServiceActionResult)
    ensures
        r@ == report(
            backup.display_name@,
            Some(backup.service_name@),
            SERVICE_STATUS_NOT_FOUND@,
            None,
        ),
{
    make_report(
        backup.display_name.as_str(),
        Some(backup.service_name),
        SERVICE_STATUS_NOT_FOUND,
        None,
    )
}

/// The report for a restored service: restored when its start type was set
/// and, if it was running, it started again; else failed, with the error of
/// setting the start type (none when only the start failed).
pub fn restore_result(
    backup: ServiceBackup,
    config: Result<String, String>,
    start: Option<Result<String, String>>,
) -> (r: ServiceActionResult)
    requires
        start is Some <==> (backup.was_running && config is Ok),
    ensures
        ({
            let ok = config is Ok && (start matches Some(s) ==> s is Ok);
            r@ == if ok {
                report(backup.display_name@, Some(backup.service_name@), SERVICE_STATUS_RESTORED@, None)
            } else {
                report(
                    backup.display_name@,
                    Some(backup.service_name@),
                    SERVICE_STATUS_FAILED@,
                    match config {
                        Ok(_) => None,
                        Err(e) => Some(e@),
                    },
                )
            }
        }),
{
    let mut ok = config.is_ok();
    match &start {
        Some(s) => {
            ok = s.is_ok();
        },
        None => {},
    }
    if ok {
        make_report(
            backup.display_name.as_str(),
            Some(backup.service_name),
            SERVICE_STATUS_RESTORED,
            None,
        )
    } else {
        let error = match config {
            Ok(_) => None,
            Err(e) => Some(e),
        };
        make_report(backup.display_name.as_str(), Some(backup.service_name), SERVICE_STATUS_FAILED, error)
    }
}

/// The command that starts a restored service again: there is one exactly
/// when the service was running before and its start type was set.
pub fn restore_start_command(backup: &ServiceBackup, config: &Result<String, String>) -> (c: Option<
    CommandLine,
>)
    ensures
        c is Some <==> (backup.was_running && config is Ok),
        c matches Some(cmd) ==> command_words(&cmd) == sc_words("start"@, backup.service_name@)
            && !cmd.dynamic,
{
    if backup.was_running && config.is_ok() {
        Some(start_service_command(backup.service_name.as_str()))
    } else {
        None
    }
}

/// The command that starts a service of the older backup file again: there
/// is one exactly when the service was running before.
pub fn legacy_start_command(backup: &ServiceBackup) -> (c: Option<CommandLine>)
    ensures
        c is Some <==> backup.was_running,
        c matches Some(cmd) ==> command_words(&cmd) == sc_words("start"@, backup.service_name@)
            && !cmd.dynamic,
{
    if backup.was_running {
        Some(start_service_command(backup.service_name.as_str()))
    } else {
        None
    }
}

/// The backups to write to the backup file: none when no service was read,
/// so that an earlier file is left in place; else all of them, in order.
pub fn backups_to_write(backups: Vec<ServiceBackup>) -> (r: Option<Vec<ServiceBackup>>)
    ensures
        r is Some <==> backups@.len() > 0,
        r matches Some(v) ==> v@ == backups@,
{
    if backups.len() == 0 {
        None
    } else {
        Some(backups)
    }
}

/// The report for a service of the older backup file: restored, whatever its
/// commands answered.
pub fn legacy_restore_result(backup: ServiceBackup) -> (r: ServiceActionResult)
    ensures
        r@ == report(
            backup.display_name@,
            Some(backup.service_name@),
            SERVICE_STATUS_RESTORED@,
            None,
        ),
{
    make_report(
        backup.display_name.as_str(),
        Some(backup.service_name),
        SERVICE_STATUS_RESTORED,
        None,
    )
}

/// Without a backup, Lenovo's thermal service is restored by display name:
/// not found, with the lookup's error, when the lookup failed.
pub fn fallback_not_found(error: String) -> (r: ServiceActionResult)
    ensures
        r@ == report(
            ITS_POWER_MODE_CONTROL_DISPLAY_NAME@,
            None,
            SERVICE_STATUS_NOT_FOUND@,
            Some(error@),
        ),
{
    make_report(ITS_POWER_MODE_CONTROL_DISPLAY_NAME, None, SERVICE_STATUS_NOT_FOUND, Some(error))
}

/// Without a backup, Lenovo's thermal service is set to start automatically
/// and started, and reported restored.
pub fn fallback_restored(service_name: String) -> (r: ServiceActionResult)
    ensures
        r@ == report(
            ITS_POWER_MODE_CONTROL_DISPLAY_NAME@,
            Some(service_name@),
            SERVICE_STATUS_RESTORED@,
            None,
        ),
{
    make_report(ITS_POWER_MODE_CONTROL_DISPLAY_NAME, Some(service_name), SERVICE_STATUS_RESTORED, None)
}


/// The search tries every service name and then every display name, in
/// order: after a lookup that found nothing (the service name does not
/// exist, or `sc` says the display name belongs to no service), the next
/// lookup is of the next name, and once every name was tried the answer is
/// that there is no such service.
pub proof fn law_resolve_tries_every_name(c: CandidateModel, step: int, last: LookupOutcome)
    requires
        0 < step <= c.service_names.len() + c.display_names.len(),
        match last {
            LookupOutcome::ServiceQueried(r) => r == Ok::<bool, String>(false),
            LookupOutcome::KeyNameFound(r) => r matches Err(e) && is_not_found_message(e@),
        },
    ensures
        step < c.service_names.len() ==> resolve_next(c, step, Some(last))
            == ResolveActionModel::QueryService(c.service_names[step]),
        c.service_names.len() <= step < c.service_names.len() + c.display_names.len() ==> resolve_next(
            c,
            step,
            Some(last),
        ) == ResolveActionModel::LookupKeyName(c.display_names[step - c.service_names.len()]),
        step == c.service_names.len() + c.display_names.len() ==> resolve_next(c, step, Some(last))
            == ResolveActionModel::Resolved(Ok(None)),
{
}

/// The search answers that there is no such service only after every
/// service name and every display name was looked up.
pub proof fn law_resolve_none_only_at_end(c: CandidateModel, step: int, last: Option<LookupOutcome>)
    requires
        0 <= step <= c.service_names.len() + c.display_names.len(),
    ensures
        resolve_next(c, step, last) == ResolveActionModel::Resolved(Ok(None)) ==> step
            == c.service_names.len() + c.display_names.len(),
{
}

/// When `sc qc` shows a `START_TYPE` number that fits in a `u32`, that number
/// is the start type read, whatever it is; only without such a number is the
/// start type taken as automatic (2).
pub proof fn law_start_type_read(qc: Seq<char>)
    ensures
        capture(Pattern::StartType, qc) matches Some(d) ==> (decimal_u32(d) matches Some(v)
            ==> shown_start_type(qc) == v),
        capture(Pattern::StartType, qc) matches Some(d) ==> (decimal_u32(d) is None
            ==> shown_start_type(qc) == 2),
        capture(Pattern::StartType, qc) is None ==> shown_start_type(qc) == 2,
{
}
} // verus!
