//! Service records and the interpretation of what the service manager
//! reports.

use crate::decode::{decode_listing, listing_records, records};
use crate::json::{document_of, parse_json};
use crate::status::{parse_status, status_of};
use crate::text::{decode_bytes, text_of};
use vstd::prelude::*;
use vstd::string::StringExecFns;
use vstd::utf8::{decode_utf8, valid_utf8};

verus! {

/// One service unit as a mathematical value.
pub struct ServiceRecord {
    pub name: Seq<char>,
    pub description: Seq<char>,
    pub load_state: Seq<char>,
    pub active_state: Seq<char>,
    pub sub_state: Seq<char>,
    pub unit_file_state: Seq<char>,
    pub followed_by: Seq<Seq<char>>,
}

/// One service unit of a listing.
#[derive(Debug, Clone, PartialEq, Eq)]
pub struct ServiceInfo {
    pub name: String,
    pub description: String,
    pub load_state: String,
    pub active_state: String,
    pub sub_state: String,
    pub unit_file_state: String,
    pub followed_by: Vec<String>,
}

impl View for ServiceInfo {
    type V = ServiceRecord;

    open spec fn view(&self) -> ServiceRecord {
        ServiceRecord {
            name: self.name@,
            description: self.description@,
            load_state: self.load_state@,
            active_state: self.active_state@,
            sub_state: self.sub_state@,
            unit_file_state: self.unit_file_state@,
            followed_by: self.followed_by.deep_view(),
        }
    }
}

/// The state of a single unit as a mathematical value.
pub struct StatusRecord {
    pub name: Seq<char>,
    pub active: bool,
    pub running: bool,
    pub pid: Option<u32>,
}

/// The state of a single unit, as a property query reports it.
#[derive(Debug, Clone, PartialEq, Eq)]
pub struct ServiceStatus {
    pub name: String,
    pub active: bool,
    pub running: bool,
    pub pid: Option<u32>,
}

impl View for ServiceStatus {
    type V = StatusRecord;

    open spec fn view(&self) -> StatusRecord {
        StatusRecord {
            name: self.name@,
            active: self.active,
            running: self.running,
            pid: self.pid,
        }
    }
}

impl ServiceInfo {
    /// Whether the unit's active state is exactly `active`.
    pub fn is_active(&self) -> (r: bool)
        ensures
            r == (self@.active_state == "active"@),
    {
        *self.active_state.as_str() == *"active"
    }

    /// Whether the unit's sub-state is exactly `running`.
    pub fn is_running(&self) -> (r: bool)
        ensures
            r == (self@.sub_state == "running"@),
    {
        *self.sub_state.as_str() == *"running"
    }
}

/// Why an operation on the service manager failed, as a mathematical
/// value.
pub enum Failure {
    Spawn(Seq<char>),
    Exit(Seq<char>),
    Decode(Seq<char>),
    Schema,
}

/// Why an operation on the service manager failed.
#[derive(Debug, Clone, PartialEq, Eq)]
pub enum ServiceError {
    /// The command could not be launched; holds the system's error text.
    SpawnFailure(String),
    /// The command ran and reported failure; holds the text it left.
    ExitFailure(String),
    /// The listing is no JSON document; holds the parser's message.
    DecodeError(String),
    /// The listing is a JSON document of an unexpected shape.
    SchemaError,
}

impl View for ServiceError {
    type V = Failure;

    open spec fn view(&self) -> Failure {
        match self {
            ServiceError::SpawnFailure(text) => Failure::Spawn(text@),
            ServiceError::ExitFailure(text) => Failure::Exit(text@),
            ServiceError::DecodeError(text) => Failure::Decode(text@),
            ServiceError::SchemaError => Failure::Schema,
        }
    }
}

impl Failure {
    /// The text that describes a failure to a reader.
    pub open spec fn message(self) -> Seq<char> {
        match self {
            Failure::Spawn(text) => "Failed to execute systemctl: "@ + text,
            Failure::Exit(text) => text,
            Failure::Decode(text) => "Failed to parse JSON: "@ + text,
            Failure::Schema => "Unexpected JSON format from systemctl"@,
        }
    }
}

impl ServiceError {
    /// Describes the failure in words.
    pub fn message(&self) -> (r: String)
        ensures
            r@ == self@.message(),
    {
        match self {
            ServiceError::SpawnFailure(text) => "Failed to execute systemctl: ".to_owned().concat(
                text.as_str(),
            ),
            ServiceError::ExitFailure(text) => text.clone(),
            ServiceError::DecodeError(text) => "Failed to parse JSON: ".to_owned().concat(
                text.as_str(),
            ),
            ServiceError::SchemaError => "Unexpected JSON format from systemctl".to_owned(),
        }
    }
}

/// What a finished command left behind.
#[derive(Debug, Clone, PartialEq, Eq)]
pub struct ProcessOutput {
    /// Whether the command reported success.
    pub exit_success: bool,
    pub stdout: Vec<u8>,
    pub stderr: Vec<u8>,
}

/// The text that an unsuccessful command leaves: what it wrote to its
/// error stream, or `fallback` where it wrote nothing.
pub open spec fn failure_text(stderr: Seq<u8>, fallback: Seq<char>) -> Seq<char> {
    if text_of(stderr).len() > 0 {
        text_of(stderr)
    } else {
        fallback
    }
}

/// Where the error stream is valid UTF-8, the text of a failure is what
/// the stream encodes, or `fallback` where it is empty.
pub proof fn lemma_valid_failure_text(stderr: Seq<u8>, fallback: Seq<char>)
    requires
        valid_utf8(stderr),
    ensures
        failure_text(stderr, fallback) == if decode_utf8(stderr).len() > 0 {
            decode_utf8(stderr)
        } else {
            fallback
        },
{
}

/// The failure that an unsuccessful command stands for.
fn exit_failure(output: &ProcessOutput, fallback: &str) -> (r: ServiceError)
    ensures
        r@ == Failure::Exit(failure_text(output.stderr@, fallback@)),
{
    let text = decode_bytes(output.stderr.as_slice());
    if text.as_str().is_empty() {
        ServiceError::ExitFailure(fallback.to_owned())
    } else {
        ServiceError::ExitFailure(text)
    }
}

/// What a listing run yields: the records of the document on its output,
/// or the reason why there are none.
pub open spec fn listing_outcome(run: Result<ProcessOutput, String>) -> Result<
    Seq<ServiceRecord>,
    Failure,
> {
    match run {
        Err(text) => Err(Failure::Spawn(text@)),
        Ok(output) => if !output.exit_success {
            Err(Failure::Exit(failure_text(output.stderr@, "systemctl command failed"@)))
        } else {
            match document_of(text_of(output.stdout@)) {
                Err(message) => Err(Failure::Decode(message)),
                Ok(document) => match listing_records(document) {
                    Some(found) => Ok(found),
                    None => Err(Failure::Schema),
                },
            }
        },
    }
}

/// Whether `result` is what a listing run yields.
pub open spec fn is_listing_of(
    result: Result<Vec<ServiceInfo>, ServiceError>,
    run: Result<ProcessOutput, String>,
) -> bool {
    match listing_outcome(run) {
        Ok(found) => result is Ok && records(result->Ok_0@) == found,
        Err(failure) => result is Err && result->Err_0@ == failure,
    }
}

/// Interprets a run of the listing command: `Err` holds the system's
/// error text where the command could not be launched.
pub fn list_services(run: Result<ProcessOutput, String>) -> (r: Result<
    Vec<ServiceInfo>,
    ServiceError,
>)
    ensures
        is_listing_of(r, run),
{
    match run {
        Err(text) => Err(ServiceError::SpawnFailure(text)),
        Ok(output) => {
            if !output.exit_success {
                return Err(exit_failure(&output, "systemctl command failed"));
            }
            let stdout = decode_bytes(output.stdout.as_slice());
            match parse_json(stdout.as_str()) {
                Err(message) => Err(ServiceError::DecodeError(message)),
                Ok(document) => decode_listing(&document),
            }
        },
    }
}

/// What a property query yields for the unit `name`: the state that its
/// output reports, or the reason why there is none.
pub open spec fn status_outcome(name: Seq<char>, run: Result<ProcessOutput, String>) -> Result<
    StatusRecord,
    Failure,
> {
    match run {
        Err(text) => Err(Failure::Spawn(text@)),
        Ok(output) => if !output.exit_success {
            Err(Failure::Exit(failure_text(output.stderr@, "systemctl command failed"@)))
        } else {
            Ok(status_of(name, text_of(output.stdout@)))
        },
    }
}

/// Whether `result` is what a property query for the unit `name` yields.
pub open spec fn is_status_of(
    result: Result<ServiceStatus, ServiceError>,
    name: Seq<char>,
    run: Result<ProcessOutput, String>,
) -> bool {
    match status_outcome(name, run) {
        Ok(status) => result is Ok && result->Ok_0@ == status,
        Err(failure) => result is Err && result->Err_0@ == failure,
    }
}

/// Interprets a run of the property query for the unit `service_name`.
pub fn get_service_status(service_name: &str, run: Result<ProcessOutput, String>) -> (r: Result<
    ServiceStatus,
    ServiceError,
>)
    ensures
        is_status_of(r, service_name@, run),
{
    match run {
        Err(text) => Err(ServiceError::SpawnFailure(text)),
        Ok(output) => {
            if !output.exit_success {
                return Err(exit_failure(&output, "systemctl command failed"));
            }
            let stdout = decode_bytes(output.stdout.as_slice());
            Ok(parse_status(service_name, stdout.as_str()))
        },
    }
}

/// What a run of a command that changes a unit yields: nothing on
/// success, else the reason, with `fallback` as the text of a command
/// that failed without a word.
pub open spec fn mutation_outcome(run: Result<ProcessOutput, String>, fallback: Seq<char>) -> Result<
    (),
    Failure,
> {
    match run {
        Err(text) => Err(Failure::Spawn(text@)),
        Ok(output) => if output.exit_success {
            Ok(())
        } else {
            Err(Failure::Exit(failure_text(output.stderr@, fallback)))
        },
    }
}

/// Whether `result` is what a run of a command that changes a unit
/// yields.
pub open spec fn is_mutation_of(
    result: Result<(), ServiceError>,
    run: Result<ProcessOutput, String>,
    fallback: Seq<char>,
) -> bool {
    match mutation_outcome(run, fallback) {
        Ok(_) => result is Ok,
        Err(failure) => result is Err && result->Err_0@ == failure,
    }
}

/// Interprets a run of a command that changes a unit.
fn mutation_result(run: Result<ProcessOutput, String>, fallback: &str) -> (r: Result<
    (),
    ServiceError,
>)
    ensures
        is_mutation_of(r, run, fallback@),
{
    match run {
        Err(text) => Err(ServiceError::SpawnFailure(text)),
        Ok(output) => {
            if output.exit_success {
                Ok(())
            } else {
                Err(exit_failure(&output, fallback))
            }
        },
    }
}

/// Interprets a run of the command that starts a unit.
pub fn start_service(run: Result<ProcessOutput, String>) -> (r: Result<(), ServiceError>)
    ensures
        is_mutation_of(r, run, "Failed to start service: "@),
{
    mutation_result(run, "Failed to start service: ")
}

/// Interprets a run of the command that stops a unit.
pub fn stop_service(run: Result<ProcessOutput, String>) -> (r: Result<(), ServiceError>)
    ensures
        is_mutation_of(r, run, "Failed to stop service: "@),
{
    mutation_result(run, "Failed to stop service: ")
}

/// Interprets a run of the command that restarts a unit.
pub fn restart_service(run: Result<ProcessOutput, String>) -> (r: Result<(), ServiceError>)
    ensures
        is_mutation_of(r, run, "Failed to restart service: "@),
{
    mutation_result(run, "Failed to restart service: ")
}

/// Interprets a run of the command that reloads a unit.
pub fn reload_service(run: Result<ProcessOutput, String>) -> (r: Result<(), ServiceError>)
    ensures
        is_mutation_of(r, run, "Failed to reload service: "@),
{
    mutation_result(run, "Failed to reload service: ")
}

/// A command for the service manager.
#[derive(Debug, Clone, PartialEq, Eq)]
pub enum Request {
    /// List every service unit.
    ListUnits,
    /// Report the state of the named unit.
    Show(String),
    Start(String),
    Stop(String),
    Restart(String),
    Reload(String),
}

impl Request {
    /// The arguments that the service manager is run with.
    pub open spec fn arguments(self) -> Seq<Seq<char>> {
        match self {
            Request::ListUnits => seq![
                "list-units"@,
                "--type=service"@,
                "--all"@,
                "--no-pager"@,
                "--output=json"@,
            ],
            Request::Show(name) => seq![
                "show"@,
                name@,
                "--property=ActiveState,SubState,MainPID"@,
                "--no-pager"@,
            ],
            Request::Start(name) => seq!["start"@, name@],
            Request::Stop(name) => seq!["stop"@, name@],
            Request::Restart(name) => seq!["restart"@, name@],
            Request::Reload(name) => seq!["reload"@, name@],
        }
    }

    /// The program that carries out every request.
    pub fn program() -> (r: &'static str)
        ensures
            r@ == "systemctl"@,
    {
        "systemctl"
    }

    /// Builds the arguments that the service manager is run with.
    pub fn args(&self) -> (r: Vec<String>)
        ensures
            r.deep_view() == self.arguments(),
    {
        let out = match self {
            Request::ListUnits => vec![
                "list-units".to_owned(),
                "--type=service".to_owned(),
                "--all".to_owned(),
                "--no-pager".to_owned(),
                "--output=json".to_owned(),
            ],
            Request::Show(name) => vec![
                "show".to_owned(),
                name.clone(),
                "--property=ActiveState,SubState,MainPID".to_owned(),
                "--no-pager".to_owned(),
            ],
            Request::Start(name) => vec!["start".to_owned(), name.clone()],
            Request::Stop(name) => vec!["stop".to_owned(), name.clone()],
            Request::Restart(name) => vec!["restart".to_owned(), name.clone()],
            Request::Reload(name) => vec!["reload".to_owned(), name.clone()],
        };
        out
    }
}

} // verus!
