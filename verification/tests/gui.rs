use systemd_services::filter::{FilterState, StatusFilter};
use systemd_services::gui::{Body, Message, SystemdServiceGui, Task};
use systemd_services::store::ServiceStore;
use systemd_services::systemd::{
    list_services, start_service, ProcessOutput, Request, ServiceError, ServiceInfo,
};

fn service(name: &str, active: &str, sub: &str) -> ServiceInfo {
    ServiceInfo {
        name: name.to_string(),
        description: String::new(),
        load_state: String::new(),
        active_state: active.to_string(),
        sub_state: sub.to_string(),
        unit_file_state: String::new(),
        followed_by: Vec::new(),
    }
}

fn sample() -> Vec<ServiceInfo> {
    vec![
        service("cron.service", "active", "running"),
        service("kmod.service", "inactive", "dead"),
        service("dbus.service", "active", "running"),
        service("setup.service", "active", "exited"),
        service("Cups.service", "inactive", "dead"),
    ]
}

fn loaded(services: Vec<ServiceInfo>) -> SystemdServiceGui {
    let (mut gui, _) = SystemdServiceGui::new();
    assert_eq!(gui.update(Message::ServicesLoaded(Ok(services))), None);
    gui
}

fn names(gui: &SystemdServiceGui) -> Vec<String> {
    gui.filtered_services().iter().map(|s| s.name.clone()).collect()
}

#[test]
fn starts_empty_and_asks_for_a_listing() {
    let (gui, action) = SystemdServiceGui::new();
    assert_eq!(action, Task::LoadServices);
    assert_eq!(gui.store, ServiceStore { snapshot: None, loading: false, last_error: None });
    assert_eq!(gui.filter, FilterState { name: String::new(), status: None });
    assert_eq!(gui.store.current(), None);
    assert!(gui.filtered_services().is_empty());
    assert_eq!(gui.title(), "Systemd Service GUI");
}

#[test]
fn end_to_end_listing_and_filter() {
    let run = Ok(ProcessOutput {
        exit_success: true,
        stdout: br#"[{"unit":"a.service","active":"active","sub":"running"}]"#.to_vec(),
        stderr: Vec::new(),
    });
    let listing = list_services(run);
    let expected = ServiceInfo {
        name: "a.service".to_string(),
        description: String::new(),
        load_state: String::new(),
        active_state: "active".to_string(),
        sub_state: "running".to_string(),
        unit_file_state: String::new(),
        followed_by: Vec::new(),
    };
    assert_eq!(listing, Ok(vec![expected.clone()]));
    let (mut gui, _) = SystemdServiceGui::new();
    gui.update(Message::ServicesLoaded(listing));
    gui.update(Message::FilterChanged("a".to_string()));
    gui.update(Message::ToggleStatusFilter(StatusFilter::Running));
    assert_eq!(gui.filtered_services(), vec![&expected]);
    gui.update(Message::FilterChanged("b".to_string()));
    gui.update(Message::ToggleStatusFilter(StatusFilter::Running));
    assert_eq!(gui.filter, FilterState { name: "b".to_string(), status: None });
    assert!(gui.filtered_services().is_empty());
}

#[test]
fn filtering_keeps_the_order_of_the_snapshot() {
    let mut gui = loaded(sample());
    assert_eq!(
        names(&gui),
        vec!["cron.service", "kmod.service", "dbus.service", "setup.service", "Cups.service"]
    );
    gui.update(Message::ToggleStatusFilter(StatusFilter::Active));
    assert_eq!(names(&gui), vec!["cron.service", "dbus.service", "setup.service"]);
    gui.update(Message::ToggleStatusFilter(StatusFilter::Dead));
    assert_eq!(names(&gui), vec!["kmod.service", "Cups.service"]);
    gui.update(Message::FilterChanged(" S.S ".to_string()));
    assert_eq!(names(&gui), vec!["Cups.service"]);
    gui.update(Message::ToggleStatusFilter(StatusFilter::Dead));
    assert_eq!(names(&gui), vec!["dbus.service", "Cups.service"]);
    gui.update(Message::FilterChanged("zzz".to_string()));
    assert!(names(&gui).is_empty());
}

#[test]
fn failed_refresh_keeps_the_snapshot_and_shows_the_error() {
    let mut gui = loaded(sample());
    let failure = ServiceError::DecodeError("expected value at line 1 column 1".to_string());
    assert_eq!(gui.update(Message::ServicesLoaded(Err(failure))), None);
    assert_eq!(gui.store.snapshot, Some(sample()));
    assert_eq!(gui.store.current(), Some(&sample()));
    assert_eq!(
        gui.store.last_error,
        Some("Failed to parse JSON: expected value at line 1 column 1".to_string())
    );
    assert_eq!(names(&gui).len(), 5);
    gui.update(Message::ServicesLoaded(Err(ServiceError::SchemaError)));
    assert_eq!(gui.store.snapshot, Some(sample()));
    assert_eq!(gui.store.last_error, Some("Unexpected JSON format from systemctl".to_string()));
}

#[test]
fn failed_first_refresh_leaves_nothing_loaded() {
    let (mut gui, _) = SystemdServiceGui::new();
    gui.update(Message::ServicesLoaded(Err(ServiceError::SpawnFailure("no".to_string()))));
    assert_eq!(gui.store.snapshot, None);
    assert_eq!(gui.store.last_error, Some("Failed to execute systemctl: no".to_string()));
}

#[test]
fn good_refresh_replaces_the_snapshot_and_clears_the_error() {
    let mut gui = loaded(sample());
    gui.update(Message::ServicesLoaded(Err(ServiceError::SchemaError)));
    gui.store.set_loading(true);
    let fresh = vec![service("only.service", "active", "running")];
    gui.update(Message::ServicesLoaded(Ok(fresh.clone())));
    assert_eq!(
        gui.store,
        ServiceStore { snapshot: Some(fresh), loading: false, last_error: None }
    );
    gui.update(Message::ServicesLoaded(Ok(Vec::new())));
    assert_eq!(gui.store.snapshot, Some(Vec::new()));
}

#[test]
fn failed_mutation_reports_and_leaves_the_store_alone() {
    let mut gui = loaded(sample());
    let run = Ok(ProcessOutput {
        exit_success: false,
        stdout: Vec::new(),
        stderr: b"Unit not found.".to_vec(),
    });
    let result = start_service(run);
    assert_eq!(result, Err(ServiceError::ExitFailure("Unit not found.".to_string())));
    assert_eq!(gui.update(Message::MutationFinished(result)), None);
    assert_eq!(gui.store.snapshot, Some(sample()));
    assert_eq!(gui.store.last_error, Some("Unit not found.".to_string()));
}

#[test]
fn finished_mutation_asks_for_a_fresh_listing() {
    let mut gui = loaded(sample());
    let before = gui.clone();
    assert_eq!(gui.update(Message::MutationFinished(Ok(()))), Some(Task::LoadServices));
    assert_eq!(gui, before);
}

#[test]
fn requests_for_commands_change_nothing() {
    let mut gui = loaded(sample());
    let before = gui.clone();
    assert_eq!(gui.update(Message::RefreshServices), Some(Task::LoadServices));
    assert_eq!(
        gui.update(Message::StartService("a.service".to_string())),
        Some(Task::Start("a.service".to_string()))
    );
    assert_eq!(
        gui.update(Message::StopService("b.service".to_string())),
        Some(Task::Stop("b.service".to_string()))
    );
    assert_eq!(
        gui.update(Message::RestartService("c.service".to_string())),
        Some(Task::Restart("c.service".to_string()))
    );
    assert_eq!(gui, before);
}

#[test]
fn filter_events_change_the_filter_alone() {
    let mut gui = loaded(sample());
    let store = gui.store.clone();
    assert_eq!(gui.update(Message::FilterChanged("cr".to_string())), None);
    assert_eq!(gui.update(Message::ToggleStatusFilter(StatusFilter::Exited)), None);
    assert_eq!(gui.filter, FilterState { name: "cr".to_string(), status: Some(StatusFilter::Exited) });
    gui.update(Message::ToggleStatusFilter(StatusFilter::Inactive));
    assert_eq!(gui.filter.status, Some(StatusFilter::Inactive));
    gui.update(Message::ToggleStatusFilter(StatusFilter::Inactive));
    assert_eq!(gui.filter.status, None);
    assert_eq!(gui.store, store);
}

#[test]
fn body_follows_the_state() {
    let (mut gui, _) = SystemdServiceGui::new();
    assert_eq!(gui.body(), Body::NoServices);
    gui.store.set_loading(true);
    assert_eq!(gui.body(), Body::Loading);
    gui.update(Message::ServicesLoaded(Ok(Vec::new())));
    assert_eq!(gui.body(), Body::NoServices);
    let services = sample();
    gui.update(Message::ServicesLoaded(Ok(services.clone())));
    assert_eq!(gui.body(), Body::Rows(services.iter().collect()));
    gui.update(Message::FilterChanged("cups".to_string()));
    assert_eq!(gui.body(), Body::Rows(vec![&services[4]]));
    gui.update(Message::FilterChanged("nothing like it".to_string()));
    assert_eq!(gui.body(), Body::NoMatches);
    gui.store.set_loading(true);
    assert_eq!(gui.body(), Body::Loading);
}

#[test]
fn tasks_name_their_requests() {
    assert_eq!(Task::LoadServices.request(), Request::ListUnits);
    assert_eq!(
        Task::Start("a.service".to_string()).request(),
        Request::Start("a.service".to_string())
    );
    assert_eq!(
        Task::Stop("a.service".to_string()).request(),
        Request::Stop("a.service".to_string())
    );
    assert_eq!(
        Task::Restart("a.service".to_string()).request(),
        Request::Restart("a.service".to_string())
    );
}

#[test]
fn tasks_report_how_their_run_ended() {
    let listed = Ok(ProcessOutput {
        exit_success: true,
        stdout: br#"{"units":[{"Unit":"a.service","Sub":"dead"}]}"#.to_vec(),
        stderr: Vec::new(),
    });
    assert_eq!(
        Task::LoadServices.report(listed),
        Message::ServicesLoaded(Ok(vec![service("a.service", "", "dead")]))
    );
    assert_eq!(
        Task::LoadServices.report(Err("no systemctl".to_string())),
        Message::ServicesLoaded(Err(ServiceError::SpawnFailure("no systemctl".to_string())))
    );
    let failed = || {
        Ok(ProcessOutput { exit_success: false, stdout: Vec::new(), stderr: Vec::new() })
    };
    let done =
        || Ok(ProcessOutput { exit_success: true, stdout: Vec::new(), stderr: Vec::new() });
    let unit = || "a.service".to_string();
    assert_eq!(Task::Start(unit()).report(done()), Message::MutationFinished(Ok(())));
    assert_eq!(Task::Stop(unit()).report(done()), Message::MutationFinished(Ok(())));
    assert_eq!(Task::Restart(unit()).report(done()), Message::MutationFinished(Ok(())));
    assert_eq!(
        Task::Start(unit()).report(failed()),
        Message::MutationFinished(Err(ServiceError::ExitFailure(
            "Failed to start service: ".to_string()
        )))
    );
    assert_eq!(
        Task::Stop(unit()).report(failed()),
        Message::MutationFinished(Err(ServiceError::ExitFailure(
            "Failed to stop service: ".to_string()
        )))
    );
    assert_eq!(
        Task::Restart(unit()).report(failed()),
        Message::MutationFinished(Err(ServiceError::ExitFailure(
            "Failed to restart service: ".to_string()
        )))
    );
}

#[test]
fn a_task_and_its_report_drive_the_window() {
    let (mut gui, task) = SystemdServiceGui::new();
    let run = Ok(ProcessOutput {
        exit_success: true,
        stdout: br#"[{"unit":"a.service","active":"active","sub":"running"}]"#.to_vec(),
        stderr: Vec::new(),
    });
    assert_eq!(gui.update(task.report(run)), None);
    assert_eq!(names(&gui), vec!["a.service"]);
    let task = gui.update(Message::StopService("a.service".to_string())).unwrap();
    assert_eq!(task.request().args(), vec!["stop", "a.service"]);
    let run = Ok(ProcessOutput {
        exit_success: false,
        stdout: Vec::new(),
        stderr: b"Unit not found.".to_vec(),
    });
    assert_eq!(gui.update(task.report(run)), None);
    assert_eq!(gui.store.last_error, Some("Unit not found.".to_string()));
    assert_eq!(names(&gui), vec!["a.service"]);
    let task = gui.update(Message::RestartService("a.service".to_string())).unwrap();
    let run = Ok(ProcessOutput { exit_success: true, stdout: Vec::new(), stderr: Vec::new() });
    assert_eq!(gui.update(task.report(run)), Some(Task::LoadServices));
}

#[test]
fn store_is_replaced_as_a_whole() {
    let mut store = ServiceStore::new();
    assert_eq!(store.current(), None);
    store.replace(sample());
    assert_eq!(store.current(), Some(&sample()));
    store.fail(&ServiceError::ExitFailure("Unit not found.".to_string()));
    assert_eq!(store.current(), Some(&sample()));
    assert_eq!(store.last_error, Some("Unit not found.".to_string()));
    store.replace(Vec::new());
    assert_eq!(store.current(), Some(&Vec::new()));
    assert_eq!(store.last_error, Some("Unit not found.".to_string()));
    store.finish_refresh(Ok(sample()));
    assert_eq!(store, ServiceStore { snapshot: Some(sample()), loading: false, last_error: None });
}
