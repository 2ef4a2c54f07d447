use powerplan::services::{
    backup_write_failure, disable_after_resolve, disable_after_status, disable_result,
    disable_service_command, fallback_not_found, fallback_restored, get_service_name_by_display,
    get_service_start_and_running, is_service_not_found_error, key_name_command,
    backups_to_write, legacy_restore_result, legacy_start_command, power_policy_service_candidates, query_config_command,
    query_service_command, resolve_service_name, restore_config_command, restore_not_found,
    restore_result, restore_start_command, service_exists, start_service_command, start_type_to_value,
    stop_service_command, DisableStep, LookupOutcome, ResolveAction, ServiceActionResult,
    ServiceBackup, ServiceCandidate,
};

fn rep(r: &ServiceActionResult) -> (String, Option<String>, String, Option<String>) {
    (r.display_name.clone(), r.service_name.clone(), r.status.clone(), r.error.clone())
}

#[test]
fn not_found_errors() {
    assert!(is_service_not_found_error("[SC] OpenService FAILED 1060:"));
    assert!(is_service_not_found_error("The specified service does not exist as an installed service."));
    assert!(is_service_not_found_error("SERVICE DOES NOT EXIST"));
    assert!(!is_service_not_found_error("[SC] OpenService FAILED 5: Access is denied."));
    assert!(!is_service_not_found_error(""));
}

#[test]
fn existence_from_query() {
    assert_eq!(service_exists(Ok("STATE : 4 RUNNING".to_string())), Ok(true));
    assert_eq!(service_exists(Err("FAILED 1060".to_string())), Ok(false));
    assert_eq!(service_exists(Err("FAILED 5: Access is denied.".to_string())), Err("FAILED 5: Access is denied.".to_string()));
}

#[test]
fn start_type_keywords() {
    assert_eq!(start_type_to_value(2), "auto");
    assert_eq!(start_type_to_value(3), "demand");
    assert_eq!(start_type_to_value(4), "disabled");
    assert_eq!(start_type_to_value(0), "auto");
    assert_eq!(start_type_to_value(1), "auto");
}

#[test]
fn key_name_lookup() {
    assert_eq!(
        get_service_name_by_display("Lenovo Vantage Service", Ok("[SC] GetServiceKeyName SUCCESS  Name = x\r\nNAME: LenovoVantageService\r\n".to_string())),
        Ok("LenovoVantageService".to_string())
    );
    assert_eq!(
        get_service_name_by_display("X", Ok("nothing".to_string())),
        Err("无法找到服务: X".to_string())
    );
    assert_eq!(get_service_name_by_display("X", Err("FAILED 1060".to_string())), Err("FAILED 1060".to_string()));
}

#[test]
fn start_type_and_state() {
    let qc = "SERVICE_NAME: LITSSVC\r\n        TYPE               : 10  WIN32_OWN_PROCESS\r\n        START_TYPE         : 3   DEMAND_START\r\n";
    let query = "SERVICE_NAME: LITSSVC\r\n        TYPE               : 10  WIN32_OWN_PROCESS\r\n        STATE              : 4  RUNNING\r\n";
    assert_eq!(get_service_start_and_running(qc, query), (3, true));
    assert_eq!(get_service_start_and_running("", "STATE : 1  STOPPED"), (2, false));
    assert_eq!(get_service_start_and_running("START_TYPE : 99999999999", "state : 4 running"), (2, true));
    assert_eq!(get_service_start_and_running("START_TYPE : \u{663}", "STATE : 4 RUNNINGS"), (2, false));
}

#[test]
fn the_candidate_services() {
    let c = power_policy_service_candidates();
    assert_eq!(c.len(), 11);
    assert_eq!(c[0].label, "Lenovo ITS Power Mode Control");
    assert_eq!(c[0].service_names, vec!["LITSSVC".to_string(), "LITSSvc".to_string()]);
    assert_eq!(c[9].display_names, vec!["Intel(R) Energy Server Service".to_string(), "Energy Server Service".to_string()]);
    assert_eq!(c[10].service_names, vec!["IBMPMSVC".to_string()]);
}

fn cand() -> ServiceCandidate {
    ServiceCandidate {
        label: "L".to_string(),
        display_names: vec!["Display".to_string()],
        service_names: vec!["svc1".to_string(), "svc2".to_string()],
    }
}

fn describe(a: ResolveAction) -> String {
    match a {
        ResolveAction::QueryService(n) => format!("query {}", n),
        ResolveAction::LookupKeyName(n) => format!("lookup {}", n),
        ResolveAction::Resolved(Ok(Some(n))) => format!("found {}", n),
        ResolveAction::Resolved(Ok(None)) => "none".to_string(),
        ResolveAction::Resolved(Err(e)) => format!("error {}", e),
    }
}

#[test]
fn resolving_a_candidate_step_by_step() {
    let c = cand();
    assert_eq!(describe(resolve_service_name(&c, 0, None)), "query svc1");
    assert_eq!(describe(resolve_service_name(&c, 1, Some(LookupOutcome::ServiceQueried(Ok(false))))), "query svc2");
    assert_eq!(describe(resolve_service_name(&c, 1, Some(LookupOutcome::ServiceQueried(Ok(true))))), "found svc1");
    assert_eq!(describe(resolve_service_name(&c, 2, Some(LookupOutcome::ServiceQueried(Ok(false))))), "lookup Display");
    assert_eq!(describe(resolve_service_name(&c, 2, Some(LookupOutcome::ServiceQueried(Err("x".to_string()))))), "error x");
    assert_eq!(describe(resolve_service_name(&c, 3, Some(LookupOutcome::KeyNameFound(Ok("Real".to_string()))))), "found Real");
    assert_eq!(describe(resolve_service_name(&c, 3, Some(LookupOutcome::KeyNameFound(Err("FAILED 1060".to_string()))))), "none");
    assert_eq!(describe(resolve_service_name(&c, 3, Some(LookupOutcome::KeyNameFound(Err("denied".to_string()))))), "error denied");
    let empty = ServiceCandidate { label: "E".to_string(), display_names: vec![], service_names: vec![] };
    assert_eq!(describe(resolve_service_name(&empty, 0, None)), "none");
}

#[test]
fn disabling_decisions() {
    match disable_after_resolve("L", Ok(None)) {
        DisableStep::Done(r) => assert_eq!(rep(&r), ("L".to_string(), None, "not_found".to_string(), None)),
        DisableStep::ReadStatus(_) => panic!("a missing service is settled"),
    }
    match disable_after_resolve("L", Err("e".to_string())) {
        DisableStep::Done(r) => assert_eq!(rep(&r), ("L".to_string(), None, "failed".to_string(), Some("e".to_string()))),
        DisableStep::ReadStatus(_) => panic!("a failed lookup is settled"),
    }
    match disable_after_resolve("L", Ok(Some("svc".to_string()))) {
        DisableStep::ReadStatus(n) => assert_eq!(n, "svc"),
        DisableStep::Done(_) => panic!("a found service moves on"),
    }
    match disable_after_status("L", "svc".to_string(), Ok((3, true))) {
        Ok(b) => assert_eq!((b.display_name.as_str(), b.service_name.as_str(), b.start_type, b.was_running), ("L", "svc", 3, true)),
        Err(_) => panic!("status was read"),
    }
    match disable_after_status("L", "svc".to_string(), Err("qc failed".to_string())) {
        Err(r) => assert_eq!(rep(&r), ("L".to_string(), Some("svc".to_string()), "failed".to_string(), Some("qc failed".to_string()))),
        Ok(_) => panic!("status failed"),
    }
    assert_eq!(rep(&disable_result("L", "svc".to_string(), Ok(String::new()))), ("L".to_string(), Some("svc".to_string()), "disabled".to_string(), None));
    assert_eq!(rep(&disable_result("L", "svc".to_string(), Err("no".to_string()))), ("L".to_string(), Some("svc".to_string()), "failed".to_string(), Some("no".to_string())));
    assert_eq!(
        rep(&backup_write_failure("C:\\d\\b.json", "disk full")),
        ("Backup file".to_string(), Some("C:\\d\\b.json".to_string()), "failed".to_string(), Some("Write backup failed: disk full".to_string()))
    );
}

fn backup(running: bool) -> ServiceBackup {
    ServiceBackup { display_name: "L".to_string(), service_name: "svc".to_string(), start_type: 3, was_running: running }
}

#[test]
fn restoring_decisions() {
    let cmd = restore_config_command(&backup(true));
    assert_eq!((cmd.program.as_str(), cmd.args.clone()), ("sc", vec!["config".to_string(), "svc".to_string(), "start=".to_string(), "demand".to_string()]));
    assert_eq!(rep(&restore_not_found(backup(true))), ("L".to_string(), Some("svc".to_string()), "not_found".to_string(), None));
    assert_eq!(rep(&restore_result(backup(true), Ok(String::new()), Some(Ok(String::new())))).2, "restored");
    assert_eq!(rep(&restore_result(backup(false), Ok(String::new()), None)).2, "restored");
    assert_eq!(rep(&restore_result(backup(true), Ok(String::new()), Some(Err("start".to_string())))), ("L".to_string(), Some("svc".to_string()), "failed".to_string(), None));
    assert_eq!(rep(&restore_result(backup(true), Err("cfg".to_string()), None)), ("L".to_string(), Some("svc".to_string()), "failed".to_string(), Some("cfg".to_string())));
    assert_eq!(rep(&legacy_restore_result(backup(true))).2, "restored");
    assert_eq!(rep(&fallback_not_found("gone".to_string())), ("Lenovo ITS Power Mode Control".to_string(), None, "not_found".to_string(), Some("gone".to_string())));
    assert_eq!(rep(&fallback_restored("LITSSVC".to_string())), ("Lenovo ITS Power Mode Control".to_string(), Some("LITSSVC".to_string()), "restored".to_string(), None));
}

#[test]
fn service_commands() {
    let w = |c: powerplan::command::CommandLine| (c.program, c.args, c.dynamic);
    assert_eq!(w(query_service_command("a")), ("sc".to_string(), vec!["query".to_string(), "a".to_string()], false));
    assert_eq!(w(query_config_command("a")), ("sc".to_string(), vec!["qc".to_string(), "a".to_string()], false));
    assert_eq!(w(key_name_command("A b")), ("sc".to_string(), vec!["getkeyname".to_string(), "A b".to_string()], false));
    assert_eq!(w(stop_service_command("a")), ("sc".to_string(), vec!["stop".to_string(), "a".to_string()], false));
    assert_eq!(w(start_service_command("a")), ("sc".to_string(), vec!["start".to_string(), "a".to_string()], false));
    assert_eq!(w(disable_service_command("a")), ("sc".to_string(), vec!["config".to_string(), "a".to_string(), "start=".to_string(), "disabled".to_string()], false));
}

#[test]
fn restart_only_what_ran_and_was_reconfigured() {
    let w = |c: Option<powerplan::command::CommandLine>| c.map(|c| (c.program, c.args, c.dynamic));
    let start = Some(("sc".to_string(), vec!["start".to_string(), "svc".to_string()], false));
    assert_eq!(w(restore_start_command(&backup(true), &Ok(String::new()))), start.clone());
    assert_eq!(w(restore_start_command(&backup(true), &Err("cfg".to_string()))), None);
    assert_eq!(w(restore_start_command(&backup(false), &Ok(String::new()))), None);
    assert_eq!(w(legacy_start_command(&backup(true))), start);
    assert_eq!(w(legacy_start_command(&backup(false))), None);
}

#[test]
fn backup_written_only_when_a_service_was_read() {
    assert!(backups_to_write(Vec::new()).is_none());
    let kept = backups_to_write(vec![backup(true), backup(false)]).unwrap();
    assert_eq!(kept.iter().map(|b| b.was_running).collect::<Vec<_>>(), vec![true, false]);
}
