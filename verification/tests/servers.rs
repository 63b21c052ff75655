use geolibre_desktop::environment::{
    check_uv_installer, choose_uv, find_executable_on_path, sidecar_project_dir,
    validate_sidecar_project_dir, Candidate, ProjectChoice, UvSource,
};
use geolibre_desktop::server_start::{
    advance_start, StartEvent, StartStage, StartStep, UvServer,
};
use geolibre_desktop::servers::{
    generate_jupyter_token, health_interval_millis, health_url, jupyter_base_url, jupyter_info,
    jupyter_launch, jupyter_token, plan_slot, plan_started, process_group_target, shutdown_url, sidecar_base_url,
    sidecar_info, sidecar_launch, sidecar_stop_step, token_from_bytes, token_from_reply, token_header,
    BriefWait, HealthWait, LaunchValue, ProcessExit, Server, ServerLaunch, SlotPlan, StartedPlan, StopLook,
    StopStep, WaitStep,
};
use geolibre_desktop::profile::{admin_profile, ProfileRead};
use geolibre_desktop::windows::{is_oauth_popup, oauth_popup_label};

fn shown(value: &LaunchValue) -> String {
    match value {
        LaunchValue::Word(word) => word.clone(),
        LaunchValue::Uv => "<uv>".to_string(),
        LaunchValue::ProjectDirectory => "<project>".to_string(),
        LaunchValue::RuntimeDirectory => "<runtime>".to_string(),
        LaunchValue::InRuntimeDirectory(name) => format!("<runtime>/{name}"),
    }
}

fn arguments(launch: &ServerLaunch) -> Vec<String> {
    launch.arguments.iter().map(shown).collect()
}

fn environment(launch: &ServerLaunch) -> Vec<(String, String)> {
    launch.environment.iter().map(|(name, value)| (name.clone(), shown(value))).collect()
}

#[test]
fn servers_have_local_addresses() {
    assert_eq!(sidecar_base_url(), "http://127.0.0.1:8765");
    assert_eq!(jupyter_base_url(), "http://127.0.0.1:8766");
    assert_eq!(health_url(Server::Martin, "http://a"), "http://a/health");
    assert_eq!(health_url(Server::Sidecar, "http://a"), "http://a/health");
    assert_eq!(health_url(Server::Jupyter, "http://a"), "http://a/api/status");
    assert_eq!(shutdown_url("http://a"), "http://a/shutdown");
    assert_eq!(token_header("abc"), "token abc");
    let info = sidecar_info();
    assert_eq!((info.base_url.as_str(), info.port), ("http://127.0.0.1:8765", 8765));
    let info = jupyter_info(Some("t".into()));
    assert_eq!((info.url.as_str(), info.port), ("http://127.0.0.1:8766", 8766));
    assert_eq!(info.token, "t");
    assert_eq!(jupyter_info(None).token, "");
}

#[test]
fn tokens_are_random_hexadecimal_digits() {
    assert_eq!(token_from_bytes(&[0, 15, 16, 255]), "000f10ff");
    assert_eq!(token_from_reply(Some(vec![1, 171])).as_deref(), Some("01ab"));
    assert_eq!(token_from_reply(None), None);
    let first = generate_jupyter_token().unwrap();
    let second = generate_jupyter_token().unwrap();
    assert_eq!(first.len(), 32);
    assert!(first.chars().all(|c| c.is_ascii_hexdigit() && !c.is_ascii_uppercase()));
    assert_ne!(first, second);
}

#[test]
fn the_processing_server_is_launched_by_uv() {
    let launch = sidecar_launch();
    assert_eq!(
        arguments(&launch).join(" "),
        "run --project <project> --extra ml uvicorn geolibre_server.app.main:app \
         --host 127.0.0.1 --port 8765"
    );
    assert_eq!(
        environment(&launch),
        vec![
            ("GEOLIBRE_UV".to_string(), "<uv>".to_string()),
            ("GEOLIBRE_RUNTIME_DIR".to_string(), "<runtime>".to_string()),
            ("UV_CACHE_DIR".to_string(), "<runtime>/uv-cache".to_string()),
            ("UV_PYTHON_INSTALL_DIR".to_string(), "<runtime>/uv-python".to_string()),
            ("UV_PROJECT_ENVIRONMENT".to_string(), "<runtime>/sidecar-server".to_string()),
        ]
    );
}

#[test]
fn the_notebook_server_is_launched_by_uv() {
    let launch = jupyter_launch("/c.py", "/n", "tok", "/lib:/more");
    assert_eq!(
        arguments(&launch).join(" "),
        "run --project <project> --extra notebook jupyter lab --no-browser --config=/c.py \
         --ServerApp.ip=127.0.0.1 --ServerApp.port=8766 --ServerApp.port_retries=0 \
         --ServerApp.root_dir=/n --IdentityProvider.token=tok"
    );
    let variables = environment(&launch);
    assert_eq!(variables.len(), 6);
    assert_eq!(
        variables[4],
        ("UV_PROJECT_ENVIRONMENT".to_string(), "<runtime>/jupyter-server".to_string())
    );
    assert_eq!(variables[5], ("PYTHONPATH".to_string(), "/lib:/more".to_string()));
}

fn asked(server: Server) -> (u32, String) {
    let mut wait = HealthWait::new(server);
    let mut count: u32 = 0;
    loop {
        match wait.begin_round() {
            WaitStep::Inspect => {}
            WaitStep::Failed(message) => return (count, message),
            other => panic!("{other:?}"),
        }
        assert!(matches!(wait.inspected(Ok(None)), WaitStep::Ask));
        count += 1;
        assert!(matches!(wait.answered(false), WaitStep::Pause));
    }
}

#[test]
fn servers_are_waited_for_so_long() {
    assert_eq!(
        asked(Server::Martin),
        (30, "Martin did not become ready in time.".to_string())
    );
    assert_eq!(
        asked(Server::Sidecar),
        (180, "GeoLibre sidecar did not become ready in time.".to_string())
    );
    assert_eq!(
        asked(Server::Jupyter),
        (240, "Jupyter server did not become ready in time.".to_string())
    );
    assert_eq!(health_interval_millis(Server::Martin), 100);
    assert_eq!(health_interval_millis(Server::Sidecar), 1000);
    assert_eq!(health_interval_millis(Server::Jupyter), 1000);
    assert!(matches!(HealthWait::new(Server::Martin).answered(true), WaitStep::Ready));
}

fn failure(server: Server, exit: Result<Option<ProcessExit>, String>) -> String {
    match HealthWait::new(server).inspected(exit) {
        WaitStep::Failed(message) => message,
        other => panic!("{other:?}"),
    }
}

fn exit(output: &str) -> Result<Option<ProcessExit>, String> {
    Ok(Some(ProcessExit { status: "exit status: 1".into(), output: output.into() }))
}

#[test]
fn servers_that_end_early_are_reported() {
    assert_eq!(
        failure(Server::Martin, exit(" \n")),
        "Martin exited before it was ready: exit status: 1"
    );
    assert_eq!(
        failure(Server::Martin, exit("no database\n")),
        "Martin exited before it was ready: no database\n"
    );
    assert_eq!(
        failure(Server::Sidecar, exit("")),
        "GeoLibre sidecar exited before it was ready: exit status: 1"
    );
    assert_eq!(
        failure(Server::Jupyter, exit("ignored")),
        "Jupyter server exited before it was ready (exit status: exit status: 1). \
         Check the terminal for the Jupyter/uv startup output."
    );
    assert_eq!(
        failure(Server::Martin, Err("e".into())),
        "Could not inspect Martin process: e"
    );
    assert_eq!(
        failure(Server::Sidecar, Err("e".into())),
        "Could not inspect sidecar process: e"
    );
    assert_eq!(
        failure(Server::Jupyter, Err("e".into())),
        "Could not inspect Jupyter process: e"
    );
}

#[test]
fn brief_waits_look_twenty_times() {
    let mut wait = BriefWait::new();
    let mut looks: u32 = 0;
    while wait.goes_on() {
        looks += 1;
        assert!(wait.looked(false));
    }
    assert_eq!(looks, 20);
    let mut wait = BriefWait::new();
    assert!(wait.goes_on());
    assert!(!wait.looked(true));
    assert!(!wait.goes_on());
}

#[test]
fn running_servers_are_used_again() {
    assert_eq!(plan_slot(Server::Sidecar, None), Ok(SlotPlan::Start));
    assert_eq!(plan_slot(Server::Sidecar, Some(Ok(true))), Ok(SlotPlan::Reuse));
    assert_eq!(plan_slot(Server::Jupyter, Some(Ok(false))), Ok(SlotPlan::Replace));
    assert_eq!(
        plan_slot(Server::Jupyter, Some(Err("e".into()))),
        Err("Could not inspect Jupyter process: e".to_string())
    );
    assert!(matches!(plan_started(Ok(()), false), StartedPlan::Keep));
    assert!(matches!(plan_started(Ok(()), true), StartedPlan::EndDuplicate));
    assert!(matches!(
        plan_started(Err("late".into()), true),
        StartedPlan::EndFailed(message) if message == "late"
    ));
}

#[test]
fn stopping_asks_before_it_ends() {
    assert!(matches!(sidecar_stop_step(StopLook::First, true), StopStep::RequestShutdown));
    assert!(matches!(sidecar_stop_step(StopLook::First, false), StopStep::LookAgain));
    assert!(matches!(sidecar_stop_step(StopLook::Second, true), StopStep::EndListeners));
    assert!(matches!(sidecar_stop_step(StopLook::Second, false), StopStep::LookAgain));
    assert!(matches!(sidecar_stop_step(StopLook::Last, false), StopStep::Stopped));
    assert!(matches!(
        sidecar_stop_step(StopLook::Last, true),
        StopStep::Failed(message) if message == "GeoLibre sidecar is still running on port 8765."
    ));
}

#[test]
fn signals_reach_other_groups_only() {
    assert_eq!(process_group_target(1234), Some(-1234));
    assert_eq!(process_group_target(i32::MAX as u32), Some(-i32::MAX));
    assert_eq!(process_group_target(0), None);
    assert_eq!(process_group_target(i32::MAX as u32 + 1), None);
    assert_eq!(process_group_target(u32::MAX), None);
}

fn stages(server: UvServer, slot: SlotPlan, answers: bool) -> Vec<StartStage> {
    let mut taken = Vec::new();
    let mut stage = StartStage::CheckSlot;
    loop {
        taken.push(stage);
        let event = match stage {
            StartStage::CheckSlot => StartEvent::Slot(slot),
            StartStage::AskEarlierServer => StartEvent::EarlierServer(answers),
            _ => StartEvent::Done,
        };
        match advance_start(server, stage, event) {
            StartStep::Do(next) => stage = next,
            StartStep::Running => return taken,
            StartStep::Failed { message, .. } => panic!("{message}"),
        }
    }
}

#[test]
fn servers_are_started_step_by_step() {
    assert_eq!(
        stages(UvServer::Sidecar, SlotPlan::Replace, false),
        vec![
            StartStage::CheckSlot,
            StartStage::AskEarlierServer,
            StartStage::FindUv,
            StartStage::FindProject,
            StartStage::FindRuntimeDirectory,
            StartStage::Launch,
            StartStage::AwaitReadiness,
            StartStage::Keep,
        ]
    );
    assert_eq!(
        stages(UvServer::Jupyter, SlotPlan::Start, true),
        vec![
            StartStage::CheckSlot,
            StartStage::ClearPort,
            StartStage::FindUv,
            StartStage::FindProject,
            StartStage::FindRuntimeDirectory,
            StartStage::PrepareNotebooks,
            StartStage::MakeToken,
            StartStage::Launch,
            StartStage::AwaitReadiness,
            StartStage::Keep,
            StartStage::KeepToken,
        ]
    );
    assert_eq!(stages(UvServer::Jupyter, SlotPlan::Reuse, false).len(), 1);
    assert_eq!(stages(UvServer::Sidecar, SlotPlan::Start, true).len(), 2);
}

#[test]
fn failed_starts_are_reported() {
    for (server, stage, expected, ended) in [
        (UvServer::Sidecar, StartStage::FindUv, "e", false),
        (
            UvServer::Jupyter,
            StartStage::FindRuntimeDirectory,
            "Could not resolve app data directory: e",
            false,
        ),
        (UvServer::Sidecar, StartStage::Launch, "Could not start GeoLibre sidecar: e", false),
        (UvServer::Jupyter, StartStage::Launch, "Could not start Jupyter server: e", false),
        (UvServer::Sidecar, StartStage::AwaitReadiness, "e", true),
        (UvServer::Sidecar, StartStage::Keep, "e", false),
        (UvServer::Jupyter, StartStage::Keep, "e", true),
        (UvServer::Jupyter, StartStage::KeepToken, "e", false),
    ] {
        match advance_start(server, stage, StartEvent::Failed("e".into())) {
            StartStep::Failed { message, end_process } => {
                assert_eq!(message, expected);
                assert_eq!(end_process, ended);
            }
            other => panic!("{other:?}"),
        }
    }
}

#[test]
fn uv_is_found_before_it_is_installed() {
    assert_eq!(choose_uv(true, true, true), UvSource::Configured);
    assert_eq!(choose_uv(false, true, true), UvSource::OnPath);
    assert_eq!(choose_uv(false, false, true), UvSource::Installed);
    assert_eq!(choose_uv(false, false, false), UvSource::ToInstall);
    let candidate = |is_file, is_executable| Candidate { is_file, is_executable };
    assert_eq!(
        find_executable_on_path(&vec![
            candidate(false, true),
            candidate(true, false),
            candidate(true, true),
            candidate(true, true),
        ]),
        Some(2)
    );
    assert_eq!(find_executable_on_path(&vec![]), None);
}

#[test]
fn the_installer_of_uv_has_to_leave_uv_behind() {
    assert_eq!(check_uv_installer(true, "", "", true, "/uv"), Ok(()));
    assert_eq!(
        check_uv_installer(false, "out", "err", true, "/uv"),
        Err("uv installer failed: err".to_string())
    );
    assert_eq!(
        check_uv_installer(false, "out", "", false, "/uv"),
        Err("uv installer failed: out".to_string())
    );
    assert_eq!(
        check_uv_installer(true, "", "", false, "/uv"),
        Err("uv installer did not create /uv".to_string())
    );
}

#[test]
fn the_project_is_configured_bundled_or_in_the_source_tree() {
    let no = || Err("no".to_string());
    let choose = sidecar_project_dir;
    assert_eq!(choose(Some(Ok(())), &vec![Ok(())], Ok(())), Ok(ProjectChoice::Configured));
    assert_eq!(choose(Some(no()), &vec![Ok(())], Ok(())), Err("no".to_string()));
    assert_eq!(choose(None, &vec![no(), Ok(())], Ok(())), Ok(ProjectChoice::Bundled(1)));
    assert_eq!(choose(None, &vec![no(), no()], Ok(())), Ok(ProjectChoice::Development));
    assert_eq!(
        choose(None, &vec![no()], Err("none".to_string())),
        Err("none".to_string())
    );
    assert_eq!(validate_sidecar_project_dir(Ok("/p".into()), true), Ok(()));
    assert_eq!(
        validate_sidecar_project_dir(Ok("/p".into()), false),
        Err("Could not find GeoLibre sidecar project at /p".to_string())
    );
    assert_eq!(
        validate_sidecar_project_dir(Err("gone".into()), true),
        Err("Could not resolve sidecar project path: gone".to_string())
    );
}

#[test]
fn sign_in_windows_are_recognized() {
    assert_eq!(oauth_popup_label(0), "oauthPopup0");
    assert_eq!(oauth_popup_label(12), "oauthPopup12");
    assert_ne!(oauth_popup_label(1), oauth_popup_label(11));
    assert!(is_oauth_popup("oauthPopup7", None));
    assert!(is_oauth_popup("main", Some("Sign in - Google Accounts")));
    assert!(is_oauth_popup("x", Some("https://accounts.google.com/o/oauth2")));
    assert!(is_oauth_popup("x", Some("Earth Engine sign-in")));
    assert!(!is_oauth_popup("main", Some("GeoLibre")));
    assert!(!is_oauth_popup("main", None));
}

#[test]
fn a_second_start_gives_the_answer_of_the_first() {
    let made = Some("t".to_string());
    let first = jupyter_info(jupyter_token(made.clone(), Some("old".into())));
    let kept = jupyter_token(made, Some("old".into()));
    assert_eq!(plan_slot(Server::Jupyter, Some(Ok(true))), Ok(SlotPlan::Reuse));
    assert_eq!(stages(UvServer::Jupyter, SlotPlan::Reuse, false), vec![StartStage::CheckSlot]);
    let second = jupyter_info(jupyter_token(None, kept));
    assert_eq!(first.token, "t");
    assert_eq!((first.url, first.port, first.token), (second.url, second.port, second.token));
}

#[test]
fn a_missing_profile_is_no_error() {
    assert_eq!(admin_profile(ProfileRead::Contents("{}".into())), Ok(Some("{}".to_string())));
    assert_eq!(admin_profile(ProfileRead::Missing), Ok(None));
    assert_eq!(
        admin_profile(ProfileRead::Failed("denied".into())),
        Err("Could not read admin profile: denied".to_string())
    );
}
