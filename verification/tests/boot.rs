use hermes_launcher::boot::{
    boot_step, BootAction, BootError, BootEvent, BootPhase, BootWork, Progress, Stage,
};
use hermes_launcher::token::DashboardInfo;
use hermes_launcher::wsl::{self_check_report, WslStatus};

fn step(phase: BootPhase, event: BootEvent) -> (BootPhase, BootAction) {
    boot_step(phase, event)
}

fn percents(a: &BootAction) -> Vec<i32> {
    a.emit.iter().map(|p| p.percent).collect()
}

fn keys(a: &BootAction) -> Vec<String> {
    a.emit.iter().map(|p| p.message_key.clone()).collect()
}

fn failure(a: BootAction) -> BootError {
    match a.work {
        BootWork::Fail(e) => e,
        _ => panic!("expected a failure"),
    }
}

#[test]
fn first_run_goes_through_the_import() {
    let mut shown: Vec<i32> = Vec::new();
    let (p, a) = step(BootPhase::Start, BootEvent::Begin);
    assert!(matches!(a.work, BootWork::DetectPaths));
    let (p, a) = step(p, BootEvent::PathsDetected);
    assert_eq!(keys(&a), vec!["self_check_running"]);
    assert!(matches!(a.emit[0].stage, Stage::SelfCheck));
    shown.extend(percents(&a));
    assert!(matches!(a.work, BootWork::RunSelfCheck));
    let (p, a) = step(p, BootEvent::SelfChecked(self_check_report(WslStatus::Succeeded, Some(19045), Some(2))));
    assert!(matches!(a.work, BootWork::ListDistros));
    let (p, a) = step(p, BootEvent::DistroListed(false));
    assert_eq!(keys(&a), vec!["importing_first_run", "decompressing_rootfs"]);
    shown.extend(percents(&a));
    assert!(matches!(a.work, BootWork::CheckRootfs));
    let (p, a) = step(p, BootEvent::RootfsChecked { present: true, location: "D:\\runtime".into() });
    assert!(matches!(a.work, BootWork::Decompress));
    let (p, a) = step(p, BootEvent::Decompressed { success: true, code: Some(0) });
    assert!(matches!(a.work, BootWork::CreateVhdDir));
    let (p, a) = step(p, BootEvent::VhdDirCreated);
    assert_eq!(keys(&a), vec!["importing_to_wsl"]);
    shown.extend(percents(&a));
    assert!(matches!(a.work, BootWork::ImportDistro));
    let (p, a) = step(p, BootEvent::DistroImported);
    assert!(matches!(a.work, BootWork::RemoveTempTar));
    let (p, a) = step(p, BootEvent::TempTarRemoved);
    assert_eq!(keys(&a), vec!["booting_hermes"]);
    shown.extend(percents(&a));
    assert!(matches!(a.work, BootWork::PickPort));
    let (p, a) = step(p, BootEvent::PortPicked(Some(50000)));
    assert!(matches!(a.work, BootWork::StartHermes { port: 50000 }));
    let (p, a) = step(p, BootEvent::HermesStarted);
    assert_eq!(keys(&a), vec!["waiting_for_dashboard"]);
    shown.extend(percents(&a));
    assert!(matches!(a.work, BootWork::WaitForDashboard { timeout_secs: 45 }));
    let info = DashboardInfo { url: "http://127.0.0.1:50000".into(), token: "t".into() };
    let (p, a) = step(p, BootEvent::DashboardReady(info));
    assert!(matches!(p, BootPhase::Ready));
    assert_eq!(keys(&a), vec!["ready"]);
    assert!(matches!(a.emit[0].stage, Stage::Ready));
    shown.extend(percents(&a));
    match a.work {
        BootWork::Finish(i) => {
            assert_eq!(i.url, "http://127.0.0.1:50000");
            assert_eq!(i.token, "t");
        }
        _ => panic!("expected the dashboard"),
    }
    assert_eq!(shown, vec![5, 10, 25, 55, 70, 85, 100]);
}

#[test]
fn later_runs_skip_the_import() {
    let (p, _) = step(BootPhase::ListingDistros, BootEvent::DistroListed(true));
    assert!(matches!(p, BootPhase::PickingPort));
    let (p, a) = step(p, BootEvent::PortPicked(None));
    assert!(matches!(p, BootPhase::StartingHermes));
    assert!(matches!(a.work, BootWork::StartHermes { port: 9119 }));
}

#[test]
fn port_failure_falls_back() {
    let (_, a) = step(BootPhase::PickingPort, BootEvent::StepFailed("no port".into()));
    assert!(matches!(a.work, BootWork::StartHermes { port: 9119 }));
}

#[test]
fn self_check_block_fails_with_reason() {
    let (p, a) = step(BootPhase::CheckingSystem, BootEvent::SelfChecked(self_check_report(WslStatus::Failed, Some(19045), Some(2))));
    assert!(matches!(p, BootPhase::Failed));
    let e = failure(a);
    assert_eq!(e.context, None);
    assert_eq!(e.message(), "WSL self-check failed: wsl_not_installed");
}

#[test]
fn self_check_without_blocker_is_unknown() {
    let mut r = self_check_report(WslStatus::Failed, Some(19045), Some(2));
    r.blocker = None;
    let (_, a) = step(BootPhase::CheckingSystem, BootEvent::SelfChecked(r));
    assert_eq!(failure(a).message(), "WSL self-check failed: unknown");
}

#[test]
fn missing_rootfs_fails_the_import() {
    let (p, a) = step(
        BootPhase::CheckingRootfs,
        BootEvent::RootfsChecked { present: false, location: "D:\\runtime\\HermesPortable.tar.zst".into() },
    );
    assert!(matches!(p, BootPhase::Failed));
    let e = failure(a);
    assert_eq!(e.message(), "import portable rootfs");
    assert_eq!(e.cause, "rootfs missing: D:\\runtime\\HermesPortable.tar.zst \u{2014} the USB stick may be corrupted");
}

#[test]
fn failed_decompression_fails_the_import() {
    let (_, a) = step(BootPhase::Decompressing, BootEvent::Decompressed { success: false, code: Some(2) });
    let e = failure(a);
    assert_eq!(e.message(), "import portable rootfs");
    assert_eq!(e.cause, "zstd failed (exit 2)");
}

#[test]
fn step_failures_carry_their_context() {
    let cases = vec![
        (BootPhase::DetectingPaths, "detect paths"),
        (BootPhase::CreatingVhdDir, "import portable rootfs"),
        (BootPhase::ImportingDistro, "import portable rootfs"),
        (BootPhase::StartingHermes, "start hermes inside WSL"),
        (BootPhase::WaitingForDashboard, "dashboard did not respond within 45s"),
    ];
    for (phase, ctx) in cases {
        let (p, a) = step(phase, BootEvent::StepFailed("boom".into()));
        assert!(matches!(p, BootPhase::Failed));
        let e = failure(a);
        assert_eq!(e.message(), ctx);
        assert_eq!(e.cause, "boom");
    }
    let (_, a) = step(BootPhase::ListingDistros, BootEvent::StepFailed("wsl --list".into()));
    assert_eq!(failure(a).message(), "wsl --list");
}

#[test]
fn temp_tar_removal_errors_are_ignored() {
    let (p, a) = step(BootPhase::RemovingTempTar, BootEvent::StepFailed("busy".into()));
    assert!(matches!(p, BootPhase::PickingPort));
    assert_eq!(percents(&a), vec![70]);
}

#[test]
fn ended_sequences_ignore_events() {
    let (p, a) = step(BootPhase::Ready, BootEvent::Begin);
    assert!(matches!(p, BootPhase::Ready));
    assert!(a.emit.is_empty() && matches!(a.work, BootWork::Nothing));
    let (p, a) = step(BootPhase::Failed, BootEvent::HermesStarted);
    assert!(matches!(p, BootPhase::Failed));
    assert!(a.emit.is_empty() && matches!(a.work, BootWork::Nothing));
}

#[test]
fn out_of_place_events_change_nothing() {
    let (p, a) = step(BootPhase::Start, BootEvent::HermesStarted);
    assert!(matches!(p, BootPhase::Start));
    assert!(matches!(a.work, BootWork::Nothing));
}

#[test]
fn progress_new_and_params() {
    let p = Progress::new(Stage::Booting, 70, "booting_hermes");
    assert_eq!(p.percent, 70);
    assert_eq!(p.message_key, "booting_hermes");
    assert!(p.params.is_empty());
    let q = p.with_params(vec![("n".to_string(), "1".to_string())]);
    assert_eq!(q.percent, 70);
    assert_eq!(q.message_key, "booting_hermes");
    assert_eq!(q.params, vec![("n".to_string(), "1".to_string())]);
}
