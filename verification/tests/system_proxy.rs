use bypaxdpi::sysproxy::{
    start_clear_proxy, start_set_proxy, ClearProxyJob, CommandOutcome, ProxyStep, SetProxyJob,
    StreamMode,
};

const KEY: &str = "HKCU\\Software\\Microsoft\\Windows\\CurrentVersion\\Internet Settings";

/// A record of one step: the program and arguments run, "notify", or the result.
fn describe(step: &ProxyStep) -> String {
    match step {
        ProxyStep::Run(c) => {
            let mode = match c.streams {
                StreamMode::Inherit => "inherit",
                StreamMode::Discard => "discard",
                StreamMode::Capture => "capture",
            };
            format!("{} {} [{}]", c.program, c.args.join(" "), mode)
        }
        ProxyStep::NotifyWindows => "notify".to_string(),
        ProxyStep::Finish(Ok(())) => "ok".to_string(),
        ProxyStep::Finish(Err(e)) => format!("err: {}", e),
    }
}

fn ok() -> CommandOutcome {
    CommandOutcome::Exited { success: true }
}

fn bad() -> CommandOutcome {
    CommandOutcome::Exited { success: false }
}

fn run_set(port: u16, outcomes: Vec<CommandOutcome>) -> Vec<String> {
    let (mut job, mut step): (SetProxyJob, ProxyStep) = start_set_proxy(port);
    let mut log = vec![describe(&step)];
    let mut outcomes = outcomes.into_iter();
    loop {
        step = match step {
            ProxyStep::Run(_) => {
                assert!(job.awaits_command());
                job.after_command(&outcomes.next().expect("an outcome"))
            }
            ProxyStep::NotifyWindows => {
                assert!(job.awaits_notification());
                job.after_notification()
            }
            ProxyStep::Finish(_) => return log,
        };
        log.push(describe(&step));
    }
}

fn run_clear(outcomes: Vec<CommandOutcome>) -> Vec<String> {
    let (mut job, mut step): (ClearProxyJob, ProxyStep) = start_clear_proxy();
    let mut log = vec![describe(&step)];
    let mut outcomes = outcomes.into_iter();
    loop {
        step = match step {
            ProxyStep::Run(_) => {
                assert!(job.awaits_command());
                job.after_command(&outcomes.next().expect("an outcome"))
            }
            ProxyStep::NotifyWindows => {
                assert!(job.awaits_notification());
                job.after_notification()
            }
            ProxyStep::Finish(_) => return log,
        };
        log.push(describe(&step));
    }
}

#[test]
fn set_proxy_success() {
    let log = run_set(8080, vec![ok(), bad(), ok(), ok()]);
    assert_eq!(
        log,
        vec![
            format!("reg query {} [capture]", KEY),
            format!("reg add {} /v ProxyOverride /t REG_SZ /d <local> /f [inherit]", KEY),
            format!("reg add {} /v ProxyServer /t REG_SZ /d 127.0.0.1:8080 /f [inherit]", KEY),
            format!("reg add {} /v ProxyEnable /t REG_DWORD /d 1 /f [inherit]", KEY),
            "notify".to_string(),
            "ok".to_string(),
        ]
    );
}

#[test]
fn set_proxy_refuses_low_port() {
    assert_eq!(run_set(1023, vec![]), vec!["err: Geçersiz port numarası (1024-65535 arası olmalı)"]);
    assert_eq!(run_set(0, vec![]).len(), 1);
    assert_eq!(run_set(1024, vec![ok(), ok(), ok(), ok()]).last().unwrap(), "ok");
}

#[test]
fn set_proxy_without_access() {
    assert_eq!(
        run_set(8080, vec![bad()]).last().unwrap(),
        "err: Registry yazma izni yok. Uygulamayı yönetici olarak çalıştırın."
    );
    let spawn = CommandOutcome::SpawnFailed { message: "program not found".to_string() };
    assert_eq!(run_set(8080, vec![spawn]).last().unwrap(), "err: Registry erişim hatası: program not found");
}

#[test]
fn set_proxy_rolls_back() {
    for outs in [vec![ok(), ok(), bad(), ok(), ok()], vec![ok(), ok(), ok(), bad(), ok()]] {
        let log = run_set(9000, outs);
        assert_eq!(log.len(), 6);
        assert_eq!(log[4], format!("reg add {} /v ProxyEnable /t REG_DWORD /d 0 /f [inherit]", KEY));
        assert_eq!(log[5], "err: Registry güncelleme başarısız, geri alındı.");
    }
}

#[test]
fn set_proxy_spawn_failures() {
    let spawn = || CommandOutcome::SpawnFailed { message: "denied".to_string() };
    assert_eq!(run_set(9000, vec![ok(), ok(), spawn()]).last().unwrap(), "err: ProxyServer ayarlanamadı: denied");
    assert_eq!(run_set(9000, vec![ok(), ok(), ok(), spawn()]).last().unwrap(), "err: ProxyEnable ayarlanamadı: denied");
}

#[test]
fn clear_proxy_runs() {
    assert_eq!(
        run_clear(vec![ok(), bad(), bad(), bad()]),
        vec![
            format!("reg add {} /v ProxyEnable /t REG_DWORD /d 0 /f [inherit]", KEY),
            format!("reg delete {} /v ProxyServer /f [discard]", KEY),
            format!("reg delete {} /v ProxyOverride /f [discard]", KEY),
            "ipconfig /flushdns [discard]".to_string(),
            "notify".to_string(),
            "ok".to_string(),
        ]
    );
    assert_eq!(run_clear(vec![bad()]).last().unwrap(), "err: Failed to clear proxy via registry");
    let spawn = CommandOutcome::SpawnFailed { message: "no reg".to_string() };
    assert_eq!(run_clear(vec![spawn]).last().unwrap(), "err: no reg");
}
