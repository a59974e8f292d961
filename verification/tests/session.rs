use pencast::session::{
    check_worker, Argument, Creation, LocalFile, Progress, Provision, Staging, Step,
    TargetSession, Task, UsbStep,
};

fn shell(task: Task) -> Vec<String> {
    match task {
        Task::Shell(arguments) => arguments,
        _ => panic!("no shell command"),
    }
}

fn push(task: Task) -> (LocalFile, String) {
    match task {
        Task::Push(arguments) => match &arguments[..] {
            [
                Argument::Text(option),
                Argument::Text(serial),
                Argument::Text(command),
                Argument::File(source),
                Argument::Text(destination),
            ] => {
                assert_eq!((option.as_str(), serial.as_str(), command.as_str()), (
                    "-s", "abc", "push",
                ));
                (*source, destination.clone())
            },
            _ => panic!("bad arguments"),
        },
        _ => panic!("no push"),
    }
}

fn start() -> Provision {
    TargetSession::provision("abc".to_owned())
}

fn stop_arguments() -> Vec<String> {
    ["-s", "abc", "shell", "/bin/sh", "/userdata/.pencast/agent.sh", "stop"]
        .iter()
        .map(|text| text.to_string())
        .collect()
}

#[test]
fn session_is_set_up_step_by_step() {
    let mut provision = start();
    assert!(shell(provision.task())[3].starts_with("set -eu\n"));
    assert!(matches!(provision.advance(Ok(())), Progress::Next));
    assert!(!provision.session.active);
    assert_eq!(shell(provision.task())[3], "mkdir -p /userdata/.pencast\n");
    assert!(matches!(provision.advance(Ok(())), Progress::Next));
    assert!(provision.session.active);
    assert!(matches!(provision.task(), Task::Stage));
    assert!(matches!(provision.advance(Ok(())), Progress::Next));
    assert!(matches!(provision.task(), Task::FindWorker));
    assert!(matches!(provision.advance(Ok(())), Progress::Next));
    assert!(matches!(provision.task(), Task::WriteAgent));
    assert!(matches!(provision.advance(Ok(())), Progress::Next));
    assert_eq!(
        push(provision.task()),
        (LocalFile::Agent, "/userdata/.pencast/agent.sh".to_owned())
    );
    assert!(matches!(provision.advance(Ok(())), Progress::Next));
    assert_eq!(
        push(provision.task()),
        (LocalFile::Worker, "/userdata/.pencast/pencast-work".to_owned())
    );
    assert!(matches!(provision.advance(Ok(())), Progress::Next));
    assert_eq!(
        shell(provision.task())[3],
        "chmod 700 /userdata/.pencast/agent.sh /userdata/.pencast/pencast-work\n"
    );
    assert!(matches!(provision.advance(Ok(())), Progress::Next));
    assert_eq!(
        shell(provision.task())[3..],
        ["/bin/setsid", "/bin/sh", "/userdata/.pencast/agent.sh", "start"]
    );
    assert!(matches!(provision.advance(Ok(())), Progress::Ready));
    assert!(matches!(provision.task(), Task::Rest));
    let session = provision.into_session();
    assert!(session.active);
    assert_eq!(session.serial, "abc");
}

#[test]
fn failed_step_ends_what_there_is() {
    for count in 0..9 {
        let mut provision = start();
        for _ in 0..count {
            assert!(matches!(provision.advance(Ok(())), Progress::Next));
        }
        match provision.advance(Err("why".to_owned())) {
            Progress::Failed { error, stop } => {
                let expected = if count == 4 { "Writing agent failed: why" } else { "why" };
                assert_eq!(error, expected);
                assert_eq!(stop, if count < 2 { None } else { Some(stop_arguments()) });
            },
            _ => panic!("went on"),
        }
        assert_eq!(provision.step, Step::Failed);
        assert!(!provision.session.active);
    }
}

#[test]
fn connection_may_close_when_the_session_starts() {
    let mut provision = start();
    for _ in 0..8 {
        assert!(matches!(provision.advance(Ok(())), Progress::Next));
    }
    assert_eq!(provision.step, Step::Start);
    assert!(matches!(
        provision.advance(Err("ADB shell failed: error: Closed".to_owned())),
        Progress::Ready
    ));
    let mut early = start();
    assert!(matches!(early.advance(Err("closed".to_owned())), Progress::Failed { .. }));
}

#[test]
fn session_is_stopped_once() {
    let mut session = TargetSession { serial: "abc".to_owned(), active: true };
    assert_eq!(session.stop(), Some(stop_arguments()));
    assert_eq!(session.stop(), None);
}

#[test]
fn worker_must_be_there() {
    assert_eq!(check_worker(true, "C:\\pencast-work"), Ok(()));
    assert_eq!(
        check_worker(false, "C:\\pencast-work"),
        Err("Worker not found: C:\\pencast-work".to_owned())
    );
}

#[test]
fn staging_takes_the_first_free_name() {
    let mut search = Staging::new(4711);
    assert_eq!(search.candidate().directory, "pencast-4711-0");
    assert!(search.record(Creation::Taken).is_none());
    assert_eq!(search.candidate().directory, "pencast-4711-1");
    match search.record(Creation::Created) {
        Some(Ok(staging)) => {
            assert_eq!(staging.directory, "pencast-4711-1");
            assert_eq!(staging.file("agent.sh"), ["pencast-4711-1", "agent.sh"]);
        },
        _ => panic!("not created"),
    }
}

#[test]
fn staging_gives_up_when_all_names_are_taken() {
    let mut search = Staging::new(1);
    let mut names = vec![search.candidate().directory];
    for _ in 0..63 {
        assert!(search.record(Creation::Taken).is_none());
        let name = search.candidate().directory;
        assert!(!names.contains(&name));
        names.push(name);
    }
    match search.record(Creation::Taken) {
        Some(Err(error)) => assert_eq!(error, "Creating temporary files failed"),
        _ => panic!("went on"),
    }
}

#[test]
fn staging_reports_other_failures() {
    match Staging::new(1).record(Creation::Failed("disk full".to_owned())) {
        Some(Err(error)) => assert_eq!(error, "Creating temporary files failed: disk full"),
        _ => panic!("went on"),
    }
}

#[test]
fn usb_is_waited_for() {
    let session = TargetSession { serial: "abc".to_owned(), active: true };
    let mut wait = session.wait_for_usb();
    assert!(matches!(wait.next(true, true), UsbStep::Open));
    match wait.next(true, false) {
        UsbStep::GiveUp(error) => assert_eq!(error, "Cancelled"),
        UsbStep::Open => panic!("tried"),
    }
    match wait.next(false, true) {
        UsbStep::GiveUp(error) => assert_eq!(
            error,
            "PenCast USB interface did not appear: PenCast USB interface not found"
        ),
        UsbStep::Open => panic!("tried"),
    }
    wait.failed("access denied".to_owned());
    match wait.next(false, false) {
        UsbStep::GiveUp(error) => {
            assert_eq!(error, "PenCast USB interface did not appear: access denied")
        },
        UsbStep::Open => panic!("tried"),
    }
}
