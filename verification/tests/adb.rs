use pencast::adb::{
    adb_shell, adb_shell_args, checked_output, choose_device, cleanup_stale_session, devices,
    discover_adb_device, merge_output, operation_result, output_text, report, selected_device,
    CommandOutput, Operation,
};

fn output(success: bool, stdout: &[u8], stderr: &[u8]) -> CommandOutput {
    CommandOutput {
        success,
        status: "exit code: 1".to_owned(),
        stdout: stdout.to_vec(),
        stderr: stderr.to_vec(),
    }
}

fn strings(list: &[&str]) -> Vec<String> {
    list.iter().map(|text| text.to_string()).collect()
}

#[test]
fn outputs_are_merged() {
    assert_eq!(merge_output(" a \n", ""), "a");
    assert_eq!(merge_output(" a ", " \n"), "a");
    assert_eq!(merge_output("", " b\n"), "b");
    assert_eq!(merge_output(" \n", " b"), "b");
    assert_eq!(merge_output("a", "b\n"), "a\nb");
    assert_eq!(merge_output("a\n", " b"), "a\n\n b");
    assert_eq!(merge_output("", ""), "");
}

#[test]
fn output_is_read_as_text() {
    assert_eq!(output_text(&output(true, "caf\u{e9} \n".as_bytes(), b"")), "caf\u{e9}");
    assert_eq!(output_text(&output(true, b"a\xffb", b"c")), "a\u{fffd}b\nc");
}

#[test]
fn runs_are_reported() {
    assert_eq!(report("Run", true, "fine", "text".to_owned()), Ok("text".to_owned()));
    assert_eq!(report("Run", false, "bad", "text".to_owned()), Err("Run failed: text".to_owned()));
    assert_eq!(report("Run", false, "bad", String::new()), Err("Run failed: bad".to_owned()));
}

#[test]
fn outputs_are_checked() {
    assert_eq!(checked_output("Run", &output(true, b" yes\n", b"")), Ok("yes".to_owned()));
    assert_eq!(
        checked_output("Run", &output(false, b"out", b"err\n")),
        Err("Run failed: out\nerr".to_owned())
    );
    assert_eq!(
        checked_output("Run", &output(false, b" ", b"\n")),
        Err("Run failed: exit code: 1".to_owned())
    );
}

#[test]
fn operations_are_named_in_errors() {
    for (operation, start, name) in [
        (Operation::Devices, "Starting ADB failed: ", "ADB devices failed: "),
        (Operation::Push, "Starting ADB push failed: ", "ADB push failed: "),
        (Operation::Shell, "Starting ADB shell failed: ", "ADB shell failed: "),
    ] {
        assert_eq!(
            operation_result(operation, Err("no file".to_owned())),
            Err(format!("{start}no file"))
        );
        assert_eq!(
            operation_result(operation, Ok(output(false, b"", b"why"))),
            Err(format!("{name}why"))
        );
        assert_eq!(
            operation_result(operation, Ok(output(true, b"done", b""))),
            Ok("done".to_owned())
        );
    }
}

#[test]
fn shell_arguments_are_built() {
    assert_eq!(adb_shell("s1", "ls\n"), strings(&["-s", "s1", "shell", "ls\n"]));
    assert_eq!(
        adb_shell_args("s1", &["/bin/sh", "x", "stop"]),
        strings(&["-s", "s1", "shell", "/bin/sh", "x", "stop"])
    );
    assert_eq!(adb_shell_args("s1", &[]), strings(&["-s", "s1", "shell"]));
}

#[test]
fn stale_session_is_cleaned_up() {
    let arguments = cleanup_stale_session("s1");
    assert_eq!(arguments[..3], strings(&["-s", "s1", "shell"]));
    assert_eq!(
        arguments[3],
        "set -eu\nROOT=/userdata/.pencast\nif [ -e \"$ROOT\" ] || [ -L \"$ROOT\" ]; then\n    \
         if [ -f \"$ROOT/agent.sh\" ]; then\n        /bin/sh \"$ROOT/agent.sh\" stop\n    \
         else\n        rm -rf \"$ROOT\"\n    fi\nfi\n"
    );
    assert_eq!(arguments.len(), 4);
}

#[test]
fn device_is_selected_by_argument() {
    assert_eq!(selected_device(&[]), Ok(None));
    assert_eq!(selected_device(&strings(&["-s", "abc"])), Ok(Some("abc".to_owned())));
    let usage = Err("Usage: pencast [-s <serial>]".to_owned());
    for arguments in [&["-s"][..], &["-s", ""], &["-d", "abc"], &["abc"], &["-s", "abc", "x"]] {
        assert_eq!(selected_device(&strings(arguments)), usage);
    }
}

#[test]
fn devices_are_listed() {
    let text = "List of devices attached\nabc\tdevice\r\ndef\tunauthorized\n\n  ghi device usb:1\n\
                jkl\ndevice device";
    assert_eq!(devices(text), strings(&["abc", "ghi", "device"]));
    assert!(devices("").is_empty());
}

#[test]
fn only_device_is_chosen() {
    assert_eq!(choose_device("abc\tdevice\n", None), Ok("abc".to_owned()));
    assert_eq!(
        choose_device("List of devices attached", None),
        Err("No authorized ADB device was found".to_owned())
    );
    assert_eq!(
        choose_device("abc device\ndef device\n", None),
        Err(
            "Multiple ADB devices found:\nabc\ndef\nRun: pencast -s <serial>".to_owned()
        )
    );
}

#[test]
fn selected_device_is_chosen() {
    let text = "abc device\ndef device\nghi offline\n";
    assert_eq!(choose_device(text, Some("def".to_owned())), Ok("def".to_owned()));
    assert_eq!(
        choose_device(text, Some("ghi".to_owned())),
        Err("ADB device is unavailable: ghi".to_owned())
    );
}

#[test]
fn device_is_discovered() {
    let list = output(true, b"List of devices attached\nabc\tdevice\n\n", b"");
    assert_eq!(discover_adb_device(None, Ok(list)), Ok("abc".to_owned()));
    assert_eq!(
        discover_adb_device(None, Ok(output(false, b"", b"no server"))),
        Err("ADB devices failed: no server".to_owned())
    );
    assert_eq!(
        discover_adb_device(Some("abc".to_owned()), Err("missing".to_owned())),
        Err("Starting ADB failed: missing".to_owned())
    );
}
