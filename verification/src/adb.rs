//! Talking to the tablet through `adb`: the arguments that `adb` is run with,
//! what its output means, and the choice of a device.
use vstd::prelude::*;

use crate::text::{
    from_utf8_lossy, is_white, join, joined, lines, lines_of, lossy_text, split_whitespace, texts,
    trim, trimmed, trimming_finds_the_text_between_white_space, words,
};

verus! {

/// The place of the agent on the tablet.
pub const REMOTE_AGENT: &'static str = "/userdata/.pencast/agent.sh";

/// The place of the worker on the tablet.
pub const REMOTE_WORKER: &'static str = "/userdata/.pencast/pencast-work";

/// Makes the directory of the session.
pub const MAKE_ROOT: &'static str = "mkdir -p /userdata/.pencast\n";

/// Lets the agent and the worker run.
pub const PERMIT: &'static str =
    "chmod 700 /userdata/.pencast/agent.sh /userdata/.pencast/pencast-work\n";

/// Ends a session that was left behind.
pub const CLEANUP: &'static str = r#"set -eu
ROOT=/userdata/.pencast
if [ -e "$ROOT" ] || [ -L "$ROOT" ]; then
    if [ -f "$ROOT/agent.sh" ]; then
        /bin/sh "$ROOT/agent.sh" stop
    else
        rm -rf "$ROOT"
    fi
fi
"#;

/// How a run of a command ended: whether it succeeded, how the system words
/// its status, and what it wrote.
pub struct CommandOutput {
    pub success: bool,
    pub status: String,
    pub stdout: Vec<u8>,
    pub stderr: Vec<u8>,
}

/// What was written to both outputs, in one text.
pub open spec fn merged(out: Seq<char>, err: Seq<char>) -> Seq<char> {
    if trimmed(err).len() == 0 {
        trimmed(out)
    } else if trimmed(out).len() == 0 {
        trimmed(out + err)
    } else {
        trimmed(out.push('\n') + err)
    }
}

/// Puts what was written to both outputs into one text.
pub fn merge_output(out: &str, err: &str) -> (res: String)
    ensures
        res@ == merged(out@, err@),
{
    let mut text: String = out.to_owned();
    if !trim(err).as_str().is_empty() {
        if !trim(out).as_str().is_empty() {
            proof {
                reveal_strlit("\n");
            }
            text.append("\n");
            assert(text@ =~= out@.push('\n'));
        }
        text.append(err);
    }
    trim(text.as_str())
}

/// The text of what a command wrote.
pub fn output_text(output: &CommandOutput) -> (res: String)
    ensures
        res@ == merged(lossy_text(output.stdout@), lossy_text(output.stderr@)),
{
    let out: String = from_utf8_lossy(output.stdout.as_slice());
    let err: String = from_utf8_lossy(output.stderr.as_slice());
    merge_output(out.as_str(), err.as_str())
}

/// What a run of a command that wrote `text` comes to.
pub open spec fn is_report(
    operation: Seq<char>,
    success: bool,
    status: Seq<char>,
    text: Seq<char>,
    report: Result<String, String>,
) -> bool {
    match report {
        Ok(report) => success && report@ == text,
        Err(error) => !success && error@ == operation + " failed: "@ + if text.len() == 0 {
            status
        } else {
            text
        },
    }
}

/// Reports a run of a command that wrote `text`: the text if it succeeded, an
/// error with the text, or else with the status, if not.
pub fn report(operation: &str, success: bool, status: &str, text: String) -> (res: Result<
    String,
    String,
>)
    ensures
        is_report(operation@, success, status@, text@, res),
{
    if success {
        return Ok(text);
    }
    let reason: &str = if text.as_str().is_empty() {
        status
    } else {
        text.as_str()
    };
    Err(operation.to_owned().concat(" failed: ").concat(reason))
}

/// Checks how a run of a command ended.
pub fn checked_output(operation: &str, output: &CommandOutput) -> (res: Result<String, String>)
    ensures
        is_report(
            operation@,
            output.success,
            output.status@,
            merged(lossy_text(output.stdout@), lossy_text(output.stderr@)),
            res,
        ),
{
    report(operation, output.success, output.status.as_str(), output_text(output))
}

/// What `adb` is run for.
#[derive(Clone, Copy, Debug, PartialEq, Eq, Structural)]
pub enum Operation {
    Devices,
    Push,
    Shell,
}

/// The name of an operation in errors.
pub open spec fn operation_name(operation: Operation) -> Seq<char> {
    match operation {
        Operation::Devices => "ADB devices"@,
        Operation::Push => "ADB push"@,
        Operation::Shell => "ADB shell"@,
    }
}

/// The error of an operation whose command did not start, up to the reason.
pub open spec fn start_error(operation: Operation) -> Seq<char> {
    match operation {
        Operation::Devices => "Starting ADB failed: "@,
        Operation::Push => "Starting ADB push failed: "@,
        Operation::Shell => "Starting ADB shell failed: "@,
    }
}

/// What an operation comes to: its command did not start, or ran.
pub open spec fn is_result(
    operation: Operation,
    run: Result<CommandOutput, String>,
    result: Result<String, String>,
) -> bool {
    match run {
        Ok(output) => is_report(
            operation_name(operation),
            output.success,
            output.status@,
            merged(lossy_text(output.stdout@), lossy_text(output.stderr@)),
            result,
        ),
        Err(reason) => result matches Err(error) && error@ == start_error(operation) + reason@,
    }
}

/// Checks how an operation ended.
pub fn operation_result(operation: Operation, run: Result<CommandOutput, String>) -> (res: Result<
    String,
    String,
>)
    ensures
        is_result(operation, run, res),
{
    let name: &str = match operation {
        Operation::Devices => "ADB devices",
        Operation::Push => "ADB push",
        Operation::Shell => "ADB shell",
    };
    match run {
        Ok(output) => checked_output(name, &output),
        Err(reason) => {
            let error: &str = match operation {
                Operation::Devices => "Starting ADB failed: ",
                Operation::Push => "Starting ADB push failed: ",
                Operation::Shell => "Starting ADB shell failed: ",
            };
            Err(error.to_owned().concat(reason.as_str()))
        },
    }
}

/// The arguments that run a command on the tablet.
pub open spec fn shell_arguments(serial: Seq<char>, arguments: Seq<Seq<char>>) -> Seq<Seq<char>> {
    seq!["-s"@, serial, "shell"@] + arguments
}

/// The arguments with which `adb` runs a command on the tablet.
pub fn adb_shell_args(serial: &str, arguments: &[&str]) -> (res: Vec<String>)
    ensures
        texts(res@) == shell_arguments(
            serial@,
            arguments@.map_values(|argument: &str| argument@),
        ),
{
    let mut res: Vec<String> = Vec::new();
    res.push("-s".to_owned());
    res.push(serial.to_owned());
    res.push("shell".to_owned());
    let ghost expected = arguments@.map_values(|argument: &str| argument@);
    let mut index: usize = 0;
    assert(texts(res@) =~= shell_arguments(serial@, expected.take(0)));
    while index < arguments.len()
        invariant
            index <= arguments@.len(),
            expected == arguments@.map_values(|argument: &str| argument@),
            texts(res@) == shell_arguments(serial@, expected.take(index as int)),
        decreases arguments@.len() - index,
    {
        let ghost before = res@;
        res.push(arguments[index].to_owned());
        assert(texts(res@) =~= texts(before).push(arguments@[index as int]@));
        assert(expected.take(index + 1) =~= expected.take(index as int).push(
            arguments@[index as int]@,
        ));
        assert(texts(res@) =~= shell_arguments(serial@, expected.take(index + 1)));
        index += 1;
    }
    assert(expected.take(index as int) =~= expected);
    res
}

/// The arguments with which `adb` runs a script on the tablet.
pub fn adb_shell(serial: &str, script: &str) -> (res: Vec<String>)
    ensures
        texts(res@) == shell_arguments(serial@, seq![script@]),
{
    let arguments: [&str; 1] = [script];
    assert(arguments@.map_values(|argument: &str| argument@) =~= seq![script@]);
    adb_shell_args(serial, arguments.as_slice())
}

/// The arguments that end a session that was left on the tablet.
pub fn cleanup_stale_session(serial: &str) -> (res: Vec<String>)
    ensures
        texts(res@) == shell_arguments(serial@, seq![CLEANUP@]),
{
    adb_shell(serial, CLEANUP)
}

/// What the selection of a device by these arguments comes to.
pub open spec fn is_selection(
    arguments: Seq<Seq<char>>,
    selection: Result<Option<String>, String>,
) -> bool {
    match selection {
        Ok(None) => arguments.len() == 0,
        Ok(Some(serial)) => arguments == seq!["-s"@, serial@] && serial@.len() > 0,
        Err(error) => {
            &&& arguments.len() > 0
            &&& !(arguments.len() == 2 && arguments[0] == "-s"@ && arguments[1].len() > 0)
            &&& error@ == "Usage: pencast [-s <serial>]"@
        },
    }
}

/// The device that the program's arguments select, without the name of the
/// program: none without arguments, the one behind `-s`, or a usage error.
pub fn selected_device(arguments: &[String]) -> (res: Result<Option<String>, String>)
    ensures
        match res {
            Ok(None) => arguments@.len() == 0,
            Ok(Some(serial)) => {
                &&& arguments@.len() == 2
                &&& arguments@[0]@ == "-s"@
                &&& arguments@[1]@.len() > 0
                &&& serial@ == arguments@[1]@
            },
            Err(error) => {
                &&& arguments@.len() > 0
                &&& !(arguments@.len() == 2 && arguments@[0]@ == "-s"@ && arguments@[1]@.len() > 0)
                &&& error@ == "Usage: pencast [-s <serial>]"@
            },
        },
        is_selection(texts(arguments@), res),
{
    if arguments.len() == 0 {
        return Ok(None);
    }
    assert(texts(arguments@).len() == arguments@.len());
    if arguments.len() == 2 && arguments[0] == "-s".to_owned()
        && !arguments[1].as_str().is_empty() {
        assert(texts(arguments@) =~= seq!["-s"@, arguments@[1]@]);
        return Ok(Some(arguments[1].clone()));
    }
    Err("Usage: pencast [-s <serial>]".to_owned())
}

/// The devices on lines: of every line whose second word is `device`, the first
/// word.
pub open spec fn listed(lines: Seq<Seq<char>>) -> Seq<Seq<char>>
    decreases lines.len(),
{
    if lines.len() == 0 {
        seq![]
    } else {
        let words = words(lines.last());
        if words.len() >= 2 && words[1] == "device"@ {
            listed(lines.drop_last()).push(words[0])
        } else {
            listed(lines.drop_last())
        }
    }
}

/// The devices that `adb` lists and that may be used.
pub open spec fn devices_in(text: Seq<char>) -> Seq<Seq<char>> {
    listed(lines_of(text))
}

/// Reads the list of devices.
pub fn devices(text: &str) -> (res: Vec<String>)
    ensures
        texts(res@) == devices_in(text@),
{
    let lines: Vec<String> = lines(text);
    let ghost all = lines_of(text@);
    let mut res: Vec<String> = Vec::new();
    let mut index: usize = 0;
    assert(texts(res@) =~= listed(all.take(0)));
    while index < lines.len()
        invariant
            index <= lines@.len(),
            texts(lines@) == all,
            texts(res@) == listed(all.take(index as int)),
        decreases lines@.len() - index,
    {
        assert(all[index as int] == lines@[index as int]@);
        assert(all.take(index + 1).drop_last() =~= all.take(index as int));
        let words: Vec<String> = split_whitespace(lines[index].as_str());
        assert(texts(words@).len() == words@.len());
        if words.len() >= 2 && words[1] == "device".to_owned() {
            let ghost before = res@;
            res.push(words[0].clone());
            assert(texts(res@) =~= texts(before).push(words@[0]@));
        }
        index += 1;
    }
    assert(all.take(all.len() as int) =~= all);
    res
}

/// What the choice among the listed devices comes to.
pub open spec fn is_choice(
    devices: Seq<Seq<char>>,
    selected: Option<String>,
    choice: Result<String, String>,
) -> bool {
    match (selected, choice) {
        (Some(serial), Ok(chosen)) => devices.contains(serial@) && chosen@ == serial@,
        (Some(serial), Err(error)) => !devices.contains(serial@) && error@
            == "ADB device is unavailable: "@ + serial@,
        (None, Ok(chosen)) => devices.len() == 1 && chosen@ == devices[0],
        (None, Err(error)) => if devices.len() == 0 {
            error@ == "No authorized ADB device was found"@
        } else {
            &&& devices.len() > 1
            &&& error@ == "Multiple ADB devices found:\n"@ + joined(devices, "\n"@)
                + "\nRun: pencast -s <serial>"@
        },
    }
}

/// Chooses the device to use from the list of devices: the selected one, or
/// else the only one.
pub fn choose_device(text: &str, selected: Option<String>) -> (res: Result<String, String>)
    ensures
        is_choice(devices_in(text@), selected, res),
{
    let devices: Vec<String> = devices(text);
    let ghost all = texts(devices@);
    assert(all.len() == devices@.len());
    match selected {
        Some(serial) => {
            let mut index: usize = 0;
            while index < devices.len()
                invariant
                    index <= devices@.len(),
                    all == texts(devices@),
                    all == devices_in(text@),
                    selected == Some(serial),
                    forall|k: int| 0 <= k < index ==> all[k] != serial@,
                decreases devices@.len() - index,
            {
                assert(all[index as int] == devices@[index as int]@);
                if devices[index] == serial {
                    assert(all.contains(serial@));
                    return Ok(serial);
                }
                index += 1;
            }
            Err("ADB device is unavailable: ".to_owned().concat(serial.as_str()))
        },
        None => {
            if devices.len() == 0 {
                Err("No authorized ADB device was found".to_owned())
            } else if devices.len() == 1 {
                Ok(devices[0].clone())
            } else {
                let list: String = join(devices.as_slice(), "\n");
                Err(
                    "Multiple ADB devices found:\n".to_owned().concat(list.as_str()).concat(
                        "\nRun: pencast -s <serial>",
                    ),
                )
            }
        },
    }
}

/// What the search for a device comes to.
pub open spec fn is_discovery(
    selected: Option<String>,
    run: Result<CommandOutput, String>,
    result: Result<String, String>,
) -> bool {
    match run {
        Ok(output) if output.success => is_choice(
            devices_in(merged(lossy_text(output.stdout@), lossy_text(output.stderr@))),
            selected,
            result,
        ),
        _ => result is Err && is_result(Operation::Devices, run, result),
    }
}

/// Finds the device to use from what `adb devices` came to.
pub fn discover_adb_device(
    selected: Option<String>,
    run: Result<CommandOutput, String>,
) -> (res: Result<String, String>)
    ensures
        is_discovery(selected, run, res),
{
    match operation_result(Operation::Devices, run) {
        Ok(text) => choose_device(text.as_str(), selected),
        Err(error) => Err(error),
    }
}

/// A device that was chosen is in the list.
pub proof fn chosen_device_is_listed(
    text: Seq<char>,
    selected: Option<String>,
    choice: Result<String, String>,
)
    requires
        is_choice(devices_in(text), selected, choice),
        choice is Ok,
    ensures
        devices_in(text).contains(choice->Ok_0@),
        selected matches Some(serial) ==> choice->Ok_0@ == serial@,
{
}

/// Output is told as one text: what stands on standard output from its first
/// character that is not white, a line feed, and what stands on standard error up
/// to its last such character. If one of them has nothing but white space, the
/// other is told alone, without white space at its ends.
pub proof fn outputs_are_told_in_one_text(
    before: Seq<char>,
    out: Seq<char>,
    err: Seq<char>,
    after: Seq<char>,
)
    requires
        forall|k: int| 0 <= k < before.len() ==> is_white(#[trigger] before[k]),
        forall|k: int| 0 <= k < after.len() ==> is_white(#[trigger] after[k]),
        out.len() > 0,
        err.len() > 0,
        !is_white(out.first()),
        !is_white(err.last()),
    ensures
        merged(before + out, err + after) == out + "\n"@ + err,
{
    reveal_strlit("\n");
    nonwhite_text_is_left(before + out, before.len() as int);
    nonwhite_text_is_left(err + after, err.len() - 1);
    let text = out + "\n"@ + err;
    assert((before + out).push('\n') + (err + after) =~= before + text + after);
    assert(text.first() == out.first());
    assert(text.last() == err.last());
    trimming_finds_the_text_between_white_space(before, text, after);
}

/// Output on one side only is told without white space at its ends.
pub proof fn output_on_one_side_is_told_alone(text: Seq<char>, white: Seq<char>)
    requires
        forall|k: int| 0 <= k < white.len() ==> is_white(#[trigger] white[k]),
    ensures
        merged(text, white) == trimmed(text),
        merged(white, text) == trimmed(text),
{
    assert(Seq::<char>::empty() + Seq::<char>::empty() + white =~= white);
    trimming_finds_the_text_between_white_space(seq![], seq![], white);
    if trimmed(text).len() > 0 {
        white_space_in_front_is_dropped(white, text);
    }
}

proof fn white_space_in_front_is_dropped(white: Seq<char>, text: Seq<char>)
    requires
        forall|k: int| 0 <= k < white.len() ==> is_white(#[trigger] white[k]),
    ensures
        trimmed(white + text) == trimmed(text),
    decreases white.len(),
{
    if white.len() == 0 {
        assert(white + text =~= text);
    } else {
        assert((white + text).first() == white[0]);
        assert((white + text).drop_first() =~= white.drop_first() + text);
        white_space_in_front_is_dropped(white.drop_first(), text);
    }
}

proof fn nonwhite_text_is_left(text: Seq<char>, place: int)
    requires
        0 <= place < text.len(),
        !is_white(text[place]),
    ensures
        trimmed(text).len() > 0,
    decreases text.len(),
{
    if is_white(text.first()) {
        assert(text.drop_first()[place - 1] == text[place]);
        nonwhite_text_is_left(text.drop_first(), place - 1);
    } else if is_white(text.last()) {
        assert(text.drop_last()[place] == text[place]);
        nonwhite_text_is_left(text.drop_last(), place);
    }
}

/// A run that succeeded is reported by its text. One that failed is reported by
/// an error that names the operation and then gives the text, or the status if
/// there is no text.
pub proof fn runs_are_reported_by_what_they_wrote(
    operation: Seq<char>,
    success: bool,
    status: Seq<char>,
    text: Seq<char>,
    report: Result<String, String>,
)
    requires
        is_report(operation, success, status, text, report),
    ensures
        success ==> report is Ok && report->Ok_0@ == text,
        !success && text.len() > 0 ==> report is Err && report->Err_0@ == operation + " failed: "@
            + text,
        !success && text.len() == 0 ==> report is Err && report->Err_0@ == operation
            + " failed: "@ + status,
{
}

/// An operation whose command did not start fails with the reason behind its own
/// words; one whose command ran is reported under its own name.
pub proof fn operations_fail_in_their_own_words(
    operation: Operation,
    run: Result<CommandOutput, String>,
    result: Result<String, String>,
)
    requires
        is_result(operation, run, result),
    ensures
        run matches Err(reason) ==> result is Err && result->Err_0@ == (match operation {
            Operation::Devices => "Starting ADB failed: "@,
            Operation::Push => "Starting ADB push failed: "@,
            Operation::Shell => "Starting ADB shell failed: "@,
        }) + reason@,
        run matches Ok(output) ==> is_report(
            match operation {
                Operation::Devices => "ADB devices"@,
                Operation::Push => "ADB push"@,
                Operation::Shell => "ADB shell"@,
            },
            output.success,
            output.status@,
            merged(lossy_text(output.stdout@), lossy_text(output.stderr@)),
            result,
        ),
{
}

/// A command for the tablet is told the device, that it is for its shell, and
/// then its own arguments in their order.
pub proof fn commands_name_their_device(serial: Seq<char>, arguments: Seq<Seq<char>>, index: int)
    requires
        0 <= index < arguments.len(),
    ensures
        shell_arguments(serial, arguments).len() == arguments.len() + 3,
        shell_arguments(serial, arguments)[0] == "-s"@,
        shell_arguments(serial, arguments)[1] == serial,
        shell_arguments(serial, arguments)[2] == "shell"@,
        shell_arguments(serial, arguments)[index + 3] == arguments[index],
{
}

/// Without arguments no device is selected; `-s` and a serial number that is not
/// empty select that device; anything else is a wrong use.
pub proof fn devices_are_selected_by_serial_number(
    arguments: Seq<Seq<char>>,
    selection: Result<Option<String>, String>,
)
    requires
        is_selection(arguments, selection),
    ensures
        arguments.len() == 0 ==> selection == Ok::<Option<String>, String>(None),
        arguments.len() == 2 && arguments[0] == "-s"@ && arguments[1].len() > 0 ==> {
            &&& selection matches Ok(Some(serial))
            &&& serial@ == arguments[1]
        },
        arguments.len() == 1 || arguments.len() > 2 ==> selection is Err,
        arguments.len() == 2 && (arguments[0] != "-s"@ || arguments[1].len() == 0)
            ==> selection is Err,
        selection matches Err(error) ==> error@ == "Usage: pencast [-s <serial>]"@,
{
}

/// Whether a line lists a device that may be used.
spec fn lists(line: Seq<char>) -> bool {
    words(line).len() >= 2 && words(line)[1] == "device"@
}

/// The listed devices are the first words of the lines whose second word is
/// `device`: the lines with these numbers, from the top to the bottom, and no
/// line is left out.
pub proof fn devices_are_first_words_of_their_lines(text: Seq<char>)
    ensures
        exists|picks: Seq<int>|
            {
                &&& #[trigger] picks.len() == devices_in(text).len()
                &&& forall|i: int, j: int|
                    0 <= i < j < picks.len() ==> #[trigger] picks[i] < #[trigger] picks[j]
                &&& forall|i: int|
                    0 <= i < picks.len() ==> {
                        &&& 0 <= #[trigger] picks[i] < lines_of(text).len()
                        &&& words(lines_of(text)[picks[i]]).len() >= 2
                        &&& words(lines_of(text)[picks[i]])[1] == "device"@
                        &&& devices_in(text)[i] == words(lines_of(text)[picks[i]])[0]
                    }
                &&& forall|k: int|
                    0 <= k < lines_of(text).len() && words(#[trigger] lines_of(text)[k]).len() >= 2
                        && words(lines_of(text)[k])[1] == "device"@ ==> picks.contains(k)
            },
{
    let picks = picked(lines_of(text));
    assert(picks.len() == devices_in(text).len());
}

proof fn picked(lines: Seq<Seq<char>>) -> (picks: Seq<int>)
    ensures
        picks.len() == listed(lines).len(),
        forall|i: int, j: int|
            0 <= i < j < picks.len() ==> #[trigger] picks[i] < #[trigger] picks[j],
        forall|i: int|
            0 <= i < picks.len() ==> {
                &&& 0 <= #[trigger] picks[i] < lines.len()
                &&& words(lines[picks[i]]).len() >= 2
                &&& words(lines[picks[i]])[1] == "device"@
                &&& listed(lines)[i] == words(lines[picks[i]])[0]
            },
        forall|k: int|
            0 <= k < lines.len() && words(#[trigger] lines[k]).len() >= 2 && words(lines[k])[1]
                == "device"@ ==> picks.contains(k),
    decreases lines.len(),
{
    if lines.len() == 0 {
        Seq::empty()
    } else {
        let rest = lines.drop_last();
        let before = picked(rest);
        let last = lines.len() - 1;
        assert(lines[last] == lines.last());
        if lists(lines.last()) {
            let picks = before.push(last);
            assert forall|i: int| 0 <= i < picks.len() implies {
                &&& 0 <= #[trigger] picks[i] < lines.len()
                &&& words(lines[picks[i]]).len() >= 2
                &&& words(lines[picks[i]])[1] == "device"@
                &&& listed(lines)[i] == words(lines[picks[i]])[0]
            } by {
                if i < before.len() {
                    assert(picks[i] == before[i]);
                    assert(rest[before[i]] == lines[before[i]]);
                }
            }
            assert forall|k: int|
                0 <= k < lines.len() && words(#[trigger] lines[k]).len() >= 2 && words(lines[k])[1]
                    == "device"@ implies picks.contains(k) by {
                if k < last {
                    assert(rest[k] == lines[k]);
                    let i = choose|i: int| 0 <= i < before.len() && before[i] == k;
                    assert(picks[i] == k);
                } else {
                    assert(picks[before.len() as int] == k);
                }
            }
            picks
        } else {
            assert forall|i: int| 0 <= i < before.len() implies {
                &&& 0 <= #[trigger] before[i] < lines.len()
                &&& words(lines[before[i]]).len() >= 2
                &&& words(lines[before[i]])[1] == "device"@
                &&& listed(lines)[i] == words(lines[before[i]])[0]
            } by {
                assert(rest[before[i]] == lines[before[i]]);
            }
            assert forall|k: int|
                0 <= k < lines.len() && words(#[trigger] lines[k]).len() >= 2 && words(lines[k])[1]
                    == "device"@ implies before.contains(k) by {
                assert(k < last);
                assert(rest[k] == lines[k]);
            }
            before
        }
    }
}

/// A device is listed exactly if it is the first word of a line whose second word
/// is `device`.
pub proof fn listed_devices_are_those_of_the_lines(text: Seq<char>, serial: Seq<char>)
    ensures
        devices_in(text).contains(serial) <==> exists|k: int|
            {
                &&& 0 <= k < lines_of(text).len()
                &&& words(#[trigger] lines_of(text)[k]).len() >= 2
                &&& words(lines_of(text)[k])[1] == "device"@
                &&& words(lines_of(text)[k])[0] == serial
            },
{
    let lines = lines_of(text);
    let picks = picked(lines);
    if devices_in(text).contains(serial) {
        let i = choose|i: int| 0 <= i < devices_in(text).len() && devices_in(text)[i] == serial;
        let k = picks[i];
        assert(words(lines[k])[0] == serial);
    }
    if exists|k: int|
        {
            &&& 0 <= k < lines_of(text).len()
            &&& words(#[trigger] lines_of(text)[k]).len() >= 2
            &&& words(lines_of(text)[k])[1] == "device"@
            &&& words(lines_of(text)[k])[0] == serial
        } {
        let k = choose|k: int|
            {
                &&& 0 <= k < lines_of(text).len()
                &&& words(#[trigger] lines_of(text)[k]).len() >= 2
                &&& words(lines_of(text)[k])[1] == "device"@
                &&& words(lines_of(text)[k])[0] == serial
            };
        assert(picks.contains(k));
        let i = choose|i: int| 0 <= i < picks.len() && picks[i] == k;
        assert(picks[i] == k);
        assert(devices_in(text)[i] == serial);
    }
}

/// The choice of a device: the selected one if it is listed, or else the only one
/// that is listed. Each failure is told: with the device that is missing, or with
/// all the devices to choose from.
pub proof fn choices_are_made_among_the_listed(
    devices: Seq<Seq<char>>,
    selected: Option<String>,
    choice: Result<String, String>,
)
    requires
        is_choice(devices, selected, choice),
    ensures
        selected matches Some(serial) ==> {
            &&& choice is Ok <==> exists|k: int|
                0 <= k < devices.len() && #[trigger] devices[k] == serial@
            &&& choice matches Ok(chosen) ==> chosen@ == serial@
            &&& choice matches Err(error) ==> error@ == "ADB device is unavailable: "@ + serial@
        },
        selected is None ==> {
            &&& choice is Ok <==> devices.len() == 1
            &&& choice matches Ok(chosen) ==> seq![chosen@] == devices
            &&& devices.len() == 0 ==> choice->Err_0@ == "No authorized ADB device was found"@
            &&& devices.len() > 1 ==> choice->Err_0@ == "Multiple ADB devices found:\n"@ + joined(
                devices,
                "\n"@,
            ) + "\nRun: pencast -s <serial>"@
        },
{
    if let Ok(chosen) = choice {
        if selected is None {
            assert(seq![chosen@] =~= devices);
        }
    }
}

/// A device is searched for in what `adb devices` wrote; if that failed, the
/// search fails in the words of the operation.
pub proof fn searches_read_the_list(
    selected: Option<String>,
    run: Result<CommandOutput, String>,
    result: Result<String, String>,
)
    requires
        is_discovery(selected, run, result),
    ensures
        run matches Ok(output) ==> output.success ==> is_choice(
            devices_in(merged(lossy_text(output.stdout@), lossy_text(output.stderr@))),
            selected,
            result,
        ),
        run matches Ok(output) ==> !output.success ==> result is Err && is_result(
            Operation::Devices,
            run,
            result,
        ),
        run matches Err(reason) ==> result is Err && result->Err_0@ == "Starting ADB failed: "@
            + reason@,
{
}

} // verus!
