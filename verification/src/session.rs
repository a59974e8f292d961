//! A session on the tablet: the steps that set it up, the directory in which
//! its files are staged, and the wait for its USB interface.
use vstd::prelude::*;

use crate::adb::{
    adb_shell, adb_shell_args, cleanup_stale_session, shell_arguments, CLEANUP, MAKE_ROOT, PERMIT,
    REMOTE_AGENT, REMOTE_WORKER,
};
use crate::text::{
    decimal, decimals_differ, decimals_stand_for_their_number, find_letters, mentions, number_of,
    texts, to_decimal,
};

verus! {

/// A file on this computer that the tablet needs.
#[derive(Clone, Copy, Debug, PartialEq, Eq, Structural)]
pub enum LocalFile {
    /// The agent, in the staging directory.
    Agent,
    /// The worker, beside the program.
    Worker,
}

/// An argument of `adb`: a text, or the path of a file.
pub enum Argument {
    Text(String),
    File(LocalFile),
}

/// Whether an argument is this text.
pub open spec fn is_text(argument: Argument, text: Seq<char>) -> bool {
    argument matches Argument::Text(string) && string@ == text
}

/// Whether these arguments copy a file to the tablet.
pub open spec fn is_push(
    arguments: Seq<Argument>,
    serial: Seq<char>,
    source: LocalFile,
    destination: Seq<char>,
) -> bool {
    &&& arguments.len() == 5
    &&& is_text(arguments[0], "-s"@)
    &&& is_text(arguments[1], serial)
    &&& is_text(arguments[2], "push"@)
    &&& arguments[3] == Argument::File(source)
    &&& is_text(arguments[4], destination)
}

/// The arguments that end a session.
pub open spec fn stop_arguments(serial: Seq<char>) -> Seq<Seq<char>> {
    shell_arguments(serial, seq!["/bin/sh"@, REMOTE_AGENT@, "stop"@])
}

/// The arguments that start a session.
pub open spec fn start_arguments(serial: Seq<char>) -> Seq<Seq<char>> {
    shell_arguments(serial, seq!["/bin/setsid"@, "/bin/sh"@, REMOTE_AGENT@, "start"@])
}

/// A session on the tablet with the given serial number, and whether there is
/// something to end.
pub struct TargetSession {
    pub serial: String,
    pub active: bool,
}

impl TargetSession {
    /// Starts to set up a session. Nothing is to be ended yet.
    pub fn provision(serial: String) -> (res: Provision)
        ensures
            res.wf(),
            res.step == Step::Cleanup,
            res.session.serial@ == serial@,
            is_beginning(serial@, res),
    {
        Provision { session: TargetSession { serial, active: false }, step: Step::Cleanup }
    }

    /// The arguments that copy a file to the tablet.
    pub fn push(&self, source: LocalFile, destination: &str) -> (res: Vec<Argument>)
        ensures
            is_push(res@, self.serial@, source, destination@),
    {
        let mut res: Vec<Argument> = Vec::new();
        res.push(Argument::Text("-s".to_owned()));
        res.push(Argument::Text(self.serial.clone()));
        res.push(Argument::Text("push".to_owned()));
        res.push(Argument::File(source));
        res.push(Argument::Text(destination.to_owned()));
        res
    }

    /// Starts to wait for the USB interface of the session. It was not tried yet.
    pub fn wait_for_usb(&self) -> (res: UsbWait)
        ensures
            res.last_error@ == "PenCast USB interface not found"@,
            is_waiting(res, None),
    {
        UsbWait { last_error: "PenCast USB interface not found".to_owned() }
    }

    /// Ends the session once: the arguments that end it, or nothing if there is
    /// nothing to end.
    pub fn stop(&mut self) -> (res: Option<Vec<String>>)
        ensures
            final(self).serial@ == old(self).serial@,
            !final(self).active,
            match res {
                Some(arguments) => old(self).active && texts(arguments@) == stop_arguments(
                    old(self).serial@,
                ),
                None => !old(self).active,
            },
            is_stopped(*old(self), *final(self), res),
    {
        if !self.active {
            return None;
        }
        self.active = false;
        let arguments: [&str; 3] = ["/bin/sh", REMOTE_AGENT, "stop"];
        assert(arguments@.map_values(|argument: &str| argument@) =~= seq![
            "/bin/sh"@,
            REMOTE_AGENT@,
            "stop"@,
        ]);
        Some(adb_shell_args(self.serial.as_str(), arguments.as_slice()))
    }
}

/// Whether a session was ended with these arguments, or had nothing to end.
pub open spec fn is_stopped(
    before: TargetSession,
    after: TargetSession,
    arguments: Option<Vec<String>>,
) -> bool {
    &&& after.serial@ == before.serial@
    &&& !after.active
    &&& match arguments {
        Some(arguments) => before.active && texts(arguments@) == stop_arguments(before.serial@),
        None => !before.active,
    }
}

/// The steps that set up a session, in order.
#[derive(Clone, Copy, Debug, PartialEq, Eq, Structural)]
pub enum Step {
    /// End a session that was left on the tablet.
    Cleanup,
    /// Make the directory of the session.
    MakeRoot,
    /// Make a directory for files on this computer.
    Stage,
    /// Find the worker on this computer.
    FindWorker,
    /// Write the agent on this computer.
    WriteAgent,
    /// Copy the agent.
    PushAgent,
    /// Copy the worker.
    PushWorker,
    /// Let both run.
    Permit,
    /// Start the session.
    Start,
    /// The session runs.
    Ready,
    /// The session could not be set up.
    Failed,
}

/// What is to be done for a step.
pub enum Task {
    /// Run `adb` with these arguments.
    Shell(Vec<String>),
    /// Copy a file with `adb` and these arguments.
    Push(Vec<Argument>),
    /// Make a directory for files on this computer.
    Stage,
    /// Find the worker on this computer.
    FindWorker,
    /// Write the agent to its file on this computer.
    WriteAgent,
    /// Nothing.
    Rest,
}

/// How far setting up a session has come.
pub enum Progress {
    /// There is another step.
    Next,
    /// The session runs.
    Ready,
    /// It could not be set up; `stop` holds the arguments that end what there
    /// is of it, and it does not matter what ending it comes to.
    Failed { error: String, stop: Option<Vec<String>> },
}

/// A session that is being set up.
pub struct Provision {
    pub session: TargetSession,
    pub step: Step,
}

/// The step after a step that succeeded.
pub open spec fn following(step: Step) -> Step {
    match step {
        Step::Cleanup => Step::MakeRoot,
        Step::MakeRoot => Step::Stage,
        Step::Stage => Step::FindWorker,
        Step::FindWorker => Step::WriteAgent,
        Step::WriteAgent => Step::PushAgent,
        Step::PushAgent => Step::PushWorker,
        Step::PushWorker => Step::Permit,
        Step::Permit => Step::Start,
        Step::Start => Step::Ready,
        Step::Ready => Step::Ready,
        Step::Failed => Step::Failed,
    }
}

/// Whether there is something on the tablet that has to be ended.
pub open spec fn has_root(step: Step) -> bool {
    !(step is Cleanup || step is MakeRoot || step is Failed)
}

/// Whether a step may end in this error: the connection breaks off when the
/// session starts, because the tablet changes its USB interfaces.
pub open spec fn tolerated(step: Step, reason: Seq<char>) -> bool {
    step is Start && mentions(reason, "closed"@)
}

/// The error of a step that failed for this reason.
pub open spec fn step_error(step: Step, reason: Seq<char>) -> Seq<char> {
    if step is WriteAgent {
        "Writing agent failed: "@ + reason
    } else {
        reason
    }
}

/// Whether this is the beginning of a session with this device.
pub open spec fn is_beginning(serial: Seq<char>, provision: Provision) -> bool {
    &&& provision.step is Cleanup
    &&& provision.session.serial@ == serial
    &&& !provision.session.active
}

/// Whether this is the session that was set up.
pub open spec fn is_session_of(provision: Provision, session: TargetSession) -> bool {
    session.serial@ == provision.session.serial@ && session.active == provision.session.active
}

/// Whether the interface is waited for after the last try failed for this reason,
/// or before the first one.
pub open spec fn is_waiting(wait: UsbWait, last_error: Option<Seq<char>>) -> bool {
    wait.last_error@ == match last_error {
        Some(error) => error,
        None => "PenCast USB interface not found"@,
    }
}

/// Whether this is the search of a process after so many names were taken.
pub open spec fn is_search(process: u32, taken: nat, search: StagingSearch) -> bool {
    search.process == process && search.suffix == taken
}

/// Whether this is the path of a file in a directory, name by name.
pub open spec fn is_path(directory: Seq<char>, name: Seq<char>, path: Seq<Seq<char>>) -> bool {
    path == seq![directory, name]
}

/// What a step of setting up a session comes to.
pub open spec fn is_advance(
    before: Provision,
    outcome: Result<(), String>,
    after: Provision,
    progress: Progress,
) -> bool {
    &&& after.session.serial@ == before.session.serial@
    &&& after.session.active == has_root(after.step)
    &&& match outcome {
        Err(reason) if !tolerated(before.step, reason@) => {
            &&& after.step is Failed
            &&& progress matches Progress::Failed { error, stop } && {
                &&& error@ == step_error(before.step, reason@)
                &&& stop is Some <==> has_root(before.step)
                &&& stop matches Some(arguments) ==> texts(arguments@) == stop_arguments(
                    before.session.serial@,
                )
            }
        },
        _ => {
            &&& after.step == following(before.step)
            &&& progress is Ready <==> after.step is Ready
            &&& progress is Next <==> after.step !is Ready
        },
    }
}

impl Provision {
    /// There is something to be ended once the directory on the tablet was made,
    /// until the session failed.
    pub open spec fn wf(&self) -> bool {
        self.session.active == has_root(self.step)
    }

    /// Whether this is what the current step asks for.
    pub open spec fn is_task(&self, task: Task) -> bool {
        let serial = self.session.serial@;
        match self.step {
            Step::Cleanup => task matches Task::Shell(arguments) && texts(arguments@)
                == shell_arguments(serial, seq![CLEANUP@]),
            Step::MakeRoot => task matches Task::Shell(arguments) && texts(arguments@)
                == shell_arguments(serial, seq![MAKE_ROOT@]),
            Step::Stage => task is Stage,
            Step::FindWorker => task is FindWorker,
            Step::WriteAgent => task is WriteAgent,
            Step::PushAgent => task matches Task::Push(arguments) && is_push(
                arguments@,
                serial,
                LocalFile::Agent,
                REMOTE_AGENT@,
            ),
            Step::PushWorker => task matches Task::Push(arguments) && is_push(
                arguments@,
                serial,
                LocalFile::Worker,
                REMOTE_WORKER@,
            ),
            Step::Permit => task matches Task::Shell(arguments) && texts(arguments@)
                == shell_arguments(serial, seq![PERMIT@]),
            Step::Start => task matches Task::Shell(arguments) && texts(arguments@)
                == start_arguments(serial),
            Step::Ready | Step::Failed => task is Rest,
        }
    }

    /// What the current step asks for.
    pub fn task(&self) -> (res: Task)
        ensures
            self.is_task(res),
    {
        let serial: &str = self.session.serial.as_str();
        match self.step {
            Step::Cleanup => Task::Shell(cleanup_stale_session(serial)),
            Step::MakeRoot => Task::Shell(adb_shell(serial, MAKE_ROOT)),
            Step::Stage => Task::Stage,
            Step::FindWorker => Task::FindWorker,
            Step::WriteAgent => Task::WriteAgent,
            Step::PushAgent => Task::Push(self.session.push(LocalFile::Agent, REMOTE_AGENT)),
            Step::PushWorker => Task::Push(self.session.push(LocalFile::Worker, REMOTE_WORKER)),
            Step::Permit => Task::Shell(adb_shell(serial, PERMIT)),
            Step::Start => {
                let arguments: [&str; 4] = ["/bin/setsid", "/bin/sh", REMOTE_AGENT, "start"];
                assert(arguments@.map_values(|argument: &str| argument@) =~= seq![
                    "/bin/setsid"@,
                    "/bin/sh"@,
                    REMOTE_AGENT@,
                    "start"@,
                ]);
                Task::Shell(adb_shell_args(serial, arguments.as_slice()))
            },
            Step::Ready => Task::Rest,
            Step::Failed => Task::Rest,
        }
    }

    /// Takes note of how the current step ended.
    pub fn advance(&mut self, outcome: Result<(), String>) -> (res: Progress)
        requires
            old(self).wf(),
            old(self).step !is Ready,
            old(self).step !is Failed,
        ensures
            final(self).wf(),
            final(self).session.serial@ == old(self).session.serial@,
            match outcome {
                Err(reason) if !tolerated(old(self).step, reason@) => {
                    &&& final(self).step is Failed
                    &&& res matches Progress::Failed { error, stop } && {
                        &&& error@ == step_error(old(self).step, reason@)
                        &&& match stop {
                            Some(arguments) => has_root(old(self).step) && texts(arguments@)
                                == stop_arguments(old(self).session.serial@),
                            None => !has_root(old(self).step),
                        }
                    }
                },
                _ => {
                    &&& final(self).step == following(old(self).step)
                    &&& if old(self).step is Start {
                        res is Ready
                    } else {
                        res is Next
                    }
                },
            },
            is_advance(*old(self), outcome, *final(self), res),
    {
        if let Err(reason) = outcome {
            let starting: bool = match self.step {
                Step::Start => true,
                _ => false,
            };
            if !starting || !find_letters(reason.as_str(), "closed") {
                let error: String = match self.step {
                    Step::WriteAgent => "Writing agent failed: ".to_owned().concat(reason.as_str()),
                    _ => reason,
                };
                self.step = Step::Failed;
                let stop: Option<Vec<String>> = self.session.stop();
                return Progress::Failed { error, stop };
            }
        }
        let (step, progress) = match self.step {
            Step::Cleanup => (Step::MakeRoot, Progress::Next),
            Step::MakeRoot => (Step::Stage, Progress::Next),
            Step::Stage => (Step::FindWorker, Progress::Next),
            Step::FindWorker => (Step::WriteAgent, Progress::Next),
            Step::WriteAgent => (Step::PushAgent, Progress::Next),
            Step::PushAgent => (Step::PushWorker, Progress::Next),
            Step::PushWorker => (Step::Permit, Progress::Next),
            Step::Permit => (Step::Start, Progress::Next),
            Step::Start => (Step::Ready, Progress::Ready),
            Step::Ready => (Step::Ready, Progress::Ready),
            Step::Failed => (Step::Failed, Progress::Next),
        };
        if let Step::MakeRoot = self.step {
            self.session.active = true;
        }
        self.step = step;
        progress
    }

    /// The session that was set up.
    pub fn into_session(self) -> (res: TargetSession)
        ensures
            res == self.session,
            is_session_of(self, res),
    {
        self.session
    }
}

/// What the check of the worker comes to.
pub open spec fn is_worker_check(
    found: bool,
    path: Seq<char>,
    check: Result<(), String>,
) -> bool {
    match check {
        Ok(_) => found,
        Err(error) => !found && error@ == "Worker not found: "@ + path,
    }
}

/// Checks that the worker was found at its path.
pub fn check_worker(found: bool, path: &str) -> (res: Result<(), String>)
    ensures
        is_worker_check(found, path@, res),
        match res {
            Ok(_) => found,
            Err(error) => !found && error@ == "Worker not found: "@ + path@,
        },
{
    if found {
        Ok(())
    } else {
        Err("Worker not found: ".to_owned().concat(path))
    }
}

/// The number of names that are tried for the staging directory.
pub const STAGING_NAMES: u32 = 64;

/// The name of a staging directory.
pub open spec fn staging_name(process: u32, suffix: u32) -> Seq<char> {
    "pencast-"@ + decimal(process as nat) + "-"@ + decimal(suffix as nat)
}

/// A directory for files on this computer, by its name in the directory for
/// temporary files.
pub struct Staging {
    pub directory: String,
}

impl Staging {
    /// Starts to look for a name that is not taken.
    pub fn new(process: u32) -> (res: StagingSearch)
        ensures
            res.process == process,
            res.suffix == 0,
            is_search(process, 0, res),
    {
        StagingSearch { process, suffix: 0 }
    }

    /// The path of a file in the directory, name by name, from the directory for
    /// temporary files on.
    pub fn file(&self, name: &str) -> (res: Vec<String>)
        ensures
            texts(res@) == seq![self.directory@, name@],
            is_path(self.directory@, name@, texts(res@)),
    {
        let mut res: Vec<String> = Vec::new();
        res.push(self.directory.clone());
        res.push(name.to_owned());
        assert(texts(res@) =~= seq![self.directory@, name@]);
        res
    }
}

/// The search for a name: the names with smaller suffixes are taken.
pub struct StagingSearch {
    pub process: u32,
    pub suffix: u32,
}

/// What making a directory came to.
pub enum Creation {
    Created,
    Taken,
    Failed(String),
}

/// What making the next directory means for the search.
pub open spec fn is_record(
    before: StagingSearch,
    creation: Creation,
    after: StagingSearch,
    result: Option<Result<Staging, String>>,
) -> bool {
    &&& after.process == before.process
    &&& match creation {
        Creation::Created => {
            &&& after.suffix == before.suffix
            &&& result matches Some(Ok(staging)) && staging.directory@ == staging_name(
                before.process,
                before.suffix,
            )
        },
        Creation::Taken => {
            &&& after.suffix == before.suffix + 1
            &&& after.suffix < STAGING_NAMES ==> result is None
            &&& after.suffix >= STAGING_NAMES ==> (result matches Some(Err(error)) && error@
                == "Creating temporary files failed"@)
        },
        Creation::Failed(reason) => {
            &&& after.suffix == before.suffix
            &&& result matches Some(Err(error)) && error@ == "Creating temporary files failed: "@
                + reason@
        },
    }
}

impl StagingSearch {
    /// The directory to try next.
    pub fn candidate(&self) -> (res: Staging)
        ensures
            res.directory@ == staging_name(self.process, self.suffix),
    {
        let directory: String = "pencast-".to_owned().concat(
            to_decimal(self.process).as_str(),
        ).concat("-").concat(to_decimal(self.suffix).as_str());
        Staging { directory }
    }

    /// Takes note of what making the directory came to: whether the search is
    /// over, with the directory or an error.
    pub fn record(&mut self, creation: Creation) -> (res: Option<Result<Staging, String>>)
        requires
            old(self).suffix < STAGING_NAMES,
        ensures
            is_record(*old(self), creation, *final(self), res),
            final(self).process == old(self).process,
            match creation {
                Creation::Created => {
                    &&& res matches Some(Ok(staging)) && staging.directory@ == staging_name(
                        old(self).process,
                        old(self).suffix,
                    )
                    &&& final(self).suffix == old(self).suffix
                },
                Creation::Taken => {
                    &&& final(self).suffix == old(self).suffix + 1
                    &&& if final(self).suffix < STAGING_NAMES {
                        res is None
                    } else {
                        res matches Some(Err(error)) && error@
                            == "Creating temporary files failed"@
                    }
                },
                Creation::Failed(reason) => {
                    &&& res matches Some(Err(error)) && error@
                        == "Creating temporary files failed: "@ + reason@
                    &&& final(self).suffix == old(self).suffix
                },
            },
    {
        match creation {
            Creation::Created => Some(Ok(self.candidate())),
            Creation::Taken => {
                self.suffix += 1;
                if self.suffix < STAGING_NAMES {
                    None
                } else {
                    Some(Err("Creating temporary files failed".to_owned()))
                }
            },
            Creation::Failed(reason) => Some(
                Err("Creating temporary files failed: ".to_owned().concat(reason.as_str())),
            ),
        }
    }
}

/// No name is tried twice.
pub proof fn staging_names_differ(process: u32, first: u32, second: u32)
    ensures
        staging_name(process, first) == staging_name(process, second) <==> first == second,
{
    let prefix = "pencast-"@ + decimal(process as nat) + "-"@;
    if staging_name(process, first) == staging_name(process, second) {
        assert(decimal(first as nat) =~= staging_name(process, first).skip(prefix.len() as int));
        assert(decimal(second as nat) =~= staging_name(process, second).skip(prefix.len() as int));
        decimals_differ(first as nat, second as nat);
    }
}

/// How long the USB interface is waited for, in seconds.
pub const USB_WAIT_SECONDS: u64 = 30;

/// How long it takes until it is tried again, in milliseconds.
pub const USB_RETRY_MILLISECONDS: u64 = 200;

/// The wait for the USB interface, and why it could not be opened.
pub struct UsbWait {
    pub last_error: String,
}

/// What is done while waiting for the USB interface.
pub enum UsbStep {
    /// Try to open it.
    Open,
    /// Give up.
    GiveUp(String),
}

/// What is done while waiting, after the last try failed for this reason.
pub open spec fn is_wait(
    last_error: Seq<char>,
    in_time: bool,
    running: bool,
    step: UsbStep,
) -> bool {
    match step {
        UsbStep::Open => in_time && running,
        UsbStep::GiveUp(error) => if in_time {
            !running && error@ == "Cancelled"@
        } else {
            error@ == "PenCast USB interface did not appear: "@ + last_error
        },
    }
}

impl UsbWait {
    /// Decides whether to try, from whether there is time and whether the
    /// program still runs.
    pub fn next(&self, in_time: bool, running: bool) -> (res: UsbStep)
        ensures
            is_wait(self.last_error@, in_time, running, res),
            match res {
                UsbStep::Open => in_time && running,
                UsbStep::GiveUp(error) => if in_time {
                    !running && error@ == "Cancelled"@
                } else {
                    error@ == "PenCast USB interface did not appear: "@ + self.last_error@
                },
            },
    {
        if !in_time {
            return UsbStep::GiveUp(
                "PenCast USB interface did not appear: ".to_owned().concat(
                    self.last_error.as_str(),
                ),
            );
        }
        if !running {
            return UsbStep::GiveUp("Cancelled".to_owned());
        }
        UsbStep::Open
    }

    /// Takes note of why it could not be opened.
    pub fn failed(&mut self, error: String)
        ensures
            final(self).last_error@ == error@,
            is_waiting(*final(self), Some(error@)),
    {
        self.last_error = error;
    }
}

/// The steps in which a session is set up, if all of them succeed.
pub open spec fn steps_taken(count: nat) -> Step
    decreases count,
{
    if count == 0 {
        Step::Cleanup
    } else {
        following(steps_taken((count - 1) as nat))
    }
}

/// A session runs after nine steps that succeeded, and not before. From the
/// third step on there is something to end, and before that there is not.
pub proof fn session_takes_every_step(count: nat)
    ensures
        steps_taken(count) is Ready <==> count >= 9,
        has_root(steps_taken(count)) <==> count >= 2,
        steps_taken(count) !is Failed,
    decreases count,
{
    if count <= 9 {
        reveal_with_fuel(steps_taken, 10);
    } else {
        session_takes_every_step((count - 1) as nat);
    }
}

/// Every command that `adb` is run with while a session is set up names the
/// device of the session, and says whether it is for the shell of the device or
/// pushes a file to it.
pub proof fn commands_address_the_device_of_the_session(provision: Provision, task: Task)
    requires
        provision.is_task(task),
    ensures
        task matches Task::Shell(arguments) ==> {
            &&& texts(arguments@).len() >= 4
            &&& texts(arguments@)[0] == "-s"@
            &&& texts(arguments@)[1] == provision.session.serial@
            &&& texts(arguments@)[2] == "shell"@
        },
        task matches Task::Push(arguments) ==> {
            &&& arguments@.len() == 5
            &&& arguments@[0] matches Argument::Text(option)
            &&& option@ == "-s"@
            &&& arguments@[1] matches Argument::Text(serial)
            &&& serial@ == provision.session.serial@
            &&& arguments@[2] matches Argument::Text(command)
            &&& command@ == "push"@
        },
{
}

/// What is done at each step: old sessions are cleaned up, the directory is made,
/// the agent and the worker are found and pushed to their places there, both may
/// run, and the agent is started in a session of its own.
pub proof fn steps_have_their_tasks(provision: Provision, task: Task)
    requires
        provision.is_task(task),
    ensures
        ({
            let serial = provision.session.serial@;
            let shell = seq!["-s"@, serial, "shell"@];
            let agent = "/userdata/.pencast/agent.sh"@;
            &&& provision.step is Cleanup ==> task is Shell && texts(task->Shell_0@) == shell.push(
                CLEANUP@,
            )
            &&& provision.step is MakeRoot ==> task is Shell && texts(task->Shell_0@)
                == shell.push("mkdir -p /userdata/.pencast\n"@)
            &&& provision.step is Stage ==> task is Stage
            &&& provision.step is FindWorker ==> task is FindWorker
            &&& provision.step is WriteAgent ==> task is WriteAgent
            &&& provision.step is PushAgent ==> task is Push && task->Push_0@[3]
                == Argument::File(LocalFile::Agent) && task->Push_0@[4] is Text
                && task->Push_0@[4]->Text_0@ == agent
            &&& provision.step is PushWorker ==> task is Push && task->Push_0@[3]
                == Argument::File(LocalFile::Worker) && task->Push_0@[4] is Text
                && task->Push_0@[4]->Text_0@ == "/userdata/.pencast/pencast-work"@
            &&& provision.step is Permit ==> task is Shell && texts(task->Shell_0@) == shell.push(
                "chmod 700 /userdata/.pencast/agent.sh /userdata/.pencast/pencast-work\n"@,
            )
            &&& provision.step is Start ==> task is Shell && texts(task->Shell_0@) == shell + seq![
                "/bin/setsid"@,
                "/bin/sh"@,
                agent,
                "start"@,
            ]
            &&& provision.step is Ready || provision.step is Failed ==> task is Rest
        }),
{
    let shell = seq!["-s"@, provision.session.serial@, "shell"@];
    assert(shell + seq![CLEANUP@] =~= shell.push(CLEANUP@));
    assert(shell + seq![MAKE_ROOT@] =~= shell.push(MAKE_ROOT@));
    assert(shell + seq![PERMIT@] =~= shell.push(PERMIT@));
}

/// A file is pushed to the device with the given serial number.
pub proof fn pushes_name_their_device(
    arguments: Seq<Argument>,
    serial: Seq<char>,
    source: LocalFile,
    destination: Seq<char>,
)
    requires
        is_push(arguments, serial, source, destination),
    ensures
        arguments.len() == 5,
        arguments[0] is Text && arguments[0]->Text_0@ == "-s"@,
        arguments[1] is Text && arguments[1]->Text_0@ == serial,
        arguments[2] is Text && arguments[2]->Text_0@ == "push"@,
        arguments[3] == Argument::File(source),
        arguments[4] is Text && arguments[4]->Text_0@ == destination,
{
}

/// A session is ended on its own device by its agent, at most once: what was
/// ended has nothing to end any more.
pub proof fn sessions_are_ended_once(
    before: TargetSession,
    middle: TargetSession,
    after: TargetSession,
    first: Option<Vec<String>>,
    second: Option<Vec<String>>,
)
    requires
        is_stopped(before, middle, first),
        is_stopped(middle, after, second),
    ensures
        second is None,
        first is Some <==> before.active,
        first matches Some(arguments) ==> texts(arguments@) == seq![
            "-s"@,
            before.serial@,
            "shell"@,
            "/bin/sh"@,
            "/userdata/.pencast/agent.sh"@,
            "stop"@,
        ],
        after.serial@ == before.serial@,
{
    if let Some(arguments) = first {
        assert(texts(arguments@) =~= seq![
            "-s"@,
            before.serial@,
            "shell"@,
            "/bin/sh"@,
            "/userdata/.pencast/agent.sh"@,
            "stop"@,
        ]);
    }
}

/// A step that fails ends setting up the session with its reason, and the session
/// on the device is ended exactly if its directory was made. Only at the start of
/// the session may the connection close.
pub proof fn failed_steps_undo_the_session(
    before: Provision,
    reason: String,
    after: Provision,
    progress: Progress,
)
    requires
        is_advance(before, Err(reason), after, progress),
        before.step !is Ready,
        before.step !is Failed,
    ensures
        before.step is Start && mentions(reason@, "closed"@) ==> progress is Ready,
        before.step !is Start || !mentions(reason@, "closed"@) ==> {
            &&& after.step is Failed
            &&& !after.session.active
            &&& progress is Failed
            &&& progress->error@ == if before.step is WriteAgent {
                "Writing agent failed: "@ + reason@
            } else {
                reason@
            }
            &&& progress->stop is None <==> before.step is Cleanup || before.step is MakeRoot
            &&& progress->stop matches Some(arguments) ==> texts(arguments@) == seq![
                "-s"@,
                before.session.serial@,
                "shell"@,
                "/bin/sh"@,
                "/userdata/.pencast/agent.sh"@,
                "stop"@,
            ]
        },
        after.session.serial@ == before.session.serial@,
{
    if let Progress::Failed { error, stop } = progress {
        if let Some(arguments) = stop {
            assert(texts(arguments@) =~= seq![
                "-s"@,
                before.session.serial@,
                "shell"@,
                "/bin/sh"@,
                "/userdata/.pencast/agent.sh"@,
                "stop"@,
            ]);
        }
    }
}

/// A step that succeeds is followed by the next one, on the same device; the
/// session is set up when it was started.
pub proof fn steps_that_succeed_lead_on(before: Provision, after: Provision, progress: Progress)
    requires
        is_advance(before, Ok(()), after, progress),
        before.step !is Ready,
        before.step !is Failed,
    ensures
        after.session.serial@ == before.session.serial@,
        before.step is Cleanup ==> after.step is MakeRoot,
        before.step is MakeRoot ==> after.step is Stage,
        before.step is Stage ==> after.step is FindWorker,
        before.step is FindWorker ==> after.step is WriteAgent,
        before.step is WriteAgent ==> after.step is PushAgent,
        before.step is PushAgent ==> after.step is PushWorker,
        before.step is PushWorker ==> after.step is Permit,
        before.step is Permit ==> after.step is Start,
        before.step is Start ==> after.step is Ready,
        progress is Ready <==> before.step is Start,
        progress is Next <==> before.step !is Start,
        after.session.active <==> before.step !is Cleanup,
{
}

/// A worker that is missing is told by its path.
pub proof fn missing_workers_are_told(found: bool, path: Seq<char>, check: Result<(), String>)
    requires
        is_worker_check(found, path, check),
    ensures
        check is Ok <==> found,
        check matches Err(error) ==> error@ == "Worker not found: "@ + path,
{
}

/// The name of a staging directory tells the process and the number of the try.
pub proof fn staging_names_tell_process_and_try(process: u32, suffix: u32)
    ensures
        staging_name(process, suffix) == "pencast-"@ + decimal(process as nat) + "-"@ + decimal(
            suffix as nat,
        ),
        number_of(decimal(process as nat)) == process,
        number_of(decimal(suffix as nat)) == suffix,
{
    decimals_stand_for_their_number(process as nat);
    decimals_stand_for_their_number(suffix as nat);
}

/// A search for a staging directory ends with the directory that was made, with
/// the reason for which one could not be made, or after 64 names that are taken.
pub proof fn staging_searches_end(
    before: StagingSearch,
    creation: Creation,
    after: StagingSearch,
    result: Option<Result<Staging, String>>,
)
    requires
        is_record(before, creation, after, result),
        before.suffix < 64,
    ensures
        after.process == before.process,
        creation is Created ==> (result matches Some(Ok(staging)) && staging.directory@
            == staging_name(before.process, before.suffix)),
        creation is Taken && before.suffix < 63 ==> result is None && after.suffix == before.suffix
            + 1,
        creation is Taken && before.suffix == 63 ==> (result matches Some(Err(error)) && error@
            == "Creating temporary files failed"@),
        creation matches Creation::Failed(reason) ==> (result matches Some(Err(error)) && error@
            == "Creating temporary files failed: "@ + reason@),
{
}

/// The interface is tried as long as there is time and the program runs. When the
/// time is over the last reason is told, and otherwise that it was cancelled.
pub proof fn waiting_ends_with_the_last_reason(
    last_error: Seq<char>,
    in_time: bool,
    running: bool,
    step: UsbStep,
)
    requires
        is_wait(last_error, in_time, running, step),
    ensures
        step is Open <==> in_time && running,
        !in_time ==> step is GiveUp && step->GiveUp_0@ == "PenCast USB interface did not appear: "@
            + last_error,
        in_time && !running ==> step is GiveUp && step->GiveUp_0@ == "Cancelled"@,
{
}

/// A session begins on its device with the old ones cleaned up, and has nothing to
/// be ended if that fails.
pub proof fn sessions_begin_with_nothing_to_end(
    serial: Seq<char>,
    provision: Provision,
    task: Task,
    reason: String,
    after: Provision,
    progress: Progress,
)
    requires
        is_beginning(serial, provision),
        provision.is_task(task),
        is_advance(provision, Err(reason), after, progress),
    ensures
        task is Shell,
        texts(task->Shell_0@) == seq!["-s"@, serial, "shell"@, CLEANUP@],
        !provision.session.active,
        progress is Failed,
        progress->error@ == reason@,
        progress->stop is None,
{
    assert(texts(task->Shell_0@) =~= seq!["-s"@, serial, "shell"@, CLEANUP@]);
}

/// A session that was set up is one of its device, and there is something to be
/// ended.
pub proof fn sessions_that_run_can_be_ended(
    before: Provision,
    after: Provision,
    progress: Progress,
    session: TargetSession,
    ended: TargetSession,
    arguments: Option<Vec<String>>,
)
    requires
        is_advance(before, Ok(()), after, progress),
        before.step is Start,
        is_session_of(after, session),
        is_stopped(session, ended, arguments),
    ensures
        progress is Ready,
        session.serial@ == before.session.serial@,
        session.active,
        arguments is Some,
{
}

/// When the time is over it is told why the interface could last not be opened:
/// that it was not found, if it was never tried.
pub proof fn last_failures_are_told(
    wait: UsbWait,
    last_error: Option<Seq<char>>,
    running: bool,
    step: UsbStep,
)
    requires
        is_waiting(wait, last_error),
        is_wait(wait.last_error@, false, running, step),
    ensures
        step is GiveUp,
        last_error matches Some(error) ==> step->GiveUp_0@
            == "PenCast USB interface did not appear: "@ + error,
        last_error is None ==> step->GiveUp_0@ == "PenCast USB interface did not appear: "@
            + "PenCast USB interface not found"@,
{
}

/// A search begins with the name that ends in 0, and goes on with the next number
/// as long as names are taken.
pub proof fn searches_count_the_names_taken(
    process: u32,
    taken: nat,
    before: StagingSearch,
    after: StagingSearch,
    result: Option<Result<Staging, String>>,
)
    requires
        is_search(process, taken, before),
        is_record(before, Creation::Taken, after, result),
    ensures
        is_search(process, taken + 1, after),
        after.process == process,
        after.suffix == taken + 1,
        staging_name(before.process, before.suffix) == "pencast-"@ + decimal(process as nat) + "-"@
            + decimal(taken),
{
}

/// A file in a directory has the name of the directory before its own.
pub proof fn paths_name_directory_and_file(
    directory: Seq<char>,
    name: Seq<char>,
    path: Seq<Seq<char>>,
)
    requires
        is_path(directory, name, path),
    ensures
        path.len() == 2,
        path[0] == directory,
        path[1] == name,
{
}

} // verus!
