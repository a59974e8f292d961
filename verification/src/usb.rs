//! The USB interface of the tablet: the steps that open it, its endpoints, and
//! the transfers over them.
use vstd::prelude::*;

verus! {

/// A pipe of the interface.
#[derive(Clone, Copy, Debug, PartialEq, Eq, Structural)]
pub struct Pipe {
    pub bulk: bool,
    pub id: u8,
}

/// Whether a pipe carries data to this computer.
pub open spec fn is_input(id: u8) -> bool {
    id >= 0x80
}

/// The last bulk pipe in the given direction, or 0 if there is none. A pipe
/// that could not be asked for is passed over.
pub open spec fn last_bulk(pipes: Seq<Option<Pipe>>, input: bool) -> u8
    decreases pipes.len(),
{
    if pipes.len() == 0 {
        0
    } else {
        match pipes.last() {
            Some(pipe) if pipe.bulk && is_input(pipe.id) == input => pipe.id,
            _ => last_bulk(pipes.drop_last(), input),
        }
    }
}

/// Whether a transfer in this direction goes over this endpoint.
pub open spec fn is_endpoint(usb: Usb, direction: Direction, id: u8) -> bool {
    id == match direction {
        Direction::Read => usb.input,
        Direction::Write => usb.output,
    }
}

/// What a transfer that was to write so many bytes comes to.
pub open spec fn is_write_check(
    length: nat,
    transferred: Result<u32, String>,
    check: Result<(), String>,
) -> bool {
    match transferred {
        Ok(written) => if written == length {
            check is Ok
        } else {
            check matches Err(error) && error@ == "Short USB write"@
        },
        Err(reason) => check matches Err(error) && error@ == reason@,
    }
}

/// The endpoints over which the viewer reads and writes.
#[derive(Clone, Copy, Debug, PartialEq, Eq, Structural)]
pub struct Usb {
    pub input: u8,
    pub output: u8,
}

impl Usb {
    /// The input endpoint carries data to this computer, the output endpoint
    /// carries data away from it, and neither is the control endpoint.
    pub open spec fn wf(&self) -> bool {
        &&& is_input(self.input)
        &&& !is_input(self.output)
        &&& self.output != 0
    }

    /// The endpoint of a transfer.
    pub fn endpoint(&self, direction: Direction) -> (res: u8)
        ensures
            res == match direction {
                Direction::Read => self.input,
                Direction::Write => self.output,
            },
            is_endpoint(*self, direction, res),
    {
        match direction {
            Direction::Read => self.input,
            Direction::Write => self.output,
        }
    }

    /// Checks a transfer that was to write `data`.
    pub fn write(data: &[u8], transferred: Result<u32, String>) -> (res: Result<(), String>)
        ensures
            match (transferred, res) {
                (Ok(written), Ok(_)) => written == data@.len(),
                (Ok(written), Err(error)) => written != data@.len() && error@
                    == "Short USB write"@,
                (Err(reason), Err(error)) => error@ == reason@,
                (Err(_), Ok(_)) => false,
            },
            is_write_check(data@.len(), transferred, res),
    {
        match transferred {
            Ok(written) => {
                if written as usize != data.len() {
                    Err("Short USB write".to_owned())
                } else {
                    Ok(())
                }
            },
            Err(reason) => Err(reason),
        }
    }

    /// Starts to read `length` bytes.
    pub fn read_exact(length: usize) -> (res: Reading)
        ensures
            res.offset == 0,
            res.length == length,
            is_read_of(res, length as nat),
    {
        Reading { offset: 0, length }
    }

    /// What an open interface holds, in the order in which it is given back.
    pub fn resources(&self) -> (res: Vec<Resource>)
        ensures
            res@ == kept(),
    {
        let mut res: Vec<Resource> = Vec::new();
        res.push(Resource::Interface);
        res.push(Resource::Device);
        assert(res@ =~= kept());
        res
    }
}

/// A read that takes several transfers: the bytes before the offset are there.
#[derive(Clone, Copy, Debug, PartialEq, Eq, Structural)]
pub struct Reading {
    pub offset: usize,
    pub length: usize,
}

/// Whether a read of so many bytes begins.
pub open spec fn is_read_of(reading: Reading, length: nat) -> bool {
    reading.offset == 0 && reading.length == length
}

/// Whether the next transfer puts its bytes there.
pub open spec fn is_next(reading: Reading, place: Option<usize>) -> bool {
    place == if reading.offset < reading.length {
        Some(reading.offset)
    } else {
        None
    }
}

/// What a transfer means for a read.
pub open spec fn is_recorded(
    before: Reading,
    transferred: Result<u32, String>,
    after: Reading,
    result: Result<(), String>,
) -> bool {
    &&& after.length == before.length
    &&& match transferred {
        Ok(read) => {
            &&& after.offset == before.offset + read
            &&& read > 0 ==> result is Ok
            &&& read == 0 ==> (result matches Err(error) && error@ == "Empty USB read"@)
        },
        Err(reason) => {
            &&& after.offset == before.offset
            &&& result matches Err(error) && error@ == reason@
        },
    }
}

impl Reading {
    /// Where the next transfer puts its bytes, unless all of them are there.
    pub fn next(&self) -> (res: Option<usize>)
        ensures
            match res {
                Some(offset) => offset == self.offset && self.offset < self.length,
                None => self.offset >= self.length,
            },
            is_next(*self, res),
    {
        if self.offset < self.length {
            Some(self.offset)
        } else {
            None
        }
    }

    /// Takes note of a transfer.
    pub fn record(&mut self, transferred: Result<u32, String>) -> (res: Result<(), String>)
        requires
            transferred matches Ok(read) ==> old(self).offset + read <= usize::MAX,
        ensures
            final(self).length == old(self).length,
            match (transferred, res) {
                (Ok(read), Ok(_)) => read > 0 && final(self).offset == old(self).offset + read,
                (Ok(read), Err(error)) => {
                    &&& read == 0
                    &&& error@ == "Empty USB read"@
                    &&& final(self).offset == old(self).offset
                },
                (Err(reason), Err(error)) => {
                    &&& error@ == reason@
                    &&& final(self).offset == old(self).offset
                },
                (Err(_), Ok(_)) => false,
            },
            is_recorded(*old(self), transferred, *final(self), res),
    {
        match transferred {
            Ok(read) => {
                if read == 0 {
                    return Err("Empty USB read".to_owned());
                }
                self.offset += read as usize;
                Ok(())
            },
            Err(reason) => Err(reason),
        }
    }
}

/// The offset of a read after transfers of these sizes.
pub open spec fn offset_after(reading: Reading, sizes: Seq<u32>) -> int
    decreases sizes.len(),
{
    if sizes.len() == 0 {
        reading.offset as int
    } else {
        offset_after(reading, sizes.drop_last()) + sizes.last()
    }
}

/// A read ends: it takes at most one transfer for each byte that is missing,
/// because a transfer that brings nothing is an error.
pub proof fn reading_ends(reading: Reading, sizes: Seq<u32>)
    requires
        forall|k: int| 0 <= k < sizes.len() ==> sizes[k] > 0,
        sizes.len() >= reading.length - reading.offset,
    ensures
        offset_after(reading, sizes) >= reading.length,
{
    reading_advances(reading, sizes);
}

proof fn reading_advances(reading: Reading, sizes: Seq<u32>)
    requires
        forall|k: int| 0 <= k < sizes.len() ==> sizes[k] > 0,
    ensures
        offset_after(reading, sizes) >= reading.offset + sizes.len(),
    decreases sizes.len(),
{
    if sizes.len() > 0 {
        reading_advances(reading, sizes.drop_last());
    }
}

/// Which way a transfer goes.
#[derive(Clone, Copy, Debug, PartialEq, Eq, Structural)]
pub enum Direction {
    Read,
    Write,
}

/// Where a transfer stands.
#[derive(Clone, Copy, Debug, PartialEq, Eq, Structural)]
pub enum TransferStep {
    /// An event is to be made that tells of its end.
    Event,
    /// It is to be started.
    Start,
    /// Its end is to be waited for.
    Wait,
    /// Its result is to be asked for.
    Collect,
    /// It is over.
    Finished,
}

/// What a step of a transfer came to.
pub enum TransferEvent {
    /// The event was made, or has told of the end.
    Signal,
    /// So many bytes were transferred.
    Complete(u32),
    /// The transfer goes on.
    Pending,
    /// The step failed.
    Failed(String),
}

/// What is done next. At the end the event is closed, if there is one.
pub enum TransferAction {
    Start,
    Wait,
    Collect,
    Finish { close: bool, transferred: Result<u32, String> },
}

/// A transfer.
#[derive(Clone, Copy, Debug, PartialEq, Eq, Structural)]
pub struct Transfer {
    pub direction: Direction,
    pub step: TransferStep,
}

/// Whether a step can come to this.
pub open spec fn transfer_answers(step: TransferStep, event: TransferEvent) -> bool {
    match step {
        TransferStep::Event | TransferStep::Wait => event is Signal || event is Failed,
        TransferStep::Start => event !is Signal,
        TransferStep::Collect => event is Complete || event is Failed,
        TransferStep::Finished => false,
    }
}

/// The error of a wait that failed.
pub open spec fn wait_error(direction: Direction) -> Seq<char> {
    match direction {
        Direction::Read => "USB read wait failed"@,
        Direction::Write => "USB write wait failed"@,
    }
}

/// Whether this is a transfer of which nothing was done yet.
pub open spec fn is_new_transfer(direction: Direction, transfer: Transfer) -> bool {
    transfer.direction == direction && transfer.step is Event
}

/// What becomes of a transfer when a step came to this.
pub open spec fn is_transfer_step(
    before: Transfer,
    event: TransferEvent,
    after: Transfer,
    action: TransferAction,
) -> bool {
    &&& after.direction == before.direction
    &&& match event {
        TransferEvent::Signal => if before.step == TransferStep::Event {
            after.step == TransferStep::Start && action is Start
        } else {
            after.step == TransferStep::Collect && action is Collect
        },
        TransferEvent::Pending => after.step == TransferStep::Wait && action is Wait,
        TransferEvent::Complete(count) => {
            &&& after.step == TransferStep::Finished
            &&& action == TransferAction::Finish { close: true, transferred: Ok(count) }
        },
        TransferEvent::Failed(reason) => {
            &&& after.step == TransferStep::Finished
            &&& action matches TransferAction::Finish { close, transferred: Err(error) } && {
                &&& close == (before.step != TransferStep::Event)
                &&& error@ == if before.step == TransferStep::Wait {
                    wait_error(before.direction)
                } else {
                    reason@
                }
            }
        },
    }
}

impl Transfer {
    /// A transfer that is to begin with its event.
    pub fn new(direction: Direction) -> (res: Self)
        ensures
            res.direction == direction,
            res.step == TransferStep::Event,
            is_new_transfer(direction, res),
    {
        Transfer { direction, step: TransferStep::Event }
    }

    /// Takes note of what the current step came to.
    pub fn advance(&mut self, event: TransferEvent) -> (res: TransferAction)
        requires
            transfer_answers(old(self).step, event),
        ensures
            final(self).direction == old(self).direction,
            match (old(self).step, event) {
                (TransferStep::Event, TransferEvent::Signal) => {
                    final(self).step == TransferStep::Start && res is Start
                },
                (TransferStep::Start, TransferEvent::Pending) => {
                    final(self).step == TransferStep::Wait && res is Wait
                },
                (TransferStep::Wait, TransferEvent::Signal) => {
                    final(self).step == TransferStep::Collect && res is Collect
                },
                (step, TransferEvent::Complete(count)) => {
                    &&& final(self).step == TransferStep::Finished
                    &&& res == TransferAction::Finish { close: true, transferred: Ok(count) }
                },
                (step, TransferEvent::Failed(reason)) => {
                    &&& final(self).step == TransferStep::Finished
                    &&& res matches TransferAction::Finish { close, transferred: Err(error) } && {
                        &&& close == (step != TransferStep::Event)
                        &&& error@ == if step == TransferStep::Wait {
                            wait_error(old(self).direction)
                        } else {
                            reason@
                        }
                    }
                },
                _ => false,
            },
            is_transfer_step(*old(self), event, *final(self), res),
    {
        match event {
            TransferEvent::Signal => {
                if let TransferStep::Event = self.step {
                    self.step = TransferStep::Start;
                    TransferAction::Start
                } else {
                    self.step = TransferStep::Collect;
                    TransferAction::Collect
                }
            },
            TransferEvent::Pending => {
                self.step = TransferStep::Wait;
                TransferAction::Wait
            },
            TransferEvent::Complete(count) => {
                self.step = TransferStep::Finished;
                TransferAction::Finish { close: true, transferred: Ok(count) }
            },
            TransferEvent::Failed(reason) => {
                let (close, error) = match self.step {
                    TransferStep::Event => (false, reason),
                    TransferStep::Wait => (
                        true,
                        match self.direction {
                            Direction::Read => "USB read wait failed".to_owned(),
                            Direction::Write => "USB write wait failed".to_owned(),
                        },
                    ),
                    _ => (true, reason),
                };
                self.step = TransferStep::Finished;
                TransferAction::Finish { close, transferred: Err(error) }
            },
        }
    }
}

/// What comes of picking the endpoints from these pipes.
pub open spec fn is_selected(pipes: Seq<Option<Pipe>>, selection: Result<Usb, String>) -> bool {
    match selection {
        Ok(usb) => {
            &&& usb.wf()
            &&& usb.input == last_bulk(pipes, true)
            &&& usb.output == last_bulk(pipes, false)
        },
        Err(error) => {
            &&& last_bulk(pipes, true) == 0 || last_bulk(pipes, false) == 0
            &&& error@ == "PenCast bulk endpoints are unavailable"@
        },
    }
}

/// Picks the endpoints from the pipes of the interface.
pub fn select_endpoints(pipes: &[Option<Pipe>]) -> (res: Result<Usb, String>)
    ensures
        match res {
            Ok(usb) => {
                &&& usb.wf()
                &&& usb.input == last_bulk(pipes@, true)
                &&& usb.output == last_bulk(pipes@, false)
            },
            Err(error) => {
                &&& last_bulk(pipes@, true) == 0 || last_bulk(pipes@, false) == 0
                &&& error@ == "PenCast bulk endpoints are unavailable"@
            },
        },
        is_selected(pipes@, res),
{
    let mut input: u8 = 0;
    let mut output: u8 = 0;
    let mut index: usize = 0;
    while index < pipes.len()
        invariant
            index <= pipes@.len(),
            input == last_bulk(pipes@.take(index as int), true),
            output == last_bulk(pipes@.take(index as int), false),
            input == 0 || is_input(input),
            !is_input(output),
        decreases pipes@.len() - index,
    {
        assert(pipes@.take(index + 1).drop_last() =~= pipes@.take(index as int));
        if let Some(pipe) = pipes[index] {
            if pipe.bulk {
                let id: u8 = pipe.id;
                assert(id & 0x80 != 0 <==> id >= 0x80) by (bit_vector);
                if id & 0x80 != 0 {
                    input = id;
                } else {
                    output = id;
                }
            }
        }
        index += 1;
    }
    assert(pipes@.take(index as int) =~= pipes@);
    if input == 0 || output == 0 {
        return Err("PenCast bulk endpoints are unavailable".to_owned());
    }
    Ok(Usb { input, output })
}

/// What is picked is a bulk pipe of the interface in its direction, and an input
/// is found exactly if there is a bulk pipe in.
pub proof fn endpoints_are_bulk_pipes(pipes: Seq<Option<Pipe>>, input: bool)
    ensures
        last_bulk(pipes, input) != 0 ==> exists|k: int|
            0 <= k < pipes.len() && #[trigger] pipes[k] == Some(
                Pipe { bulk: true, id: last_bulk(pipes, input) },
            ),
        last_bulk(pipes, input) != 0 ==> is_input(last_bulk(pipes, input)) == input,
        last_bulk(pipes, true) == 0 <==> forall|k: int|
            0 <= k < pipes.len() ==> !(#[trigger] pipes[k] matches Some(pipe) && pipe.bulk
                && is_input(pipe.id)),
    decreases pipes.len(),
{
    if pipes.len() > 0 {
        let rest = pipes.drop_last();
        endpoints_are_bulk_pipes(rest, input);
        assert(pipes[pipes.len() - 1] == pipes.last());
        if last_bulk(pipes, input) != 0 && last_bulk(pipes, input) == last_bulk(rest, input) {
            let k = choose|k: int|
                0 <= k < rest.len() && #[trigger] rest[k] == Some(
                    Pipe { bulk: true, id: last_bulk(rest, input) },
                );
            assert(pipes[k] == rest[k]);
        }
        if last_bulk(pipes, true) == 0 {
            assert forall|k: int| 0 <= k < pipes.len() implies !(#[trigger] pipes[k] matches Some(
                pipe,
            ) && pipe.bulk && is_input(pipe.id)) by {
                if k < rest.len() {
                    assert(pipes[k] == rest[k]);
                }
            }
        } else if !(pipes.last() matches Some(pipe) && pipe.bulk && is_input(pipe.id)) {
            let k = choose|k: int|
                0 <= k < rest.len() && (#[trigger] rest[k] matches Some(pipe) && pipe.bulk
                    && is_input(pipe.id));
            assert(pipes[k] == rest[k]);
        }
    }
}

/// What is held while the interface is opened.
#[derive(Clone, Copy, Debug, PartialEq, Eq, Structural)]
pub enum Resource {
    /// The list of devices.
    List,
    /// The device.
    Device,
    /// The interface of the device.
    Interface,
}

/// The steps that open the interface, in order.
#[derive(Clone, Copy, Debug, PartialEq, Eq, Structural)]
pub enum OpenStep {
    /// List the devices.
    List,
    /// Find the interface in the list.
    Find,
    /// Ask how long its path is.
    Measure,
    /// Ask for its path.
    Path,
    /// Open the device.
    Device,
    /// Open the interface of the device.
    Interface,
    /// Ask for the number of its pipes.
    Settings,
    /// Ask for its pipes.
    Pipes,
    /// It is over.
    Finished,
}

/// What a step came to.
pub enum OpenEvent {
    /// The step succeeded.
    Done,
    /// The path takes so many bytes.
    Size(u32),
    /// The pipes, as far as they could be asked for.
    Pipes(Vec<Option<Pipe>>),
    /// The step failed.
    Failed(String),
}

/// How far opening the interface has come. What is to be given back is given
/// back in order.
pub enum OpenProgress {
    /// There is another step.
    Next,
    /// The interface is open.
    Opened { usb: Usb, release: Vec<Resource> },
    /// It could not be opened.
    Failed { error: String, release: Vec<Resource> },
}

/// What is held at a step, the latest first.
pub open spec fn held(step: OpenStep) -> Seq<Resource> {
    match step {
        OpenStep::List | OpenStep::Finished => seq![],
        OpenStep::Find | OpenStep::Measure | OpenStep::Path | OpenStep::Device => seq![
            Resource::List,
        ],
        OpenStep::Interface => seq![Resource::Device, Resource::List],
        OpenStep::Settings | OpenStep::Pipes => seq![
            Resource::Interface,
            Resource::Device,
            Resource::List,
        ],
    }
}

/// What an open interface holds, the latest first.
pub open spec fn kept() -> Seq<Resource> {
    seq![Resource::Interface, Resource::Device]
}

/// The step after a step that succeeded.
pub open spec fn open_following(step: OpenStep) -> OpenStep {
    match step {
        OpenStep::List => OpenStep::Find,
        OpenStep::Find => OpenStep::Measure,
        OpenStep::Measure => OpenStep::Path,
        OpenStep::Path => OpenStep::Device,
        OpenStep::Device => OpenStep::Interface,
        OpenStep::Interface => OpenStep::Settings,
        OpenStep::Settings => OpenStep::Pipes,
        OpenStep::Pipes | OpenStep::Finished => OpenStep::Finished,
    }
}

/// Whether a step can come to this.
pub open spec fn open_answers(step: OpenStep, event: OpenEvent) -> bool {
    match step {
        OpenStep::Measure => event is Size,
        OpenStep::Pipes => event is Pipes,
        OpenStep::Finished => false,
        _ => event is Done || event is Failed,
    }
}

/// The interface while it is opened.
#[derive(Clone, Copy, Debug, PartialEq, Eq, Structural)]
pub struct Opening {
    pub step: OpenStep,
}

/// Starts to open the interface.
pub fn open() -> (res: Opening)
    ensures
        res.step == OpenStep::List,
        is_closed(res),
{
    Opening { step: OpenStep::List }
}

/// Whether nothing was done yet to open the interface.
pub open spec fn is_closed(opening: Opening) -> bool {
    opening.step is List
}

/// What becomes of opening the interface when a step came to this.
pub open spec fn is_open_step(
    before: Opening,
    event: OpenEvent,
    after: Opening,
    progress: OpenProgress,
) -> bool {
    match progress {
        OpenProgress::Next => {
            &&& event is Done || (event matches OpenEvent::Size(size) && size != 0)
            &&& after.step == open_following(before.step)
        },
        OpenProgress::Opened { usb, release } => {
            &&& event matches OpenEvent::Pipes(pipes) && is_selected(pipes@, Ok(usb))
            &&& kept() + release@ == held(before.step)
            &&& after.step == OpenStep::Finished
        },
        OpenProgress::Failed { error, release } => {
            &&& match event {
                OpenEvent::Done => false,
                OpenEvent::Size(size) => size == 0 && error@ == "PenCast USB path is unavailable"@,
                OpenEvent::Pipes(pipes) => is_selected(pipes@, Err(error)),
                OpenEvent::Failed(reason) => error@ == if before.step == OpenStep::Find {
                    "PenCast USB interface not found"@
                } else {
                    reason@
                },
            }
            &&& release@ == held(before.step)
            &&& after.step == OpenStep::Finished
        },
    }
}

impl Opening {
    /// Takes note of what the current step came to.
    pub fn advance(&mut self, event: OpenEvent) -> (res: OpenProgress)
        requires
            open_answers(old(self).step, event),
        ensures
            match event {
                OpenEvent::Done => {
                    &&& final(self).step == open_following(old(self).step)
                    &&& res is Next
                },
                OpenEvent::Size(size) => if size == 0 {
                    &&& final(self).step == OpenStep::Finished
                    &&& res matches OpenProgress::Failed { error, release } && {
                        &&& error@ == "PenCast USB path is unavailable"@
                        &&& release@ == held(old(self).step)
                    }
                } else {
                    &&& final(self).step == open_following(old(self).step)
                    &&& res is Next
                },
                OpenEvent::Failed(reason) => {
                    &&& final(self).step == OpenStep::Finished
                    &&& res matches OpenProgress::Failed { error, release } && {
                        &&& error@ == if old(self).step == OpenStep::Find {
                            "PenCast USB interface not found"@
                        } else {
                            reason@
                        }
                        &&& release@ == held(old(self).step)
                    }
                },
                OpenEvent::Pipes(pipes) => {
                    &&& final(self).step == OpenStep::Finished
                    &&& if last_bulk(pipes@, true) == 0 || last_bulk(pipes@, false) == 0 {
                        res matches OpenProgress::Failed { error, release } && {
                            &&& error@ == "PenCast bulk endpoints are unavailable"@
                            &&& release@ == held(old(self).step)
                        }
                    } else {
                        res matches OpenProgress::Opened { usb, release } && {
                            &&& usb.wf()
                            &&& usb.input == last_bulk(pipes@, true)
                            &&& usb.output == last_bulk(pipes@, false)
                            &&& kept() + release@ == held(old(self).step)
                        }
                    }
                },
            },
            is_open_step(*old(self), event, *final(self), res),
    {
        match event {
            OpenEvent::Done => {
                self.forward();
                OpenProgress::Next
            },
            OpenEvent::Size(size) => {
                if size == 0 {
                    self.fail("PenCast USB path is unavailable".to_owned())
                } else {
                    self.forward();
                    OpenProgress::Next
                }
            },
            OpenEvent::Failed(reason) => {
                if let OpenStep::Find = self.step {
                    self.fail("PenCast USB interface not found".to_owned())
                } else {
                    self.fail(reason)
                }
            },
            OpenEvent::Pipes(pipes) => match select_endpoints(pipes.as_slice()) {
                Ok(usb) => {
                    self.step = OpenStep::Finished;
                    let mut release: Vec<Resource> = Vec::new();
                    release.push(Resource::List);
                    assert(kept() + release@ =~= held(OpenStep::Pipes));
                    OpenProgress::Opened { usb, release }
                },
                Err(error) => self.fail(error),
            },
        }
    }

    fn forward(&mut self)
        ensures
            final(self).step == open_following(old(self).step),
    {
        self.step = match self.step {
            OpenStep::List => OpenStep::Find,
            OpenStep::Find => OpenStep::Measure,
            OpenStep::Measure => OpenStep::Path,
            OpenStep::Path => OpenStep::Device,
            OpenStep::Device => OpenStep::Interface,
            OpenStep::Interface => OpenStep::Settings,
            OpenStep::Settings => OpenStep::Pipes,
            OpenStep::Pipes => OpenStep::Finished,
            OpenStep::Finished => OpenStep::Finished,
        };
    }

    fn fail(&mut self, error: String) -> (res: OpenProgress)
        ensures
            final(self).step == OpenStep::Finished,
            res matches OpenProgress::Failed { error: shown, release } && shown@ == error@
                && release@ == held(old(self).step),
    {
        let mut release: Vec<Resource> = Vec::new();
        match self.step {
            OpenStep::List => {},
            OpenStep::Find => {
                release.push(Resource::List);
            },
            OpenStep::Measure => {
                release.push(Resource::List);
            },
            OpenStep::Path => {
                release.push(Resource::List);
            },
            OpenStep::Device => {
                release.push(Resource::List);
            },
            OpenStep::Interface => {
                release.push(Resource::Device);
                release.push(Resource::List);
            },
            OpenStep::Settings => {
                release.push(Resource::Interface);
                release.push(Resource::Device);
                release.push(Resource::List);
            },
            OpenStep::Pipes => {
                release.push(Resource::Interface);
                release.push(Resource::Device);
                release.push(Resource::List);
            },
            OpenStep::Finished => {},
        }
        assert(release@ =~= held(self.step));
        self.step = OpenStep::Finished;
        OpenProgress::Failed { error, release }
    }
}

/// What a step acquires, if it succeeds.
pub open spec fn acquired(step: OpenStep) -> Seq<Resource> {
    match step {
        OpenStep::List => seq![Resource::List],
        OpenStep::Device => seq![Resource::Device],
        OpenStep::Interface => seq![Resource::Interface],
        _ => seq![],
    }
}

/// Nothing is lost and nothing is given back twice: what is held grows by what
/// a step acquires and by nothing else, no resource is held twice, and what is
/// held before the pipes are asked for is what the open interface keeps and the
/// list.
pub proof fn resources_are_accounted_for(step: OpenStep)
    requires
        step != OpenStep::Pipes,
        step != OpenStep::Finished,
    ensures
        held(open_following(step)) == acquired(step) + held(step),
        held(open_following(step)).no_duplicates(),
        held(OpenStep::List) == Seq::<Resource>::empty(),
        held(OpenStep::Pipes) == kept() + seq![Resource::List],
{
    assert(held(open_following(step)) =~= acquired(step) + held(step));
    assert(held(OpenStep::Pipes) =~= kept() + seq![Resource::List]);
}

/// The endpoint in a direction is the last of the bulk pipes in it, whatever
/// stands behind that one.
pub proof fn last_bulk_pipe_counts(pipes: Seq<Option<Pipe>>, index: int, id: u8)
    requires
        0 <= index < pipes.len(),
        pipes[index] == Some(Pipe { bulk: true, id }),
        forall|k: int|
            index < k < pipes.len() ==> !(#[trigger] pipes[k] matches Some(pipe) && pipe.bulk && (
            pipe.id < 128 <==> id < 128)),
    ensures
        last_bulk(pipes, id >= 128) == id,
    decreases pipes.len(),
{
    let last = pipes.len() - 1;
    assert(pipes.last() == pipes[last]);
    if index < last {
        let rest = pipes.drop_last();
        assert forall|k: int| index < k < rest.len() implies !(#[trigger] rest[k] matches Some(pipe)
            && pipe.bulk && (pipe.id < 128 <==> id < 128)) by {
            assert(rest[k] == pipes[k]);
        }
        last_bulk_pipe_counts(rest, index, id);
    }
}

/// There is no endpoint in a direction without a bulk pipe in it.
pub proof fn without_bulk_pipes_there_is_no_endpoint(pipes: Seq<Option<Pipe>>, input: bool)
    requires
        forall|k: int|
            0 <= k < pipes.len() ==> !(#[trigger] pipes[k] matches Some(pipe) && pipe.bulk && (
            pipe.id >= 128) == input),
    ensures
        last_bulk(pipes, input) == 0,
    decreases pipes.len(),
{
    if pipes.len() > 0 {
        assert(pipes.last() == pipes[pipes.len() - 1]);
        let rest = pipes.drop_last();
        assert forall|k: int| 0 <= k < rest.len() implies !(#[trigger] rest[k] matches Some(pipe)
            && pipe.bulk && (pipe.id >= 128) == input) by {
            assert(rest[k] == pipes[k]);
        }
        without_bulk_pipes_there_is_no_endpoint(rest, input);
    }
}

/// With bulk pipes in both directions the endpoints are picked: the last one in
/// and the last one out, unless the last one out is the control endpoint.
pub proof fn endpoints_are_the_last_bulk_pipes(
    pipes: Seq<Option<Pipe>>,
    input: int,
    output: int,
    selection: Result<Usb, String>,
)
    requires
        is_selected(pipes, selection),
        0 <= input < pipes.len(),
        0 <= output < pipes.len(),
        pipes[input] matches Some(pipe) && pipe.bulk && pipe.id >= 128,
        pipes[output] matches Some(pipe) && pipe.bulk && pipe.id < 128,
        forall|k: int|
            input < k < pipes.len() ==> !(#[trigger] pipes[k] matches Some(pipe) && pipe.bulk
                && pipe.id >= 128),
        forall|k: int|
            output < k < pipes.len() ==> !(#[trigger] pipes[k] matches Some(pipe) && pipe.bulk
                && pipe.id < 128),
    ensures
        selection is Ok <==> pipes[output].unwrap().id != 0,
        selection matches Ok(usb) ==> usb.input == pipes[input].unwrap().id && usb.output
            == pipes[output].unwrap().id,
        selection matches Err(error) ==> error@ == "PenCast bulk endpoints are unavailable"@,
{
    last_bulk_pipe_counts(pipes, input, pipes[input].unwrap().id);
    last_bulk_pipe_counts(pipes, output, pipes[output].unwrap().id);
}

/// Without a bulk pipe in, or without one out, no endpoints are picked.
pub proof fn missing_endpoints_are_told(
    pipes: Seq<Option<Pipe>>,
    input: bool,
    selection: Result<Usb, String>,
)
    requires
        is_selected(pipes, selection),
        forall|k: int|
            0 <= k < pipes.len() ==> !(#[trigger] pipes[k] matches Some(pipe) && pipe.bulk && (
            pipe.id >= 128) == input),
    ensures
        selection matches Err(error) && error@ == "PenCast bulk endpoints are unavailable"@,
{
    without_bulk_pipes_there_is_no_endpoint(pipes, input);
}

/// Endpoints are well-formed exactly if one is in, the other is out, and the
/// other is not the control endpoint.
pub proof fn well_formed_endpoints(usb: Usb)
    ensures
        usb.wf() <==> usb.input >= 128 && 0 < usb.output < 128,
{
}

/// Data is read from the endpoint in, and written to the endpoint out.
pub proof fn transfers_use_the_endpoint_of_their_direction(
    usb: Usb,
    reading: u8,
    writing: u8,
)
    requires
        is_endpoint(usb, Direction::Read, reading),
        is_endpoint(usb, Direction::Write, writing),
    ensures
        reading == usb.input,
        writing == usb.output,
{
}

/// A write succeeds exactly if all bytes were written; a transfer that failed is
/// told in its own words.
pub proof fn writes_are_whole(
    length: nat,
    transferred: Result<u32, String>,
    check: Result<(), String>,
)
    requires
        is_write_check(length, transferred, check),
    ensures
        check is Ok <==> (transferred matches Ok(written) && written == length),
        check matches Err(error) ==> error@ == match transferred {
            Ok(_) => "Short USB write"@,
            Err(reason) => reason@,
        },
{
}

/// A read goes on where the last transfer ended, for as long as bytes are
/// missing; a transfer without bytes is an error.
pub proof fn reads_go_on_where_they_ended(
    before: Reading,
    transferred: Result<u32, String>,
    after: Reading,
    result: Result<(), String>,
    place: Option<usize>,
)
    requires
        is_recorded(before, transferred, after, result),
        is_next(after, place),
    ensures
        after.length == before.length,
        result is Ok <==> (transferred matches Ok(read) && read > 0),
        result is Ok && before.offset + transferred.unwrap() < before.length ==> (
        place matches Some(offset) && offset == before.offset + transferred.unwrap()),
        result is Ok && before.offset + transferred.unwrap() >= before.length ==> place is None,
        result is Err ==> after.offset == before.offset,
        result matches Err(error) ==> error@ == match transferred {
            Ok(_) => "Empty USB read"@,
            Err(reason) => reason@,
        },
{
}

/// After transfers of these sizes a read stands behind all of their bytes.
pub proof fn reads_add_up(reading: Reading, sizes: Seq<u32>, size: u32)
    ensures
        offset_after(reading, Seq::empty()) == reading.offset,
        offset_after(reading, sizes.push(size)) == offset_after(reading, sizes) + size,
{
    assert(sizes.push(size).drop_last() =~= sizes);
}

/// A transfer makes its event, starts, and if it does not end at once waits and
/// asks for its result. It ends with the bytes that were transferred or with an
/// error, and then its event is closed if it was made.
pub proof fn transfers_end_with_their_result(
    before: Transfer,
    event: TransferEvent,
    after: Transfer,
    action: TransferAction,
)
    requires
        transfer_answers(before.step, event),
        is_transfer_step(before, event, after, action),
    ensures
        after.direction == before.direction,
        event is Signal && before.step is Event ==> after.step is Start && action is Start,
        event is Signal && before.step is Wait ==> after.step is Collect && action is Collect,
        event is Pending ==> before.step is Start && after.step is Wait && action is Wait,
        event is Complete || event is Failed <==> action is Finish,
        event is Complete || event is Failed <==> after.step is Finished,
        action matches TransferAction::Finish { close, transferred } ==> {
            &&& close <==> before.step !is Event
            &&& transferred is Ok <==> event is Complete
            &&& transferred matches Ok(count) ==> event == TransferEvent::Complete(count)
            &&& transferred matches Err(error) ==> error@ == if before.step is Wait {
                "USB "@ + match before.direction {
                    Direction::Read => "read"@,
                    Direction::Write => "write"@,
                } + " wait failed"@
            } else {
                event->Failed_0@
            }
        },
{
    reveal_strlit("USB read wait failed");
    reveal_strlit("USB write wait failed");
    reveal_strlit("USB ");
    reveal_strlit("read");
    reveal_strlit("write");
    reveal_strlit(" wait failed");
    assert("USB read wait failed"@ =~= "USB "@ + "read"@ + " wait failed"@);
    assert("USB write wait failed"@ =~= "USB "@ + "write"@ + " wait failed"@);
}

/// A transfer can come to an end at every step, and to nothing once it ended.
pub proof fn transfers_can_fail_at_every_step(step: TransferStep, reason: String)
    ensures
        transfer_answers(step, TransferEvent::Failed(reason)) <==> step !is Finished,
        transfer_answers(step, TransferEvent::Signal) <==> step is Event || step is Wait,
        transfer_answers(step, TransferEvent::Pending) <==> step is Start,
        forall|count: u32| #[trigger]
            transfer_answers(step, TransferEvent::Complete(count)) <==> step is Start
                || step is Collect,
{
}

/// Opening the interface goes on from step to step, in order: the devices are
/// listed, the interface is found, its path is measured and asked for, the device
/// and the interface are opened, and the settings and pipes are asked for.
pub proof fn opening_goes_on_in_order(
    before: Opening,
    event: OpenEvent,
    after: Opening,
    progress: OpenProgress,
)
    requires
        open_answers(before.step, event),
        is_open_step(before, event, after, progress),
    ensures
        progress is Next <==> event is Done || (event matches OpenEvent::Size(size) && size > 0),
        progress is Next && before.step is List ==> after.step is Find,
        progress is Next && before.step is Find ==> after.step is Measure,
        progress is Next && before.step is Measure ==> after.step is Path,
        progress is Next && before.step is Path ==> after.step is Device,
        progress is Next && before.step is Device ==> after.step is Interface,
        progress is Next && before.step is Interface ==> after.step is Settings,
        progress is Next && before.step is Settings ==> after.step is Pipes,
        progress !is Next ==> after.step is Finished,
        progress is Opened ==> before.step is Pipes && (event matches OpenEvent::Pipes(pipes)
            && is_selected(pipes@, Ok(progress->usb))),
{
}

/// If the interface cannot be opened, this is told in the words of the step, and
/// what was acquired before is given back, the latest first.
pub proof fn failed_openings_give_everything_back(
    before: Opening,
    event: OpenEvent,
    after: Opening,
    progress: OpenProgress,
)
    requires
        open_answers(before.step, event),
        is_open_step(before, event, after, progress),
        progress is Failed,
    ensures
        progress->error@ == match event {
            OpenEvent::Failed(reason) => if before.step is Find {
                "PenCast USB interface not found"@
            } else {
                reason@
            },
            OpenEvent::Pipes(_) => "PenCast bulk endpoints are unavailable"@,
            _ => "PenCast USB path is unavailable"@,
        },
        before.step is List ==> progress->Failed_release@.len() == 0,
        before.step is Find || before.step is Measure || before.step is Path
            || before.step is Device ==> progress->Failed_release@ == seq![Resource::List],
        before.step is Interface ==> progress->Failed_release@ == seq![
            Resource::Device,
            Resource::List,
        ],
        before.step is Settings || before.step is Pipes ==> progress->Failed_release@ == seq![
            Resource::Interface,
            Resource::Device,
            Resource::List,
        ],
{
}

/// Once the interface is open only the list is given back, and it is the device
/// and its interface that are kept, to be given back in the reverse order.
pub proof fn open_interfaces_keep_device_and_interface(
    before: Opening,
    event: OpenEvent,
    after: Opening,
    progress: OpenProgress,
)
    requires
        open_answers(before.step, event),
        is_open_step(before, event, after, progress),
        progress is Opened,
    ensures
        progress->Opened_release@ == seq![Resource::List],
        kept().len() == 2,
        kept()[0] is Interface,
        kept()[1] is Device,
{
    let release = progress->Opened_release@;
    let all = kept() + release;
    assert(all == held(OpenStep::Pipes));
    assert(release.len() == 1);
    assert(all[2] == release[0]);
    assert(release =~= seq![Resource::List]);
}

/// Only the size of the path can come of measuring it, only the pipes of asking
/// for them, and every other step succeeds or fails.
pub proof fn openings_can_fail_at_every_step(step: OpenStep, reason: String)
    ensures
        open_answers(step, OpenEvent::Failed(reason)) <==> step !is Measure && step !is Pipes
            && step !is Finished,
        open_answers(step, OpenEvent::Done) <==> step !is Measure && step !is Pipes
            && step !is Finished,
        forall|size: u32| #[trigger]
            open_answers(step, OpenEvent::Size(size)) <==> step is Measure,
        forall|pipes: Vec<Option<Pipe>>| #[trigger]
            open_answers(step, OpenEvent::Pipes(pipes)) <==> step is Pipes,
{
}

/// A read of so many bytes begins with all of them missing, at the first place,
/// and is over once transfers have brought so many.
pub proof fn reads_begin_with_all_bytes_missing(
    reading: Reading,
    length: nat,
    place: Option<usize>,
    read: u32,
    after: Reading,
    result: Result<(), String>,
    later: Option<usize>,
)
    requires
        is_read_of(reading, length),
        is_next(reading, place),
        is_recorded(reading, Ok(read), after, result),
        is_next(after, later),
    ensures
        length == 0 <==> place is None,
        length > 0 ==> place == Some(0usize),
        later is None <==> read >= length,
        later matches Some(offset) ==> offset == read,
{
}

/// A transfer begins with its event, and goes the way that it was made for.
pub proof fn transfers_begin_with_their_event(
    direction: Direction,
    transfer: Transfer,
    event: TransferEvent,
    after: Transfer,
    action: TransferAction,
)
    requires
        is_new_transfer(direction, transfer),
        transfer_answers(transfer.step, event),
        is_transfer_step(transfer, event, after, action),
    ensures
        transfer.direction == direction,
        after.direction == direction,
        event is Signal ==> action is Start,
        event !is Signal ==> action is Finish && !action->close,
{
}

/// Opening the interface begins with the list of devices, and with nothing to be
/// given back.
pub proof fn opening_begins_with_the_list(
    opening: Opening,
    event: OpenEvent,
    after: Opening,
    progress: OpenProgress,
)
    requires
        is_closed(opening),
        open_answers(opening.step, event),
        is_open_step(opening, event, after, progress),
    ensures
        event is Done ==> progress is Next && after.step is Find,
        event !is Done ==> progress is Failed && progress->Failed_release@.len() == 0,
{
}

} // verus!
