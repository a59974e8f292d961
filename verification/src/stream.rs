//! The conversation with the tablet, from setting up a session to the last
//! frame.
//!
//! The stream asks for one action after the other and is told what came of it.
//! It sets up a session, opens the USB interface, shakes hands, and then reads
//! configurations and frames until it is told to end or something fails. The
//! tablet is then told to stop and the interface is given back. If the
//! handshake failed, all of this is tried once more.
use vstd::prelude::*;

use crate::jpeg::{
    decode_jpeg, frame_error, frame_replaces_buffer, is_countable, is_decoded, jpeg_pixels,
    opaque_pixels,
};
use crate::protocol::{
    has_magic, is_message, is_published, le32, messages_are_laid_out, packet_fits, packet_size,
    packets_within_the_room_are_accepted, publish, sizes_up_to_the_limit_are_supported,
    start_command, starts_with, stop_command, supported, Config, Frames, CONFIG_MAGIC, FPS,
    MAX_FRAME_BYTES, READY_MAGIC, START_MAGIC, STOP_MAGIC,
};

verus! {

/// The error of a tablet that does not say that it is ready.
pub const HANDSHAKE_ERROR: &'static str = "Invalid PenCast USB handshake";

/// Where the stream stands: what was asked for last.
#[derive(Clone, Copy, Debug, PartialEq, Eq)]
pub enum StreamStep {
    /// Set up a session.
    Provision,
    /// Open the USB interface.
    WaitForUsb,
    /// Read whether the tablet is ready.
    ReadReady,
    /// Start the stream.
    WriteStart,
    /// Read the first configuration.
    ReadHeader,
    /// Fit the window to the configuration.
    Resize,
    /// Ask whether the program still runs.
    CheckRunning,
    /// Read the start of a message.
    ReadPacket,
    /// Read the rest of the configuration that starts with these bytes.
    ReadConfig([u8; 16]),
    /// Read a frame of so many bytes.
    ReadFrame(usize),
    /// Show the frame.
    Publish,
    /// Tell the window of the frame.
    Notify,
    /// Take an input command from the queue.
    TakeCommand,
    /// Send the input command.
    WriteCommand([u8; 16]),
    /// Stop the stream.
    WriteStop,
    /// Give the USB interface back.
    Release,
    /// Ask whether the program still runs, to try once more.
    CheckRetry,
    /// End the session, to try once more.
    WaitForCleanup,
    /// It is over.
    Finished,
}

/// What the stream asks for.
#[derive(Clone, Copy, Debug, PartialEq, Eq)]
pub enum StreamAction {
    /// Set up a session.
    Provision,
    /// Open the USB interface.
    WaitForUsb,
    /// Read so many bytes.
    Read(usize),
    /// Write these bytes.
    Write([u8; 16]),
    /// Fit the window to the configuration.
    Resize,
    /// Ask whether the program still runs.
    CheckRunning,
    /// Show the frame, and note that the window is to be told of it.
    Publish,
    /// Tell the window of the frame.
    Notify,
    /// Take an input command from the queue.
    TakeCommand,
    /// Give the USB interface back.
    Release,
    /// End the session.
    WaitForCleanup,
    /// Nothing: the stream is over.
    Finish,
}

/// What came of an action.
pub enum StreamEvent {
    /// It was done.
    Done,
    /// These bytes were read.
    Bytes(Vec<u8>),
    /// Whether the program still runs.
    Running(bool),
    /// The frame is shown; the window may have yet to look at an earlier one.
    Published { pending: bool },
    /// The next input command, if there is one.
    Command(Option<[u8; 16]>),
    /// It failed.
    Failed(String),
}

/// The stream: where it stands, how often it was tried before, the size of the
/// frames, the pixels of the latest one, and what it came to.
pub struct Stream {
    pub step: StreamStep,
    pub attempt: u8,
    pub config: Config,
    pub raw: Vec<u8>,
    pub result: Result<(), String>,
}

/// Whether the USB interface is open at this step.
pub open spec fn connected(step: StreamStep) -> bool {
    !(step is Provision || step is WaitForUsb || step is CheckRetry || step is WaitForCleanup
        || step is Finished)
}

/// Whether a configuration was received at this step.
pub open spec fn configured(step: StreamStep) -> bool {
    ||| step is Resize
    ||| step is CheckRunning
    ||| step is ReadPacket
    ||| step is ReadConfig
    ||| step is ReadFrame
    ||| step is Publish
    ||| step is Notify
    ||| step is TakeCommand
    ||| step is WriteCommand
}

/// Whether the outcome of the stream is known at this step.
pub open spec fn ending(step: StreamStep) -> bool {
    step is WriteStop || step is Release || step is CheckRetry || step is WaitForCleanup
        || step is Finished
}

/// Why the stream ended, or nothing if it was told to.
pub open spec fn reason(result: Result<(), String>) -> Option<Seq<char>> {
    match result {
        Ok(_) => None,
        Err(error) => Some(error@),
    }
}

/// The buffer, cut or filled up with zeros.
pub open spec fn resized(raw: Seq<u8>, length: nat) -> Seq<u8> {
    Seq::new(
        length,
        |k: int|
            if k < raw.len() {
                raw[k]
            } else {
                0
            },
    )
}

/// Whether this is what a step asks for.
pub open spec fn is_action(step: StreamStep, action: StreamAction) -> bool {
    match step {
        StreamStep::Provision => action is Provision,
        StreamStep::WaitForUsb => action is WaitForUsb,
        StreamStep::ReadReady | StreamStep::ReadPacket => action == StreamAction::Read(16),
        StreamStep::WriteStart => action matches StreamAction::Write(bytes) && is_message(
            bytes@,
            START_MAGIC,
            FPS as int,
            0,
            0,
        ),
        StreamStep::ReadHeader => action == StreamAction::Read(48),
        StreamStep::Resize => action is Resize,
        StreamStep::CheckRunning | StreamStep::CheckRetry => action is CheckRunning,
        StreamStep::ReadConfig(_) => action == StreamAction::Read(32),
        StreamStep::ReadFrame(length) => action == StreamAction::Read(length),
        StreamStep::Publish => action is Publish,
        StreamStep::Notify => action is Notify,
        StreamStep::TakeCommand => action is TakeCommand,
        StreamStep::WriteCommand(command) => action == StreamAction::Write(command),
        StreamStep::WriteStop => action matches StreamAction::Write(bytes) && is_message(
            bytes@,
            STOP_MAGIC,
            0,
            0,
            0,
        ),
        StreamStep::Release => action is Release,
        StreamStep::WaitForCleanup => action is WaitForCleanup,
        StreamStep::Finished => action is Finish,
    }
}

/// Whether a read of so many bytes can come to this.
pub open spec fn is_read(event: StreamEvent, length: int) -> bool {
    event is Failed || (event matches StreamEvent::Bytes(bytes) && bytes@.len() == length)
}

/// Whether what a step asks for can come to this.
pub open spec fn answers(step: StreamStep, event: StreamEvent) -> bool {
    match step {
        StreamStep::ReadReady | StreamStep::ReadPacket => is_read(event, 16),
        StreamStep::ReadHeader => is_read(event, 48),
        StreamStep::ReadConfig(_) => is_read(event, 32),
        StreamStep::ReadFrame(length) => is_read(event, length as int),
        StreamStep::CheckRunning | StreamStep::CheckRetry => event is Running,
        StreamStep::Publish => event is Published,
        StreamStep::TakeCommand => event is Command,
        StreamStep::Resize | StreamStep::Notify | StreamStep::Release => event is Done,
        StreamStep::Finished => false,
        _ => event is Done || event is Failed,
    }
}

/// The stream goes on with this step, and nothing else changes.
pub open spec fn goes_on(before: Stream, after: Stream, step: StreamStep) -> bool {
    &&& after.step == step
    &&& after.attempt == before.attempt
    &&& after.config == before.config
    &&& after.raw@ == before.raw@
    &&& reason(after.result) == reason(before.result)
}

/// The stream goes on with this step and this outcome, and nothing else changes.
pub open spec fn ends(
    before: Stream,
    after: Stream,
    step: StreamStep,
    outcome: Option<Seq<char>>,
) -> bool {
    &&& after.step == step
    &&& after.attempt == before.attempt
    &&& after.config == before.config
    &&& after.raw@ == before.raw@
    &&& reason(after.result) == outcome
}

/// The stream takes up a configuration, or stops because of it.
pub open spec fn takes_up(before: Stream, after: Stream, header: Seq<u8>) -> bool {
    if !starts_with(header, CONFIG_MAGIC) {
        ends(before, after, StreamStep::WriteStop, Some("Invalid stream configuration"@))
    } else if !supported(header) {
        ends(before, after, StreamStep::WriteStop, Some("Unsupported stream configuration"@))
    } else {
        &&& after.step == StreamStep::Resize
        &&& after.attempt == before.attempt
        &&& after.config.width == le32(header, 8)
        &&& after.config.height == le32(header, 12)
        &&& after.config.payload == le32(header, 40)
        &&& after.raw@ == resized(before.raw@, le32(header, 40) as nat)
        &&& reason(after.result) == reason(before.result)
    }
}

/// Whether the stream is tried once more, if the program still runs.
pub open spec fn retries(stream: Stream) -> bool {
    stream.attempt == 0 && reason(stream.result) == Some(HANDSHAKE_ERROR@)
}

/// What becomes of the stream when bytes were read.
pub open spec fn reads(before: Stream, bytes: Seq<u8>, after: Stream) -> bool {
    match before.step {
        StreamStep::ReadReady => if starts_with(bytes, READY_MAGIC) {
            goes_on(before, after, StreamStep::WriteStart)
        } else {
            ends(before, after, StreamStep::WriteStop, Some(HANDSHAKE_ERROR@))
        },
        StreamStep::ReadHeader => takes_up(before, after, bytes),
        StreamStep::ReadPacket => if starts_with(bytes, CONFIG_MAGIC) {
            &&& after.step matches StreamStep::ReadConfig(packet) && packet@ == bytes
            &&& goes_on(before, after, after.step)
        } else if packet_fits(bytes, before.config.payload as int) {
            &&& after.step matches StreamStep::ReadFrame(length) && length == le32(bytes, 8)
            &&& goes_on(before, after, after.step)
        } else {
            ends(before, after, StreamStep::WriteStop, Some("Invalid JPEG frame"@))
        },
        StreamStep::ReadConfig(packet) => takes_up(before, after, packet@ + bytes),
        StreamStep::ReadFrame(_) => match frame_error(bytes, before.raw@.len(), before.config) {
            None => {
                &&& after.step == StreamStep::Publish
                &&& after.attempt == before.attempt
                &&& after.config == before.config
                &&& is_decoded(bytes, before.config, before.raw@, after.raw@)
                &&& reason(after.result) == reason(before.result)
            },
            Some(error) => ends(before, after, StreamStep::WriteStop, Some(error)),
        },
        _ => false,
    }
}

/// What becomes of the stream when an action was done.
pub open spec fn does(before: Stream, after: Stream) -> bool {
    match before.step {
        StreamStep::Provision => goes_on(before, after, StreamStep::WaitForUsb),
        StreamStep::WaitForUsb => goes_on(before, after, StreamStep::ReadReady),
        StreamStep::WriteStart => goes_on(before, after, StreamStep::ReadHeader),
        StreamStep::Resize => goes_on(before, after, StreamStep::CheckRunning),
        StreamStep::Notify | StreamStep::WriteCommand(_) => goes_on(
            before,
            after,
            StreamStep::TakeCommand,
        ),
        StreamStep::WriteStop => goes_on(before, after, StreamStep::Release),
        StreamStep::Release => goes_on(
            before,
            after,
            if retries(before) {
                StreamStep::CheckRetry
            } else {
                StreamStep::Finished
            },
        ),
        StreamStep::WaitForCleanup => {
            &&& after.step == StreamStep::Provision
            &&& after.attempt == before.attempt + 1
            &&& after.config == before.config
            &&& after.raw@ == Seq::<u8>::empty()
            &&& reason(after.result) is None
        },
        _ => false,
    }
}

/// What becomes of the stream when an action failed.
pub open spec fn fails(before: Stream, error: Seq<char>, after: Stream) -> bool {
    match before.step {
        StreamStep::WriteStop => goes_on(before, after, StreamStep::Release),
        _ => ends(
            before,
            after,
            if connected(before.step) {
                StreamStep::WriteStop
            } else {
                StreamStep::Finished
            },
            Some(error),
        ),
    }
}

/// What becomes of the stream when it learns what came of its action.
pub open spec fn follows(before: Stream, event: StreamEvent, after: Stream) -> bool {
    match event {
        StreamEvent::Done => does(before, after),
        StreamEvent::Bytes(bytes) => reads(before, bytes@, after),
        StreamEvent::Running(running) => if before.step == StreamStep::CheckRetry {
            goes_on(
                before,
                after,
                if running {
                    StreamStep::WaitForCleanup
                } else {
                    StreamStep::Finished
                },
            )
        } else if running {
            goes_on(before, after, StreamStep::ReadPacket)
        } else {
            ends(before, after, StreamStep::WriteStop, None)
        },
        StreamEvent::Published { pending } => goes_on(
            before,
            after,
            if pending {
                StreamStep::TakeCommand
            } else {
                StreamStep::Notify
            },
        ),
        StreamEvent::Command(command) => goes_on(
            before,
            after,
            match command {
                Some(command) => StreamStep::WriteCommand(command),
                None => StreamStep::CheckRunning,
            },
        ),
        StreamEvent::Failed(error) => fails(before, error@, after),
    }
}

/// Whether nothing was done yet for the stream.
pub open spec fn is_fresh(stream: Stream) -> bool {
    &&& stream.step is Provision
    &&& stream.attempt == 0
    &&& stream.raw@.len() == 0
    &&& stream.result is Ok
}

impl Stream {
    /// It is tried at most twice, and a second time only because the first
    /// handshake failed. Once there is a configuration, the buffer has its size,
    /// and so much is read as fits. The outcome is set when the stream ends.
    pub open spec fn wf(&self) -> bool {
        &&& self.attempt < 2
        &&& configured(self.step) ==> self.config.wf() && self.raw@.len() == self.config.payload
        &&& self.step matches StreamStep::ReadFrame(length) ==> 0 < length <= self.config.payload
        &&& self.step matches StreamStep::ReadConfig(packet) ==> starts_with(
            packet@,
            CONFIG_MAGIC,
        )
        &&& self.result is Err ==> ending(self.step)
        &&& self.step is CheckRetry || self.step is WaitForCleanup ==> retries(*self)
    }

    /// A stream that has yet to set up its session.
    pub fn new() -> (res: Self)
        ensures
            res.wf(),
            res.step == StreamStep::Provision,
            res.attempt == 0,
            res.raw@ == Seq::<u8>::empty(),
            res.result is Ok,
            is_fresh(res),
    {
        Stream {
            step: StreamStep::Provision,
            attempt: 0,
            config: Config { width: 0, height: 0, payload: 0 },
            raw: Vec::new(),
            result: Ok(()),
        }
    }

    /// What the stream asks for.
    pub fn action(&self) -> (res: StreamAction)
        ensures
            is_action(self.step, res),
    {
        match self.step {
            StreamStep::Provision => StreamAction::Provision,
            StreamStep::WaitForUsb => StreamAction::WaitForUsb,
            StreamStep::ReadReady => StreamAction::Read(16),
            StreamStep::WriteStart => StreamAction::Write(start_command()),
            StreamStep::ReadHeader => StreamAction::Read(48),
            StreamStep::Resize => StreamAction::Resize,
            StreamStep::CheckRunning => StreamAction::CheckRunning,
            StreamStep::ReadPacket => StreamAction::Read(16),
            StreamStep::ReadConfig(_) => StreamAction::Read(32),
            StreamStep::ReadFrame(length) => StreamAction::Read(length),
            StreamStep::Publish => StreamAction::Publish,
            StreamStep::Notify => StreamAction::Notify,
            StreamStep::TakeCommand => StreamAction::TakeCommand,
            StreamStep::WriteCommand(command) => StreamAction::Write(command),
            StreamStep::WriteStop => StreamAction::Write(stop_command()),
            StreamStep::Release => StreamAction::Release,
            StreamStep::CheckRetry => StreamAction::CheckRunning,
            StreamStep::WaitForCleanup => StreamAction::WaitForCleanup,
            StreamStep::Finished => StreamAction::Finish,
        }
    }

    /// Takes note of what came of the action.
    pub fn advance(&mut self, event: StreamEvent)
        requires
            old(self).wf(),
            answers(old(self).step, event),
        ensures
            final(self).wf(),
            follows(*old(self), event, *final(self)),
    {
        match event {
            StreamEvent::Done => self.done(),
            StreamEvent::Bytes(bytes) => self.read(bytes.as_slice()),
            StreamEvent::Running(running) => {
                match self.step {
                    StreamStep::CheckRetry => {
                        self.step = if running {
                            StreamStep::WaitForCleanup
                        } else {
                            StreamStep::Finished
                        };
                    },
                    _ => {
                        self.step = if running {
                            StreamStep::ReadPacket
                        } else {
                            StreamStep::WriteStop
                        };
                    },
                }
            },
            StreamEvent::Published { pending } => {
                self.step = if pending {
                    StreamStep::TakeCommand
                } else {
                    StreamStep::Notify
                };
            },
            StreamEvent::Command(command) => {
                self.step = match command {
                    Some(command) => StreamStep::WriteCommand(command),
                    None => StreamStep::CheckRunning,
                };
            },
            StreamEvent::Failed(error) => self.failed(error),
        }
    }

    fn done(&mut self)
        requires
            old(self).wf(),
            answers(old(self).step, StreamEvent::Done),
        ensures
            final(self).wf(),
            does(*old(self), *final(self)),
    {
        match self.step {
            StreamStep::Provision => self.step = StreamStep::WaitForUsb,
            StreamStep::WaitForUsb => self.step = StreamStep::ReadReady,
            StreamStep::WriteStart => self.step = StreamStep::ReadHeader,
            StreamStep::Resize => self.step = StreamStep::CheckRunning,
            StreamStep::WriteStop => self.step = StreamStep::Release,
            StreamStep::Release => {
                let handshake: bool = match &self.result {
                    Err(error) => *error == HANDSHAKE_ERROR.to_owned(),
                    Ok(_) => false,
                };
                self.step = if self.attempt == 0 && handshake {
                    StreamStep::CheckRetry
                } else {
                    StreamStep::Finished
                };
            },
            StreamStep::WaitForCleanup => {
                self.step = StreamStep::Provision;
                self.attempt += 1;
                self.raw = Vec::new();
                self.result = Ok(());
            },
            _ => self.step = StreamStep::TakeCommand,
        }
    }

    fn failed(&mut self, error: String)
        requires
            old(self).wf(),
            old(self).step !is Finished,
            old(self).step !is CheckRetry,
        ensures
            final(self).wf(),
            fails(*old(self), error@, *final(self)),
    {
        match self.step {
            StreamStep::WriteStop => self.step = StreamStep::Release,
            StreamStep::Provision => {
                self.step = StreamStep::Finished;
                self.result = Err(error);
            },
            StreamStep::WaitForUsb => {
                self.step = StreamStep::Finished;
                self.result = Err(error);
            },
            StreamStep::WaitForCleanup => {
                self.step = StreamStep::Finished;
                self.result = Err(error);
            },
            _ => self.stop(error),
        }
    }

    fn stop(&mut self, error: String)
        requires
            old(self).wf(),
        ensures
            final(self).wf(),
            ends(*old(self), *final(self), StreamStep::WriteStop, Some(error@)),
    {
        self.step = StreamStep::WriteStop;
        self.result = Err(error);
    }

    fn read(&mut self, bytes: &[u8])
        requires
            old(self).wf(),
            match old(self).step {
                StreamStep::ReadReady | StreamStep::ReadPacket => bytes@.len() == 16,
                StreamStep::ReadHeader => bytes@.len() == 48,
                StreamStep::ReadConfig(_) => bytes@.len() == 32,
                StreamStep::ReadFrame(length) => bytes@.len() == length,
                _ => false,
            },
        ensures
            final(self).wf(),
            reads(*old(self), bytes@, *final(self)),
    {
        match self.step {
            StreamStep::ReadReady => {
                if has_magic(bytes, &READY_MAGIC) {
                    self.step = StreamStep::WriteStart;
                } else {
                    self.stop(HANDSHAKE_ERROR.to_owned());
                }
            },
            StreamStep::ReadHeader => {
                let header: [u8; 48] = joined_header(bytes, &[]);
                assert(header@ =~= bytes@);
                self.configure(&header);
            },
            StreamStep::ReadPacket => {
                let packet: [u8; 16] = packet_of(bytes);
                if has_magic(&packet, &CONFIG_MAGIC) {
                    self.step = StreamStep::ReadConfig(packet);
                } else {
                    match packet_size(&packet, self.config.payload) {
                        Ok(length) => self.step = StreamStep::ReadFrame(length),
                        Err(error) => self.stop(error),
                    }
                }
            },
            StreamStep::ReadConfig(packet) => {
                let header: [u8; 48] = joined_header(&packet, bytes);
                self.configure(&header);
            },
            StreamStep::ReadFrame(_) => {
                if !is_countable(bytes) {
                    self.stop("Invalid JPEG frame".to_owned());
                } else {
                    match decode_jpeg(bytes, &self.config, &mut self.raw) {
                        Ok(_) => self.step = StreamStep::Publish,
                        Err(error) => self.stop(error),
                    }
                }
            },
            _ => {},
        }
    }

    fn configure(&mut self, header: &[u8; 48])
        requires
            old(self).wf(),
            old(self).result is Ok,
        ensures
            final(self).wf(),
            takes_up(*old(self), *final(self), header@),
    {
        match Config::parse(header) {
            Ok(config) => {
                self.raw.resize(config.payload, 0);
                assert(self.raw@ =~= resized(old(self).raw@, config.payload as nat));
                self.config = config;
                self.step = StreamStep::Resize;
            },
            Err(error) => self.stop(error),
        }
    }

    /// Shows the frame that was read.
    pub fn publish(&self, frames: &mut Frames)
        requires
            self.wf(),
            self.step == StreamStep::Publish,
            old(frames).front < 2,
        ensures
            final(frames).wf(),
            final(frames).front == 1 - old(frames).front,
            final(frames).shown() == self.raw@,
            final(frames).width == self.config.width,
            final(frames).height == self.config.height,
            final(frames).sequence == if old(frames).sequence == u64::MAX {
                0
            } else {
                old(frames).sequence + 1
            },
            final(frames).buffers@[old(frames).front as int] == old(
                frames,
            ).buffers@[old(frames).front as int],
            is_published(*old(frames), self.config, self.raw@, *final(frames)),
    {
        publish(frames, &self.config, self.raw.as_slice());
    }

    /// What the stream came to.
    pub fn into_result(self) -> (res: Result<(), String>)
        ensures
            res == self.result,
            reason(res) == reason(self.result),
    {
        self.result
    }
}

/// The first 16 bytes of a message.
fn packet_of(bytes: &[u8]) -> (res: [u8; 16])
    requires
        bytes@.len() == 16,
    ensures
        res@ == bytes@,
{
    let mut res: [u8; 16] = [0; 16];
    let mut index: usize = 0;
    while index < 16
        invariant
            index <= 16,
            bytes@.len() == 16,
            forall|k: int| 0 <= k < index ==> res@[k] == bytes@[k],
        decreases 16 - index,
    {
        res[index] = bytes[index];
        index += 1;
    }
    assert(res@ =~= bytes@);
    res
}

/// A configuration header in two parts.
fn joined_header(first: &[u8], second: &[u8]) -> (res: [u8; 48])
    requires
        first@.len() + second@.len() == 48,
    ensures
        res@ == first@ + second@,
{
    let mut res: [u8; 48] = [0; 48];
    let mut index: usize = 0;
    while index < 48
        invariant
            index <= 48,
            first@.len() + second@.len() == 48,
            forall|k: int| 0 <= k < index ==> res@[k] == (first@ + second@)[k],
        decreases 48 - index,
    {
        res[index] = if index < first.len() {
            first[index]
        } else {
            second[index - first.len()]
        };
        index += 1;
    }
    assert(res@ =~= first@ + second@);
    res
}

/// Whether this is what the user is told of the end of the stream.
pub open spec fn is_told(
    result: Result<(), String>,
    running: bool,
    shown: Option<String>,
) -> bool {
    match shown {
        Some(shown) => running && (result matches Err(error) && shown@ == error@),
        None => !running || result is Ok,
    }
}

/// Whether the user is told why the stream ended: only while the program runs.
pub fn stream(result: Result<(), String>, running: bool) -> (res: Option<String>)
    ensures
        match (result, res) {
            (Err(error), Some(shown)) => running && shown@ == error@,
            (Err(_), None) => !running,
            (Ok(_), shown) => shown is None,
        },
        is_told(result, running, res),
{
    match result {
        Err(error) => {
            if running {
                Some(error)
            } else {
                None
            }
        },
        Ok(_) => None,
    }
}

/// The USB interface is opened by waiting for it and by nothing else, and it is
/// given back before the stream goes on without it, after the tablet was told to
/// stop.
pub proof fn usb_is_given_back(before: Stream, event: StreamEvent, after: Stream)
    requires
        before.wf(),
        answers(before.step, event),
        follows(before, event, after),
    ensures
        connected(after.step) && !connected(before.step) ==> before.step is WaitForUsb
            && event is Done,
        connected(before.step) && !connected(after.step) ==> before.step is Release,
        after.step is Release ==> before.step is WriteStop,
{
}

/// The stream is tried anew at most once, and only after a handshake that
/// failed.
pub proof fn only_a_failed_handshake_is_retried(before: Stream, event: StreamEvent, after: Stream)
    requires
        before.wf(),
        answers(before.step, event),
        follows(before, event, after),
    ensures
        after.step is Provision ==> before.attempt == 0 && after.attempt == 1 && reason(
            before.result,
        ) == Some(HANDSHAKE_ERROR@),
        after.step !is Provision ==> after.attempt == before.attempt,
        before.attempt == 1 ==> after.attempt == 1 && after.step !is WaitForCleanup,
{
}

/// Once it is known what the stream comes to, this stays so to its end, unless
/// it is tried anew or the session cannot be ended for that.
pub proof fn outcome_is_kept(before: Stream, event: StreamEvent, after: Stream)
    requires
        before.wf(),
        ending(before.step),
        before.step !is WaitForCleanup,
        answers(before.step, event),
        follows(before, event, after),
    ensures
        ending(after.step),
        reason(after.result) == reason(before.result),
{
}

/// A stream that is told to end does so without an error, after two more
/// actions, whether or not the tablet can be told to stop.
pub proof fn stream_ends_when_told(
    streaming: Stream,
    stopping: Stream,
    releasing: Stream,
    ended: Stream,
    event: StreamEvent,
)
    requires
        streaming.wf(),
        streaming.step is CheckRunning,
        follows(streaming, StreamEvent::Running(false), stopping),
        answers(stopping.step, event),
        follows(stopping, event, releasing),
        follows(releasing, StreamEvent::Done, ended),
    ensures
        ended.step is Finished,
        ended.result is Ok,
{
}

/// Every action that fails while the interface is open stops the stream with
/// the error of that action, but for the action that stops it.
pub proof fn failure_stops_stream(before: Stream, error: String, after: Stream)
    requires
        before.wf(),
        connected(before.step),
        before.step !is WriteStop,
        answers(before.step, StreamEvent::Failed(error)),
        follows(before, StreamEvent::Failed(error), after),
    ensures
        after.step is WriteStop,
        reason(after.result) == Some(error@),
{
}

/// No read asks for nothing, and none for more than a header or a frame of the
/// configured size.
pub proof fn reads_are_bounded(stream: Stream, length: usize)
    requires
        stream.wf(),
        is_action(stream.step, StreamAction::Read(length)),
    ensures
        0 < length,
        length <= 48 || length <= stream.config.payload <= MAX_FRAME_BYTES,
{
}

/// An input command is sent as it was taken from the queue, and then the next
/// one is taken.
pub proof fn commands_are_forwarded(
    before: Stream,
    command: [u8; 16],
    writing: Stream,
    action: StreamAction,
    after: Stream,
)
    requires
        before.wf(),
        before.step is TakeCommand,
        follows(before, StreamEvent::Command(Some(command)), writing),
        is_action(writing.step, action),
        follows(writing, StreamEvent::Done, after),
    ensures
        action == StreamAction::Write(command),
        after.step is TakeCommand,
{
}

/// What is shown is the frame that was received and nothing else: every pixel
/// has the colors that the frame decodes to, and is opaque.
pub proof fn frame_is_shown_whole(before: Stream, bytes: Vec<u8>, after: Stream)
    requires
        before.wf(),
        before.step is ReadFrame,
        follows(before, StreamEvent::Bytes(bytes), after),
        after.step is Publish,
    ensures
        exists|pixels: Seq<u8>|
            #[trigger] jpeg_pixels(bytes@, pixels) && is_picture(after.raw@, after.config, pixels),
{
    let pixels = choose|pixels: Seq<u8>|
        {
            &&& #[trigger] jpeg_pixels(bytes@, pixels)
            &&& pixels.len() == before.config.width * before.config.height * 3
            &&& after.raw@ == opaque_pixels(pixels, before.raw@)
        };
    frame_replaces_buffer(before.config, pixels, before.raw@, before.raw@);
    assert(is_picture(after.raw@, after.config, pixels));
}

/// Whether the bytes are a picture of these colors.
pub open spec fn is_picture(raw: Seq<u8>, config: Config, pixels: Seq<u8>) -> bool {
    &&& raw.len() == config.width * config.height * 4
    &&& pixels.len() == config.width * config.height * 3
    &&& forall|pixel: int, channel: int|
        0 <= pixel < config.width * config.height && 0 <= channel < 4 ==> #[trigger] raw[4 * pixel
            + channel] == if channel == 3 {
            0xff
        } else {
            pixels[3 * pixel + channel]
        }
}

/// Whether these are the states of a stream from its beginning on, with what it
/// was told between them.
pub open spec fn is_run(states: Seq<Stream>, events: Seq<StreamEvent>) -> bool {
    &&& states.len() == events.len() + 1
    &&& states[0].step is Provision
    &&& forall|k: int| 0 <= k < states.len() ==> (#[trigger] states[k]).wf()
    &&& forall|k: int|
        0 <= k < events.len() ==> answers(states[k].step, #[trigger] events[k]) && follows(
            states[k],
            events[k],
            states[k + 1],
        )
}

/// Whether the interface is given back at this place of a run, right after the
/// tablet was told to stop.
pub open spec fn gives_back(states: Seq<Stream>, k: int) -> bool {
    &&& 0 < k < states.len()
    &&& states[k].step is Release
    &&& states[k - 1].step is WriteStop
}

/// Whenever the interface is open in a run that comes to its end, the tablet is
/// told to stop and the interface is given back later in that run.
pub proof fn every_run_gives_usb_back(states: Seq<Stream>, events: Seq<StreamEvent>, start: int)
    requires
        is_run(states, events),
        states.last().step is Finished,
        0 <= start < states.len(),
        connected(states[start].step),
    ensures
        exists|k: int| start <= k && #[trigger] gives_back(states, k),
    decreases states.len() - start,
{
    assert(states[start].wf());
    if states[start].step is Release {
        assert(answers(states[start - 1].step, events[start - 1]));
        assert(states[start - 1].wf());
        usb_is_given_back(states[start - 1], events[start - 1], states[start]);
        assert(gives_back(states, start));
    } else {
        assert(answers(states[start].step, events[start]));
        usb_is_given_back(states[start], events[start], states[start + 1]);
        every_run_gives_usb_back(states, events, start + 1);
        let k = choose|k: int| start + 1 <= k && #[trigger] gives_back(states, k);
        assert(gives_back(states, k));
    }
}

/// The user is told why the stream failed exactly if the program still runs.
pub proof fn failures_are_told_while_the_program_runs(
    result: Result<(), String>,
    running: bool,
    shown: Option<String>,
)
    requires
        is_told(result, running, shown),
    ensures
        shown is Some <==> running && result is Err,
        shown matches Some(text) ==> Some(text@) == reason(result),
{
}

/// Every step asks for what it is named after: 16 bytes to learn that the tablet
/// is ready and at the start of a message, 48 bytes for the first configuration,
/// and 32 more or a whole frame behind the start of a message.
pub proof fn steps_have_their_actions(step: StreamStep, action: StreamAction)
    requires
        is_action(step, action),
    ensures
        step is Provision <==> action is Provision,
        step is WaitForUsb <==> action is WaitForUsb,
        step is ReadReady ==> action == StreamAction::Read(16),
        step is ReadHeader ==> action == StreamAction::Read(48),
        step is ReadPacket ==> action == StreamAction::Read(16),
        step is ReadConfig ==> action == StreamAction::Read(32),
        step matches StreamStep::ReadFrame(length) ==> action == StreamAction::Read(length),
        step is Resize <==> action is Resize,
        step is CheckRunning || step is CheckRetry <==> action is CheckRunning,
        step is Publish <==> action is Publish,
        step is Notify <==> action is Notify,
        step is TakeCommand <==> action is TakeCommand,
        step matches StreamStep::WriteCommand(command) ==> action == StreamAction::Write(command),
        step is WriteStart || step is WriteStop ==> action is Write,
        step is Release <==> action is Release,
        step is WaitForCleanup <==> action is WaitForCleanup,
        step is Finished <==> action is Finish,
{
}

/// The tablet is told to start with the magic bytes `CMSTART1` and 60 frames a
/// second, and to stop with the magic bytes `CMSTOP01`; the other bytes are 0.
pub proof fn tablets_are_started_and_stopped(step: StreamStep, bytes: [u8; 16])
    requires
        is_action(step, StreamAction::Write(bytes)),
    ensures
        step is WriteStart ==> bytes@ == seq![
            0x43u8, 0x4du8, 0x53u8, 0x54u8, 0x41u8, 0x52u8, 0x54u8, 0x31u8,
            60u8, 0u8, 0u8, 0u8, 0u8, 0u8, 0u8, 0u8,
        ],
        step is WriteStop ==> bytes@ == seq![
            0x43u8, 0x4du8, 0x53u8, 0x54u8, 0x4fu8, 0x50u8, 0x30u8, 0x31u8,
            0u8, 0u8, 0u8, 0u8, 0u8, 0u8, 0u8, 0u8,
        ],
        step is WriteStart || step is WriteStop || step is WriteCommand,
{
    if step is WriteStart {
        messages_are_laid_out(bytes@, START_MAGIC, 60, 0, 0);
        assert(bytes@ =~= seq![
            0x43u8, 0x4du8, 0x53u8, 0x54u8, 0x41u8, 0x52u8, 0x54u8, 0x31u8,
            60u8, 0u8, 0u8, 0u8, 0u8, 0u8, 0u8, 0u8,
        ]);
    }
    if step is WriteStop {
        messages_are_laid_out(bytes@, STOP_MAGIC, 0, 0, 0);
        assert(bytes@ =~= seq![
            0x43u8, 0x4du8, 0x53u8, 0x54u8, 0x4fu8, 0x50u8, 0x30u8, 0x31u8,
            0u8, 0u8, 0u8, 0u8, 0u8, 0u8, 0u8, 0u8,
        ]);
    }
}

/// A read brings as many bytes as were asked for, or fails; every other action
/// comes to an answer of its own kind.
pub proof fn actions_have_their_answers(step: StreamStep, action: StreamAction, event: StreamEvent)
    requires
        is_action(step, action),
    ensures
        answers(step, event) <==> match action {
            StreamAction::Provision | StreamAction::WaitForUsb | StreamAction::Write(_)
            | StreamAction::WaitForCleanup => event is Done || event is Failed,
            StreamAction::Read(length) => event is Failed || (event matches StreamEvent::Bytes(
                bytes,
            ) && bytes@.len() == length),
            StreamAction::CheckRunning => event is Running,
            StreamAction::Publish => event is Published,
            StreamAction::TakeCommand => event is Command,
            StreamAction::Resize | StreamAction::Notify | StreamAction::Release => event is Done,
            StreamAction::Finish => false,
        },
{
}

/// The interface is open from the first read on until it was given back; there is
/// a configuration from the fitting of the window on until the stream is stopped;
/// and the stream ends from the stop on.
pub proof fn steps_have_their_phases(step: StreamStep)
    ensures
        connected(step) <==> step is ReadReady || step is WriteStart || step is ReadHeader
            || step is Resize || step is CheckRunning || step is ReadPacket || step is ReadConfig
            || step is ReadFrame || step is Publish || step is Notify || step is TakeCommand
            || step is WriteCommand || step is WriteStop || step is Release,
        configured(step) <==> connected(step) && step !is ReadReady && step !is WriteStart
            && step !is ReadHeader && step !is WriteStop && step !is Release,
        ending(step) <==> !configured(step) && step !is Provision && step !is WaitForUsb
            && step !is ReadReady && step !is WriteStart && step !is ReadHeader,
{
}

/// A stream is well formed exactly if it was tried at most once before, has a
/// buffer for one frame of its configuration where it has one, reads no frame
/// that does not fit, and has failed only where it ends.
pub proof fn well_formed_streams(stream: Stream)
    ensures
        stream.wf() <==> {
            &&& stream.attempt == 0 || stream.attempt == 1
            &&& configured(stream.step) ==> {
                &&& 1 <= stream.config.width
                &&& 1 <= stream.config.height
                &&& stream.config.width * stream.config.height <= 0x100_0000
                &&& stream.config.payload == 4 * (stream.config.width * stream.config.height)
                &&& stream.raw@.len() == stream.config.payload
            }
            &&& stream.step matches StreamStep::ReadFrame(length) ==> 1 <= length && length
                <= stream.config.payload
            &&& stream.step matches StreamStep::ReadConfig(packet) ==> packet@.subrange(0, 8)
                == seq![0x43u8, 0x4du8, 0x43u8, 0x4fu8, 0x4eu8, 0x46u8, 0x49u8, 0x47u8]
            &&& stream.result is Ok || ending(stream.step)
            &&& stream.step is CheckRetry || stream.step is WaitForCleanup ==> stream.attempt == 0
                && reason(stream.result) == Some("Invalid PenCast USB handshake"@)
        },
{
    if let StreamStep::ReadConfig(packet) = stream.step {
        let magic = seq![0x43u8, 0x4du8, 0x43u8, 0x4fu8, 0x4eu8, 0x46u8, 0x49u8, 0x47u8];
        assert(CONFIG_MAGIC@ =~= magic);
        assert(packet@.subrange(0, 8) =~= packet@.take(8));
    }
}

/// A tablet is ready exactly if its first bytes are `CMREADY1`; then the stream is
/// started, and otherwise it is stopped for the handshake.
pub proof fn only_ready_tablets_are_started(before: Stream, bytes: Vec<u8>, after: Stream)
    requires
        before.wf(),
        before.step is ReadReady,
        answers(before.step, StreamEvent::Bytes(bytes)),
        follows(before, StreamEvent::Bytes(bytes), after),
    ensures
        bytes@.subrange(0, 8) == seq![
            0x43u8, 0x4du8, 0x52u8, 0x45u8, 0x41u8, 0x44u8, 0x59u8, 0x31u8,
        ] ==> after.step is WriteStart && after.result is Ok,
        bytes@.subrange(0, 8) != seq![
            0x43u8, 0x4du8, 0x52u8, 0x45u8, 0x41u8, 0x44u8, 0x59u8, 0x31u8,
        ] ==> after.step is WriteStop && reason(after.result) == Some(
            "Invalid PenCast USB handshake"@,
        ),
{
    let magic = seq![0x43u8, 0x4du8, 0x52u8, 0x45u8, 0x41u8, 0x44u8, 0x59u8, 0x31u8];
    assert(READY_MAGIC@ =~= magic);
    assert(bytes@.subrange(0, 8) =~= bytes@.take(8));
}

/// The buffer keeps its bytes as far as it reaches, and is filled up with zeros.
pub proof fn buffers_keep_their_bytes(raw: Seq<u8>, length: nat)
    ensures
        resized(raw, length).len() == length,
        length <= raw.len() ==> resized(raw, length) == raw.subrange(0, length as int),
        length > raw.len() ==> resized(raw, length).subrange(0, raw.len() as int) == raw,
        forall|k: int| raw.len() <= k < length ==> #[trigger] resized(raw, length)[k] == 0,
{
    if length <= raw.len() {
        assert(resized(raw, length) =~= raw.subrange(0, length as int));
    } else {
        assert(resized(raw, length).subrange(0, raw.len() as int) =~= raw);
    }
}

/// Whether the stream stands at a configuration, with these 48 bytes for it.
pub open spec fn is_header_of(stream: Stream, bytes: Seq<u8>, header: Seq<u8>) -> bool {
    match stream.step {
        StreamStep::ReadHeader => bytes.len() == 48 && header == bytes,
        StreamStep::ReadConfig(packet) => {
            &&& bytes.len() == 32
            &&& header.len() == 48
            &&& header.subrange(0, 16) == packet@
            &&& header.subrange(16, 48) == bytes
        },
        _ => false,
    }
}

/// A configuration for frames of at least one and at most 2^24 pixels, of four
/// bytes each, is taken up whichever way it came, and the window is fitted to it.
/// The buffer has room for one such frame.
pub proof fn supported_configurations_are_taken_up(
    before: Stream,
    bytes: Vec<u8>,
    header: Seq<u8>,
    after: Stream,
)
    requires
        before.wf(),
        is_header_of(before, bytes@, header),
        follows(before, StreamEvent::Bytes(bytes), after),
        header.subrange(0, 8) == seq![
            0x43u8, 0x4du8, 0x43u8, 0x4fu8, 0x4eu8, 0x46u8, 0x49u8, 0x47u8,
        ],
        1 <= le32(header, 8),
        1 <= le32(header, 12),
        le32(header, 8) * le32(header, 12) <= 0x100_0000,
        le32(header, 16) == 4 * le32(header, 8),
        header.subrange(20, 24) == seq![0x41u8, 0x52u8, 0x32u8, 0x34u8],
        le32(header, 40) == 4 * (le32(header, 8) * le32(header, 12)),
        header.subrange(44, 48) == seq![1u8, 0u8, 0u8, 0u8],
    ensures
        after.step is Resize,
        after.config.width == le32(header, 8),
        after.config.height == le32(header, 12),
        after.config.payload == 4 * (le32(header, 8) * le32(header, 12)),
        after.raw@.len() == 4 * (le32(header, 8) * le32(header, 12)),
        forall|k: int|
            0 <= k < after.raw@.len() ==> #[trigger] after.raw@[k] == if k < before.raw@.len() {
                before.raw@[k]
            } else {
                0
            },
        after.attempt == before.attempt,
        after.result is Ok,
{
    header_is_whole(before, bytes@, header);
    assert(CONFIG_MAGIC@ =~= header.subrange(0, 8));
    assert(header.subrange(0, 8) =~= header.take(8));
    sizes_up_to_the_limit_are_supported(header, le32(header, 8), le32(header, 12));
}

/// A configuration without the magic bytes `CMCONFIG` stops the stream, and so
/// does one for frames of other sizes or of another kind.
pub proof fn other_configurations_stop_the_stream(
    before: Stream,
    bytes: Vec<u8>,
    header: Seq<u8>,
    after: Stream,
)
    requires
        before.wf(),
        is_header_of(before, bytes@, header),
        follows(before, StreamEvent::Bytes(bytes), after),
    ensures
        header.subrange(0, 8) != seq![
            0x43u8, 0x4du8, 0x43u8, 0x4fu8, 0x4eu8, 0x46u8, 0x49u8, 0x47u8,
        ] ==> after.step is WriteStop && reason(after.result) == Some(
            "Invalid stream configuration"@,
        ),
        header.subrange(0, 8) == seq![
            0x43u8, 0x4du8, 0x43u8, 0x4fu8, 0x4eu8, 0x46u8, 0x49u8, 0x47u8,
        ] && !({
            &&& 1 <= le32(header, 8)
            &&& 1 <= le32(header, 12)
            &&& le32(header, 8) * le32(header, 12) <= 0x100_0000
            &&& le32(header, 16) == 4 * le32(header, 8)
            &&& header.subrange(20, 24) == seq![0x41u8, 0x52u8, 0x32u8, 0x34u8]
            &&& le32(header, 40) == 4 * (le32(header, 8) * le32(header, 12))
            &&& header.subrange(44, 48) == seq![1u8, 0u8, 0u8, 0u8]
        }) ==> after.step is WriteStop && reason(after.result) == Some(
            "Unsupported stream configuration"@,
        ),
        after.step is WriteStop ==> after.config == before.config && after.raw@ == before.raw@,
        after.step is WriteStop || after.step is Resize,
{
    header_is_whole(before, bytes@, header);
    let magic = seq![0x43u8, 0x4du8, 0x43u8, 0x4fu8, 0x4eu8, 0x46u8, 0x49u8, 0x47u8];
    assert(CONFIG_MAGIC@ =~= magic);
    assert(header.subrange(0, 8) =~= header.take(8));
    sizes_up_to_the_limit_are_supported(header, le32(header, 8), le32(header, 12));
}

proof fn header_is_whole(stream: Stream, bytes: Seq<u8>, header: Seq<u8>)
    requires
        is_header_of(stream, bytes, header),
    ensures
        header.len() == 48,
        stream.step matches StreamStep::ReadConfig(packet) ==> header == packet@ + bytes,
{
    if let StreamStep::ReadConfig(packet) = stream.step {
        assert(header =~= header.subrange(0, 16) + header.subrange(16, 48));
    }
}

/// The start of a message tells what is read next: 32 more bytes behind
/// `CMCONFIG`, where these 16 are kept, and behind `CMJPEG01` the frame, of at
/// least one byte and no more than the pixels of a frame take. Anything else stops
/// the stream.
pub proof fn messages_are_read_as_announced(
    before: Stream,
    bytes: Vec<u8>,
    after: Stream,
    action: StreamAction,
)
    requires
        before.wf(),
        before.step is ReadPacket,
        answers(before.step, StreamEvent::Bytes(bytes)),
        follows(before, StreamEvent::Bytes(bytes), after),
        is_action(after.step, action),
    ensures
        bytes@.subrange(0, 8) == seq![
            0x43u8, 0x4du8, 0x43u8, 0x4fu8, 0x4eu8, 0x46u8, 0x49u8, 0x47u8,
        ] ==> action == StreamAction::Read(32) && (after.step matches StreamStep::ReadConfig(packet)
            && packet@ == bytes@),
        bytes@.subrange(0, 8) == seq![
            0x43u8, 0x4du8, 0x4au8, 0x50u8, 0x45u8, 0x47u8, 0x30u8, 0x31u8,
        ] && 1 <= le32(bytes@, 8) && le32(bytes@, 8) <= 4 * (before.config.width
            * before.config.height) ==> after.step is ReadFrame && action == StreamAction::Read(
            le32(bytes@, 8) as usize,
        ),
        bytes@.subrange(0, 8) != seq![
            0x43u8, 0x4du8, 0x43u8, 0x4fu8, 0x4eu8, 0x46u8, 0x49u8, 0x47u8,
        ] && (bytes@.subrange(0, 8) != seq![
            0x43u8, 0x4du8, 0x4au8, 0x50u8, 0x45u8, 0x47u8, 0x30u8, 0x31u8,
        ] || le32(bytes@, 8) == 0 || le32(bytes@, 8) > 4 * (before.config.width
            * before.config.height)) ==> after.step is WriteStop && reason(after.result) == Some(
            "Invalid JPEG frame"@,
        ),
        after.config == before.config,
        after.raw@ == before.raw@,
{
    let configuration = seq![0x43u8, 0x4du8, 0x43u8, 0x4fu8, 0x4eu8, 0x46u8, 0x49u8, 0x47u8];
    let frame = seq![0x43u8, 0x4du8, 0x4au8, 0x50u8, 0x45u8, 0x47u8, 0x30u8, 0x31u8];
    assert(CONFIG_MAGIC@ =~= configuration);
    assert(configuration[2] != frame[2]);
    assert(bytes@.subrange(0, 8) =~= bytes@.take(8));
    packets_within_the_room_are_accepted(
        bytes@,
        before.config.payload as int,
        le32(bytes@, 8),
    );
}

/// A frame that can be decoded is shown next, and one that cannot be stops the
/// stream for that reason and leaves the pixels as they are.
pub proof fn frames_are_shown_or_stop_the_stream(before: Stream, bytes: Vec<u8>, after: Stream)
    requires
        before.wf(),
        before.step is ReadFrame,
        follows(before, StreamEvent::Bytes(bytes), after),
    ensures
        after.step is Publish || after.step is WriteStop,
        after.step is Publish <==> frame_error(
            bytes@,
            (4 * (before.config.width * before.config.height)) as nat,
            before.config,
        ) is None,
        after.step is WriteStop ==> after.raw@ == before.raw@ && after.result is Err && reason(
            after.result,
        ) == frame_error(
            bytes@,
            (4 * (before.config.width * before.config.height)) as nat,
            before.config,
        ),
        after.step is Publish ==> after.result is Ok && after.raw@.len() == before.raw@.len(),
        after.config == before.config,
        after.attempt == before.attempt,
{
    assert(before.raw@.len() == (4 * (before.config.width * before.config.height)) as nat);
}

/// A session is set up, the interface is opened, and a tablet that was started
/// sends a configuration. The window is fitted before the first message is read,
/// and told of a frame before the next command is taken.
pub proof fn actions_that_were_done_lead_on(before: Stream, after: Stream)
    requires
        before.wf(),
        answers(before.step, StreamEvent::Done),
        follows(before, StreamEvent::Done, after),
    ensures
        before.step is Provision ==> after.step is WaitForUsb,
        before.step is WaitForUsb ==> after.step is ReadReady,
        before.step is WriteStart ==> after.step is ReadHeader,
        before.step is Resize ==> after.step is CheckRunning,
        before.step is Notify ==> after.step is TakeCommand,
        before.step is WriteCommand ==> after.step is TakeCommand,
        before.step is WriteStop ==> after.step is Release,
        before.step is Release ==> after.step is CheckRetry || after.step is Finished,
        before.step is Release ==> (after.step is CheckRetry <==> before.attempt == 0 && reason(
            before.result,
        ) == Some("Invalid PenCast USB handshake"@)),
        before.step is WaitForCleanup ==> after.step is Provision && after.attempt == 1
            && after.raw@.len() == 0 && after.result is Ok,
{
}

/// While the program runs the next message is read, and afterwards the stream is
/// stopped without an error. A stream that is to be tried anew is tried only
/// while the program runs.
pub proof fn streams_go_on_while_the_program_runs(before: Stream, running: bool, after: Stream)
    requires
        before.wf(),
        answers(before.step, StreamEvent::Running(running)),
        follows(before, StreamEvent::Running(running), after),
    ensures
        before.step is CheckRunning || before.step is CheckRetry,
        before.step is CheckRunning && running ==> after.step is ReadPacket,
        before.step is CheckRunning && !running ==> after.step is WriteStop && after.result is Ok,
        before.step is CheckRetry && running ==> after.step is WaitForCleanup,
        before.step is CheckRetry && !running ==> after.step is Finished && reason(after.result)
            == Some("Invalid PenCast USB handshake"@),
{
}

/// The window is told of a frame unless it has yet to look at an earlier one, and
/// every command in the queue is sent before the stream goes on.
pub proof fn frames_are_told_and_commands_sent(
    before: Stream,
    pending: bool,
    command: Option<[u8; 16]>,
    told: Stream,
    taken: Stream,
    other: Stream,
)
    requires
        before.wf(),
        before.step is Publish,
        follows(before, StreamEvent::Published { pending }, told),
        other.wf(),
        other.step is TakeCommand,
        follows(other, StreamEvent::Command(command), taken),
    ensures
        pending ==> told.step is TakeCommand,
        !pending ==> told.step is Notify,
        command is None ==> taken.step is CheckRunning,
        command matches Some(command) ==> taken.step == StreamStep::WriteCommand(command),
{
}

/// Whatever came of an action, the size of the frames changes only with a new
/// configuration, the pixels only with one, with a frame or with a new try, and
/// the number of tries only with a new try.
pub proof fn streams_change_only_what_they_must(before: Stream, event: StreamEvent, after: Stream)
    requires
        before.wf(),
        answers(before.step, event),
        follows(before, event, after),
    ensures
        after.step !is Resize ==> after.config == before.config,
        after.step !is Resize && after.step !is Publish && after.step !is Provision
            ==> after.raw@ == before.raw@,
        after.step !is Provision ==> after.attempt == before.attempt,
        before.result is Ok && after.result is Err ==> after.step is WriteStop || after.step
            is Finished,
        before.result is Err && after.result is Ok ==> before.step is WaitForCleanup,
        after.step is Publish ==> before.step is ReadFrame,
        after.step is Resize ==> before.step is ReadHeader || before.step is ReadConfig,
{
}

/// An action that fails before the interface is open, or while the session is
/// ended to try anew, ends the stream with its error. If the tablet cannot be told
/// to stop the stream goes on all the same.
pub proof fn failures_without_the_interface_end_the_stream(
    before: Stream,
    error: String,
    after: Stream,
)
    requires
        before.wf(),
        answers(before.step, StreamEvent::Failed(error)),
        follows(before, StreamEvent::Failed(error), after),
    ensures
        before.step is Provision || before.step is WaitForUsb || before.step is WaitForCleanup
            ==> after.step is Finished && reason(after.result) == Some(error@),
        before.step is WriteStop ==> after.step is Release && reason(after.result) == reason(
            before.result,
        ),
        before.step is ReadReady || before.step is WriteStart || before.step is ReadHeader
            || before.step is ReadPacket || before.step is ReadConfig || before.step is ReadFrame
            || before.step is WriteCommand ==> after.step is WriteStop && reason(after.result)
            == Some(error@),
        after.config == before.config,
        after.raw@ == before.raw@,
        after.attempt == before.attempt,
{
}

/// There is a reason exactly if there is an error, and it is the text of it.
pub proof fn errors_are_reasons(result: Result<(), String>)
    ensures
        reason(result) is None <==> result is Ok,
        result matches Err(error) ==> reason(result) == Some(error@),
{
}

/// A stream begins with its session, and ends at once with the error of it if it
/// cannot be set up.
pub proof fn streams_begin_with_their_session(
    stream: Stream,
    action: StreamAction,
    error: String,
    after: Stream,
)
    requires
        is_fresh(stream),
        is_action(stream.step, action),
        follows(stream, StreamEvent::Failed(error), after),
    ensures
        stream.wf(),
        action is Provision,
        stream.attempt == 0,
        stream.raw@.len() == 0,
        reason(stream.result) is None,
        after.step is Finished,
        reason(after.result) == Some(error@),
{
}

} // verus!
