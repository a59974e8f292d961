use pencast::usb::{
    open, select_endpoints, Direction, OpenEvent, OpenProgress, OpenStep, Opening, Pipe, Reading,
    Resource, Transfer, TransferAction, TransferEvent, TransferStep, Usb,
};

fn bulk(id: u8) -> Option<Pipe> {
    Some(Pipe { bulk: true, id })
}

fn other(id: u8) -> Option<Pipe> {
    Some(Pipe { bulk: false, id })
}

fn finish(action: TransferAction) -> (bool, Result<u32, String>) {
    match action {
        TransferAction::Finish { close, transferred } => (close, transferred),
        _ => panic!("not finished"),
    }
}

fn failure(progress: OpenProgress) -> (String, Vec<Resource>) {
    match progress {
        OpenProgress::Failed { error, release } => (error, release),
        _ => panic!("not failed"),
    }
}

fn opening(step: OpenStep) -> Opening {
    Opening { step }
}

#[test]
fn write_must_be_whole() {
    assert_eq!(Usb::write(&[1, 2, 3], Ok(3)), Ok(()));
    assert_eq!(Usb::write(&[1, 2, 3], Ok(2)), Err("Short USB write".to_owned()));
    assert_eq!(Usb::write(&[1, 2, 3], Err("gone".to_owned())), Err("gone".to_owned()));
}

#[test]
fn read_goes_on_until_all_is_there() {
    let mut reading = Usb::read_exact(10);
    assert_eq!(reading.next(), Some(0));
    assert_eq!(reading.record(Ok(4)), Ok(()));
    assert_eq!(reading.next(), Some(4));
    assert_eq!(reading.record(Ok(6)), Ok(()));
    assert_eq!(reading.next(), None);
    assert_eq!(Usb::read_exact(0).next(), None);
}

#[test]
fn read_takes_at_most_one_transfer_a_byte() {
    let mut reading = Usb::read_exact(5);
    let mut count = 0;
    while reading.next().is_some() {
        assert_eq!(reading.record(Ok(1)), Ok(()));
        count += 1;
    }
    assert_eq!(count, 5);
}

#[test]
fn read_must_bring_something() {
    let mut reading = Usb::read_exact(10);
    assert_eq!(reading.record(Ok(0)), Err("Empty USB read".to_owned()));
    assert_eq!(reading.record(Err("gone".to_owned())), Err("gone".to_owned()));
    assert_eq!(reading, Reading { offset: 0, length: 10 });
}

#[test]
fn transfer_may_end_at_once() {
    let mut transfer = Transfer::new(Direction::Write);
    assert!(matches!(transfer.advance(TransferEvent::Signal), TransferAction::Start));
    assert_eq!(finish(transfer.advance(TransferEvent::Complete(16))), (true, Ok(16)));
    assert_eq!(transfer.step, TransferStep::Finished);
}

#[test]
fn transfer_is_waited_for() {
    let mut transfer = Transfer::new(Direction::Read);
    assert!(matches!(transfer.advance(TransferEvent::Signal), TransferAction::Start));
    assert!(matches!(transfer.advance(TransferEvent::Pending), TransferAction::Wait));
    assert!(matches!(transfer.advance(TransferEvent::Signal), TransferAction::Collect));
    assert_eq!(finish(transfer.advance(TransferEvent::Complete(5))), (true, Ok(5)));
}

#[test]
fn transfer_fails_at_each_step() {
    for (step, direction, close, error) in [
        (TransferStep::Event, Direction::Read, false, "why"),
        (TransferStep::Start, Direction::Read, true, "why"),
        (TransferStep::Wait, Direction::Read, true, "USB read wait failed"),
        (TransferStep::Wait, Direction::Write, true, "USB write wait failed"),
        (TransferStep::Collect, Direction::Write, true, "why"),
    ] {
        let mut transfer = Transfer { direction, step };
        assert_eq!(
            finish(transfer.advance(TransferEvent::Failed("why".to_owned()))),
            (close, Err(error.to_owned()))
        );
    }
}

#[test]
fn last_bulk_pipes_are_picked() {
    assert_eq!(
        select_endpoints(&[bulk(0x81), bulk(0x01), None, other(0x83), bulk(0x82), bulk(0x02)]),
        Ok(Usb { input: 0x82, output: 0x02 })
    );
    assert_eq!(
        select_endpoints(&[bulk(0x7f), bulk(0xff)]),
        Ok(Usb { input: 0xff, output: 0x7f })
    );
}

#[test]
fn both_directions_are_needed() {
    let error = Err("PenCast bulk endpoints are unavailable".to_owned());
    assert_eq!(select_endpoints(&[]), error);
    assert_eq!(select_endpoints(&[bulk(0x81)]), error);
    assert_eq!(select_endpoints(&[bulk(0x01), other(0x81)]), error);
    assert_eq!(select_endpoints(&[bulk(0x81), bulk(0x01), bulk(0x00)]), error);
}

#[test]
fn interface_is_opened_step_by_step() {
    let mut opening = open();
    for _ in 0..2 {
        assert!(matches!(opening.advance(OpenEvent::Done), OpenProgress::Next));
    }
    assert!(matches!(opening.advance(OpenEvent::Size(200)), OpenProgress::Next));
    for _ in 0..4 {
        assert!(matches!(opening.advance(OpenEvent::Done), OpenProgress::Next));
    }
    assert_eq!(opening.step, OpenStep::Pipes);
    match opening.advance(OpenEvent::Pipes(vec![bulk(0x81), bulk(0x01)])) {
        OpenProgress::Opened { usb, release } => {
            assert_eq!(usb, Usb { input: 0x81, output: 0x01 });
            assert_eq!(release, [Resource::List]);
            assert_eq!(usb.resources(), [Resource::Interface, Resource::Device]);
        },
        _ => panic!("not opened"),
    }
    assert_eq!(opening.step, OpenStep::Finished);
}

#[test]
fn failed_opening_gives_everything_back() {
    let list = vec![Resource::List];
    let device = vec![Resource::Device, Resource::List];
    let all = vec![Resource::Interface, Resource::Device, Resource::List];
    for (step, error, release) in [
        (OpenStep::List, "why", vec![]),
        (OpenStep::Find, "PenCast USB interface not found", list.clone()),
        (OpenStep::Path, "why", list.clone()),
        (OpenStep::Device, "why", list.clone()),
        (OpenStep::Interface, "why", device),
        (OpenStep::Settings, "why", all.clone()),
    ] {
        assert_eq!(
            failure(opening(step).advance(OpenEvent::Failed("why".to_owned()))),
            (error.to_owned(), release)
        );
    }
    assert_eq!(
        failure(opening(OpenStep::Measure).advance(OpenEvent::Size(0))),
        ("PenCast USB path is unavailable".to_owned(), list)
    );
    assert_eq!(
        failure(opening(OpenStep::Pipes).advance(OpenEvent::Pipes(vec![None]))),
        ("PenCast bulk endpoints are unavailable".to_owned(), all)
    );
}

#[test]
fn transfers_use_their_endpoints() {
    let usb = Usb { input: 0x81, output: 0x02 };
    assert_eq!(usb.endpoint(Direction::Read), 0x81);
    assert_eq!(usb.endpoint(Direction::Write), 0x02);
}
