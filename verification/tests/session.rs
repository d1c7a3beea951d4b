use bcr2kosc::b_control::io::{
    get_global_bcl, get_preset_bcl, is_end_marker, recv_bcl, BclError, BclSession,
};
use bcr2kosc::b_control::{BControlCommand, BControlModel, BControlSysEx, DeviceID, PresetIndex};
use bcr2kosc::message::{ControlChange, ControlValue, ManufacturerId, MidiEvent};

fn line(device: DeviceID, msg_index: u16, text: &str) -> MidiEvent {
    BControlSysEx {
        device,
        model: BControlModel::BCR,
        command: BControlCommand::SendBclMessage { msg_index, text: text.to_string() },
    }
    .to_event()
}

#[test]
fn lines_in_order_complete_the_script() {
    let events = vec![
        line(DeviceID::Device(0), 0, "l0"),
        line(DeviceID::Device(0), 1, "l1"),
        line(DeviceID::Device(0), 2, "l2"),
        line(DeviceID::Device(0), 3, "$end"),
    ];
    assert_eq!(
        recv_bcl(0, &events),
        Ok(vec!["l0".to_string(), "l1".to_string(), "l2".to_string(), "$end".to_string()])
    );
    let three = vec![
        line(DeviceID::Device(0), 0, "l0"),
        line(DeviceID::Device(0), 1, "l1"),
        line(DeviceID::Device(0), 2, "$end"),
    ];
    assert_eq!(
        recv_bcl(0, &three),
        Ok(vec!["l0".to_string(), "l1".to_string(), "$end".to_string()])
    );
}

#[test]
fn a_gap_fails_after_the_lines_before_it() {
    let events = vec![
        line(DeviceID::Device(0), 0, "l0"),
        line(DeviceID::Device(0), 2, "l2"),
        line(DeviceID::Device(0), 3, "$end"),
    ];
    assert_eq!(recv_bcl(0, &events), Err(BclError::OutOfOrder));
    let mut s = BclSession::new(0);
    assert_eq!(s.offer(&events[0]), Ok(false));
    assert_eq!(s.next_index(), 1);
    assert_eq!(s.offer(&events[1]), Err(BclError::OutOfOrder));
    assert_eq!(s.next_index(), 1);
    assert!(!s.is_complete());
    assert_eq!(s.finish(), Err(BclError::Truncated));
}

#[test]
fn the_end_of_the_messages_before_the_closing_line() {
    let events = vec![line(DeviceID::Device(0), 0, "l0"), line(DeviceID::Device(0), 1, "l1")];
    assert_eq!(recv_bcl(0, &events), Err(BclError::Truncated));
    assert_eq!(recv_bcl(0, &vec![]), Err(BclError::Truncated));
}

#[test]
fn a_repeated_or_late_first_line_is_out_of_order() {
    let twice = vec![line(DeviceID::Device(0), 0, "a"), line(DeviceID::Device(0), 0, "a")];
    assert_eq!(recv_bcl(0, &twice), Err(BclError::OutOfOrder));
    let late = vec![line(DeviceID::Device(0), 1, "a")];
    assert_eq!(recv_bcl(0, &late), Err(BclError::OutOfOrder));
}

#[test]
fn other_messages_are_passed_over() {
    let events = vec![
        MidiEvent::Other,
        line(DeviceID::Device(5), 0, "other device"),
        line(DeviceID::Device(2), 0, "$rev R1"),
        MidiEvent::ControlChange {
            channel: 0,
            control: ControlChange { control: 1, value: ControlValue::Simple(3) },
        },
        MidiEvent::SysEx { manufacturer: ManufacturerId::Id(0x41), data: vec![2, 0x15, 0x20, 0, 0] },
        MidiEvent::SysEx { manufacturer: ManufacturerId::ExtId(0x20, 0x32), data: vec![2, 0x15] },
        BControlSysEx {
            device: DeviceID::Device(2),
            model: BControlModel::BCR,
            command: BControlCommand::BclReply { msg_index: 0, error_code: 0 },
        }
        .to_event(),
        line(DeviceID::Any, 1, "$end"),
        line(DeviceID::Device(2), 7, "behind the end"),
    ];
    assert_eq!(recv_bcl(2, &events), Ok(vec!["$rev R1".to_string(), "$end".to_string()]));
}

#[test]
fn a_complete_session_takes_nothing_more() {
    let mut s = BclSession::new(1);
    assert_eq!(s.accept_line(0, "$end".to_string()), Ok(true));
    assert!(s.is_complete());
    assert_eq!(s.accept_line(5, "x".to_string()), Ok(true));
    assert_eq!(s.offer(&line(DeviceID::Device(1), 1, "y")), Ok(true));
    assert_eq!(s.next_index(), 1);
    assert_eq!(s.finish(), Ok(vec!["$end".to_string()]));
}

#[test]
fn the_closing_line_is_exact() {
    assert!(is_end_marker(&"$end".to_string()));
    assert!(!is_end_marker(&"$end ".to_string()));
    assert!(!is_end_marker(&"$END".to_string()));
    assert!(!is_end_marker(&String::new()));
    let events = vec![line(DeviceID::Device(0), 0, " $end"), line(DeviceID::Device(0), 1, "$end")];
    assert_eq!(recv_bcl(0, &events), Ok(vec![" $end".to_string(), "$end".to_string()]));
}

#[test]
fn queries_come_with_an_armed_session() {
    let (session, request) = get_preset_bcl(4, PresetIndex::Preset(9));
    assert_eq!(session.next_index(), 0);
    assert!(!session.is_complete());
    assert_eq!(
        request,
        BControlSysEx {
            device: DeviceID::Device(4),
            model: BControlModel::Any,
            command: BControlCommand::RequestData(PresetIndex::Preset(9)),
        }
    );
    assert_eq!(request.to_midi(), vec![4, 0x7f, 0x40, 9, 0xf7]);
    let (session, request) = get_global_bcl(15);
    assert_eq!(session.next_index(), 0);
    assert_eq!(request.to_midi(), vec![15, 0x7f, 0x41, 0xf7]);
}
