use linkiq::ctrl::controller::{Command, Frame, FrameState, RssiDecision};
use linkiq::ctrl::Controller;
use linkiq::header::HeaderCodebook;
use linkiq::fec::CodeRate;
use linkiq::stack::Channel;

#[test]
fn controller_can_transmit() {
    let mut ctrl = Controller::new(());
    let mut commands = Vec::new();
    // Writes go straight to the transceiver while not listening.
    assert!(!ctrl.is_listening());
    commands.extend(ctrl.transmit(Channel::C));
    assert_eq!(vec![Command::SetChannel(Channel::C), Command::Transmit], commands);
    assert_eq!(Channel::C, ctrl.current_channel());
    assert!(!ctrl.is_listening());
}

#[test]
fn controller_can_receive_without_consuming_stream() {
    let mut ctrl = Controller::new(());
    assert_eq!(vec![Command::SetChannel(Channel::A), Command::Listen], ctrl.receive());
    ctrl.receiver_started();
    assert!(ctrl.is_listening());

    ctrl.idle();
    assert!(!ctrl.is_listening());
}

#[test]
fn controller_skips_quiet_channels() {
    let mut ctrl = Controller::new(());
    ctrl.receiver_started();
    assert_eq!(RssiDecision::NextChannel(Channel::B), ctrl.on_rssi(-120));
    assert_eq!(RssiDecision::NextChannel(Channel::C), ctrl.on_rssi(-120));
    assert_eq!(RssiDecision::NextChannel(Channel::D), ctrl.on_rssi(-110));
    assert_eq!(RssiDecision::NextChannel(Channel::A), ctrl.on_rssi(-106));
    assert_eq!([-111, -111, -110, -109], ctrl.noise_floor());
    assert!(ctrl.is_listening());
}

#[test]
fn controller_receives_above_noise_floor() {
    let mut ctrl = Controller::new(());
    assert_eq!(RssiDecision::Receive(12), ctrl.on_rssi(-100));
    assert_eq!(Channel::A, ctrl.current_channel());
    assert_eq!([-110, -110, -110, -110], ctrl.noise_floor());
    assert_eq!(Channel::B, ctrl.set_next_channel());
}

#[test]
fn controller_assembles_frame() {
    let mut codebook = HeaderCodebook::new();
    assert!(codebook.push(CodeRate::OneThird, 28, 0));
    let ctrl = Controller::new(());
    let mut frame = Frame::new(1000, Some(-100));
    let bytes = [0u8; 10];
    // 12 + 32 + 64 bytes in total.
    assert_eq!((None, FrameState::Incomplete), ctrl.on_bytes(&codebook, &mut frame, &bytes));
    assert_eq!((Some(108), FrameState::Incomplete), ctrl.on_bytes(&codebook, &mut frame, &bytes));
    for _ in 0..8 {
        assert_eq!((None, FrameState::Incomplete), ctrl.on_bytes(&codebook, &mut frame, &bytes));
    }
    assert_eq!((None, FrameState::Complete), ctrl.on_bytes(&codebook, &mut frame, &bytes));
    assert_eq!(110, frame.received());
    assert_eq!(108, frame.bytes().len());
    assert_eq!(1000, frame.timestamp());
    assert_eq!(vec![Command::Idle, Command::Listen], ctrl.on_read_error());
}

#[test]
fn controller_releases_transceiver() {
    let ctrl = Controller::new(42u32);
    assert_eq!(42, ctrl.release());
}

#[test]
fn channel_frequencies() {
    assert_eq!(868_450_000, Channel::A.frequency());
    assert_eq!(868_490_000, Channel::B.frequency());
    assert_eq!(868_570_000, Channel::D.frequency());
}
