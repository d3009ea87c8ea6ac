use clock_display::device::{DeviceHandle, TransportCommand, DEFAULT_BRIGHTNESS};
use clock_display::display::DisplayMessage;
use clock_display::handler::{handle_set_brightness, handle_set_digits};

/// A stand-in for the physical display: applies transport commands the way
/// the device observably reacts to them.
#[derive(Clone, Copy, PartialEq, Eq, Debug)]
struct SimDevice {
    initialized: bool,
    brightness: u8,
    shown: [u8; 4],
}

impl SimDevice {
    fn fresh() -> SimDevice {
        SimDevice { initialized: false, brightness: 0, shown: [0; 4] }
    }

    fn run(&mut self, cmds: &[TransportCommand]) {
        for c in cmds {
            match c {
                TransportCommand::Init => self.initialized = true,
                TransportCommand::SetBrightness(b) => self.brightness = *b,
                TransportCommand::Clear => self.shown = [0; 4],
                TransportCommand::Write(f) => self.shown = *f,
            }
        }
    }
}

fn inited_pair() -> (DeviceHandle, SimDevice) {
    let mut handle = DeviceHandle::new();
    let mut sim = SimDevice::fresh();
    let cmds = handle.init();
    sim.run(&cmds);
    (handle, sim)
}

#[test]
fn init_runs_the_full_startup_block() {
    let mut handle = DeviceHandle::new();
    let cmds = handle.init();
    assert_eq!(
        cmds,
        vec![
            TransportCommand::Init,
            TransportCommand::SetBrightness(DEFAULT_BRIGHTNESS),
            TransportCommand::Clear,
            TransportCommand::Write(DisplayMessage::Init.as_bytes()),
        ]
    );
}

#[test]
fn init_configures_before_anything_is_shown() {
    // The protocol initialisation comes before any brightness or write
    // command, so no later operation can reach a half-configured device.
    let mut handle = DeviceHandle::new();
    let cmds = handle.init();
    let init_pos = cmds.iter().position(|c| *c == TransportCommand::Init).unwrap();
    for (i, c) in cmds.iter().enumerate() {
        match c {
            TransportCommand::Write(_) | TransportCommand::SetBrightness(_) => {
                assert!(init_pos < i);
            }
            _ => {}
        }
    }
    let mut sim = SimDevice::fresh();
    sim.run(&cmds);
    assert!(sim.initialized);
    assert_eq!(sim.brightness, 5);
    assert_eq!(sim.shown, DisplayMessage::Init.as_bytes());
}

#[test]
fn write_is_idempotent_on_the_device() {
    let (mut handle, sim0) = inited_pair();
    let frame = [0x01, 0x02, 0x03, 0x04];
    let cmds1 = handle.write(frame);
    let mut once = sim0;
    once.run(&cmds1);
    let cmds2 = handle.write(frame);
    let mut twice = sim0;
    twice.run(&cmds1);
    twice.run(&cmds2);
    assert_eq!(once, twice);
    assert_eq!(once.shown, frame);
}

#[test]
fn write_is_all_or_nothing() {
    // Whatever was on the display before, one whole write block leaves
    // exactly the new frame, and touches nothing else.
    let (mut handle, mut sim) = inited_pair();
    let first = [0xaa, 0xbb, 0xcc, 0xdd];
    let cmds = handle.write(first);
    sim.run(&cmds);
    assert_eq!(sim.shown, first);
    assert_eq!(sim.brightness, 5);
    let second = [0x11, 0x22, 0x33, 0x44];
    let cmds = handle.write(second);
    sim.run(&cmds);
    assert_eq!(sim.shown, second);
    assert_eq!(sim.brightness, 5);
}

#[test]
fn serialized_writes_end_with_the_last_frame() {
    let frame_a = [1, 2, 3, 4];
    let frame_b = [5, 6, 7, 8];
    let (mut handle, mut sim) = inited_pair();
    let a = handle.write(frame_a);
    let b = handle.write(frame_b);
    sim.run(&a);
    sim.run(&b);
    assert_eq!(sim.shown, frame_b);

    let (mut handle2, mut sim2) = inited_pair();
    let b2 = handle2.write(frame_b);
    let a2 = handle2.write(frame_a);
    sim2.run(&b2);
    sim2.run(&a2);
    assert_eq!(sim2.shown, frame_a);
}

#[test]
fn brightness_zero_and_eight_are_ignored() {
    let (mut handle, mut sim) = inited_pair();
    let before = sim;
    let cmds = handle.set_brightness(0);
    assert!(cmds.is_empty());
    sim.run(&cmds);
    assert_eq!(sim, before);
    let cmds = handle.set_brightness(8);
    assert!(cmds.is_empty());
    sim.run(&cmds);
    assert_eq!(sim, before);
}

#[test]
fn brightness_one_and_seven_apply() {
    let (mut handle, mut sim) = inited_pair();
    let cmds = handle.set_brightness(1);
    assert_eq!(cmds, vec![TransportCommand::SetBrightness(1)]);
    sim.run(&cmds);
    assert_eq!(sim.brightness, 1);
    let cmds = handle.set_brightness(7);
    assert_eq!(cmds, vec![TransportCommand::SetBrightness(7)]);
    sim.run(&cmds);
    assert_eq!(sim.brightness, 7);
}

#[test]
fn set_digits_writes_literal_query_bytes() {
    let (mut handle, mut sim) = inited_pair();
    let cmds = handle_set_digits(&mut handle, "/set_digits?ab");
    sim.run(&cmds);
    assert_eq!(sim.shown, [0x61, 0x62, 0, 0]);
}

#[test]
fn set_digits_truncates_to_four_positions() {
    let (mut handle, mut sim) = inited_pair();
    let cmds = handle_set_digits(&mut handle, "/set_digits?abcdef");
    sim.run(&cmds);
    assert_eq!(sim.shown, [0x61, 0x62, 0x63, 0x64]);
}

#[test]
fn set_digits_without_query_blanks_the_display() {
    let (mut handle, mut sim) = inited_pair();
    let cmds = handle_set_digits(&mut handle, "/set_digits");
    sim.run(&cmds);
    assert_eq!(sim.shown, [0, 0, 0, 0]);
}

#[test]
fn set_brightness_request_applies_valid_level() {
    let (mut handle, mut sim) = inited_pair();
    let cmds = handle_set_brightness(&mut handle, "/set_brightness?3");
    assert_eq!(cmds, vec![TransportCommand::SetBrightness(3)]);
    sim.run(&cmds);
    assert_eq!(sim.brightness, 3);
    let cmds = handle_set_brightness(&mut handle, "/set_brightness?+5");
    assert_eq!(cmds, vec![TransportCommand::SetBrightness(5)]);
    sim.run(&cmds);
    assert_eq!(sim.brightness, 5);
}

#[test]
fn set_brightness_request_ignores_invalid_input() {
    let (mut handle, mut sim) = inited_pair();
    let before = sim;
    for url in [
        "/set_brightness?9",
        "/set_brightness?0",
        "/set_brightness?abc",
        "/set_brightness?",
        "/set_brightness",
        "/set_brightness?3&x=1",
    ] {
        let cmds = handle_set_brightness(&mut handle, url);
        assert!(cmds.is_empty(), "url {url} must be ignored");
        sim.run(&cmds);
        assert_eq!(sim, before);
    }
}
