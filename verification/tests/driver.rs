use nucleo_l476rg::pcm5122::{init_default, BusCommand, Pcm5122, DAC_ADDRESS, PAGE_SELECT_BYTE};
use nucleo_l476rg::session::{Event, Session};
use nucleo_l476rg::{flare_led, PinCommand};

/// Answers every command of `session` with the event `answer` gives for its
/// index, collecting the commands handed out.
fn drive<C: Copy, E>(
    session: &mut Session<C, E>,
    mut answer: impl FnMut(usize) -> Event<E>,
) -> Vec<C> {
    let mut seen = Vec::new();
    while let Some(c) = session.next_command() {
        let ev = answer(seen.len());
        seen.push(c);
        session.advance(ev);
    }
    seen
}

fn transfer(reg: u8, data: Option<u8>) -> BusCommand {
    BusCommand::WriteRead { addr: DAC_ADDRESS, reg, data }
}

#[test]
fn new_uses_dac_address() {
    let p = Pcm5122::new(7u32);
    assert_eq!(p.dac_addr(), 0x4d);
    assert_eq!(p.dac_addr(), 0x9a >> 1);
}

#[test]
fn bus_mut_reaches_the_bus() {
    let mut p = Pcm5122::new(7u32);
    *p.bus_mut() = 9;
    assert_eq!(*p.bus_mut(), 9);
    assert_eq!(p.dac_addr(), 0x4d);
}

#[test]
fn write_register_sends_page_select_then_register_and_value() {
    let p = Pcm5122::new(());
    let mut s: Session<BusCommand, &str> = p.write_register(0x1, 0x11);
    let seen = drive(&mut s, |_| Event::Succeeded(0x33));
    assert_eq!(seen, vec![transfer(PAGE_SELECT_BYTE, None), transfer(0x81, Some(0x11))]);
    assert!(s.is_finished());
    assert_eq!(s.into_result(), Ok(0x33));
}

#[test]
fn write_register_keeps_low_bits_of_register_and_value() {
    let p = Pcm5122::new(());
    let mut s: Session<BusCommand, ()> = p.write_register(0x1d5, 0x2ab);
    let seen = drive(&mut s, |_| Event::Succeeded(0));
    assert_eq!(seen, vec![transfer(0x80, None), transfer(0xd5, Some(0xab))]);
    let mut t: Session<BusCommand, ()> = p.write_register(0x55, 0xab);
    assert_eq!(drive(&mut t, |_| Event::Succeeded(0)), seen);
}

#[test]
fn read_register_returns_second_byte() {
    let p = Pcm5122::new(());
    let mut s: Session<BusCommand, ()> = p.read_register(0x5);
    let seen = drive(&mut s, |i| Event::Succeeded(if i == 0 { 7 } else { 42 }));
    assert_eq!(seen, vec![transfer(0x80, None), transfer(0x85, None)]);
    assert_eq!(s.into_result(), Ok(42));
}

#[test]
fn failed_page_select_stops_register_write() {
    let p = Pcm5122::new(());
    let mut s: Session<BusCommand, &str> = p.write_register(0x2, 0x10);
    let seen = drive(&mut s, |_| Event::Failed("nack"));
    assert_eq!(seen, vec![transfer(0x80, None)]);
    assert_eq!(s.next_command(), None);
    assert_eq!(s.into_result(), Err("nack"));
}

#[test]
fn failed_register_read_returns_error() {
    let p = Pcm5122::new(());
    let mut s: Session<BusCommand, u8> = p.read_register(0x2);
    let seen = drive(&mut s, |i| if i == 0 { Event::Succeeded(1) } else { Event::Failed(9) });
    assert_eq!(seen.len(), 2);
    assert_eq!(s.into_result(), Err(9));
}

#[test]
fn finished_session_ignores_reports() {
    let p = Pcm5122::new(());
    let mut s: Session<BusCommand, u8> = p.read_register(0x2);
    s.advance(Event::Failed(1));
    assert!(s.is_finished());
    s.advance(Event::Failed(2));
    s.advance(Event::Succeeded(3));
    assert_eq!(s.next_command(), None);
    assert_eq!(s.into_result(), Err(1));
}

#[test]
fn init_default_runs_whole_configuration() {
    let p = Pcm5122::new(());
    let mut s: Session<BusCommand, ()> = init_default(&p);
    let seen = drive(&mut s, |_| Event::Succeeded(0));
    assert_eq!(seen.len(), 68);
    assert_eq!(seen[0], transfer(0x80, None));
    assert_eq!(seen[1], transfer(0x81, Some(0x11)));
    assert_eq!(seen[16], BusCommand::Pause(100));
    assert_eq!(seen[21], BusCommand::Pause(30));
    assert_eq!(seen[20], transfer(0xd6, Some(0x04)));
    assert_eq!(seen[67], transfer(0x82, Some(0x00)));
    let pauses = seen.iter().filter(|c| matches!(c, BusCommand::Pause(_))).count();
    assert_eq!(pauses, 2);
    for c in &seen {
        if let BusCommand::WriteRead { addr, reg, .. } = c {
            assert_eq!(*addr, 0x4d);
            assert!(*reg >= 0x80);
        }
    }
    assert_eq!(s.into_result(), Ok(0));
}

#[test]
fn init_default_stops_at_first_failure() {
    let p = Pcm5122::new(());
    let mut s: Session<BusCommand, usize> = init_default(&p);
    let seen = drive(&mut s, |i| if i == 4 { Event::Failed(i) } else { Event::Succeeded(0) });
    assert_eq!(seen.len(), 5);
    assert_eq!(seen[4], transfer(0x80, None));
    assert_eq!(s.into_result(), Err(4));
}

#[test]
fn flare_led_blinks_twice() {
    let mut s: Session<PinCommand, ()> = flare_led();
    let seen = drive(&mut s, |_| Event::Succeeded(0));
    assert_eq!(
        seen,
        vec![
            PinCommand::High,
            PinCommand::Pause(1),
            PinCommand::Low,
            PinCommand::Pause(1),
            PinCommand::High,
            PinCommand::Pause(1),
            PinCommand::Low,
            PinCommand::Pause(1),
        ]
    );
    assert_eq!(s.into_result(), Ok(0));
}

#[test]
fn flare_led_stops_when_pin_fails() {
    let mut s: Session<PinCommand, &str> = flare_led();
    let seen = drive(&mut s, |i| if i == 2 { Event::Failed("pin") } else { Event::Succeeded(0) });
    assert_eq!(seen, vec![PinCommand::High, PinCommand::Pause(1), PinCommand::Low]);
    assert_eq!(s.into_result(), Err("pin"));
}

#[test]
fn empty_session_finishes_at_once() {
    let mut s: Session<PinCommand, ()> = Session::new(Vec::new());
    assert!(s.is_finished());
    assert_eq!(s.next_command(), None);
    s.advance(Event::Succeeded(5));
    assert_eq!(s.into_result(), Ok(0));
}
