use serial_term::{Coordinator, DataBitsExt, DataBitsOpt, Direction, LoopError, StopBitsExt, StopBitsOpt};

#[test]
fn first_failure_is_not_overridden_by_later_success() {
    let mut c = Coordinator::new();
    assert!(!c.is_terminated());
    assert!(c.loop_finished(Direction::ToConsole, Err(LoopError::Write)));
    assert!(c.is_terminated());
    assert!(!c.loop_finished(Direction::ToDevice, Ok(())));
    let o = c.outcome().unwrap();
    assert_eq!(o.from, Direction::ToConsole);
    assert_eq!(o.result, Err(LoopError::Write));
}

#[test]
fn first_failure_of_the_other_loop() {
    let mut c = Coordinator::new();
    assert!(c.loop_finished(Direction::ToDevice, Err(LoopError::Read)));
    assert!(!c.loop_finished(Direction::ToConsole, Err(LoopError::Write)));
    let o = c.outcome().unwrap();
    assert_eq!(o.from, Direction::ToDevice);
    assert_eq!(o.result, Err(LoopError::Read));
}

#[test]
fn first_close_ends_the_session() {
    let mut c = Coordinator::new();
    assert!(c.outcome().is_none());
    assert!(c.loop_finished(Direction::ToDevice, Ok(())));
    assert!(!c.loop_finished(Direction::ToConsole, Err(LoopError::Read)));
    let o = c.outcome().unwrap();
    assert_eq!(o.from, Direction::ToDevice);
    assert_eq!(o.result, Ok(()));
}

#[test]
fn data_bits_settings() {
    assert_eq!(DataBitsExt::try_from(5), Ok(DataBitsExt(DataBitsOpt::Five)));
    assert_eq!(DataBitsExt::try_from(6), Ok(DataBitsExt(DataBitsOpt::Six)));
    assert_eq!(DataBitsExt::try_from(7), Ok(DataBitsExt(DataBitsOpt::Seven)));
    assert_eq!(DataBitsExt::try_from(8), Ok(DataBitsExt(DataBitsOpt::Eight)));
    assert_eq!(DataBitsExt::try_from(4), Err(()));
    assert_eq!(DataBitsExt::try_from(9), Err(()));
}

#[test]
fn stop_bits_settings() {
    assert_eq!(StopBitsExt::try_from(1), Ok(StopBitsExt(StopBitsOpt::One)));
    assert_eq!(StopBitsExt::try_from(2), Ok(StopBitsExt(StopBitsOpt::Two)));
    assert_eq!(StopBitsExt::try_from(0), Err(()));
    assert_eq!(StopBitsExt::try_from(3), Err(()));
}
