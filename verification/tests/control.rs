use gpiosim::{find_configfs, Bank, Chip, Direction, Error, Level, Progress, Reply, Request};
use std::io::ErrorKind;

fn chip() -> Chip {
    Chip::new(Bank::new(8, "left"), "gpio-sim.3", "gpiochip9")
}

fn write(request: Request) -> (String, String) {
    match request {
        Request::Write { path, data } => (path, data),
        other => panic!("{:?}", other),
    }
}

fn read(request: Request) -> String {
    match request {
        Request::Read(path) => path,
        other => panic!("{:?}", other),
    }
}

#[test]
fn chip_paths_follow_from_its_names() {
    let c = chip();
    assert_eq!(c.dev_path(), "/dev/gpiochip9");
    assert_eq!(c.sysfs_path(), "/sys/devices/platform/gpio-sim.3/gpiochip9");
    assert_eq!(c.chip_name, "gpiochip9");
    assert_eq!(c.dev_name, "gpio-sim.3");
    assert_eq!(c.chip_name(), "gpiochip9");
    assert_eq!(c.dev_name(), "gpio-sim.3");
    assert_eq!(c.config().num_lines, 8);
    assert_eq!(c.config().label, "left");
}

#[test]
fn chip_keeps_its_configuration() {
    let mut bank = Bank::new(4, "b");
    bank.name(1, "one").hog(2, "h", Direction::OutputHigh);
    let c = Chip::new(bank, "d", "c");
    assert_eq!(c.config().names[&1], "one");
    assert_eq!(c.config().hogs[&2].consumer, "h");
    assert_eq!(c.config().hogs[&2].direction, Direction::OutputHigh);
}

#[test]
fn chips_with_one_device_node_are_equal() {
    let a = Chip::new(Bank::new(8, "left"), "gpio-sim.3", "gpiochip9");
    let b = Chip::new(Bank::new(2, "right"), "gpio-sim.4", "gpiochip9");
    let c = Chip::new(Bank::new(8, "left"), "gpio-sim.3", "gpiochip10");
    assert!(a == b);
    assert!(a != c);
}

#[test]
fn set_pull_writes_the_pull_attribute() {
    let (path, data) = write(chip().set_pull(5, Level::High));
    assert_eq!(path, "/sys/devices/platform/gpio-sim.3/gpiochip9/sim_gpio5/pull");
    assert_eq!(data, "pull-up");
    let (path, data) = write(chip().set_pull(0, Level::Low));
    assert_eq!(path, "/sys/devices/platform/gpio-sim.3/gpiochip9/sim_gpio0/pull");
    assert_eq!(data, "pull-down");
}

#[test]
fn pullup_and_pulldown_set_the_pull() {
    assert_eq!(write(chip().pullup(12)), write(chip().set_pull(12, Level::High)));
    assert_eq!(write(chip().pulldown(12)), write(chip().set_pull(12, Level::Low)));
    assert_eq!(write(chip().pullup(4294967295)).0, "/sys/devices/platform/gpio-sim.3/gpiochip9/sim_gpio4294967295/pull");
}

#[test]
fn get_pull_reads_what_set_pull_writes() {
    let read_at = read(chip().get_pull(3));
    let (written_at, data) = write(chip().set_pull(3, Level::High));
    assert_eq!(read_at, written_at);
    assert_eq!(Reply::Text(data).pull().unwrap(), Level::High);
}

#[test]
fn get_level_reads_the_value_attribute() {
    assert_eq!(read(chip().get_level(3)), "/sys/devices/platform/gpio-sim.3/gpiochip9/sim_gpio3/value");
    assert_eq!(read(chip().get_attr(3, "value")), read(chip().get_level(3)));
    assert_eq!(read(chip().get_attr(3, "pull")), read(chip().get_pull(3)));
}

#[test]
fn replies_are_trimmed() {
    assert_eq!(Reply::Text("gpiochip0\n".to_string()).value().unwrap(), "gpiochip0");
    assert_eq!(Reply::Text(" pull-up \n".to_string()).pull().unwrap(), Level::High);
    assert_eq!(Reply::Text("pull-down".to_string()).pull().unwrap(), Level::Low);
    assert_eq!(Reply::Text("1\n".to_string()).level().unwrap(), Level::High);
    assert_eq!(Reply::Text("0".to_string()).level().unwrap(), Level::Low);
}

#[test]
fn failed_reads_are_io_errors() {
    let failed = || Reply::Failed(std::io::Error::from(ErrorKind::PermissionDenied));
    assert!(matches!(failed().value(), Err(Error::IoError(e)) if e.kind() == ErrorKind::PermissionDenied));
    assert!(matches!(failed().pull(), Err(Error::IoError(_))));
    assert!(matches!(failed().level(), Err(Error::IoError(_))));
    assert!(matches!(failed().completion(), Err(Error::IoError(_))));
    assert!(matches!(chip().toggle(1, failed()), Err(Error::IoError(_))));
    assert!(Reply::Done.completion().is_ok());
}

#[test]
fn unexpected_values_are_reported_trimmed() {
    assert!(matches!(Reply::Text("floating\n".to_string()).pull(), Err(Error::UnexpectedValue(v)) if v == "floating"));
    assert!(matches!(Reply::Text("\n".to_string()).level(), Err(Error::UnexpectedValue(v)) if v.is_empty()));
    assert!(matches!(Reply::Text("pull-up".to_string()).level(), Err(Error::UnexpectedValue(v)) if v == "pull-up"));
}

#[test]
fn toggle_sets_the_opposite_pull() {
    let (value, request) = chip().toggle(6, Reply::Text("pull-down\n".to_string())).unwrap();
    assert_eq!(value, Level::High);
    assert_eq!(write(request), write(chip().set_pull(6, Level::High)));
    let (value, request) = chip().toggle(6, Reply::Text("pull-up\n".to_string())).unwrap();
    assert_eq!(value, Level::Low);
    assert_eq!(write(request), write(chip().set_pull(6, Level::Low)));
}

#[test]
fn toggle_twice_restores_the_pull() {
    for pull in [Level::High, Level::Low] {
        let (once, first) = chip().toggle(2, Reply::Text(pull.as_pull().to_string())).unwrap();
        let (twice, second) = chip().toggle(2, Reply::Text(write(first).1)).unwrap();
        assert_eq!(once, pull.toggle());
        assert_eq!(twice, pull);
        assert_eq!(write(second).1, pull.as_pull());
    }
}

#[test]
fn replies_know_what_they_can_answer() {
    assert!(Reply::Done.is_completion());
    assert!(Reply::Failed(std::io::Error::from(ErrorKind::Other)).is_completion());
    assert!(!Reply::Found(true).is_completion());
    assert!(Reply::Text(String::new()).is_content());
    assert!(Reply::Failed(std::io::Error::from(ErrorKind::Other)).is_content());
    assert!(!Reply::Done.is_content());
}

#[test]
fn locator_accepts_only_an_exit_for_the_loader() {
    let (machine, request) = find_configfs();
    assert!(matches!(&request, Request::Exists(path) if path == "/sys/kernel/config/gpio-sim"));
    assert!(machine.accepts(&Reply::Found(false)));
    assert!(machine.accepts(&Reply::Done));
    let (machine, request) = match machine.step(Reply::Found(false)) {
        Progress::Next(machine, request) => (machine, request),
        Progress::Done(place) => panic!("{:?}", place),
    };
    assert!(matches!(&request, Request::Run { program, arg } if program == "modprobe" && arg == "gpio-sim"));
    assert!(!machine.accepts(&Reply::Done));
    assert!(!machine.accepts(&Reply::Found(true)));
    assert!(machine.accepts(&Reply::Exited { success: true, stderr: Vec::new() }));
    assert!(machine.accepts(&Reply::Failed(std::io::Error::from(ErrorKind::NotFound))));
}

#[test]
fn activation_accepts_what_answers_its_request() {
    let mut config = gpiosim::builder();
    config.with_bank(&Bank::new(1, "x"));
    let (machine, request) = config.live();
    assert!(matches!(request, Request::Identify));
    assert!(!machine.accepts(&Reply::Done));
    assert!(machine.accepts(&Reply::Identity { file_name: None, pid: 31, count: 0 }));
    let (machine, request) = match machine.step(Reply::Identity { file_name: None, pid: 31, count: 0 }) {
        Progress::Next(machine, request) => (machine, request),
        Progress::Done(outcome) => panic!("{:?}", outcome),
    };
    assert!(matches!(&request, Request::Exists(path) if path == "/sys/kernel/config/gpio-sim"));
    let (machine, request) = match machine.step(Reply::Found(true)) {
        Progress::Next(machine, request) => (machine, request),
        Progress::Done(outcome) => panic!("{:?}", outcome),
    };
    assert!(matches!(&request, Request::Exists(path) if path == "/sys/kernel/config/gpio-sim/gpiosim-p31-0"));
    let (machine, request) = match machine.step(Reply::Found(false)) {
        Progress::Next(machine, request) => (machine, request),
        Progress::Done(outcome) => panic!("{:?}", outcome),
    };
    assert!(matches!(&request, Request::CreateDir(path) if path == "/sys/kernel/config/gpio-sim/gpiosim-p31-0"));
    assert!(!machine.accepts(&Reply::Found(true)));
    assert!(!machine.accepts(&Reply::Text(String::new())));
    assert!(machine.accepts(&Reply::Done));
}
