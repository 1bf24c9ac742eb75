use gpiosim::{
    builder, find_configfs, Bank, Builder, Direction, Error, Level, Progress, Refusal, Reply,
    Request, Sim, Simpleton,
};
use std::collections::{BTreeMap, BTreeSet};
use std::io::ErrorKind;

const CONFIGFS: &str = "/sys/kernel/config/gpio-sim";

/// A kernel with gpio-sim whose configfs and sysfs live in memory.
struct World {
    dirs: BTreeSet<String>,
    files: BTreeMap<String, String>,
    links: BTreeSet<String>,
    refuse: BTreeSet<String>,
    mounts: Vec<String>,
    lingering: u32,
    modprobe: Option<Result<(bool, Vec<u8>), ErrorKind>>,
    loaded_place: Option<String>,
    devices: u32,
    chips: u32,
    count: u32,
    log: Vec<Request>,
}

fn parent(path: &str) -> &str {
    match path.rfind('/') {
        Some(0) => "/",
        Some(at) => &path[..at],
        None => "",
    }
}

fn failed(kind: ErrorKind) -> Reply {
    Reply::Failed(std::io::Error::from(kind))
}

impl World {
    fn new() -> World {
        let mut world = World::bare();
        world.dirs.insert(CONFIGFS.to_string());
        world
    }

    fn bare() -> World {
        World {
            dirs: BTreeSet::new(),
            files: BTreeMap::new(),
            links: BTreeSet::new(),
            refuse: BTreeSet::new(),
            mounts: Vec::new(),
            lingering: 0,
            modprobe: None,
            loaded_place: None,
            devices: 0,
            chips: 0,
            count: 0,
            log: Vec::new(),
        }
    }

    fn has(&self, path: &str) -> bool {
        let plain = if path.len() > 1 { path.trim_end_matches('/') } else { path };
        self.dirs.contains(plain) || self.files.contains_key(plain)
    }

    fn has_child(&self, dir: &str) -> bool {
        self.dirs.iter().any(|d| parent(d) == dir)
    }

    fn go_live(&mut self, sim_dir: &str) {
        let dev_name = format!("gpio-sim.{}", self.devices);
        self.devices += 1;
        self.files.insert(format!("{sim_dir}/dev_name"), format!("{dev_name}\n"));
        let banks: Vec<String> =
            self.dirs.iter().filter(|d| parent(d) == sim_dir).cloned().collect();
        for bank in banks {
            let chip_name = format!("gpiochip{}", self.chips);
            self.chips += 1;
            self.files.insert(format!("{bank}/chip_name"), format!("{chip_name}\n"));
            self.files.insert(format!("/dev/{chip_name}"), String::new());
            let lines: u32 = self.files[&format!("{bank}/num_lines")].parse().unwrap();
            for offset in 0..lines {
                let line = format!("/sys/devices/platform/{dev_name}/{chip_name}/sim_gpio{offset}");
                self.files.insert(format!("{line}/pull"), "pull-down\n".to_string());
                self.files.insert(format!("{line}/value"), "0\n".to_string());
            }
        }
    }

    fn perform(&mut self, request: &Request) -> Reply {
        self.log.push(request.clone());
        match request {
            Request::Exists(path) => {
                if self.lingering > 0 && !self.dirs.contains(path) && path.starts_with(CONFIGFS) {
                    self.lingering -= 1;
                    return Reply::Found(true);
                }
                Reply::Found(self.has(path))
            }
            Request::CreateDir(path) => {
                if self.refuse.contains(path) {
                    failed(ErrorKind::PermissionDenied)
                } else if self.has(path) {
                    failed(ErrorKind::AlreadyExists)
                } else if !self.dirs.contains(parent(path)) {
                    failed(ErrorKind::NotFound)
                } else {
                    self.dirs.insert(path.clone());
                    Reply::Done
                }
            }
            Request::RemoveDir(path) => {
                if !self.dirs.contains(path) {
                    failed(ErrorKind::NotFound)
                } else if self.has_child(path) {
                    failed(ErrorKind::DirectoryNotEmpty)
                } else {
                    self.dirs.remove(path);
                    self.files.retain(|file, _| parent(file) != path);
                    Reply::Done
                }
            }
            Request::Write { path, data } => {
                if self.refuse.contains(path) {
                    failed(ErrorKind::PermissionDenied)
                } else if !self.dirs.contains(parent(path)) && !self.files.contains_key(path) {
                    failed(ErrorKind::NotFound)
                } else {
                    self.files.insert(path.clone(), data.clone());
                    if path.ends_with("/live") && data == "1" {
                        self.go_live(parent(path));
                    }
                    Reply::Done
                }
            }
            Request::Read(path) => {
                if self.refuse.contains(path) {
                    failed(ErrorKind::PermissionDenied)
                } else {
                    match self.files.get(path) {
                        Some(text) => Reply::Text(text.clone()),
                        None => failed(ErrorKind::NotFound),
                    }
                }
            }
            Request::ReadLines(path) => {
                assert_eq!(path, "/proc/mounts");
                Reply::Lines(self.mounts.clone())
            }
            Request::IsSymlink(path) => {
                if self.links.contains(path) {
                    Reply::Found(true)
                } else if self.has(path) {
                    Reply::Found(false)
                } else {
                    failed(ErrorKind::NotFound)
                }
            }
            Request::Run { program, arg } => {
                assert_eq!(program, "modprobe");
                assert_eq!(arg, "gpio-sim");
                match self.modprobe.clone().expect("modprobe is not expected to run") {
                    Ok((success, stderr)) => {
                        if success {
                            if let Some(place) = self.loaded_place.clone() {
                                self.dirs.insert(place);
                            }
                        }
                        Reply::Exited { success, stderr }
                    }
                    Err(kind) => failed(kind),
                }
            }
            Request::Sleep(_) => Reply::Done,
            Request::Identify => {
                self.count += 1;
                Reply::Identity {
                    file_name: Some("lifecycle".to_string()),
                    pid: 1234,
                    count: self.count - 1,
                }
            }
        }
    }

    fn live(&mut self, config: &Builder) -> Result<Sim, Refusal> {
        let (mut machine, mut request) = config.live();
        loop {
            let reply = self.perform(&request);
            assert!(machine.accepts(&reply));
            match machine.step(reply) {
                Progress::Next(next, asked) => {
                    machine = next;
                    request = asked;
                }
                Progress::Done(outcome) => return outcome,
            }
        }
    }

    fn release(&mut self, sim: &Sim) {
        let (mut machine, mut request) = sim.cleanup_configfs();
        loop {
            let reply = self.perform(&request);
            match machine.step(reply) {
                Progress::Next(next, asked) => {
                    machine = next;
                    request = asked;
                }
                Progress::Done(()) => return,
            }
        }
    }

    fn locate(&mut self) -> Result<String, Error> {
        let (mut machine, mut request) = find_configfs();
        loop {
            let reply = self.perform(&request);
            assert!(machine.accepts(&reply));
            match machine.step(reply) {
                Progress::Next(next, asked) => {
                    machine = next;
                    request = asked;
                }
                Progress::Done(place) => return place,
            }
        }
    }

    fn read(&self, path: &str) -> &str {
        &self.files[path]
    }

    fn sleeps(&self) -> usize {
        self.log.iter().filter(|r| matches!(r, Request::Sleep(_))).count()
    }

    fn changes(&self) -> usize {
        self.log
            .iter()
            .filter(|r| {
                matches!(
                    r,
                    Request::CreateDir(_) | Request::RemoveDir(_) | Request::Write { .. }
                )
            })
            .count()
    }
}

fn two_banks(name: &str) -> Builder {
    let mut config = builder();
    config
        .with_name(name)
        .with_bank(
            Bank::new(8, "veintidós")
                .name(3, "banana")
                .name(5, "apple")
                .hog(2, "hogster", Direction::OutputLow)
                .hog(5, "breath", Direction::Input),
        )
        .with_bank(
            Bank::new(42, "babel")
                .name(3, "piñata")
                .name(4, "piggly")
                .hog(7, "hogster", Direction::OutputHigh),
        );
    config
}

#[test]
fn builder_goes_live() {
    let mut world = World::new();
    let name = gpiosim::unique_name("gpiosim", 77, 0, Some("live"));
    let s = world.live(&two_banks(&name)).unwrap();

    assert_eq!(s.name(), &name);
    let chips = s.chips();
    assert_eq!(chips.len(), 2);
    let dir = format!("{CONFIGFS}/{name}");
    assert_eq!(world.read(&format!("{dir}/live")), "1");

    // c0
    let c0 = &chips[0];
    assert_eq!(c0.config().num_lines, 8);
    assert_eq!(c0.chip_name, "gpiochip0");
    assert_eq!(c0.dev_name, "gpio-sim.0");
    assert_eq!(c0.dev_path(), "/dev/gpiochip0");
    assert_eq!(world.read(&format!("{dir}/bank0/label")), "veintidós");
    assert_eq!(world.read(&format!("{dir}/bank0/num_lines")), "8");

    // line 0 (unnamed and unhogged)
    assert!(!world.has(&format!("{dir}/bank0/line0")));

    // line 2 hogged
    assert!(!world.has(&format!("{dir}/bank0/line2/name")));
    assert_eq!(world.read(&format!("{dir}/bank0/line2/hog/name")), "hogster");
    assert_eq!(world.read(&format!("{dir}/bank0/line2/hog/direction")), "output-low");

    // line 3 named
    assert_eq!(world.read(&format!("{dir}/bank0/line3/name")), "banana");
    assert!(!world.has(&format!("{dir}/bank0/line3/hog")));

    // line 5 named and hogged
    assert_eq!(world.read(&format!("{dir}/bank0/line5/name")), "apple");
    assert_eq!(world.read(&format!("{dir}/bank0/line5/hog/name")), "breath");
    assert_eq!(world.read(&format!("{dir}/bank0/line5/hog/direction")), "input");

    // c1
    let c1 = &chips[1];
    assert_eq!(c1.config().num_lines, 42);
    assert_eq!(c1.chip_name, "gpiochip1");
    assert_eq!(c1.dev_name, "gpio-sim.0");
    assert_eq!(c1.dev_path(), "/dev/gpiochip1");
    assert_eq!(world.read(&format!("{dir}/bank1/label")), "babel");
    assert_eq!(world.read(&format!("{dir}/bank1/num_lines")), "42");

    // line 3 named
    assert_eq!(world.read(&format!("{dir}/bank1/line3/name")), "piñata");

    // line 4 named
    assert_eq!(world.read(&format!("{dir}/bank1/line4/name")), "piggly");

    // line 7 hogged
    assert_eq!(world.read(&format!("{dir}/bank1/line7/hog/name")), "hogster");
    assert_eq!(world.read(&format!("{dir}/bank1/line7/hog/direction")), "output-high");
}

#[test]
fn existing_name() {
    let mut world = World::new();
    let name = gpiosim::unique_name("gpiosim", 77, 1, Some("existing"));
    let config = two_banks(&name);
    let s1 = world.live(&config);
    assert!(s1.is_ok());

    let s2 = world.live(&config);
    match s2.unwrap_err() {
        Refusal::Error(Error::SimulatorExists(taken)) => assert_eq!(taken, name),
        other => panic!("{:?}", other),
    }
}

#[test]
fn existing_name_leaves_the_first_alone() {
    let mut world = World::new();
    let config = two_banks("twice");
    world.live(&config).unwrap();
    let dirs = world.dirs.clone();
    let files = world.files.clone();
    let changes = world.changes();

    assert!(world.live(&config).is_err());
    assert_eq!(world.dirs, dirs);
    assert_eq!(world.files, files);
    assert_eq!(world.changes(), changes);
}

#[test]
fn one_chip_scenario() {
    let mut world = World::new();
    let mut config = builder();
    config.with_name("scenario").with_bank(
        Bank::new(8, "fruit").name(3, "banana").hog(1, "hog1", Direction::OutputHigh),
    );
    let sim = world.live(&config).unwrap();
    assert_eq!(sim.chips().len(), 1);
    let dir = format!("{CONFIGFS}/scenario");
    assert_eq!(world.read(&format!("{dir}/bank0/num_lines")), "8");
    assert_eq!(world.read(&format!("{dir}/bank0/line3/name")), "banana");
    assert_eq!(world.read(&format!("{dir}/bank0/line1/hog/direction")), "output-high");
    assert_eq!(world.read(&format!("{dir}/live")), "1");
}

#[test]
fn setup_is_performed_in_order() {
    let mut config = builder();
    config.with_name("ordered").with_bank(
        Bank::new(4, "b").hog(2, "h", Direction::Input).name(2, "two").name(0, "zero"),
    );
    let mut world = World::new();
    let sim = world.live(&config).unwrap();
    let script = sim.setup_configfs();
    let dir = format!("{CONFIGFS}/ordered");
    let expected = vec![
        format!("mkdir {dir}/bank0"),
        format!("write {dir}/bank0/label b"),
        format!("write {dir}/bank0/num_lines 4"),
        format!("mkdir {dir}/bank0/line0"),
        format!("write {dir}/bank0/line0/name zero"),
        format!("mkdir {dir}/bank0/line2"),
        format!("write {dir}/bank0/line2/name two"),
        format!("look {dir}/bank0/line2"),
        format!("mkdir {dir}/bank0/line2"),
        format!("mkdir {dir}/bank0/line2/hog"),
        format!("write {dir}/bank0/line2/hog/name h"),
        format!("write {dir}/bank0/line2/hog/direction input"),
        format!("write {dir}/live 1"),
    ];
    let told: Vec<String> = script
        .iter()
        .map(|r| match r {
            Request::Exists(path) => format!("look {path}"),
            Request::CreateDir(path) => format!("mkdir {path}"),
            Request::Write { path, data } => format!("write {path} {data}"),
            other => panic!("{:?}", other),
        })
        .collect();
    assert_eq!(told, expected);
}

#[test]
fn line_that_is_there_is_not_made_again() {
    let mut config = builder();
    config.with_name("reuse").with_bank(
        Bank::new(4, "b").hog(2, "h", Direction::Input).name(2, "two").hog(3, "g", Direction::Input),
    );
    let mut world = World::new();
    world.live(&config).unwrap();
    let dir = format!("{CONFIGFS}/reuse");
    let made = |world: &World, path: &str| {
        world.log.iter().filter(|r| matches!(r, Request::CreateDir(p) if p == path)).count()
    };
    let looked = |world: &World, path: &str| {
        world.log.iter().filter(|r| matches!(r, Request::Exists(p) if p == path)).count()
    };
    assert_eq!(made(&world, &format!("{dir}/bank0/line2")), 1);
    assert_eq!(looked(&world, &format!("{dir}/bank0/line2")), 1);
    assert_eq!(made(&world, &format!("{dir}/bank0/line3")), 1);
    assert_eq!(looked(&world, &format!("{dir}/bank0/line3")), 1);
    assert_eq!(world.read(&format!("{dir}/bank0/line2/hog/name")), "h");
    assert_eq!(world.read(&format!("{dir}/bank0/line3/hog/name")), "g");
}

#[test]
fn hog_without_name_makes_its_line() {
    let mut config = builder();
    config.with_name("hogonly").with_bank(Bank::new(4, "b").hog(1, "h", Direction::OutputLow));
    let mut world = World::new();
    world.live(&config).unwrap();
    let dir = format!("{CONFIGFS}/hogonly");
    assert!(world.dirs.contains(&format!("{dir}/bank0/line1")));
    assert!(world.dirs.contains(&format!("{dir}/bank0/line1/hog")));
    assert!(!world.has(&format!("{dir}/bank0/line1/name")));
}

#[test]
fn removed_name_leaves_no_attribute() {
    let mut config = builder();
    config.with_name("unnamed").with_bank(
        Bank::new(8, "b").name(3, "banana").name(5, "apple").hog(3, "h", Direction::Input).unname(3),
    );
    let mut world = World::new();
    world.live(&config).unwrap();
    let dir = format!("{CONFIGFS}/unnamed");
    assert!(!world.has(&format!("{dir}/bank0/line3/name")));
    assert!(world.has(&format!("{dir}/bank0/line3/hog")));
    assert_eq!(world.read(&format!("{dir}/bank0/line5/name")), "apple");
}

#[test]
fn removed_hog_leaves_no_attribute() {
    let mut config = builder();
    config.with_name("unhogged").with_bank(
        Bank::new(8, "b").name(3, "banana").hog(3, "h", Direction::Input).hog(4, "g", Direction::Input).unhog(3).unhog(4),
    );
    let mut world = World::new();
    world.live(&config).unwrap();
    let dir = format!("{CONFIGFS}/unhogged");
    assert!(!world.has(&format!("{dir}/bank0/line3/hog")));
    assert!(!world.has(&format!("{dir}/bank0/line3/hog/direction")));
    assert_eq!(world.read(&format!("{dir}/bank0/line3/name")), "banana");
    assert!(!world.has(&format!("{dir}/bank0/line4")));
}

#[test]
fn offsets_beyond_the_lines_are_configured_too() {
    let mut config = builder();
    config.with_name("beyond").with_bank(Bank::new(2, "b").name(9, "nine"));
    let mut world = World::new();
    world.live(&config).unwrap();
    assert_eq!(world.read(&format!("{CONFIGFS}/beyond/bank0/line9/name")), "nine");
}

#[test]
fn banks_are_numbered_in_decimal() {
    let mut config = builder();
    config.with_name("many");
    for i in 0..12u32 {
        config.with_bank(Bank::new(i + 1, "bank").name(i, "line"));
    }
    let mut world = World::new();
    let sim = world.live(&config).unwrap();
    let dir = format!("{CONFIGFS}/many");
    assert_eq!(sim.chips().len(), 12);
    assert_eq!(world.read(&format!("{dir}/bank0/num_lines")), "1");
    assert_eq!(world.read(&format!("{dir}/bank9/num_lines")), "10");
    assert_eq!(world.read(&format!("{dir}/bank10/num_lines")), "11");
    assert_eq!(world.read(&format!("{dir}/bank11/line11/name")), "line");
    for (i, chip) in sim.chips().iter().enumerate() {
        assert_eq!(chip.config().num_lines, i as u32 + 1);
        assert_eq!(chip.dev_name, "gpio-sim.0");
    }
    world.release(&sim);
    assert!(!world.has(&dir));
}

#[test]
fn names_with_separators_go_where_a_path_would() {
    let mut world = World::new();
    world.dirs.insert("/elsewhere".to_string());
    let mut config = builder();
    config.with_name("/elsewhere/sim");
    let sim = world.live(&config).unwrap();
    assert_eq!(sim.dir(), "/elsewhere/sim");
    assert_eq!(sim.name(), "/elsewhere/sim");
    let mut empty = builder();
    empty.with_name("");
    assert!(matches!(world.live(&empty), Err(Refusal::Error(Error::SimulatorExists(name))) if name.is_empty()));
}

#[test]
fn teardown_removes_the_tree() {
    let mut world = World::new();
    let before = world.dirs.clone();
    let sim = world.live(&two_banks("gone")).unwrap();
    assert!(world.has(&format!("{CONFIGFS}/gone")));
    world.release(&sim);
    assert!(!world.has(&format!("{CONFIGFS}/gone")));
    assert_eq!(world.dirs, before);
    assert!(!world.files.keys().any(|f| f.starts_with(CONFIGFS)));
}

#[test]
fn teardown_clears_live_first() {
    let mut world = World::new();
    let sim = world.live(&two_banks("order")).unwrap();
    world.log.clear();
    world.release(&sim);
    let dir = format!("{CONFIGFS}/order");
    assert!(matches!(&world.log[0], Request::Exists(path) if *path == dir));
    assert!(matches!(&world.log[1], Request::Write { path, data }
        if *path == format!("{dir}/live") && data == "0"));
    let last_removal = world.log.iter().rev().find(|r| matches!(r, Request::RemoveDir(_)));
    assert!(matches!(last_removal, Some(Request::RemoveDir(path)) if *path == dir));
    assert!(matches!(world.log.last(), Some(Request::Exists(path)) if *path == dir));
}

#[test]
fn name_is_free_again_after_teardown() {
    let mut world = World::new();
    let config = two_banks("again");
    let first = world.live(&config).unwrap();
    world.release(&first);
    let second = world.live(&config);
    assert!(second.is_ok());
    assert_eq!(second.unwrap().name(), "again");
}

#[test]
fn teardown_twice_is_harmless() {
    let mut world = World::new();
    let sim = world.live(&two_banks("twice")).unwrap();
    world.release(&sim);
    world.log.clear();
    world.release(&sim);
    assert_eq!(world.log.len(), 1);
    assert!(matches!(&world.log[0], Request::Exists(_)));
    assert_eq!(world.changes(), 0);
}

#[test]
fn teardown_waits_until_the_directory_is_gone() {
    let mut world = World::new();
    let sim = world.live(&two_banks("slow")).unwrap();
    world.log.clear();
    world.lingering = 3;
    world.release(&sim);
    assert_eq!(world.sleeps(), 3);
    assert_eq!(world.lingering, 0);
    assert!(!world.has(&format!("{CONFIGFS}/slow")));
}

#[test]
fn teardown_goes_on_after_a_failure() {
    let mut world = World::new();
    let sim = world.live(&two_banks("rough")).unwrap();
    let dir = format!("{CONFIGFS}/rough");
    world.refuse.insert(format!("{dir}/live"));
    world.dirs.remove(&format!("{dir}/bank0/line2/hog"));
    world.release(&sim);
    assert!(!world.has(&dir));
}

#[test]
fn symlink_on_device_node_is_fatal() {
    let mut world = World::new();
    world.links.insert("/dev/gpiochip1".to_string());
    let outcome = world.live(&two_banks("masked"));
    match outcome {
        Err(Refusal::Symlink { dev_path, chip_name }) => {
            assert_eq!(dev_path, "/dev/gpiochip1");
            assert_eq!(chip_name, "gpiochip1");
        }
        other => panic!("{:?}", other),
    }
    assert!(!world.has(&format!("{CONFIGFS}/masked")));
}

#[test]
fn symlink_on_first_device_node_is_fatal() {
    let mut world = World::new();
    world.links.insert("/dev/gpiochip0".to_string());
    let outcome = world.live(&Simpleton::builder(4));
    assert!(matches!(outcome, Err(Refusal::Symlink { .. })));
    assert!(!world.dirs.iter().any(|d| d.starts_with(CONFIGFS) && d != CONFIGFS));
}

#[test]
fn failed_setup_leaves_no_tree() {
    let config = two_banks("leaky");
    let dir = format!("{CONFIGFS}/leaky");
    let mut probe = World::new();
    let sim = probe.live(&config).unwrap();
    for request in sim.setup_configfs() {
        let path = match request {
            Request::CreateDir(path) => path,
            Request::Write { path, .. } => path,
            Request::Exists(_) => continue,
            other => panic!("{:?}", other),
        };
        let mut world = World::new();
        world.refuse.insert(path.clone());
        let outcome = world.live(&config);
        assert!(
            matches!(&outcome, Err(Refusal::Error(Error::IoError(e))) if e.kind() == ErrorKind::PermissionDenied),
            "{path}: {outcome:?}"
        );
        assert!(!world.has(&dir), "{path}");
        assert!(!world.dirs.iter().any(|d| d.starts_with(&dir)), "{path}");
    }
}

#[test]
fn failed_read_back_leaves_no_tree() {
    let config = two_banks("unread");
    let dir = format!("{CONFIGFS}/unread");
    for attr in ["dev_name", "bank0/chip_name", "bank1/chip_name"] {
        let mut world = World::new();
        world.refuse.insert(format!("{dir}/{attr}"));
        let outcome = world.live(&config);
        assert!(matches!(outcome, Err(Refusal::Error(Error::IoError(_)))), "{attr}");
        assert!(!world.has(&dir), "{attr}");
    }
}

#[test]
fn missing_device_node_leaves_no_tree() {
    let mut config = builder();
    config.with_name("nodev").with_bank(&Bank::new(0, "empty"));
    let mut world = World::new();
    let outcome = {
        let (mut machine, mut request) = config.live();
        loop {
            let reply = match &request {
                Request::IsSymlink(_) => failed(ErrorKind::NotFound),
                other => world.perform(other),
            };
            match machine.step(reply) {
                Progress::Next(next, asked) => {
                    machine = next;
                    request = asked;
                }
                Progress::Done(outcome) => break outcome,
            }
        }
    };
    assert!(matches!(outcome, Err(Refusal::Error(Error::IoError(e))) if e.kind() == ErrorKind::NotFound));
    assert!(!world.has(&format!("{CONFIGFS}/nodev")));
}

#[test]
fn failure_to_create_the_directory_is_reported() {
    let mut world = World::new();
    world.refuse.insert(format!("{CONFIGFS}/denied"));
    let outcome = world.live(&two_banks("denied"));
    assert!(matches!(outcome, Err(Refusal::Error(Error::IoError(_)))));
    assert_eq!(world.changes(), 1);
}

#[test]
fn simulator_without_banks_goes_live() {
    let mut config = builder();
    config.with_name("empty");
    let mut world = World::new();
    let sim = world.live(&config).unwrap();
    assert_eq!(sim.chips().len(), 0);
    assert_eq!(world.read(&format!("{CONFIGFS}/empty/live")), "1");
    world.release(&sim);
    assert!(!world.has(&format!("{CONFIGFS}/empty")));
}

#[test]
fn name_is_generated_when_none_is_given() {
    let mut world = World::new();
    let mut config = builder();
    config.with_bank(&Bank::new(4, "anon"));
    let first = world.live(&config).unwrap();
    let second = world.live(&config).unwrap();
    assert_eq!(first.name(), "lifecycle-p1234-0");
    assert_eq!(second.name(), "lifecycle-p1234-1");
    assert!(world.has(&format!("{CONFIGFS}/lifecycle-p1234-0/bank0")));
}

#[test]
fn given_name_asks_for_no_identity() {
    let mut world = World::new();
    world.live(&two_banks("given")).unwrap();
    assert!(!world.log.iter().any(|r| matches!(r, Request::Identify)));
    assert_eq!(world.count, 0);
}

#[test]
fn simpleton_goes_live() {
    let mut world = World::new();
    let s = Simpleton::new(world.live(&Simpleton::builder(12)).unwrap());
    assert_eq!(s.sim().chips().len(), 1);
    let c = s.chip();
    assert_eq!(c.config().num_lines, 12);
    assert_eq!(c.config().label, "simpleton");
    assert_eq!(s.config().num_lines, 12);
    assert_eq!(s.dev_path(), "/dev/gpiochip0");
    assert_eq!(c.chip_name, "gpiochip0");
    let dir = format!("{CONFIGFS}/{}", s.sim().name());
    assert_eq!(world.read(&format!("{dir}/bank0/label")), "simpleton");
    assert_eq!(world.read(&format!("{dir}/bank0/num_lines")), "12");
}

fn get_pull(world: &mut World, s: &Simpleton, offset: u32) -> Result<Level, Error> {
    world.perform(&s.get_pull(offset)).pull()
}

fn set(world: &mut World, request: Request) -> Result<(), Error> {
    world.perform(&request).completion()
}

#[test]
fn pull() {
    let mut world = World::new();
    let s = Simpleton::new(world.live(&Simpleton::builder(8)).unwrap());

    assert_eq!(get_pull(&mut world, &s, 5).unwrap(), gpiosim::Level::Low);

    assert!(set(&mut world, s.pullup(5)).is_ok());
    assert_eq!(get_pull(&mut world, &s, 5).unwrap(), gpiosim::Level::High);

    assert!(set(&mut world, s.pulldown(5)).is_ok());
    assert_eq!(get_pull(&mut world, &s, 5).unwrap(), gpiosim::Level::Low);

    assert!(set(&mut world, s.set_pull(5, gpiosim::Level::High)).is_ok());
    assert_eq!(get_pull(&mut world, &s, 5).unwrap(), gpiosim::Level::High);

    assert!(set(&mut world, s.set_pull(5, gpiosim::Level::Low)).is_ok());
    assert_eq!(get_pull(&mut world, &s, 5).unwrap(), gpiosim::Level::Low);
}

fn toggle_line(world: &mut World, s: &Simpleton, offset: u32) -> Result<Level, Error> {
    let read = world.perform(&s.get_pull(offset));
    let (value, request) = s.toggle(offset, read)?;
    world.perform(&request).completion()?;
    Ok(value)
}

#[test]
fn toggle() {
    let mut world = World::new();
    let s = Simpleton::new(world.live(&Simpleton::builder(8)).unwrap());

    assert_eq!(get_pull(&mut world, &s, 4).unwrap(), gpiosim::Level::Low);

    assert!(toggle_line(&mut world, &s, 4).is_ok());
    assert_eq!(get_pull(&mut world, &s, 4).unwrap(), gpiosim::Level::High);

    assert!(toggle_line(&mut world, &s, 4).is_ok());
    assert_eq!(get_pull(&mut world, &s, 4).unwrap(), gpiosim::Level::Low);
}

#[test]
fn toggle_returns_the_new_pull() {
    let mut world = World::new();
    let s = Simpleton::new(world.live(&Simpleton::builder(8)).unwrap());
    assert_eq!(toggle_line(&mut world, &s, 1).unwrap(), Level::High);
    assert_eq!(toggle_line(&mut world, &s, 1).unwrap(), Level::Low);
    assert_eq!(get_pull(&mut world, &s, 0).unwrap(), Level::Low);
}

#[test]
fn get_level() {
    let mut world = World::new();
    let s = Simpleton::new(world.live(&Simpleton::builder(8)).unwrap());
    let value = "/sys/devices/platform/gpio-sim.0/gpiochip0/sim_gpio3/value".to_string();

    // chip pull checked to ensure not altered
    assert_eq!(get_pull(&mut world, &s, 3).unwrap(), gpiosim::Level::Low);
    assert_eq!(world.perform(&s.get_level(3)).level().unwrap(), gpiosim::Level::Low);

    world.files.insert(value.clone(), "1\n".to_string());
    assert_eq!(get_pull(&mut world, &s, 3).unwrap(), gpiosim::Level::Low);
    assert_eq!(world.perform(&s.get_level(3)).level().unwrap(), gpiosim::Level::High);

    world.files.insert(value, "0\n".to_string());
    assert_eq!(get_pull(&mut world, &s, 3).unwrap(), gpiosim::Level::Low);
    assert_eq!(world.perform(&s.get_level(3)).level().unwrap(), gpiosim::Level::Low);
}

#[test]
fn control_of_an_unknown_line_fails() {
    let mut world = World::new();
    let s = Simpleton::new(world.live(&Simpleton::builder(8)).unwrap());
    assert!(matches!(get_pull(&mut world, &s, 8), Err(Error::IoError(_))));
    assert!(matches!(set(&mut world, s.pullup(8)), Err(Error::IoError(_))));
    assert!(matches!(toggle_line(&mut world, &s, 8), Err(Error::IoError(_))));
    assert!(matches!(world.perform(&s.get_level(8)).level(), Err(Error::IoError(_))));
}

#[test]
fn unexpected_attribute_values_are_errors() {
    let mut world = World::new();
    let s = Simpleton::new(world.live(&Simpleton::builder(2)).unwrap());
    let line = "/sys/devices/platform/gpio-sim.0/gpiochip0/sim_gpio1";
    world.files.insert(format!("{line}/pull"), "as-is\n".to_string());
    world.files.insert(format!("{line}/value"), "high\n".to_string());
    assert!(matches!(get_pull(&mut world, &s, 1), Err(Error::UnexpectedValue(v)) if v == "as-is"));
    assert!(matches!(toggle_line(&mut world, &s, 1), Err(Error::UnexpectedValue(v)) if v == "as-is"));
    assert!(matches!(world.perform(&s.get_level(1)).level(), Err(Error::UnexpectedValue(v)) if v == "high"));
    assert_eq!(world.read(&format!("{line}/pull")), "as-is\n");
}

#[test]
fn locator_finds_the_usual_place_at_once() {
    let mut world = World::new();
    assert_eq!(world.locate().unwrap(), CONFIGFS);
    assert_eq!(world.log.len(), 1);
}

#[test]
fn bootstrap_failure() {
    let mut world = World::bare();
    world.modprobe = Some(Ok((false, b"modprobe: FATAL: Module gpio-sim not found\n".to_vec())));
    match world.locate() {
        Err(Error::ModuleLoadError(stderr)) => {
            assert_eq!(stderr, b"modprobe: FATAL: Module gpio-sim not found\n")
        }
        other => panic!("{:?}", other),
    }
    assert_eq!(world.changes(), 0);
    assert!(world.dirs.is_empty());
    assert_eq!(world.sleeps(), 0);
    assert_eq!(world.log.len(), 2);
}

#[test]
fn bootstrap_failure_ends_activation() {
    let mut world = World::bare();
    world.modprobe = Some(Ok((false, b"no".to_vec())));
    let outcome = world.live(&two_banks("never"));
    assert!(matches!(outcome, Err(Refusal::Error(Error::ModuleLoadError(stderr))) if stderr == b"no"));
    assert_eq!(world.changes(), 0);
    assert!(world.dirs.is_empty());
}

#[test]
fn loader_that_cannot_run_is_a_command_error() {
    let mut world = World::bare();
    world.modprobe = Some(Err(ErrorKind::NotFound));
    match world.locate() {
        Err(Error::CommandError(command, e)) => {
            assert_eq!(command, "modprobe");
            assert_eq!(e.kind(), ErrorKind::NotFound);
        }
        other => panic!("{:?}", other),
    }
}

#[test]
fn locator_finds_the_place_after_loading() {
    let mut world = World::bare();
    world.modprobe = Some(Ok((true, Vec::new())));
    world.loaded_place = Some(CONFIGFS.to_string());
    assert_eq!(world.locate().unwrap(), CONFIGFS);
    assert_eq!(world.sleeps(), 0);
}

#[test]
fn locator_follows_the_mount_table() {
    let mut world = World::bare();
    world.modprobe = Some(Ok((true, Vec::new())));
    world.mounts = vec![
        "proc /proc proc rw 0 0".to_string(),
        "configfs /config configfs rw,relatime 0 0".to_string(),
    ];
    world.dirs.insert("/config/gpio-sim".to_string());
    assert_eq!(world.locate().unwrap(), "/config/gpio-sim");
    assert_eq!(world.sleeps(), 0);
}

#[test]
fn locator_gives_up_after_ten_looks() {
    let mut world = World::bare();
    world.modprobe = Some(Ok((true, Vec::new())));
    world.mounts = vec!["configfs /config configfs rw 0 0".to_string()];
    assert!(matches!(world.locate(), Err(Error::ConfigfsNotFound)));
    assert_eq!(world.sleeps(), 10);
    assert!(world.log.iter().all(|r| !matches!(r, Request::Sleep(ms) if *ms != 100)));
    let runs = world.log.iter().filter(|r| matches!(r, Request::Run { .. })).count();
    assert_eq!(runs, 1);
    let looks = world
        .log
        .iter()
        .filter(|r| matches!(r, Request::Exists(path) if path == CONFIGFS))
        .count();
    assert_eq!(looks, 11);
    assert_eq!(world.log.len(), 2 + 4 * 10);
    assert_eq!(world.changes(), 0);
}

#[test]
fn locator_finds_a_place_that_appears_late() {
    let mut world = World::bare();
    world.modprobe = Some(Ok((true, Vec::new())));
    let (mut machine, mut request) = find_configfs();
    let mut sleeps = 0;
    let place = loop {
        if sleeps == 9 {
            world.dirs.insert(CONFIGFS.to_string());
        }
        if matches!(request, Request::Sleep(_)) {
            sleeps += 1;
        }
        let reply = world.perform(&request);
        match machine.step(reply) {
            Progress::Next(next, asked) => {
                machine = next;
                request = asked;
            }
            Progress::Done(place) => break place,
        }
    };
    assert_eq!(place.unwrap(), CONFIGFS);
    assert_eq!(sleeps, 9);
}

#[test]
fn activation_uses_the_place_that_was_found() {
    let mut world = World::bare();
    world.modprobe = Some(Ok((true, Vec::new())));
    world.mounts = vec!["none /cfg configfs rw 0 0".to_string()];
    world.dirs.insert("/cfg/gpio-sim".to_string());
    let sim = world.live(&Simpleton::builder(3)).unwrap();
    assert_eq!(sim.dir(), format!("/cfg/gpio-sim/{}", sim.name()));
    assert_eq!(world.read(&format!("{}/bank0/num_lines", sim.dir())), "3");
}
