use gpiosim::{builder, Bank, Direction};

#[test]
fn bank_constructor_default() {
    let c = Bank::default();
    assert_eq!(c.num_lines, 0);
    assert!(c.label.is_empty());
    assert_eq!(c.names.len(), 0);
    assert_eq!(c.hogs.len(), 0);
}

#[test]
fn bank_name() {
    let mut c = Bank::default();
    c.name(3, "pinata");
    assert_eq!(c.names.len(), 1);
    assert_eq!(c.names[&3], "pinata");
    c.name(3, "pineapple");
    assert_eq!(c.names.len(), 1);
    assert_eq!(c.names[&3], "pineapple");
    c.name(0, "nada");
    assert_eq!(c.names.len(), 2);
    assert_eq!(c.names[&0], "nada");
}

#[test]
fn bank_unname() {
    let mut c = Bank::default();
    c.name(3, "pinata");
    c.name(0, "nada");
    assert_eq!(c.names.len(), 2);
    c.unname(3);
    assert!(!c.names.contains_key(&3));
    assert_eq!(c.names.len(), 1);
    assert_eq!(c.names[&0], "nada");
}

#[test]
fn bank_hog() {
    let mut c = Bank::default();
    c.hog(3, "pinata", Direction::Input);
    assert_eq!(c.hogs.len(), 1);
    c.hog(2, "piggly", Direction::OutputLow);
    assert_eq!(c.hogs.len(), 2);
    c.hog(1, "wiggly", Direction::OutputHigh);
    assert_eq!(c.hogs.len(), 3);
    assert_eq!(c.hogs[&3].consumer, "pinata");
    assert_eq!(c.hogs[&2].consumer, "piggly");
    assert_eq!(c.hogs[&1].consumer, "wiggly");
    assert_eq!(c.hogs[&3].direction, Direction::Input);
    assert_eq!(c.hogs[&2].direction, Direction::OutputLow);
    assert_eq!(c.hogs[&1].direction, Direction::OutputHigh);
    // overwrite
    c.hog(2, "wiggly", Direction::OutputHigh);
    assert_eq!(c.hogs[&2].consumer, "wiggly");
    assert_eq!(c.hogs[&2].direction, Direction::OutputHigh);
    assert_eq!(c.hogs.len(), 3);
}

#[test]
fn bank_unhog() {
    let mut c = Bank::default();
    c.hog(3, "pinata", Direction::Input);
    c.hog(2, "piggly", Direction::OutputLow);
    c.hog(1, "wiggly", Direction::OutputHigh);
    assert_eq!(c.hogs.len(), 3);
    c.unhog(2);
    assert_eq!(c.hogs.len(), 2);
    assert!(!c.hogs.contains_key(&2));
    assert_eq!(c.hogs[&3].consumer, "pinata");
    assert_eq!(c.hogs[&1].consumer, "wiggly");
    assert_eq!(c.hogs[&3].direction, Direction::Input);
    assert_eq!(c.hogs[&1].direction, Direction::OutputHigh);
}

#[test]
fn builder_with_bank() {
    let mut builder = builder();
    builder
        .with_bank(
            Bank::new(8, "fish")
                .name(3, "banana")
                .name(5, "apple")
                .hog(5, "breath", Direction::Input),
        )
        .with_bank(
            Bank::new(42, "babel")
                .name(3, "piñata")
                .hog(2, "hogster", Direction::OutputHigh)
                .hog(7, "hogster", Direction::OutputLow),
        );
    assert_eq!(builder.banks.len(), 2);
    assert_eq!(builder.banks[0].num_lines, 8);
    assert_eq!(builder.banks[0].names.len(), 2);
    assert_eq!(builder.banks[0].hogs.len(), 1);
    assert_eq!(builder.banks[1].num_lines, 42);
    assert_eq!(builder.banks[1].names.len(), 1);
    assert_eq!(builder.banks[1].hogs.len(), 2);
}

#[test]
fn builder_with_name() {
    let mut builder = builder();
    assert!(builder.name.is_none());
    builder.with_name("banana");
    assert!(builder.name.is_some());
    assert_eq!(builder.name.unwrap(), "banana");
}

#[test]
fn bank_new_has_no_names_or_hogs() {
    let c = Bank::new(8, "left");
    assert_eq!(c.num_lines, 8);
    assert_eq!(c.label, "left");
    assert!(c.names.is_empty());
    assert!(c.hogs.is_empty());
}

#[test]
fn bank_unname_of_unnamed_line_changes_nothing() {
    let mut c = Bank::new(8, "left");
    c.name(3, "led");
    let before = c.clone();
    c.unname(4);
    assert_eq!(c, before);
}

#[test]
fn bank_unhog_of_unhogged_line_changes_nothing() {
    let mut c = Bank::new(8, "left");
    c.hog(3, "hogster", Direction::Input);
    let before = c.clone();
    c.unhog(4);
    assert_eq!(c, before);
}

#[test]
fn bank_names_and_hogs_are_independent() {
    let mut c = Bank::new(8, "left");
    c.name(3, "led").hog(3, "hogster", Direction::OutputLow).unname(3);
    assert!(!c.names.contains_key(&3));
    assert_eq!(c.hogs[&3].consumer, "hogster");
    c.name(3, "led").unhog(3);
    assert_eq!(c.names[&3], "led");
    assert!(!c.hogs.contains_key(&3));
}

#[test]
fn bank_takes_offsets_beyond_its_lines() {
    let mut c = Bank::new(2, "small");
    c.name(2, "two").hog(4294967295, "last", Direction::Input);
    assert_eq!(c.names[&2], "two");
    assert_eq!(c.hogs[&4294967295].consumer, "last");
    assert_eq!(c.num_lines, 2);
}

#[test]
fn bank_clone_is_equal() {
    let mut c = Bank::new(8, "left");
    c.name(3, "led").hog(2, "hogster", Direction::OutputHigh);
    let copy = c.clone();
    assert_eq!(copy, c);
    assert_eq!(copy.hogs[&2].direction, Direction::OutputHigh);
}

#[test]
fn builder_keeps_a_copy_of_the_bank() {
    let mut bank = Bank::new(8, "left");
    let mut config = builder();
    config.with_bank(&bank);
    bank.name(1, "later");
    assert!(config.banks[0].names.is_empty());
    assert_eq!(bank.names.len(), 1);
}

#[test]
fn builder_keeps_the_order_of_banks() {
    let mut config = builder();
    for label in ["a", "b", "c"] {
        config.with_bank(&Bank::new(1, label));
    }
    let labels: Vec<&str> = config.banks.iter().map(|b| b.label.as_str()).collect();
    assert_eq!(labels, vec!["a", "b", "c"]);
}

#[test]
fn builder_with_name_replaces_the_name() {
    let mut config = builder();
    config.with_name("first").with_name("second");
    assert_eq!(config.name.as_deref(), Some("second"));
    assert!(config.banks.is_empty());
}

#[test]
fn builder_clone_and_default() {
    let mut config = builder();
    assert_eq!(config, gpiosim::Builder::default());
    config.with_name("n").with_bank(Bank::new(3, "x").name(0, "zero"));
    let copy = config.clone();
    assert_eq!(copy, config);
    assert_eq!(copy.banks[0].names[&0], "zero");
}
