//! The configuration of a simulator before it goes live: banks of lines,
//! the names of lines and the lines that are hogged.

use std::collections::BTreeMap;
use vstd::prelude::*;

verus! {

/// The offset of a line on a chip.
pub type Offset = u32;

/// A map from offset to `T`, walked in ascending order of offset.
pub type OffsetMap<T> = BTreeMap<Offset, T>;

/// The direction, and for outputs the pulled value, of a hogged line.
#[derive(Clone, Copy, Debug, PartialEq, Eq, Structural)]
pub enum Direction {
    /// Hogged line is requested as an input.
    Input,
    /// Hogged line is requested as an output pulled low.
    OutputLow,
    /// Hogged line is requested as an output pulled high.
    OutputHigh,
}

impl Direction {
    /// What the `direction` attribute of a hog holds for this direction.
    pub open spec fn text(self) -> Seq<char> {
        match self {
            Direction::Input => "input"@,
            Direction::OutputHigh => "output-high"@,
            Direction::OutputLow => "output-low"@,
        }
    }

    /// The text to write to the `direction` attribute of a hog.
    pub fn as_str(&self) -> (s: &'static str)
        ensures
            s@ == self.text(),
    {
        match self {
            Direction::Input => "input",
            Direction::OutputHigh => "output-high",
            Direction::OutputLow => "output-low",
        }
    }
}

/// The configuration for a hogged line.
///
/// A "hogged" line appears to be already requested by a consumer.
#[derive(Debug, PartialEq, Eq)]
pub struct Hog {
    /// The name of the consumer that appears to be using the line.
    pub consumer: String,
    /// The requested direction for the hogged line, and if an
    /// output then the pull.
    pub direction: Direction,
}

/// A [`Hog`] with its consumer as a sequence.
pub struct HogView {
    pub consumer: Seq<char>,
    pub direction: Direction,
}

impl View for Hog {
    type V = HogView;

    open spec fn view(&self) -> HogView {
        HogView { consumer: self.consumer@, direction: self.direction }
    }
}

impl Clone for Hog {
    fn clone(&self) -> (copy: Self)
        ensures
            copy@ == self@,
    {
        Hog { consumer: self.consumer.clone(), direction: self.direction }
    }
}

/// The configuration for a single simulated chip.
#[derive(Debug, PartialEq, Eq)]
pub struct Bank {
    /// The number of lines simulated by this bank.
    pub num_lines: u32,
    /// The label of the chip.
    pub label: String,
    /// Lines assigned a name.
    pub names: OffsetMap<String>,
    /// Lines that appear to be already in use by some other entity.
    pub hogs: OffsetMap<Hog>,
}

/// A [`Bank`] as mathematical maps from offset to name and to hog.
///
/// The two maps are independent: an offset may have a name, a hog, both or
/// neither, and neither map is held to `num_lines`.
pub struct BankView {
    pub num_lines: u32,
    pub label: Seq<char>,
    pub names: Map<Offset, Seq<char>>,
    pub hogs: Map<Offset, HogView>,
}

impl BankView {
    /// A bank without names or hogs.
    pub open spec fn new(num_lines: u32, label: Seq<char>) -> BankView {
        BankView { num_lines, label, names: Map::empty(), hogs: Map::empty() }
    }

    /// This bank with the line at `offset` named `name`.
    pub open spec fn name(self, offset: Offset, name: Seq<char>) -> BankView {
        BankView { names: self.names.insert(offset, name), ..self }
    }

    /// This bank with no name for the line at `offset`.
    pub open spec fn unname(self, offset: Offset) -> BankView {
        BankView { names: self.names.remove(offset), ..self }
    }

    /// This bank with the line at `offset` hogged.
    pub open spec fn hog(self, offset: Offset, hog: HogView) -> BankView {
        BankView { hogs: self.hogs.insert(offset, hog), ..self }
    }

    /// This bank with no hog on the line at `offset`.
    pub open spec fn unhog(self, offset: Offset) -> BankView {
        BankView { hogs: self.hogs.remove(offset), ..self }
    }
}

impl View for Bank {
    type V = BankView;

    open spec fn view(&self) -> BankView {
        BankView {
            num_lines: self.num_lines,
            label: self.label@,
            names: self.names@.map_values(|name: String| name@),
            hogs: self.hogs@.map_values(|hog: Hog| hog@),
        }
    }
}

impl Default for Bank {
    fn default() -> (bank: Self)
        ensures
            bank@ == BankView::new(0, Seq::empty()),
    {
        let bank = Bank {
            num_lines: 0,
            label: String::new(),
            names: BTreeMap::new(),
            hogs: BTreeMap::new(),
        };
        assert(bank@.names =~= Map::empty());
        assert(bank@.hogs =~= Map::empty());
        bank
    }
}

impl Clone for Bank {
    fn clone(&self) -> (copy: Self)
        ensures
            copy@ == self@,
    {
        let copy = Bank {
            num_lines: self.num_lines,
            label: self.label.clone(),
            names: self.names.clone(),
            hogs: self.hogs.clone(),
        };
        copy
    }
}

impl Bank {
    /// Basic constructor.
    pub fn new(num_lines: u32, label: &str) -> (bank: Bank)
        ensures
            bank@ == BankView::new(num_lines, label@),
    {
        let bank = Bank {
            num_lines,
            label: label.to_owned(),
            names: BTreeMap::new(),
            hogs: BTreeMap::new(),
        };
        assert(bank@.names =~= Map::empty());
        assert(bank@.hogs =~= Map::empty());
        bank
    }

    /// Assign a name to a line on the chip, in place of any it had.
    pub fn name(&mut self, offset: Offset, name: &str) -> (ret: &mut Self)
        ensures
            ret@ == old(self)@.name(offset, name@),
            *final(self) == *final(ret),
    {
        self.names.insert(offset, name.to_owned());
        assert(self@.names =~= old(self)@.names.insert(offset, name@));
        self
    }

    /// Remove the name from a line, if it has one.
    pub fn unname(&mut self, offset: Offset) -> (ret: &mut Self)
        ensures
            ret@ == old(self)@.unname(offset),
            *final(self) == *final(ret),
    {
        self.names.remove(&offset);
        assert(self@.names =~= old(self)@.names.remove(offset));
        self
    }

    /// Add a hog on a line on the chip, in place of any it had.
    ///
    /// A "hog" simulates some other user holding the line.
    pub fn hog(&mut self, offset: Offset, consumer: &str, direction: Direction) -> (ret: &mut Self)
        ensures
            ret@ == old(self)@.hog(offset, (HogView { consumer: consumer@, direction })),
            *final(self) == *final(ret),
    {
        self.hogs.insert(offset, Hog { direction, consumer: consumer.to_owned() });
        assert(self@.hogs =~= old(self)@.hogs.insert(
            offset,
            HogView { consumer: consumer@, direction },
        ));
        self
    }

    /// Unhog a line on the chip, if it is hogged.
    pub fn unhog(&mut self, offset: Offset) -> (ret: &mut Self)
        ensures
            ret@ == old(self)@.unhog(offset),
            *final(self) == *final(ret),
    {
        self.hogs.remove(&offset);
        assert(self@.hogs =~= old(self)@.hogs.remove(offset));
        self
    }
}

/// A builder of simulators.
///
/// Collects the configuration for the simulator, from which the simulator
/// is created when taken live.
#[derive(Debug, PartialEq, Eq)]
pub struct Builder {
    /// The name for the simulator in the configfs space.
    ///
    /// If `None` when the builder is taken live then a unique name is
    /// generated.
    pub name: Option<String>,
    /// The details of the banks to be simulated.
    ///
    /// Each bank becomes a chip when the simulator goes live.
    pub banks: Vec<Bank>,
}

/// A [`Builder`] as an optional name and a sequence of banks.
pub struct BuilderView {
    pub name: Option<Seq<char>>,
    pub banks: Seq<BankView>,
}

/// The views of `banks`, in order.
pub open spec fn bank_views(banks: Seq<Bank>) -> Seq<BankView> {
    Seq::new(banks.len(), |i: int| banks[i]@)
}

impl View for Builder {
    type V = BuilderView;

    open spec fn view(&self) -> BuilderView {
        BuilderView {
            name: match self.name {
                Some(name) => Some(name@),
                None => None,
            },
            banks: bank_views(self.banks@),
        }
    }
}

/// Copies `banks`.
pub fn clone_banks(banks: &Vec<Bank>) -> (copy: Vec<Bank>)
    ensures
        bank_views(copy@) == bank_views(banks@),
{
    let mut copy: Vec<Bank> = Vec::new();
    let mut i: usize = 0;
    while i < banks.len()
        invariant
            i <= banks.len(),
            copy.len() == i,
            forall|j: int| 0 <= j < i ==> copy@[j]@ == banks@[j]@,
        decreases banks.len() - i,
    {
        copy.push(banks[i].clone());
        i += 1;
    }
    assert(bank_views(copy@) =~= bank_views(banks@));
    copy
}

impl Default for Builder {
    fn default() -> (builder: Self)
        ensures
            builder@ == (BuilderView { name: None, banks: Seq::empty() }),
    {
        let builder = Builder { name: None, banks: Vec::new() };
        assert(builder@.banks =~= Seq::empty());
        builder
    }
}

impl Clone for Builder {
    fn clone(&self) -> (copy: Self)
        ensures
            copy@ == self@,
    {
        Builder {
            name: match &self.name {
                Some(name) => Some(name.clone()),
                None => None,
            },
            banks: clone_banks(&self.banks),
        }
    }
}

impl Builder {
    /// Adds a copy of `bank` after the banks that the builder holds.
    pub fn with_bank(&mut self, bank: &Bank) -> (ret: &mut Self)
        ensures
            ret@ == (BuilderView { banks: old(self)@.banks.push(bank@), ..old(self)@ }),
            *final(self) == *final(ret),
    {
        self.banks.push(bank.clone());
        assert(self@.banks =~= old(self)@.banks.push(bank@));
        self
    }

    /// Sets the name for the simulator.
    ///
    /// The name must be unique or going live will fail.
    pub fn with_name(&mut self, name: &str) -> (ret: &mut Self)
        ensures
            ret@ == (BuilderView { name: Some(name@), ..old(self)@ }),
            *final(self) == *final(ret),
    {
        self.name = Some(name.to_owned());
        self
    }
}

/// Start building a GPIO simulator.
pub fn builder() -> (b: Builder)
    ensures
        b@ == (BuilderView { name: None, banks: Seq::empty() }),
{
    Builder::default()
}

} // verus!
