//! The configuration: a TOML document that names, for each game, the frame
//! rate to aim at, and holds the settings of the scheduler by label.

use crate::document::{parse_document, toml_data, toml_parse, value_get, Toml};
use crate::error::FasError;
use crate::sort::{ascending, ints_u32, sorted_u32};
use crate::text::{before, chars_of, find_first, same_text};
use likely_stable::likely;
use vstd::prelude::*;
use vstd::string::*;

verus! {

/// The frame rate to hold a game to: one rate, or candidates in ascending
/// order between which the scheduler chooses.
#[derive(Debug, Clone, PartialEq, Eq)]
pub enum TargetFps {
    Value(u32),
    Array(Vec<u32>),
}

/// A target as a mathematical value.
pub enum Target {
    Value(u32),
    Array(Seq<u32>),
}

impl View for TargetFps {
    type V = Target;

    open spec fn view(&self) -> Target {
        match self {
            TargetFps::Value(v) => Target::Value(*v),
            TargetFps::Array(a) => Target::Array(a@),
        }
    }
}

/// The view of an optional target.
pub open spec fn target_view(t: Option<TargetFps>) -> Option<Target> {
    match t {
        Some(t) => Some(t@),
        None => None,
    }
}

/// The candidates that the word `auto` stands for.
pub open spec fn auto_ladder() -> Seq<u32> {
    seq![30u32, 45u32, 60u32, 90u32, 120u32, 144u32]
}

/// The rate that the integer `i` gives: `i` itself where it fits, else `i`
/// reduced modulo 2^32.
pub open spec fn rate_of(i: i64) -> u32 {
    ((i as int) % 0x1_0000_0000) as u32
}

/// The rates of the integers among `items`, in the order of `items`; items of
/// another kind are passed over.
pub open spec fn rates_of(items: Seq<Toml>) -> Seq<u32>
    decreases items.len(),
{
    if items.len() == 0 {
        Seq::empty()
    } else {
        let front = rates_of(items.drop_last());
        match items.last() {
            Toml::Integer(i) => front.push(rate_of(i)),
            _ => front,
        }
    }
}

/// Whether `t` is the target that the game list's entry `entry` stands for:
/// an array gives its integers as candidates in ascending order, an integer
/// one rate, the word `auto` the fixed ladder, and anything else no target.
pub open spec fn is_target_of(t: Option<Target>, entry: Option<Toml>) -> bool {
    match entry {
        Some(Toml::Array(items)) => t matches Some(Target::Array(c)) && ascending(ints_u32(c))
            && c.to_multiset() == rates_of(items).to_multiset(),
        Some(Toml::Integer(i)) => t == Some(Target::Value(rate_of(i))),
        Some(Toml::String(s)) => t == if s == "auto"@ {
            Some(Target::Array(auto_ladder()))
        } else {
            None
        },
        _ => t is None,
    }
}

/// The name under which a package stands in the game list: what precedes the
/// first `:` of the process name.
pub open spec fn package_name(pkg: Seq<char>) -> Seq<char> {
    before(pkg, ':')
}

/// The rate that the integer `i` gives.
pub fn rate(i: i64) -> (r: u32)
    ensures
        r == rate_of(i),
{
    let m: i64 = i % 0x1_0000_0000;
    if m < 0 {
        (m + 0x1_0000_0000) as u32
    } else {
        m as u32
    }
}

/// The target that a value of the game list stands for.
pub fn target_of_entry(value: &toml::Value) -> (r: Option<TargetFps>)
    ensures
        is_target_of(target_view(r), Some(toml_data(*value))),
{
    if let Some(items) = value.as_array() {
        let ghost held = toml_data(*value)->Array_0;
        let mut rates: Vec<u32> = Vec::new();
        let mut k: usize = 0;
        assert(held.take(0) == Seq::<Toml>::empty());
        while k < items.len()
            invariant
                k <= items.len(),
                items@.len() == held.len(),
                forall|i: int| 0 <= i < held.len() ==> toml_data(#[trigger] items@[i]) == held[i],
                rates@ == rates_of(held.take(k as int)),
            decreases items.len() - k,
        {
            assert(held.take(k + 1).drop_last() == held.take(k as int));
            if let Some(i) = items[k].as_integer() {
                rates.push(rate(i));
            }
            k += 1;
        }
        assert(held.take(held.len() as int) == held);
        Some(TargetFps::Array(sorted_u32(&rates)))
    } else if let Some(i) = value.as_integer() {
        Some(TargetFps::Value(rate(i)))
    } else if let Some(s) = value.as_str() {
        if same_text(s, "auto") {
            let mut ladder: Vec<u32> = Vec::new();
            ladder.push(30);
            ladder.push(45);
            ladder.push(60);
            ladder.push(90);
            ladder.push(120);
            ladder.push(144);
            assert(ladder@ == auto_ladder());
            Some(TargetFps::Array(ladder))
        } else {
            None
        }
    } else {
        None
    }
}

/// A way of running the machine that the configuration has settings for.
#[derive(Debug, Clone, Copy, PartialEq, Eq, Structural)]
pub enum Mode {
    Powersave,
    Balance,
    Performance,
    Fast,
}

impl Mode {
    /// The section of the configuration that holds the mode's settings.
    pub open spec fn section(self) -> Seq<char> {
        match self {
            Mode::Powersave => "powersave"@,
            Mode::Balance => "balance"@,
            Mode::Performance => "performance"@,
            Mode::Fast => "fast"@,
        }
    }

    /// The name of the mode, which is the name of its section.
    pub fn name(&self) -> (r: &'static str)
        ensures
            r@ == self.section(),
    {
        match self {
            Mode::Powersave => "powersave",
            Mode::Balance => "balance",
            Mode::Performance => "performance",
            Mode::Fast => "fast",
        }
    }
}

/// A configuration document.
pub struct Config {
    toml: toml::Value,
}

impl View for Config {
    type V = Toml;

    closed spec fn view(&self) -> Toml {
        toml_data(self.toml)
    }
}

impl Config {
    /// Whether the document has a table `game_list`.
    pub open spec fn lists_games(&self) -> bool {
        self@.get("game_list"@) matches Some(Toml::Table(_))
    }

    /// The entry of the game list for the process name `pkg`.
    pub open spec fn game_entry(&self, pkg: Seq<char>) -> Option<Toml> {
        self@.get_in("game_list"@, package_name(pkg))
    }

    /// Reads a configuration from the text of a TOML document.
    pub fn new(text: &str) -> (r: Result<Config, FasError>)
        ensures
            match r {
                Ok(c) => toml_parse(text@) == Some(c@),
                Err(e) => e is ParseConfig && toml_parse(text@) is None,
            },
    {
        match parse_document(text) {
            Ok(toml) => Ok(Config { toml }),
            Err(e) => Err(FasError::ParseConfig(e)),
        }
    }

    /// A copy of the configuration.
    pub fn duplicate(&self) -> (r: Config)
        ensures
            r@ == self@,
    {
        Config { toml: self.toml.clone() }
    }

    /// Whether the document has a table `game_list`, without which
    /// [`Config::target_fps`] cannot be asked.
    pub fn has_game_list(&self) -> (r: bool)
        ensures
            r == self.lists_games(),
    {
        match value_get(&self.toml, "game_list") {
            Some(list) => list.is_table(),
            None => false,
        }
    }

    /// The target frame rate of the game that runs as process `pkg`, if the
    /// game list names it with a usable value.
    pub fn target_fps(&self, pkg: &str) -> (r: Option<TargetFps>)
        requires
            self.lists_games(),
        ensures
            is_target_of(target_view(r), self.game_entry(pkg@)),
    {
        let chars = chars_of(pkg);
        let cut = find_first(&chars, ':');
        let name = pkg.substring_char(0, cut);
        assert(name@ == package_name(pkg@));
        let list = value_get(&self.toml, "game_list").unwrap();
        match value_get(list, name) {
            Some(value) => target_of_entry(value),
            None => None,
        }
    }

    /// The target frame rate of the game that runs as process `pkg`, as
    /// [`Config::target_fps`] gives it; `Err` where the document has no game
    /// list to look the game up in.
    pub fn try_target_fps(&self, pkg: &str) -> (r: Result<Option<TargetFps>, FasError>)
        ensures
            match r {
                Ok(t) => self.lists_games() && is_target_of(target_view(t), self.game_entry(pkg@)),
                Err(e) => !self.lists_games() && e == FasError::ConfigValueNotFound,
            },
    {
        if self.has_game_list() {
            Ok(self.target_fps(pkg))
        } else {
            Err(FasError::ConfigValueNotFound)
        }
    }

    /// The value under `label` among the settings of the mode `m`.
    pub fn get_mode_conf(&self, m: Mode, label: &str) -> (r: Result<toml::Value, FasError>)
        ensures
            match r {
                Ok(v) => self@.get_in(m.section(), label@) == Some(toml_data(v)),
                Err(e) => e == FasError::ConfigValueNotFound && self@.get_in(m.section(), label@)
                    is None,
            },
    {
        self.get_in_section(m.name(), label)
    }

    /// The value under `label` in the section `config`.
    pub fn get_conf(&self, label: &str) -> (r: Result<toml::Value, FasError>)
        ensures
            match r {
                Ok(v) => self@.get_in("config"@, label@) == Some(toml_data(v)),
                Err(e) => e == FasError::ConfigValueNotFound && self@.get_in("config"@, label@)
                    is None,
            },
    {
        self.get_in_section("config", label)
    }

    /// The value under `label` in the section `section`.
    pub fn get_in_section(&self, section: &str, label: &str) -> (r: Result<toml::Value, FasError>)
        ensures
            match r {
                Ok(v) => self@.get_in(section@, label@) == Some(toml_data(v)),
                Err(e) => e == FasError::ConfigValueNotFound && self@.get_in(section@, label@)
                    is None,
            },
    {
        let table = value_get(&self.toml, section);
        if likely(table.is_some()) {
            match value_get(table.unwrap(), label) {
                Some(value) => Ok(value.clone()),
                None => Err(FasError::ConfigValueNotFound),
            }
        } else {
            Err(FasError::ConfigValueNotFound)
        }
    }
}

} // verus!
