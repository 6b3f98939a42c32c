//! The keys that actions are bound to.

use crate::listing;
use crate::scan;
use crate::scan::{lower_text, parse_number, split, strip_prefix, text_of, trim};
use crate::text;
use crate::text::{chars_of, quote, TextMap};
use vstd::prelude::*;

verus! {

/// Why a configuration cannot be used.
#[derive(Debug, Eq, PartialEq)]
pub enum ConfigError {
    /// The file could not be read.
    Io(String),
    /// The text is no document.
    Parse(String),
    /// The document is no configuration.
    Invalid(String),
    /// The symbol of a key with this name is not among the known ones yet.
    NeedsSymbol(String),
}

#[verifier::ext_equal]
pub enum ConfigFault {
    Io(Seq<char>),
    Parse(Seq<char>),
    Invalid(Seq<char>),
    NeedsSymbol(Seq<char>),
}

impl View for ConfigError {
    type V = ConfigFault;

    open spec fn view(&self) -> ConfigFault {
        match self {
            ConfigError::Io(message) => ConfigFault::Io(message@),
            ConfigError::Parse(message) => ConfigFault::Parse(message@),
            ConfigError::Invalid(message) => ConfigFault::Invalid(message@),
            ConfigError::NeedsSymbol(name) => ConfigFault::NeedsSymbol(name@),
        }
    }
}

impl ConfigFault {
    pub open spec fn message(self) -> Seq<char> {
        match self {
            ConfigFault::Io(message) => "could not read configuration: "@ + message,
            ConfigFault::Parse(message) => "could not parse KDL configuration: "@ + message,
            ConfigFault::Invalid(message) => "invalid configuration: "@ + message,
            ConfigFault::NeedsSymbol(name) => "configuration needs the symbol of key "@ + name,
        }
    }
}

impl ConfigError {
    pub fn message(&self) -> (r: String)
        ensures
            r@ == self@.message(),
    {
        let (start, rest): (&str, &String) = match self {
            ConfigError::Io(message) => ("could not read configuration: ", message),
            ConfigError::Parse(message) => ("could not parse KDL configuration: ", message),
            ConfigError::Invalid(message) => ("invalid configuration: ", message),
            ConfigError::NeedsSymbol(name) => ("configuration needs the symbol of key ", name),
        };
        let mut r: String = start.to_owned();
        r.append(rest.as_str());
        r
    }
}

/// Which modifier keys are held, one bit for each.
#[derive(Clone, Copy, Debug, Default, Eq, Ord, PartialEq, PartialOrd, Structural)]
pub struct Modifiers(pub u8);

pub open spec fn bit(set: bool, value: u8) -> u8 {
    if set {
        value
    } else {
        0
    }
}

fn bit_of(set: bool, value: u8) -> (r: u8)
    ensures
        r == bit(set, value),
{
    if set {
        value
    } else {
        0
    }
}

impl Modifiers {
    pub const CTRL: u8 = 1;

    pub const ALT: u8 = 2;

    pub const SHIFT: u8 = 4;

    pub const SUPER: u8 = 8;

    pub open spec fn holds(self, modifier: u8) -> bool {
        self.0 & modifier != 0
    }

    pub open spec fn of_state(ctrl: bool, alt: bool, shift: bool, super_key: bool) -> Self {
        Modifiers(bit(ctrl, 1) | bit(alt, 2) | bit(shift, 4) | bit(super_key, 8))
    }

    pub fn ctrl(self) -> (r: bool)
        ensures
            r == self.holds(1),
    {
        self.0 & 1 != 0
    }

    pub fn alt(self) -> (r: bool)
        ensures
            r == self.holds(2),
    {
        self.0 & 2 != 0
    }

    pub fn shift(self) -> (r: bool)
        ensures
            r == self.holds(4),
    {
        self.0 & 4 != 0
    }

    pub fn super_key(self) -> (r: bool)
        ensures
            r == self.holds(8),
    {
        self.0 & 8 != 0
    }

    pub fn from_state(ctrl: bool, alt: bool, shift: bool, super_key: bool) -> (r: Self)
        ensures
            r == Self::of_state(ctrl, alt, shift, super_key),
    {
        Modifiers(bit_of(ctrl, 1) | bit_of(alt, 2) | bit_of(shift, 4) | bit_of(super_key, 8))
    }

    /// Modifiers read back as they were set.
    pub proof fn states_read_back(ctrl: bool, alt: bool, shift: bool, super_key: bool)
        ensures
            Self::of_state(ctrl, alt, shift, super_key).holds(1) == ctrl,
            Self::of_state(ctrl, alt, shift, super_key).holds(2) == alt,
            Self::of_state(ctrl, alt, shift, super_key).holds(4) == shift,
            Self::of_state(ctrl, alt, shift, super_key).holds(8) == super_key,
    {
        let (a, b, c, d) = (bit(ctrl, 1), bit(alt, 2), bit(shift, 4), bit(super_key, 8));
        assert((a | b | c | d) & 1 == a && (a | b | c | d) & 2 == b && (a | b | c | d) & 4 == c
            && (a | b | c | d) & 8 == d) by (bit_vector)
            requires
                a == 0u8 || a == 1u8,
                b == 0u8 || b == 2u8,
                c == 0u8 || c == 4u8,
                d == 0u8 || d == 8u8,
        ;
    }
}

#[derive(Clone, Copy, Debug, Eq, Ord, PartialEq, PartialOrd, Structural)]
pub enum KeyTrigger {
    /// The symbol that the layout gives the key.
    Keysym(u32),
    /// The key itself, whatever the layout says.
    Code(u32),
}

#[derive(Clone, Copy, Debug, Eq, Ord, PartialEq, PartialOrd, Structural)]
pub struct BindingKey {
    pub modifiers: Modifiers,
    pub trigger: KeyTrigger,
}

impl BindingKey {
    pub fn keysym(modifiers: Modifiers, keysym: u32) -> (r: Self)
        ensures
            r == (BindingKey { modifiers, trigger: KeyTrigger::Keysym(keysym) }),
    {
        BindingKey { modifiers, trigger: KeyTrigger::Keysym(keysym) }
    }

    pub fn code(modifiers: Modifiers, code: u32) -> (r: Self)
        ensures
            r == (BindingKey { modifiers, trigger: KeyTrigger::Code(code) }),
    {
        BindingKey { modifiers, trigger: KeyTrigger::Code(code) }
    }

    /// A number for the key; keys are ordered by their modifiers, symbols before codes, and by
    /// the symbol or the code.
    pub open spec fn rank(self) -> u64 {
        match self.trigger {
            KeyTrigger::Keysym(n) => (self.modifiers.0 * 0x2_0000_0000 + n) as u64,
            KeyTrigger::Code(n) => (self.modifiers.0 * 0x2_0000_0000 + 0x1_0000_0000 + n) as u64,
        }
    }

    /// The key with a number.
    pub open spec fn ranked(n: u64) -> Self {
        let value = (n % 0x1_0000_0000) as u32;
        BindingKey {
            modifiers: Modifiers((n / 0x2_0000_0000) as u8),
            trigger: if (n / 0x1_0000_0000) % 2 == 0 {
                KeyTrigger::Keysym(value)
            } else {
                KeyTrigger::Code(value)
            },
        }
    }

    pub(crate) fn to_rank(self) -> (r: u64)
        ensures
            r == self.rank(),
    {
        match self.trigger {
            KeyTrigger::Keysym(n) => self.modifiers.0 as u64 * 0x2_0000_0000 + n as u64,
            KeyTrigger::Code(n) => self.modifiers.0 as u64 * 0x2_0000_0000 + 0x1_0000_0000
                + n as u64,
        }
    }

    pub(crate) fn from_rank(n: u64) -> (r: Self)
        ensures
            r == Self::ranked(n),
    {
        let value: u32 = (n % 0x1_0000_0000) as u32;
        BindingKey {
            modifiers: Modifiers((n / 0x2_0000_0000) as u8),
            trigger: if (n / 0x1_0000_0000) % 2 == 0 {
                KeyTrigger::Keysym(value)
            } else {
                KeyTrigger::Code(value)
            },
        }
    }

    /// The number of a key tells which key it is.
    pub proof fn ranks_tell_keys(self)
        ensures
            Self::ranked(self.rank()) == self,
    {
    }
}

/// What is wrong with the spelling of a key.
pub enum KeyFault {
    EmptyComponent,
    DuplicateModifier,
    MultipleKeys,
    InvalidCode,
    CodeOutOfRange,
    UnknownKeysym,
    MissingKey,
    NeedsSymbol(Seq<char>),
}

impl KeyFault {
    pub open spec fn reported(self, source: Seq<char>) -> ConfigFault {
        let quoted = text::quoted(source);
        match self {
            KeyFault::EmptyComponent => ConfigFault::Invalid(
                "empty component in binding "@ + quoted,
            ),
            KeyFault::DuplicateModifier => ConfigFault::Invalid(
                "duplicate modifier in "@ + quoted,
            ),
            KeyFault::MultipleKeys => ConfigFault::Invalid("multiple keys in binding "@ + quoted),
            KeyFault::InvalidCode => ConfigFault::Invalid("invalid keycode in "@ + quoted),
            KeyFault::CodeOutOfRange => ConfigFault::Invalid(
                "keycode is outside the Linux evdev range in "@ + quoted,
            ),
            KeyFault::UnknownKeysym => ConfigFault::Invalid("unknown keysym in "@ + quoted),
            KeyFault::MissingKey => ConfigFault::Invalid("missing key in "@ + quoted),
            KeyFault::NeedsSymbol(name) => ConfigFault::NeedsSymbol(name),
        }
    }
}

/// The bit of the modifier with a name, if it is one.
pub open spec fn modifier_bit(name: Seq<char>) -> Option<u8> {
    if name == "ctrl"@ {
        Some(1)
    } else if name == "alt"@ {
        Some(2)
    } else if name == "shift"@ {
        Some(4)
    } else if name == "super"@ {
        Some(8)
    } else {
        None
    }
}

/// The name that a key's symbol is looked up by. A single letter stands for the key, not for
/// the character that it gives with shift.
pub open spec fn symbol_name(component: Seq<char>) -> Seq<char> {
    if component.len() == 1 && component[0] as u32 <= 0x7f {
        scan::lowered(component)
    } else {
        component
    }
}

/// The key that a component names.
pub open spec fn trigger_of(component: Seq<char>, symbols: Map<Seq<char>, u32>) -> Result<
    KeyTrigger,
    KeyFault,
> {
    match scan::after_prefix(component, "code:"@) {
        Some(code) => {
            let n = match scan::after_prefix(code, "0x"@) {
                Some(hex) => scan::number(hex, 16),
                None => scan::number(code, 10),
            };
            match n {
                Some(n) => if n > 0x2ff {
                    Err(KeyFault::CodeOutOfRange)
                } else {
                    Ok(KeyTrigger::Code(n))
                },
                None => Err(KeyFault::InvalidCode),
            }
        },
        None => {
            let name = symbol_name(component);
            if !symbols.contains_key(name) {
                Err(KeyFault::NeedsSymbol(name))
            } else if symbols[name] == 0 {
                Err(KeyFault::UnknownKeysym)
            } else {
                Ok(KeyTrigger::Keysym(symbols[name]))
            }
        },
    }
}

/// The modifiers and the key among the first `n` components.
pub open spec fn combined(
    components: Seq<Seq<char>>,
    n: int,
    symbols: Map<Seq<char>, u32>,
) -> Result<(u8, Option<KeyTrigger>), KeyFault>
    decreases n,
{
    if n <= 0 {
        Ok((0, None))
    } else {
        match combined(components, n - 1, symbols) {
            Err(fault) => Err(fault),
            Ok((modifiers, trigger)) => {
                let component = scan::trimmed(components[n - 1]);
                if component.len() == 0 {
                    Err(KeyFault::EmptyComponent)
                } else {
                    match modifier_bit(scan::lowered(component)) {
                        Some(modifier) => if modifiers & modifier != 0 {
                            Err(KeyFault::DuplicateModifier)
                        } else {
                            Ok((modifiers | modifier, trigger))
                        },
                        None => if trigger is Some {
                            Err(KeyFault::MultipleKeys)
                        } else {
                            match trigger_of(component, symbols) {
                                Ok(trigger) => Ok((modifiers, Some(trigger))),
                                Err(fault) => Err(fault),
                            }
                        },
                    }
                }
            },
        }
    }
}

/// The key that a text spells: modifiers and one key, joined by plus signs.
pub open spec fn spelt(source: Seq<char>, symbols: Map<Seq<char>, u32>) -> Result<
    BindingKey,
    KeyFault,
> {
    let components = scan::pieces(source, '+');
    match combined(components, components.len() as int, symbols) {
        Err(fault) => Err(fault),
        Ok((modifiers, Some(trigger))) => Ok(
            BindingKey { modifiers: Modifiers(modifiers), trigger },
        ),
        Ok((_, None)) => Err(KeyFault::MissingKey),
    }
}

/// Components that follow do not mend a fault.
proof fn combined_fault_extends(
    components: Seq<Seq<char>>,
    n: int,
    m: int,
    symbols: Map<Seq<char>, u32>,
)
    requires
        n <= m,
        combined(components, n, symbols) is Err,
    ensures
        combined(components, m, symbols) == combined(components, n, symbols),
    decreases m,
{
    if n < m {
        combined_fault_extends(components, n, m - 1, symbols);
    }
}

fn is_text(chars: &Vec<char>, other: &str) -> (r: bool)
    ensures
        r == (chars@ == other@),
{
    let wanted: Vec<char> = chars_of(other);
    if wanted.len() != chars.len() {
        return false;
    }
    let mut i: usize = 0;
    while i < chars.len()
        invariant
            i <= chars@.len() == wanted@.len(),
            wanted@ == other@,
            forall|j: int| 0 <= j < i ==> chars@[j] == wanted@[j],
        decreases chars@.len() - i,
    {
        if chars[i] != wanted[i] {
            return false;
        }
        i = i + 1;
    }
    assert(chars@ =~= other@);
    true
}

fn modifier_of(name: &Vec<char>) -> (r: Option<u8>)
    ensures
        r == modifier_bit(name@),
{
    if is_text(name, "ctrl") {
        Some(1)
    } else if is_text(name, "alt") {
        Some(2)
    } else if is_text(name, "shift") {
        Some(4)
    } else if is_text(name, "super") {
        Some(8)
    } else {
        None
    }
}

fn fault(start: &str, source: &str) -> (r: ConfigError)
    ensures
        r@ == ConfigFault::Invalid(start@ + text::quoted(source@)),
{
    let mut message: String = start.to_owned();
    message.append(quote(source).as_str());
    ConfigError::Invalid(message)
}

fn find_trigger(component: &Vec<char>, symbols: &TextMap<u32>, source: &str) -> (r: Result<
    KeyTrigger,
    ConfigError,
>)
    ensures
        match trigger_of(component@, symbols@) {
            Ok(trigger) => r == Ok::<KeyTrigger, ConfigError>(trigger),
            Err(fault) => r is Err && r->Err_0@ == fault.reported(source@),
        },
{
    if let Some(code) = strip_prefix(component, "code:") {
        let n: Option<u32> = match strip_prefix(&code, "0x") {
            Some(hex) => parse_number(&hex, 16),
            None => parse_number(&code, 10),
        };
        return match n {
            Some(n) => if n > 0x2ff {
                Err(fault("keycode is outside the Linux evdev range in ", source))
            } else {
                Ok(KeyTrigger::Code(n))
            },
            None => Err(fault("invalid keycode in ", source)),
        };
    }
    let name: String = if component.len() == 1 && component[0] as u32 <= 0x7f {
        text_of(lower_text(component).as_slice())
    } else {
        text_of(component.as_slice())
    };
    match symbols.get(&name) {
        Some(symbol) => if symbol == 0 {
            Err(fault("unknown keysym in ", source))
        } else {
            Ok(KeyTrigger::Keysym(symbol))
        },
        None => Err(ConfigError::NeedsSymbol(name)),
    }
}

/// The key that a text spells. Symbols of keys are taken from a table; where a name is missing
/// there, the error says which.
pub fn parse_binding_key(source: &str, symbols: &TextMap<u32>) -> (r: Result<
    BindingKey,
    ConfigError,
>)
    ensures
        match spelt(source@, symbols@) {
            Ok(key) => r == Ok::<BindingKey, ConfigError>(key),
            Err(fault) => r is Err && r->Err_0@ == fault.reported(source@),
        },
{
    let chars: Vec<char> = chars_of(source);
    let components: Vec<Vec<char>> = split(&chars, '+');
    let ghost all = scan::pieces(source@, '+');
    assert(listing::each(components@).len() == components@.len());
    let mut modifiers: u8 = 0;
    let mut trigger: Option<KeyTrigger> = None;
    let mut i: usize = 0;
    while i < components.len()
        invariant
            i <= components@.len() == all.len(),
            all == scan::pieces(source@, '+'),
            listing::each(components@) == all,
            combined(all, i as int, symbols@) == Ok::<(u8, Option<KeyTrigger>), KeyFault>(
                (modifiers, trigger),
            ),
        decreases components@.len() - i,
    {
        assert(listing::each(components@)[i as int] == components@[i as int]@);
        let component: Vec<char> = trim(&components[i]);
        proof {
            if combined(all, i + 1, symbols@) is Err {
                combined_fault_extends(all, i + 1, all.len() as int, symbols@);
            }
        }
        if component.len() == 0 {
            return Err(fault("empty component in binding ", source));
        }
        match modifier_of(&lower_text(&component)) {
            Some(modifier) => {
                if modifiers & modifier != 0 {
                    return Err(fault("duplicate modifier in ", source));
                }
                modifiers = modifiers | modifier;
            },
            None => {
                if trigger.is_some() {
                    return Err(fault("multiple keys in binding ", source));
                }
                match find_trigger(&component, symbols, source) {
                    Ok(found) => {
                        trigger = Some(found);
                    },
                    Err(error) => {
                        return Err(error);
                    },
                }
            },
        }
        i = i + 1;
    }
    match trigger {
        Some(trigger) => Ok(BindingKey { modifiers: Modifiers(modifiers), trigger }),
        None => Err(fault("missing key in ", source)),
    }
}

} // verus!
