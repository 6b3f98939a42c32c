//! The configuration of the compositor.

use crate::actions;
use crate::actions::{
    about_binding, parse_action, validate_action, Action, Binding, WorkspaceSelector,
};
use crate::bindings;
use crate::bindings::{
    parse_binding_key, BindingKey, ConfigError, ConfigFault, KeyTrigger, Modifiers,
};
use crate::document;
use crate::document::{format_document, parse_document, read_sections, Node, Section, Value};
use crate::id_map::IdMap;
use crate::listing;
use crate::location;
use crate::location::{format_kdl_error, locate_message};
use crate::model::CameraPolicy;
use crate::ranking;
use crate::settings;
use crate::settings::about;
use crate::suggestions;
use crate::suggestions::unknown;
use crate::text;
use crate::text::{push_decimal, reads, TextMap};
use kdl::KdlDocument;
use vstd::prelude::*;

verus! {

/// How a held key repeats: after how many milliseconds, and how many times a second.
#[derive(Clone, Copy, Debug, Eq, PartialEq, Structural)]
pub struct KeyRepeatConfig {
    pub delay_ms: u64,
    pub rate: u32,
}

impl KeyRepeatConfig {
    pub open spec fn usual() -> Self {
        KeyRepeatConfig { delay_ms: 300, rate: 25 }
    }
}

impl Default for KeyRepeatConfig {
    fn default() -> (r: Self)
        ensures
            r == Self::usual(),
    {
        KeyRepeatConfig { delay_ms: 300, rate: 25 }
    }
}

/// What keys are bound to. Keys that are spelt differently but are the same key have one entry.
#[derive(Debug)]
pub struct Bindings {
    pub entries: IdMap<Binding>,
}

impl View for Bindings {
    type V = Map<u64, actions::BindingView>;

    open spec fn view(&self) -> Map<u64, actions::BindingView> {
        self.entries@
    }
}

/// The bindings of a list of borrowed entries.
pub open spec fn entries_of(list: Seq<(BindingKey, &Binding)>) -> Seq<
    (BindingKey, actions::BindingView),
> {
    Seq::new(list.len(), |i: int| (list[i].0, list[i].1@))
}

/// Bindings in the order of their keys.
pub open spec fn in_order(map: Map<u64, actions::BindingView>) -> Seq<
    (BindingKey, actions::BindingView),
> {
    let ranks = ranking::ascending(map.dom());
    Seq::new(ranks.len(), |i: int| (BindingKey::ranked(ranks[i]), map[ranks[i]]))
}

pub open spec fn super_key(keysym: u32) -> u64 {
    BindingKey { modifiers: Modifiers(8), trigger: KeyTrigger::Keysym(keysym) }.rank()
}

pub open spec fn super_shift_key(keysym: u32) -> u64 {
    BindingKey { modifiers: Modifiers(12), trigger: KeyTrigger::Keysym(keysym) }.rank()
}

pub open spec fn once(action: actions::ActionView) -> actions::BindingView {
    actions::BindingView { action, repeat: false }
}

/// Bindings with those for the first `n` workspaces.
pub open spec fn with_workspaces(map: Map<u64, actions::BindingView>, n: int) -> Map<
    u64,
    actions::BindingView,
>
    decreases n,
{
    if n <= 0 {
        map
    } else {
        let workspace = actions::SelectorView::Index(n as usize, None);
        with_workspaces(map, n - 1).insert(
            super_key((0x30 + n) as u32),
            once(actions::ActionView::FocusWorkspace { workspace }),
        ).insert(
            super_shift_key((0x30 + n) as u32),
            once(actions::ActionView::MoveWindowToWorkspace { workspace, activate: false }),
        )
    }
}

pub open spec fn panning(x: int, y: int) -> actions::BindingView {
    actions::BindingView {
        action: actions::ActionView::PanCamera { x: x as i64, y: y as i64 },
        repeat: true,
    }
}

/// The bindings that hold where there is no configuration file. The symbols are those of the
/// return key, the digits, the space bar, F and the arrow keys.
pub open spec fn built_in() -> Map<u64, actions::BindingView> {
    with_workspaces(
        Map::empty().insert(super_key(0xff0d), once(actions::ActionView::Spawn(seq!["kitty"@]))),
        9,
    ).insert(super_key(0x20), once(actions::ActionView::ToggleFloating)).insert(
        super_key(0x66),
        once(actions::ActionView::ToggleFullscreen),
    ).insert(super_key(0xff51), panning(-160, 0)).insert(
        super_key(0xff53),
        panning(160, 0),
    ).insert(super_key(0xff52), panning(0, -160)).insert(super_key(0xff54), panning(0, 160))
}

impl Bindings {
    pub fn empty() -> (r: Self)
        ensures
            r@ == Map::<u64, actions::BindingView>::empty(),
    {
        Bindings { entries: IdMap::new() }
    }

    pub fn len(&self) -> (r: usize)
        ensures
            r == self@.dom().len(),
    {
        self.entries.len()
    }

    pub fn is_empty(&self) -> (r: bool)
        ensures
            r == (self@.dom() == Set::<u64>::empty()),
    {
        self.entries.is_empty()
    }

    pub fn get(&self, key: &BindingKey) -> (r: Option<&Binding>)
        ensures
            match r {
                Some(binding) => self@.contains_key(key.rank()) && binding@ == self@[key.rank()],
                None => !self@.contains_key(key.rank()),
            },
    {
        self.entries.get(key.to_rank())
    }

    /// The bindings in the order of their keys.
    pub fn iter(&self) -> (r: Vec<(BindingKey, &Binding)>)
        ensures
            entries_of(r@) == in_order(self@),
    {
        let ranks: Vec<u64> = self.entries.keys();
        let ghost goal = in_order(self@);
        let mut list: Vec<(BindingKey, &Binding)> = Vec::new();
        let mut i: usize = 0;
        while i < ranks.len()
            invariant
                i <= ranks@.len() == goal.len(),
                ranks@ == ranking::ascending(self@.dom()),
                ranks@.to_set() == self@.dom(),
                goal == in_order(self@),
                list@.len() == i,
                forall|j: int|
                    0 <= j < i ==> (#[trigger] list@[j]).0 == goal[j].0 && list@[j].1@
                        == goal[j].1,
            decreases ranks@.len() - i,
        {
            assert(ranks@.to_set().contains(ranks@[i as int]));
            if let Some(binding) = self.entries.get(ranks[i]) {
                list.push((BindingKey::from_rank(ranks[i]), binding));
            }
            i = i + 1;
        }
        assert(entries_of(list@) =~= goal);
        list
    }

    fn bind(&mut self, modifiers: u8, keysym: u32, action: Action, repeat: bool)
        ensures
            final(self)@ == old(self)@.insert(
                BindingKey {
                    modifiers: Modifiers(modifiers),
                    trigger: KeyTrigger::Keysym(keysym),
                }.rank(),
                actions::BindingView { action: action@, repeat },
            ),
    {
        let key: BindingKey = BindingKey::keysym(Modifiers(modifiers), keysym);
        self.entries.insert(key.to_rank(), Binding { action, repeat });
    }

    /// The bindings that hold where there is no configuration file.
    pub fn built_in() -> (r: Self)
        ensures
            r@ == built_in(),
    {
        let mut r: Bindings = Bindings::empty();
        let argv: Vec<String> = vec!["kitty".to_owned()];
        assert(listing::each(argv@) =~= seq!["kitty"@]);
        r.bind(8, 0xff0d, Action::Spawn(argv), false);
        let ghost start = r@;
        let mut n: usize = 0;
        while n < 9
            invariant
                n <= 9,
                r@ == with_workspaces(start, n as int),
            decreases 9 - n,
        {
            n = n + 1;
            r.bind(
                8,
                0x30 + n as u32,
                Action::FocusWorkspace { workspace: WorkspaceSelector::Index(n, None) },
                false,
            );
            r.bind(
                12,
                0x30 + n as u32,
                Action::MoveWindowToWorkspace {
                    workspace: WorkspaceSelector::Index(n, None),
                    activate: false,
                },
                false,
            );
        }
        r.bind(8, 0x20, Action::ToggleFloating, false);
        r.bind(8, 0x66, Action::ToggleFullscreen, false);
        r.bind(8, 0xff51, Action::PanCamera { x: -160, y: 0 }, true);
        r.bind(8, 0xff53, Action::PanCamera { x: 160, y: 0 }, true);
        r.bind(8, 0xff52, Action::PanCamera { x: 0, y: -160 }, true);
        r.bind(8, 0xff54, Action::PanCamera { x: 0, y: 160 }, true);
        r
    }
}

#[derive(Debug)]
pub struct Config {
    pub gap: i64,
    pub camera: CameraPolicy,
    pub key_repeat: KeyRepeatConfig,
    pub bindings: Bindings,
}

#[verifier::ext_equal]
pub struct ConfigView {
    pub gap: i64,
    pub camera: CameraPolicy,
    pub key_repeat: KeyRepeatConfig,
    pub bindings: Map<u64, actions::BindingView>,
}

impl View for Config {
    type V = ConfigView;

    open spec fn view(&self) -> ConfigView {
        ConfigView {
            gap: self.gap,
            camera: self.camera,
            key_repeat: self.key_repeat,
            bindings: self.bindings@,
        }
    }
}

impl ConfigView {
    /// The configuration where there is no file.
    pub open spec fn usual() -> Self {
        ConfigView {
            gap: 8,
            camera: CameraPolicy::KeepVisible { margin: 32 },
            key_repeat: KeyRepeatConfig::usual(),
            bindings: built_in(),
        }
    }

    /// The configuration of an empty file, which binds nothing.
    pub open spec fn unbound() -> Self {
        ConfigView { bindings: Map::empty(), ..Self::usual() }
    }

    /// What is wrong with the numbers of a configuration, if anything.
    pub open spec fn fault(self) -> Option<Seq<char>> {
        if self.gap < 0 {
            Some("gap cannot be negative"@)
        } else if !(1 <= self.key_repeat.delay_ms <= 5000) {
            Some("key repeat delay must be 1..=5000 ms"@)
        } else if !(1 <= self.key_repeat.rate <= 200) {
            Some("key repeat rate must be 1..=200"@)
        } else {
            None
        }
    }
}

impl Default for Config {
    fn default() -> (r: Self)
        ensures
            r@ == ConfigView::usual(),
    {
        Config {
            gap: 8,
            camera: CameraPolicy::KeepVisible { margin: 32 },
            key_repeat: KeyRepeatConfig::default(),
            bindings: Bindings::built_in(),
        }
    }
}

impl Config {
    pub fn validate(&self) -> (r: Result<(), ConfigError>)
        ensures
            match self@.fault() {
                None => r is Ok,
                Some(message) => r is Err && r->Err_0@ == ConfigFault::Invalid(message),
            },
    {
        if self.gap < 0 {
            return Err(ConfigError::Invalid("gap cannot be negative".to_owned()));
        }
        if self.key_repeat.delay_ms < 1 || self.key_repeat.delay_ms > 5000 {
            return Err(ConfigError::Invalid("key repeat delay must be 1..=5000 ms".to_owned()));
        }
        if self.key_repeat.rate < 1 || self.key_repeat.rate > 200 {
            return Err(ConfigError::Invalid("key repeat rate must be 1..=200".to_owned()));
        }
        Ok(())
    }
}

/// The gap that the first `n` nodes of a section set.
pub open spec fn general(children: Seq<document::NodeView>, n: int, gap: i64) -> Result<
    i64,
    Seq<char>,
>
    decreases n,
{
    if n <= 0 {
        Ok(gap)
    } else {
        match general(children, n - 1, gap) {
            Err(message) => Err(message),
            Ok(_) => if children[n - 1].name != "gap"@ {
                Err(
                    suggestions::unknown_name(
                        "general setting"@,
                        children[n - 1].name,
                        seq!["gap"@],
                    ),
                )
            } else if n > 1 {
                Err("duplicate `gap` setting"@)
            } else {
                settings::only_integer(children[n - 1], "gap"@)
            },
        }
    }
}

/// How keys repeat after the first `n` nodes of a section, and whether the delay and the rate
/// have been set.
pub open spec fn input(children: Seq<document::NodeView>, n: int, keys: KeyRepeatConfig) -> Result<
    (KeyRepeatConfig, bool, bool),
    Seq<char>,
>
    decreases n,
{
    if n <= 0 {
        Ok((keys, false, false))
    } else {
        match input(children, n - 1, keys) {
            Err(message) => Err(message),
            Ok((before, delay, rate)) => {
                let node = children[n - 1];
                if node.name == "repeat-delay"@ && !delay {
                    match settings::only_u64(node, "repeat-delay"@) {
                        Ok(delay_ms) => Ok(
                            (KeyRepeatConfig { delay_ms, ..before }, true, rate),
                        ),
                        Err(message) => Err(message),
                    }
                } else if node.name == "repeat-rate"@ && !rate {
                    match settings::only_u32(node, "repeat-rate"@) {
                        Ok(rate) => Ok((KeyRepeatConfig { rate, ..before }, delay, true)),
                        Err(message) => Err(message),
                    }
                } else if node.name == "repeat-delay"@ || node.name == "repeat-rate"@ {
                    Err("duplicate "@ + settings::of_name(node.name, " setting"@))
                } else {
                    Err(
                        suggestions::unknown_name(
                            "input setting"@,
                            node.name,
                            seq!["repeat-delay"@, "repeat-rate"@],
                        ),
                    )
                }
            },
        }
    }
}

/// The camera policy that the nodes of a section name.
pub open spec fn camera(children: Seq<document::NodeView>) -> Result<CameraPolicy, Seq<char>> {
    if children.len() != 1 {
        Err("camera requires exactly one policy"@)
    } else {
        let node = children[0];
        if node.name == "centered"@ {
            match node.stray_entry() {
                Some(message) => Err(message),
                None => match node.stray_block() {
                    Some(message) => Err(message),
                    None => Ok(CameraPolicy::Centered),
                },
            }
        } else if node.name == "keep-visible"@ {
            match node.stray_block() {
                Some(message) => Err(message),
                None => match node.stray_property(seq!["margin"@]) {
                    Some(message) => Err(message),
                    None => match settings::integer_property(node, "margin"@) {
                        Err(message) => Err(message),
                        Ok(margin) => Ok(
                            CameraPolicy::KeepVisible { margin: margin.unwrap_or(32) },
                        ),
                    },
                },
            }
        } else {
            Err(
                suggestions::unknown_name(
                    "camera policy"@,
                    node.name,
                    seq!["centered"@, "keep-visible"@],
                ),
            )
        }
    }
}

/// The spelling of a key and what it is bound to, as a section says.
pub open spec fn bind(section: document::SectionView) -> Result<
    (Seq<char>, actions::BindingView),
    Seq<char>,
> {
    let node = section.node;
    match node.stray_property(seq!["repeat"@]) {
        Some(message) => Err(message),
        None => if node.arguments().len() != 1 {
            Err("`bind` requires exactly one key string"@)
        } else {
            match node.arguments()[0] {
                document::ValueView::Text(key) => bind_key(section, key),
                _ => Err("binding key must be a string"@),
            }
        },
    }
}

pub open spec fn bind_key(section: document::SectionView, key: Seq<char>) -> Result<
    (Seq<char>, actions::BindingView),
    Seq<char>,
> {
    match settings::truth_property(section.node, "repeat"@) {
        Err(message) => Err(message),
        Ok(repeat) => {
            let repeat = repeat.unwrap_or(false);
            if !section.node.has_children {
                Err(actions::of_binding(key, " requires an action block"@))
            } else if section.children.len() != 1 {
                Err(actions::of_binding(key, " must contain exactly one action"@))
            } else {
                match actions::action(section.children[0]) {
                    Err(message) => Err(message),
                    Ok(action) => if repeat && !action.repeats() {
                        Err(
                            actions::of_binding(
                                key,
                                " enables repeat for a non-repeatable action"@,
                            ),
                        )
                    } else {
                        match actions::action_fault(action, key) {
                            Some(message) => Err(message),
                            None => Ok((key, actions::BindingView { action, repeat })),
                        }
                    },
                }
            }
        },
    }
}

/// A configuration that is being read, with the sections that have been.
pub struct Draft {
    pub config: Config,
    pub general: bool,
    pub input: bool,
    pub camera: bool,
}

#[verifier::ext_equal]
pub struct DraftView {
    pub config: ConfigView,
    pub general: bool,
    pub input: bool,
    pub camera: bool,
}

impl View for Draft {
    type V = DraftView;

    open spec fn view(&self) -> DraftView {
        DraftView {
            config: self.config@,
            general: self.general,
            input: self.input,
            camera: self.camera,
        }
    }
}

impl DraftView {
    pub open spec fn start() -> Self {
        DraftView { config: ConfigView::unbound(), general: false, input: false, camera: false }
    }

    /// Why a section cannot be one of those that hold settings and come once, if there is a
    /// reason.
    pub open spec fn section_fault(self, node: document::NodeView, seen: bool) -> Option<Seq<char>> {
        if seen {
            Some("duplicate "@ + settings::of_name(node.name, " section"@))
        } else if node.stray_entry() is Some {
            node.stray_entry()
        } else if !node.has_children {
            Some(settings::of_name(node.name, " requires a child block"@))
        } else {
            None
        }
    }

    pub open spec fn with_general(self, section: document::SectionView) -> Result<Self, Seq<char>> {
        match self.section_fault(section.node, self.general) {
            Some(message) => Err(message),
            None => match general(
                section.children,
                section.children.len() as int,
                self.config.gap,
            ) {
                Ok(gap) => Ok(
                    DraftView { config: ConfigView { gap, ..self.config }, general: true, ..self },
                ),
                Err(message) => Err(message),
            },
        }
    }

    pub open spec fn with_input(self, section: document::SectionView) -> Result<Self, Seq<char>> {
        match self.section_fault(section.node, self.input) {
            Some(message) => Err(message),
            None => match input(
                section.children,
                section.children.len() as int,
                self.config.key_repeat,
            ) {
                Ok((key_repeat, _, _)) => Ok(
                    DraftView {
                        config: ConfigView { key_repeat, ..self.config },
                        input: true,
                        ..self
                    },
                ),
                Err(message) => Err(message),
            },
        }
    }

    pub open spec fn with_camera(self, section: document::SectionView) -> Result<Self, Seq<char>> {
        match self.section_fault(section.node, self.camera) {
            Some(message) => Err(message),
            None => match camera(section.children) {
                Ok(camera) => Ok(
                    DraftView {
                        config: ConfigView { camera, ..self.config },
                        camera: true,
                        ..self
                    },
                ),
                Err(message) => Err(message),
            },
        }
    }

    pub open spec fn with_binding(
        self,
        section: document::SectionView,
        symbols: Map<Seq<char>, u32>,
    ) -> Result<Self, ConfigFault> {
        match bind(section) {
            Err(message) => Err(ConfigFault::Invalid(message)),
            Ok((source, binding)) => match bindings::spelt(source, symbols) {
                Err(fault) => Err(fault.reported(source)),
                Ok(key) => if self.config.bindings.contains_key(key.rank()) {
                    Err(
                        ConfigFault::Invalid(
                            actions::of_binding(
                                source,
                                " duplicates another normalized binding"@,
                            ),
                        ),
                    )
                } else {
                    Ok(
                        DraftView {
                            config: ConfigView {
                                bindings: self.config.bindings.insert(key.rank(), binding),
                                ..self.config
                            },
                            ..self
                        },
                    )
                },
            },
        }
    }

    /// The draft with what a section says.
    pub open spec fn with_section(
        self,
        section: document::SectionView,
        symbols: Map<Seq<char>, u32>,
    ) -> Result<Self, ConfigFault> {
        let name = section.node.name;
        if name == "general"@ {
            invalid(self.with_general(section))
        } else if name == "input"@ {
            invalid(self.with_input(section))
        } else if name == "camera"@ {
            invalid(self.with_camera(section))
        } else if name == "bind"@ {
            self.with_binding(section, symbols)
        } else {
            Err(
                ConfigFault::Invalid(
                    suggestions::unknown_name(
                        "top-level node"@,
                        name,
                        seq!["general"@, "input"@, "camera"@, "bind"@],
                    ),
                ),
            )
        }
    }
}

pub open spec fn invalid(draft: Result<DraftView, Seq<char>>) -> Result<DraftView, ConfigFault> {
    match draft {
        Ok(draft) => Ok(draft),
        Err(message) => Err(ConfigFault::Invalid(message)),
    }
}

impl ConfigFault {
    /// The fault with the place in the text that it is about.
    pub open spec fn at(self, contents: Seq<char>, offset: int) -> Self {
        match self {
            ConfigFault::Invalid(message) => ConfigFault::Invalid(
                location::located(message, contents, offset),
            ),
            _ => self,
        }
    }
}

/// The draft after the first `n` sections of a text, or the first fault with its place.
pub open spec fn drafted(
    sections: Seq<document::SectionView>,
    n: int,
    symbols: Map<Seq<char>, u32>,
    contents: Seq<char>,
) -> Result<DraftView, ConfigFault>
    decreases n,
{
    if n <= 0 {
        Ok(DraftView::start())
    } else {
        match drafted(sections, n - 1, symbols, contents) {
            Err(fault) => Err(fault),
            Ok(draft) => match draft.with_section(sections[n - 1], symbols) {
                Ok(next) => Ok(next),
                Err(fault) => Err(fault.at(contents, sections[n - 1].node.offset as int)),
            },
        }
    }
}

/// The configuration that the sections of a text make.
pub open spec fn composed(
    sections: Seq<document::SectionView>,
    symbols: Map<Seq<char>, u32>,
    contents: Seq<char>,
) -> Result<ConfigView, ConfigFault> {
    match drafted(sections, sections.len() as int, symbols, contents) {
        Err(fault) => Err(fault),
        Ok(draft) => match draft.config.fault() {
            Some(message) => Err(ConfigFault::Invalid(message)),
            None => Ok(draft.config),
        },
    }
}

/// The configuration that a text holds.
pub open spec fn configured(contents: Seq<char>, symbols: Map<Seq<char>, u32>) -> Result<
    ConfigView,
    ConfigFault,
> {
    match document::parsed(contents) {
        Err(list) => Err(ConfigFault::Parse(location::all_diagnosed(contents, list))),
        Ok(sections) => composed(sections, symbols, contents),
    }
}

fn parse_general(children: &Vec<Node>, gap: i64) -> (r: Result<i64, String>)
    ensures
        match general(listing::each(children@), children@.len() as int, gap) {
            Ok(gap) => r == Ok::<i64, String>(gap),
            Err(message) => r is Err && r->Err_0@ == message,
        },
{
    let ghost all = listing::each(children@);
    let mut result: i64 = gap;
    let mut i: usize = 0;
    while i < children.len()
        invariant
            i <= children@.len() == all.len(),
            all == listing::each(children@),
            general(all, i as int, gap) == Ok::<i64, Seq<char>>(result),
        decreases children@.len() - i,
    {
        assert(all[i as int] == children@[i as int]@);
        proof {
            if general(all, i + 1, gap) is Err {
                general_fault_extends(all, i + 1, all.len() as int, gap);
            }
        }
        if !reads(&children[i].name, "gap") {
            let names: [&str; 1] = ["gap"];
            assert(suggestions::texts(names@) =~= seq!["gap"@]);
            return Err(unknown("general setting", children[i].name.as_str(), &names));
        }
        if i > 0 {
            return Err("duplicate `gap` setting".to_owned());
        }
        match children[i].one_i64("gap") {
            Ok(n) => {
                result = n;
            },
            Err(message) => {
                return Err(message);
            },
        }
        i = i + 1;
    }
    Ok(result)
}

proof fn general_fault_extends(children: Seq<document::NodeView>, n: int, m: int, gap: i64)
    requires
        n <= m,
        general(children, n, gap) is Err,
    ensures
        general(children, m, gap) == general(children, n, gap),
    decreases m,
{
    if n < m {
        general_fault_extends(children, n, m - 1, gap);
    }
}

fn parse_input(children: &Vec<Node>, keys: KeyRepeatConfig) -> (r: Result<KeyRepeatConfig, String>)
    ensures
        match input(listing::each(children@), children@.len() as int, keys) {
            Ok((keys, _, _)) => r == Ok::<KeyRepeatConfig, String>(keys),
            Err(message) => r is Err && r->Err_0@ == message,
        },
{
    let ghost all = listing::each(children@);
    let mut result: KeyRepeatConfig = keys;
    let mut delay: bool = false;
    let mut rate: bool = false;
    let mut i: usize = 0;
    while i < children.len()
        invariant
            i <= children@.len() == all.len(),
            all == listing::each(children@),
            input(all, i as int, keys) == Ok::<(KeyRepeatConfig, bool, bool), Seq<char>>(
                (result, delay, rate),
            ),
        decreases children@.len() - i,
    {
        assert(all[i as int] == children@[i as int]@);
        proof {
            if input(all, i + 1, keys) is Err {
                input_fault_extends(all, i + 1, all.len() as int, keys);
            }
        }
        let node: &Node = &children[i];
        let is_delay: bool = reads(&node.name, "repeat-delay");
        let is_rate: bool = reads(&node.name, "repeat-rate");
        if is_delay && !delay {
            match node.one_u64("repeat-delay") {
                Ok(delay_ms) => {
                    result = KeyRepeatConfig { delay_ms, ..result };
                    delay = true;
                },
                Err(message) => {
                    return Err(message);
                },
            }
        } else if is_rate && !rate {
            match node.one_u32("repeat-rate") {
                Ok(times) => {
                    result = KeyRepeatConfig { rate: times, ..result };
                    rate = true;
                },
                Err(message) => {
                    return Err(message);
                },
            }
        } else if is_delay || is_rate {
            let mut message: String = "duplicate ".to_owned();
            message.append(about(node.name.as_str(), " setting").as_str());
            return Err(message);
        } else {
            let names: [&str; 2] = ["repeat-delay", "repeat-rate"];
            assert(suggestions::texts(names@) =~= seq!["repeat-delay"@, "repeat-rate"@]);
            return Err(unknown("input setting", node.name.as_str(), &names));
        }
        i = i + 1;
    }
    Ok(result)
}

proof fn input_fault_extends(
    children: Seq<document::NodeView>,
    n: int,
    m: int,
    keys: KeyRepeatConfig,
)
    requires
        n <= m,
        input(children, n, keys) is Err,
    ensures
        input(children, m, keys) == input(children, n, keys),
    decreases m,
{
    if n < m {
        input_fault_extends(children, n, m - 1, keys);
    }
}

fn parse_camera(children: &Vec<Node>) -> (r: Result<CameraPolicy, String>)
    ensures
        match camera(listing::each(children@)) {
            Ok(policy) => r == Ok::<CameraPolicy, String>(policy),
            Err(message) => r is Err && r->Err_0@ == message,
        },
{
    if children.len() != 1 {
        return Err("camera requires exactly one policy".to_owned());
    }
    assert(listing::each(children@)[0] == children@[0]@);
    let node: &Node = &children[0];
    if reads(&node.name, "centered") {
        if let Err(message) = node.require_no_entries() {
            return Err(message);
        }
        if let Err(message) = node.require_no_children() {
            return Err(message);
        }
        return Ok(CameraPolicy::Centered);
    }
    if reads(&node.name, "keep-visible") {
        if let Err(message) = node.require_no_children() {
            return Err(message);
        }
        let allowed: [&str; 1] = ["margin"];
        assert(suggestions::texts(allowed@) =~= seq!["margin"@]);
        if let Err(message) = node.require_properties(&allowed) {
            return Err(message);
        }
        return match node.property_i64("margin") {
            Ok(margin) => Ok(CameraPolicy::KeepVisible { margin: margin.unwrap_or(32) }),
            Err(message) => Err(message),
        };
    }
    let names: [&str; 2] = ["centered", "keep-visible"];
    assert(suggestions::texts(names@) =~= seq!["centered"@, "keep-visible"@]);
    Err(unknown("camera policy", node.name.as_str(), &names))
}

fn parse_bind(section: &Section) -> (r: Result<(String, Binding), String>)
    ensures
        match bind(section@) {
            Ok((key, binding)) => r is Ok && (r->Ok_0).0@ == key && (r->Ok_0).1@ == binding,
            Err(message) => r is Err && r->Err_0@ == message,
        },
{
    let node: &Node = &section.node;
    let allowed: [&str; 1] = ["repeat"];
    assert(suggestions::texts(allowed@) =~= seq!["repeat"@]);
    if let Err(message) = node.require_properties(&allowed) {
        return Err(message);
    }
    let args: Vec<&Value> = node.positional();
    assert(settings::borrowed(args@).len() == args@.len());
    if args.len() != 1 {
        return Err("`bind` requires exactly one key string".to_owned());
    }
    assert(settings::borrowed(args@)[0] == args@[0]@);
    let key: String = match args[0] {
        Value::Text(key) => key.clone(),
        _ => {
            return Err("binding key must be a string".to_owned());
        },
    };
    let repeat: bool = match node.property_bool("repeat") {
        Ok(repeat) => repeat.unwrap_or(false),
        Err(message) => {
            return Err(message);
        },
    };
    if !node.has_children {
        return Err(about_binding(key.as_str(), " requires an action block"));
    }
    if section.children.len() != 1 {
        return Err(about_binding(key.as_str(), " must contain exactly one action"));
    }
    assert(listing::each(section.children@)[0] == section.children@[0]@);
    let action: Action = match parse_action(&section.children[0]) {
        Ok(action) => action,
        Err(message) => {
            return Err(message);
        },
    };
    if repeat && !action.can_repeat() {
        return Err(
            about_binding(key.as_str(), " enables repeat for a non-repeatable action"),
        );
    }
    if let Err(message) = validate_action(&action, key.as_str()) {
        return Err(message);
    }
    Ok((key, Binding { action, repeat }))
}

impl Draft {
    fn start() -> (r: Self)
        ensures
            r@ == DraftView::start(),
    {
        Draft {
            config: Config {
                gap: 8,
                camera: CameraPolicy::KeepVisible { margin: 32 },
                key_repeat: KeyRepeatConfig::default(),
                bindings: Bindings::empty(),
            },
            general: false,
            input: false,
            camera: false,
        }
    }

    fn check_section(&self, node: &Node, seen: bool) -> (r: Result<(), String>)
        ensures
            match self@.section_fault(node@, seen) {
                None => r is Ok,
                Some(message) => r is Err && r->Err_0@ == message,
            },
    {
        if seen {
            let mut message: String = "duplicate ".to_owned();
            message.append(about(node.name.as_str(), " section").as_str());
            return Err(message);
        }
        if let Err(message) = node.require_no_entries() {
            return Err(message);
        }
        if !node.has_children {
            return Err(about(node.name.as_str(), " requires a child block"));
        }
        Ok(())
    }

    fn read_general(&mut self, section: &Section) -> (r: Result<(), String>)
        ensures
            match old(self)@.with_general(section@) {
                Ok(after) => r is Ok && final(self)@ == after,
                Err(message) => r is Err && r->Err_0@ == message,
            },
    {
        if let Err(message) = self.check_section(&section.node, self.general) {
            return Err(message);
        }
        match parse_general(&section.children, self.config.gap) {
            Ok(gap) => {
                self.config.gap = gap;
                self.general = true;
                Ok(())
            },
            Err(message) => Err(message),
        }
    }

    fn read_input(&mut self, section: &Section) -> (r: Result<(), String>)
        ensures
            match old(self)@.with_input(section@) {
                Ok(after) => r is Ok && final(self)@ == after,
                Err(message) => r is Err && r->Err_0@ == message,
            },
    {
        if let Err(message) = self.check_section(&section.node, self.input) {
            return Err(message);
        }
        match parse_input(&section.children, self.config.key_repeat) {
            Ok(keys) => {
                self.config.key_repeat = keys;
                self.input = true;
                Ok(())
            },
            Err(message) => Err(message),
        }
    }

    fn read_camera(&mut self, section: &Section) -> (r: Result<(), String>)
        ensures
            match old(self)@.with_camera(section@) {
                Ok(after) => r is Ok && final(self)@ == after,
                Err(message) => r is Err && r->Err_0@ == message,
            },
    {
        if let Err(message) = self.check_section(&section.node, self.camera) {
            return Err(message);
        }
        match parse_camera(&section.children) {
            Ok(policy) => {
                self.config.camera = policy;
                self.camera = true;
                Ok(())
            },
            Err(message) => Err(message),
        }
    }

    fn read_binding(&mut self, section: &Section, symbols: &TextMap<u32>) -> (r: Result<
        (),
        ConfigError,
    >)
        ensures
            match old(self)@.with_binding(section@, symbols@) {
                Ok(after) => r is Ok && final(self)@ == after,
                Err(fault) => r is Err && r->Err_0@ == fault,
            },
    {
        let (source, binding): (String, Binding) = match parse_bind(section) {
            Ok(bound) => bound,
            Err(message) => {
                return Err(ConfigError::Invalid(message));
            },
        };
        let key: BindingKey = match parse_binding_key(source.as_str(), symbols) {
            Ok(key) => key,
            Err(error) => {
                return Err(error);
            },
        };
        if self.config.bindings.entries.contains_key(key.to_rank()) {
            return Err(
                ConfigError::Invalid(
                    about_binding(source.as_str(), " duplicates another normalized binding"),
                ),
            );
        }
        self.config.bindings.entries.insert(key.to_rank(), binding);
        Ok(())
    }

    fn read_section(&mut self, section: &Section, symbols: &TextMap<u32>) -> (r: Result<
        (),
        ConfigError,
    >)
        ensures
            match old(self)@.with_section(section@, symbols@) {
                Ok(after) => r is Ok && final(self)@ == after,
                Err(fault) => r is Err && r->Err_0@ == fault,
            },
    {
        let name: &String = &section.node.name;
        let result: Result<(), String> = if reads(name, "general") {
            self.read_general(section)
        } else if reads(name, "input") {
            self.read_input(section)
        } else if reads(name, "camera") {
            self.read_camera(section)
        } else if reads(name, "bind") {
            return self.read_binding(section, symbols);
        } else {
            let names: [&str; 4] = ["general", "input", "camera", "bind"];
            assert(suggestions::texts(names@) =~= seq![
                "general"@,
                "input"@,
                "camera"@,
                "bind"@,
            ]);
            Err(unknown("top-level node", name.as_str(), &names))
        };
        match result {
            Ok(()) => Ok(()),
            Err(message) => Err(ConfigError::Invalid(message)),
        }
    }
}

proof fn drafted_fault_extends(
    sections: Seq<document::SectionView>,
    n: int,
    m: int,
    symbols: Map<Seq<char>, u32>,
    contents: Seq<char>,
)
    requires
        n <= m,
        drafted(sections, n, symbols, contents) is Err,
    ensures
        drafted(sections, m, symbols, contents) == drafted(sections, n, symbols, contents),
    decreases m,
{
    if n < m {
        drafted_fault_extends(sections, n, m - 1, symbols, contents);
    }
}

impl ConfigError {
    /// The error with the place in the text that it is about.
    pub fn with_location(self, contents: &str, offset: usize) -> (r: Self)
        ensures
            r@ == self@.at(contents@, offset as int),
    {
        match self {
            ConfigError::Invalid(message) => ConfigError::Invalid(
                locate_message(message.as_str(), contents, offset),
            ),
            other => other,
        }
    }
}

/// The configuration file that is offered to begin with, before it is formatted.
pub open spec fn generated_source() -> Seq<char> {
    generated_start() + generated_workspaces(9) + generated_end()
}

pub open spec fn generated_start() -> Seq<char> {
    "// Astera configuration. A file replaces all built-in bindings.\ngeneral {\n    gap 8\n}\n\ninput {\n    repeat-delay 300\n    repeat-rate 25\n}\n\ncamera {\n    keep-visible margin=32\n}\n\nbind \"Super+Return\" {\n    spawn \"kitty\"\n}\n"@
}

pub open spec fn generated_end() -> Seq<char> {
    "\nbind \"Super+Space\" {\n    toggle-floating\n}\nbind \"Super+F\" {\n    toggle-fullscreen\n}\nbind \"Super+Left\" repeat=#true {\n    pan-camera -160 0\n}\nbind \"Super+Right\" repeat=#true {\n    pan-camera 160 0\n}\nbind \"Super+Up\" repeat=#true {\n    pan-camera 0 -160\n}\nbind \"Super+Down\" repeat=#true {\n    pan-camera 0 160\n}\n"@
}

/// The bindings for the first `n` workspaces.
pub open spec fn generated_workspaces(n: int) -> Seq<char>
    decreases n,
{
    if n <= 0 {
        Seq::empty()
    } else {
        generated_workspaces(n - 1) + "bind \"Super+"@ + text::decimal(n)
            + "\" {\n    focus-workspace "@ + text::decimal(n) + "\n}\nbind \"Super+Shift+"@
            + text::decimal(n) + "\" {\n    move-window-to-workspace "@ + text::decimal(n)
            + "\n}\n"@
    }
}

fn write_generated_source() -> (r: String)
    ensures
        r@ == generated_source(),
{
    let mut r: String = "// Astera configuration. A file replaces all built-in bindings.\ngeneral {\n    gap 8\n}\n\ninput {\n    repeat-delay 300\n    repeat-rate 25\n}\n\ncamera {\n    keep-visible margin=32\n}\n\nbind \"Super+Return\" {\n    spawn \"kitty\"\n}\n".to_owned();
    let mut n: u64 = 0;
    assert(generated_start() + generated_workspaces(0) =~= generated_start());
    while n < 9
        invariant
            n <= 9,
            r@ == generated_start() + generated_workspaces(n as int),
        decreases 9 - n,
    {
        n = n + 1;
        r.append("bind \"Super+");
        push_decimal(&mut r, n);
        r.append("\" {\n    focus-workspace ");
        push_decimal(&mut r, n);
        r.append("\n}\nbind \"Super+Shift+");
        push_decimal(&mut r, n);
        r.append("\" {\n    move-window-to-workspace ");
        push_decimal(&mut r, n);
        r.append("\n}\n");
        assert(r@ =~= generated_start() + generated_workspaces(n as int));
    }
    r.append("\nbind \"Super+Space\" {\n    toggle-floating\n}\nbind \"Super+F\" {\n    toggle-fullscreen\n}\nbind \"Super+Left\" repeat=#true {\n    pan-camera -160 0\n}\nbind \"Super+Right\" repeat=#true {\n    pan-camera 160 0\n}\nbind \"Super+Up\" repeat=#true {\n    pan-camera 0 -160\n}\nbind \"Super+Down\" repeat=#true {\n    pan-camera 0 160\n}\n");
    r
}

impl Config {
    /// The configuration that the sections of a document make. Symbols of keys are taken from a
    /// table; where a name is missing there, the error says which.
    pub fn from_sections(sections: &Vec<Section>, symbols: &TextMap<u32>, contents: &str) -> (r:
        Result<Self, ConfigError>)
        ensures
            match composed(listing::each(sections@), symbols@, contents@) {
                Ok(config) => r is Ok && r->Ok_0@ == config,
                Err(fault) => r is Err && r->Err_0@ == fault,
            },
    {
        let ghost all = listing::each(sections@);
        let mut draft: Draft = Draft::start();
        let mut i: usize = 0;
        while i < sections.len()
            invariant
                i <= sections@.len() == all.len(),
                all == listing::each(sections@),
                drafted(all, i as int, symbols@, contents@) == Ok::<DraftView, ConfigFault>(
                    draft@,
                ),
            decreases sections@.len() - i,
        {
            assert(all[i as int] == sections@[i as int]@);
            proof {
                if drafted(all, i + 1, symbols@, contents@) is Err {
                    drafted_fault_extends(all, i + 1, all.len() as int, symbols@, contents@);
                }
            }
            match draft.read_section(&sections[i], symbols) {
                Ok(()) => {},
                Err(error) => {
                    return Err(error.with_location(contents, sections[i].node.offset));
                },
            }
            i = i + 1;
        }
        let config: Config = draft.config;
        match config.validate() {
            Ok(()) => Ok(config),
            Err(error) => Err(error),
        }
    }

    /// The configuration that a text holds.
    pub fn from_kdl(contents: &str, symbols: &TextMap<u32>) -> (r: Result<Self, ConfigError>)
        ensures
            match configured(contents@, symbols@) {
                Ok(config) => r is Ok && r->Ok_0@ == config,
                Err(fault) => r is Err && r->Err_0@ == fault,
            },
    {
        match parse_document(contents) {
            Ok(document) => {
                let sections: Vec<Section> = read_sections(&document);
                Config::from_sections(&sections, symbols, contents)
            },
            Err(list) => Err(ConfigError::Parse(format_kdl_error(contents, &list))),
        }
    }

    /// The text of a configuration in its usual form; only what is a configuration is formatted.
    pub fn format_kdl(contents: &str, symbols: &TextMap<u32>) -> (r: Result<String, ConfigError>)
        ensures
            match configured(contents@, symbols@) {
                Ok(_) => r is Ok && r->Ok_0@ == document::formatted(contents@),
                Err(fault) => r is Err && r->Err_0@ == fault,
            },
    {
        let document: KdlDocument = match parse_document(contents) {
            Ok(document) => document,
            Err(list) => {
                return Err(ConfigError::Parse(format_kdl_error(contents, &list)));
            },
        };
        let sections: Vec<Section> = read_sections(&document);
        match Config::from_sections(&sections, symbols, contents) {
            Ok(_) => Ok(format_document(document)),
            Err(error) => Err(error),
        }
    }

    /// A configuration file to begin with.
    pub fn generated_kdl(symbols: &TextMap<u32>) -> (r: Result<String, ConfigError>)
        ensures
            match configured(generated_source(), symbols@) {
                Ok(_) => r is Ok && r->Ok_0@ == document::formatted(generated_source()),
                Err(fault) => r is Err && r->Err_0@ == fault,
            },
    {
        let source: String = write_generated_source();
        Config::format_kdl(source.as_str(), symbols)
    }
}

/// A configuration that was read has numbers within their bounds.
pub proof fn read_configurations_are_sound(
    sections: Seq<document::SectionView>,
    symbols: Map<Seq<char>, u32>,
    contents: Seq<char>,
)
    ensures
        composed(sections, symbols, contents) matches Ok(config) ==> config.fault() is None,
{
}

/// An empty document binds nothing and changes no setting.
pub proof fn empty_documents_bind_nothing(symbols: Map<Seq<char>, u32>, contents: Seq<char>)
    ensures
        composed(Seq::empty(), symbols, contents) == Ok::<ConfigView, ConfigFault>(
            ConfigView::unbound(),
        ),
{
}

/// The configuration where there is no file is sound.
pub proof fn usual_configuration_is_sound()
    ensures
        ConfigView::usual().fault() is None,
{
}

} // verus!
