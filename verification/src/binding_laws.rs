//! What a configuration file says of keys, actions and settings is what is read from it.

use crate::actions;
use crate::actions::{ActionView, BindingView, CardinalDirection};
use crate::bindings;
use crate::bindings::{BindingKey, KeyTrigger, Modifiers};
use crate::config;
use crate::config_laws;
use crate::document;
use crate::document::ValueView;
use crate::geometry_laws;
use crate::model::{CameraPolicy, WindowMode};
use crate::ranking;
use crate::reading_laws;
use crate::scan;
use crate::settings;
use crate::text;
use vstd::prelude::*;

verus! {

/// Whether one of the first `n` components of a spelling is a word, whatever the white space around
/// it and its case.
pub open spec fn spells(components: Seq<Seq<char>>, n: int, word: Seq<char>) -> bool {
    exists|i: int|
        0 <= i < n && scan::lowered(scan::trimmed(#[trigger] components[i])) == word
}

proof fn modifier_words_differ()
    ensures
        "ctrl"@ != "alt"@ && "ctrl"@ != "shift"@ && "ctrl"@ != "super"@,
        "alt"@ != "shift"@ && "alt"@ != "super"@ && "shift"@ != "super"@,
{
    reveal_strlit("ctrl");
    reveal_strlit("alt");
    reveal_strlit("shift");
    reveal_strlit("super");
    assert("ctrl"@.len() == 4 && "alt"@.len() == 3);
    assert("shift"@.len() == 5 && "super"@.len() == 5);
    assert("shift"@[1] == 'h' && "super"@[1] == 'u');
}

proof fn one_more_component(components: Seq<Seq<char>>, n: int, word: Seq<char>)
    requires
        n > 0,
    ensures
        spells(components, n, word) <==> spells(components, n - 1, word) || scan::lowered(
            scan::trimmed(components[n - 1]),
        ) == word,
{
    if spells(components, n, word) {
        let i = choose|i: int|
            0 <= i < n && scan::lowered(scan::trimmed(#[trigger] components[i])) == word;
        if i < n - 1 {
            assert(scan::lowered(scan::trimmed(components[i])) == word);
        }
    }
    if spells(components, n - 1, word) {
        let i = choose|i: int|
            0 <= i < n - 1 && scan::lowered(scan::trimmed(#[trigger] components[i])) == word;
        assert(scan::lowered(scan::trimmed(components[i])) == word);
    }
    assert(components[n - 1] == components[n - 1]);
}

proof fn components_are_combined(
    components: Seq<Seq<char>>,
    n: int,
    symbols: Map<Seq<char>, u32>,
)
    requires
        0 <= n <= components.len(),
    ensures
        bindings::combined(components, n, symbols) matches Ok((modifiers, trigger)) ==> {
            &&& (modifiers & 1 != 0) <==> spells(components, n, "ctrl"@)
            &&& (modifiers & 2 != 0) <==> spells(components, n, "alt"@)
            &&& (modifiers & 4 != 0) <==> spells(components, n, "shift"@)
            &&& (modifiers & 8 != 0) <==> spells(components, n, "super"@)
            &&& modifiers < 16
            &&& trigger matches Some(key) ==> exists|i: int|
                0 <= i < n && bindings::trigger_of(scan::trimmed(#[trigger] components[i]), symbols)
                    == Ok::<KeyTrigger, bindings::KeyFault>(key) && bindings::modifier_bit(
                    scan::lowered(scan::trimmed(components[i])),
                ) is None
        },
    decreases n,
{
    if n == 0 {
        assert(0u8 & 1 == 0 && 0u8 & 2 == 0 && 0u8 & 4 == 0 && 0u8 & 8 == 0) by (bit_vector);
    } else {
        components_are_combined(components, n - 1, symbols);
        modifier_words_differ();
        one_more_component(components, n, "ctrl"@);
        one_more_component(components, n, "alt"@);
        one_more_component(components, n, "shift"@);
        one_more_component(components, n, "super"@);
        if let Ok((before, old_trigger)) = bindings::combined(components, n - 1, symbols) {
            let word = scan::lowered(scan::trimmed(components[n - 1]));
            if let Some(m) = bindings::modifier_bit(word) {
                bits_are_joined(before, m);
            }
            if let Some(key) = old_trigger {
                let i = choose|i: int|
                    0 <= i < n - 1 && bindings::trigger_of(
                        scan::trimmed(#[trigger] components[i]),
                        symbols,
                    ) == Ok::<KeyTrigger, bindings::KeyFault>(key) && bindings::modifier_bit(
                        scan::lowered(scan::trimmed(components[i])),
                    ) is None;
                assert(bindings::trigger_of(scan::trimmed(components[i]), symbols) == Ok::<
                    KeyTrigger,
                    bindings::KeyFault,
                >(key));
            }
            assert(components[n - 1] == components[n - 1]);
        }
    }
}

proof fn bits_are_joined(a: u8, m: u8)
    requires
        m == 1 || m == 2 || m == 4 || m == 8,
        a < 16,
    ensures
        ((a | m) & 1 != 0) <==> a & 1 != 0 || m == 1,
        ((a | m) & 2 != 0) <==> a & 2 != 0 || m == 2,
        ((a | m) & 4 != 0) <==> a & 4 != 0 || m == 4,
        ((a | m) & 8 != 0) <==> a & 8 != 0 || m == 8,
        (a | m) < 16,
{
    assert(((a | m) & 1 != 0 <==> a & 1 != 0 || m == 1) && ((a | m) & 2 != 0 <==> a & 2 != 0 || m
        == 2) && ((a | m) & 4 != 0 <==> a & 4 != 0 || m == 4) && ((a | m) & 8 != 0 <==> a & 8 != 0
        || m == 8) && (a | m) < 16) by (bit_vector)
        requires
            m == 1 || m == 2 || m == 4 || m == 8,
            a < 16,
    ;
}

/// A key that is read has just the modifiers that its spelling names between plus signs, and the one
/// other component of the spelling as its key.
pub proof fn keys_are_what_is_spelt(source: Seq<char>, symbols: Map<Seq<char>, u32>)
    ensures
        bindings::spelt(source, symbols) matches Ok(key) ==> {
            let components = scan::pieces(source, '+');
            let n = components.len() as int;
            &&& key.modifiers.holds(1) <==> spells(components, n, "ctrl"@)
            &&& key.modifiers.holds(2) <==> spells(components, n, "alt"@)
            &&& key.modifiers.holds(4) <==> spells(components, n, "shift"@)
            &&& key.modifiers.holds(8) <==> spells(components, n, "super"@)
            &&& key.modifiers.0 < 16
            &&& exists|i: int|
                0 <= i < n && bindings::trigger_of(scan::trimmed(#[trigger] components[i]), symbols)
                    == Ok::<KeyTrigger, bindings::KeyFault>(key.trigger)
        },
{
    let components = scan::pieces(source, '+');
    components_are_combined(components, components.len() as int, symbols);
    if let Ok(key) = bindings::spelt(source, symbols) {
        let i = choose|i: int|
            0 <= i < components.len() && bindings::trigger_of(
                scan::trimmed(#[trigger] components[i]),
                symbols,
            ) == Ok::<KeyTrigger, bindings::KeyFault>(key.trigger) && bindings::modifier_bit(
                scan::lowered(scan::trimmed(components[i])),
            ) is None;
        assert(bindings::trigger_of(scan::trimmed(components[i]), symbols) == Ok::<
            KeyTrigger,
            bindings::KeyFault,
        >(key.trigger));
    }
}

/// A key is meant by its number behind `code:`, as far as there are such keys, or by the name of its
/// symbol, where a single letter means the key in whichever case it is written.
pub proof fn key_components_are_read(n: u32, name: Seq<char>, symbols: Map<Seq<char>, u32>)
    requires
        !"code:"@.is_prefix_of(name),
    ensures
        n <= 767 ==> bindings::trigger_of("code:"@ + text::decimal(n as int), symbols) == Ok::<
            KeyTrigger,
            bindings::KeyFault,
        >(KeyTrigger::Code(n)),
        n > 767 ==> bindings::trigger_of("code:"@ + text::decimal(n as int), symbols) == Err::<
            KeyTrigger,
            bindings::KeyFault,
        >(bindings::KeyFault::CodeOutOfRange),
        name.len() != 1 && symbols.contains_key(name) && symbols[name] != 0
            ==> bindings::trigger_of(name, symbols) == Ok::<KeyTrigger, bindings::KeyFault>(
            KeyTrigger::Keysym(symbols[name]),
        ),
        name.len() == 1 && 65 <= name[0] as int <= 90 ==> bindings::trigger_of(name, symbols)
            == bindings::trigger_of(seq![((name[0] as u8) + 32) as u8 as char], symbols),
{
    reading_laws::numbers_read_back(n as int);
    reveal_strlit("code:");
    reveal_strlit("0x");
    let digits = text::decimal(n as int);
    let whole = "code:"@ + digits;
    assert("code:"@.is_prefix_of(whole));
    assert(whole.skip(5) =~= digits);
    assert("0x"@.len() == 2 && "0x"@[1] == 'x');
    if "0x"@.is_prefix_of(digits) {
        assert(digits[1] == "0x"@[1]);
        assert('0' <= digits[1] <= '9');
    }
    if name.len() == 1 && 65 <= name[0] as int <= 90 {
        let small = seq![((name[0] as u8) + 32) as u8 as char];
        assert("code:"@.len() == 5);
        assert(!"code:"@.is_prefix_of(small));
        assert(scan::lowered(name) =~= small);
        assert(scan::lowered(small) =~= small);
    }
}

/// What a binding is told to do once a section has been read stays: the key that a section spells has
/// the action of the section, and repeats just when the section says so.
pub proof fn sections_bind_their_keys(
    sections: Seq<document::SectionView>,
    symbols: Map<Seq<char>, u32>,
    contents: Seq<char>,
    i: int,
)
    requires
        0 <= i < sections.len(),
        sections[i].node.name == "bind"@,
        config::composed(sections, symbols, contents) is Ok,
    ensures
        ({
            let read = config::composed(sections, symbols, contents)->Ok_0;
            let section = sections[i];
            &&& section.node.arguments().len() == 1
            &&& section.node.arguments()[0] is Text
            &&& section.children.len() == 1
            &&& bindings::spelt(section.node.arguments()[0]->Text_0, symbols) matches Ok(key)
                && read.bindings.contains_key(key.rank())
            &&& actions::action(section.children[0]) is Ok
            &&& ({
                let key = bindings::spelt(section.node.arguments()[0]->Text_0, symbols)->Ok_0;
                let bound = read.bindings[key.rank()];
                &&& bound.action == actions::action(section.children[0])->Ok_0
                &&& bound.repeat <==> (section.node.property("repeat"@) matches Some(value) && (value
                    == ValueView::Bool(true) || value == ValueView::Text("true"@)))
            })
        }),
{
    drafts_keep_bindings(sections, i + 1, sections.len() as int, symbols, contents, i);
    true_is_not_false();
}

proof fn true_is_not_false()
    ensures
        "true"@ != "false"@,
{
    reveal_strlit("true");
    reveal_strlit("false");
    assert("true"@.len() == 4 && "false"@.len() == 5);
}

proof fn drafts_keep_bindings(
    sections: Seq<document::SectionView>,
    n: int,
    m: int,
    symbols: Map<Seq<char>, u32>,
    contents: Seq<char>,
    i: int,
)
    requires
        0 <= i < n <= m <= sections.len(),
        n == i + 1,
        sections[i].node.name == "bind"@,
        config::drafted(sections, m, symbols, contents) is Ok,
    ensures
        ({
            let draft = config::drafted(sections, m, symbols, contents)->Ok_0;
            &&& config::bind(sections[i]) is Ok
            &&& ({
                let (source, binding) = config::bind(sections[i])->Ok_0;
                bindings::spelt(source, symbols) matches Ok(key)
                    && draft.config.bindings.contains_key(key.rank())
                    && draft.config.bindings[key.rank()] == binding
            })
        }),
    decreases m,
{
    section_names_differ();
    if m > n {
        drafts_keep_bindings(sections, n, m - 1, symbols, contents, i);
    }
}

proof fn section_names_differ()
    ensures
        "bind"@ != "general"@ && "bind"@ != "input"@ && "bind"@ != "camera"@,
        "general"@ != "input"@ && "general"@ != "camera"@ && "input"@ != "camera"@,
{
    reveal_strlit("bind");
    reveal_strlit("general");
    reveal_strlit("input");
    reveal_strlit("camera");
    assert("bind"@.len() == 4);
    assert("general"@.len() == 7);
    assert("input"@.len() == 5);
    assert("camera"@.len() == 6);
}

/// Whether the first `n` sections leave a kind of settings alone.
spec fn unsaid(sections: Seq<document::SectionView>, n: int, name: Seq<char>) -> bool {
    forall|i: int| 0 <= i < n ==> (#[trigger] sections[i]).node.name != name
}

proof fn settings_are_kept(
    sections: Seq<document::SectionView>,
    n: int,
    symbols: Map<Seq<char>, u32>,
    contents: Seq<char>,
)
    requires
        0 <= n <= sections.len(),
    ensures
        config::drafted(sections, n, symbols, contents) matches Ok(draft) ==> {
            &&& draft.general <==> !unsaid(sections, n, "general"@)
            &&& draft.input <==> !unsaid(sections, n, "input"@)
            &&& draft.camera <==> !unsaid(sections, n, "camera"@)
            &&& unsaid(sections, n, "general"@) ==> draft.config.gap == 8
            &&& unsaid(sections, n, "input"@) ==> draft.config.key_repeat.delay_ms == 300
                && draft.config.key_repeat.rate == 25
            &&& unsaid(sections, n, "camera"@) ==> draft.config.camera
                == (CameraPolicy::KeepVisible { margin: 32 })
            &&& forall|i: int|
                0 <= i < n && (#[trigger] sections[i]).node.name == "general"@ ==> config::general(
                    sections[i].children,
                    sections[i].children.len() as int,
                    8,
                ) == Ok::<i64, Seq<char>>(draft.config.gap)
            &&& forall|i: int|
                0 <= i < n && (#[trigger] sections[i]).node.name == "camera"@ ==> config::camera(
                    sections[i].children,
                ) == Ok::<CameraPolicy, Seq<char>>(draft.config.camera)
            &&& forall|i: int|
                0 <= i < n && (#[trigger] sections[i]).node.name == "input"@ ==> (config::input(
                    sections[i].children,
                    sections[i].children.len() as int,
                    config::KeyRepeatConfig { delay_ms: 300, rate: 25 },
                ) matches Ok((keys, _, _)) && keys == draft.config.key_repeat)
        },
    decreases n,
{
    if n > 0 {
        settings_are_kept(sections, n - 1, symbols, contents);
        section_names_differ();
        assert(forall|name: Seq<char>|
            unsaid(sections, n, name) <==> #[trigger] unsaid(sections, n - 1, name) && sections[n
                - 1].node.name != name) by {
            assert forall|name: Seq<char>|
                unsaid(sections, n, name) <==> #[trigger] unsaid(sections, n - 1, name)
                    && sections[n - 1].node.name != name by {
                assert(sections[n - 1] == sections[n - 1]);
                if unsaid(sections, n, name) {
                    assert forall|i: int| 0 <= i < n - 1 implies (
                    #[trigger] sections[i]).node.name != name by {}
                }
            }
        }
        if config::drafted(sections, n, symbols, contents) is Ok {
            let before = config::drafted(sections, n - 1, symbols, contents)->Ok_0;
            if sections[n - 1].node.name == "general"@ {
                assert(unsaid(sections, n - 1, "general"@));
            }
            if sections[n - 1].node.name == "input"@ {
                assert(unsaid(sections, n - 1, "input"@));
            }
            if sections[n - 1].node.name == "camera"@ {
                assert(unsaid(sections, n - 1, "camera"@));
            }
        }
    }
}

/// A file sets the gap, the camera and the repetition of keys as its sections say; where it has no such
/// section, the gap is 8, the focused window is kept visible with a margin of 32, and keys repeat
/// after 300 milliseconds, 25 times a second.
pub proof fn files_set_what_they_say(
    sections: Seq<document::SectionView>,
    symbols: Map<Seq<char>, u32>,
    contents: Seq<char>,
    i: int,
    gap: i64,
)
    requires
        0 <= i < sections.len(),
        config::composed(sections, symbols, contents) is Ok,
    ensures
        ({
            let read = config::composed(sections, symbols, contents)->Ok_0;
            let section = sections[i];
            &&& section.node.name == "general"@ && section.children.len() == 1 && config_laws::leaf(
                section.children[0],
                "gap"@,
                seq![config_laws::whole(gap as int)],
            ) ==> read.gap == gap
            &&& section.node.name == "camera"@ && section.children.len() == 1
                && section.children[0].name == "centered"@ ==> read.camera
                == CameraPolicy::Centered
            &&& section.node.name == "camera"@ && section.children.len() == 1
                && section.children[0].name == "keep-visible"@ ==> (read.camera matches
                CameraPolicy::KeepVisible { margin } && match section.children[0].property(
                "margin"@,
            ) {
                Some(value) => value == ValueView::Integer(margin as i128),
                None => margin == 32,
            })
            &&& (forall|j: int|
                0 <= j < sections.len() ==> (#[trigger] sections[j]).node.name != "general"@)
                ==> read.gap == 8
            &&& (forall|j: int|
                0 <= j < sections.len() ==> (#[trigger] sections[j]).node.name != "camera"@)
                ==> read.camera == (CameraPolicy::KeepVisible { margin: 32 })
            &&& (forall|j: int|
                0 <= j < sections.len() ==> (#[trigger] sections[j]).node.name != "input"@)
                ==> read.key_repeat.delay_ms == 300 && read.key_repeat.rate == 25
            &&& read.gap >= 0
            &&& 1 <= read.key_repeat.delay_ms <= 5000
            &&& 1 <= read.key_repeat.rate <= 200
        }),
{
    let n = sections.len() as int;
    settings_are_kept(sections, n, symbols, contents);
    let section = sections[i];
    if section.node.name == "general"@ && section.children.len() == 1 && config_laws::leaf(
        section.children[0],
        "gap"@,
        seq![config_laws::whole(gap as int)],
    ) {
        let node = section.children[0];
        reveal_with_fuel(config::general, 2);
        reveal_with_fuel(settings::properties_fault, 2);
        reveal_with_fuel(settings::positional, 2);
        assert(node.entries.drop_last() =~= Seq::empty());
        assert(node.arguments() =~= seq![ValueView::Integer(gap as i128)]);
    }
    reveal_strlit("centered");
    reveal_strlit("keep-visible");
    assert("centered"@.len() == 8 && "keep-visible"@.len() == 12);
}

/// The delay and the rate of a section on input are what its settings say, each of them.
pub proof fn input_sections_set_the_repetition(
    delay: document::NodeView,
    rate: document::NodeView,
    d: u32,
    r: u32,
    keys: config::KeyRepeatConfig,
)
    requires
        config_laws::leaf(delay, "repeat-delay"@, seq![config_laws::whole(d as int)]),
        config_laws::leaf(rate, "repeat-rate"@, seq![config_laws::whole(r as int)]),
    ensures
        config::input(seq![delay, rate], 2, keys) matches Ok((set, _, _)) && set.delay_ms == d
            && set.rate == r,
        config::input(seq![rate, delay], 2, keys) matches Ok((set, _, _)) && set.delay_ms == d
            && set.rate == r,
        config::input(seq![delay], 1, keys) matches Ok((set, _, _)) && set.delay_ms == d && set.rate
            == keys.rate,
        config::input(seq![rate], 1, keys) matches Ok((set, _, _)) && set.rate == r && set.delay_ms
            == keys.delay_ms,
{
    reveal_strlit("repeat-delay");
    reveal_strlit("repeat-rate");
    assert("repeat-delay"@.len() == 12 && "repeat-rate"@.len() == 11);
    reveal_with_fuel(config::input, 3);
    reveal_with_fuel(settings::properties_fault, 2);
    reveal_with_fuel(settings::positional, 2);
    assert(delay.entries.drop_last() =~= Seq::empty());
    assert(rate.entries.drop_last() =~= Seq::empty());
    assert(delay.arguments() =~= seq![ValueView::Integer(d as i128)]);
    assert(rate.arguments() =~= seq![ValueView::Integer(r as i128)]);
}

proof fn action_words_differ()
    ensures
        "focus-output"@.len() == 12 && "focus-output"@[6] == 'o',
        "focus-window"@.len() == 12 && "focus-window"@[6] == 'w',
        "move-workspace-to-output"@.len() == 24 && "move-workspace-to-output"@[6] == 'o',
        "move-window-to-workspace"@.len() == 24 && "move-window-to-workspace"@[6] == 'i',
        "set-window-mode"@.len() == 15 && "set-window-mode"@[0] == 's',
        "focus-workspace"@.len() == 15 && "focus-workspace"@[0] == 'f',
        "toggle-floating"@.len() == 15 && "toggle-floating"@[0] == 't',
        "toggle-fullscreen"@.len() == 17,
        "pan-camera"@.len() == 10,
        "close-window"@.len() == 12 && "close-window"@[6] == 'w' && "close-window"@[0] == 'c',
        "focus-window"@[0] == 'f' && "focus-output"@[0] == 'f',
        "spawn"@.len() == 5,
        "quit"@.len() == 4,
        "left"@.len() == 4 && "right"@.len() == 5 && "up"@.len() == 2 && "down"@.len() == 4,
        "left"@[0] == 'l' && "down"@[0] == 'd',
        "tiled"@.len() == 5 && "floating"@.len() == 8 && "maximized"@.len() == 9
            && "fullscreen"@.len() == 10,
{
    reveal_strlit("focus-output");
    reveal_strlit("focus-window");
    reveal_strlit("move-workspace-to-output");
    reveal_strlit("move-window-to-workspace");
    reveal_strlit("set-window-mode");
    reveal_strlit("focus-workspace");
    reveal_strlit("toggle-floating");
    reveal_strlit("toggle-fullscreen");
    reveal_strlit("pan-camera");
    reveal_strlit("close-window");
    reveal_strlit("spawn");
    reveal_strlit("quit");
    reveal_strlit("left");
    reveal_strlit("right");
    reveal_strlit("up");
    reveal_strlit("down");
    reveal_strlit("tiled");
    reveal_strlit("floating");
    reveal_strlit("maximized");
    reveal_strlit("fullscreen");
}

/// A node with the name of an action and what the action needs says that action.
pub proof fn nodes_say_actions(node: document::NodeView, word: Seq<char>)
    requires
        !node.has_children,
    ensures
        node.name == "close-window"@ && node.entries.len() == 0 ==> actions::action(node) == Ok::<
            ActionView,
            Seq<char>,
        >(ActionView::CloseWindow),
        node.name == "quit"@ && node.entries.len() == 0 ==> actions::action(node) == Ok::<
            ActionView,
            Seq<char>,
        >(ActionView::Quit),
        node.entries == seq![config_laws::argument(ValueView::Text(word))] ==> {
            &&& node.name == "focus-output"@ ==> actions::action(node) == Ok::<
                ActionView,
                Seq<char>,
            >(ActionView::FocusOutput { output: word })
            &&& node.name == "move-workspace-to-output"@ ==> actions::action(node) == Ok::<
                ActionView,
                Seq<char>,
            >(ActionView::MoveWorkspaceToOutput { output: word, index: None, activate: true })
            &&& node.name == "focus-window"@ && word == "left"@ ==> actions::action(node) == Ok::<
                ActionView,
                Seq<char>,
            >(ActionView::FocusDirection(CardinalDirection::Left))
            &&& node.name == "focus-window"@ && word == "right"@ ==> actions::action(node) == Ok::<
                ActionView,
                Seq<char>,
            >(ActionView::FocusDirection(CardinalDirection::Right))
            &&& node.name == "focus-window"@ && word == "up"@ ==> actions::action(node) == Ok::<
                ActionView,
                Seq<char>,
            >(ActionView::FocusDirection(CardinalDirection::Up))
            &&& node.name == "focus-window"@ && word == "down"@ ==> actions::action(node) == Ok::<
                ActionView,
                Seq<char>,
            >(ActionView::FocusDirection(CardinalDirection::Down))
            &&& node.name == "set-window-mode"@ && word == "tiled"@ ==> actions::action(node) == Ok::<
                ActionView,
                Seq<char>,
            >(ActionView::SetWindowMode(WindowMode::Tiled))
            &&& node.name == "set-window-mode"@ && word == "floating"@ ==> actions::action(node)
                == Ok::<ActionView, Seq<char>>(ActionView::SetWindowMode(WindowMode::Floating))
            &&& node.name == "set-window-mode"@ && word == "maximized"@ ==> actions::action(node)
                == Ok::<ActionView, Seq<char>>(ActionView::SetWindowMode(WindowMode::Maximized))
            &&& node.name == "set-window-mode"@ && word == "fullscreen"@ ==> actions::action(node)
                == Ok::<ActionView, Seq<char>>(ActionView::SetWindowMode(WindowMode::Fullscreen))
            &&& node.name == "focus-workspace"@ ==> actions::action(node) == Ok::<
                ActionView,
                Seq<char>,
            >(ActionView::FocusWorkspace { workspace: actions::SelectorView::Name(word) })
            &&& node.name == "move-window-to-workspace"@ ==> actions::action(node) == Ok::<
                ActionView,
                Seq<char>,
            >(
                ActionView::MoveWindowToWorkspace {
                    workspace: actions::SelectorView::Name(word),
                    activate: false,
                },
            )
            &&& node.name == "spawn"@ ==> actions::action(node) == Ok::<ActionView, Seq<char>>(
                ActionView::Spawn(seq![word]),
            )
        },
{
    action_words_differ();
    let all = node.entries;
    if all == seq![config_laws::argument(ValueView::Text(word))] {
        reveal_with_fuel(settings::properties_fault, 2);
        reveal_with_fuel(settings::positional, 2);
        reveal_with_fuel(settings::property, 2);
        reveal_with_fuel(settings::all_texts, 2);
        assert(all.drop_last() =~= Seq::empty());
        assert(node.arguments() =~= seq![ValueView::Text(word)]);
        assert(node.arguments().drop_last() =~= Seq::empty());
        assert(Seq::<Seq<char>>::empty().push(word) =~= seq![word]);
    }
}

/// Only what may be done again and again repeats: going to a workspace, moving a window to one, moving
/// the focus and moving the camera. Nothing that starts, closes, ends or switches does.
pub proof fn only_movements_repeat(action: ActionView)
    ensures
        action.repeats() <==> action is FocusWorkspace || action is MoveWindowToWorkspace
            || action is FocusDirection || action is PanCamera,
        action is Spawn || action is CloseWindow || action is Quit || action is ToggleFloating
            || action is ToggleFullscreen || action is FocusOutput || action is SetWindowMode
            || action is MoveWorkspaceToOutput ==> !action.repeats(),
{
}

/// Modifiers hold those keys that are down, and no others.
pub proof fn modifiers_are_those_held(ctrl: bool, alt: bool, shift: bool, super_key: bool)
    ensures
        ({
            let held = Modifiers::of_state(ctrl, alt, shift, super_key);
            &&& held.holds(Modifiers::CTRL) == ctrl
            &&& held.holds(Modifiers::ALT) == alt
            &&& held.holds(Modifiers::SHIFT) == shift
            &&& held.holds(Modifiers::SUPER) == super_key
            &&& held.0 < 16
        }),
{
    let a: u8 = bindings::bit(ctrl, 1);
    let b: u8 = bindings::bit(alt, 2);
    let c: u8 = bindings::bit(shift, 4);
    let d: u8 = bindings::bit(super_key, 8);
    assert((a == 0 || a == 1) && (b == 0 || b == 2) && (c == 0 || c == 4) && (d == 0 || d == 8)
        ==> ((a | b | c | d) & 1 != 0 <==> a == 1) && ((a | b | c | d) & 2 != 0 <==> b == 2) && ((a
        | b | c | d) & 4 != 0 <==> c == 4) && ((a | b | c | d) & 8 != 0 <==> d == 8) && (a | b | c
        | d) < 16) by (bit_vector);
}

/// Keys are told apart by their numbers. They are ordered by their modifiers, symbols before codes,
/// and by the symbol or the code.
pub proof fn keys_have_their_own_numbers(one: BindingKey, other: BindingKey)
    ensures
        BindingKey::ranked(one.rank()) == one,
        one.rank() == other.rank() ==> one == other,
        one.modifiers.0 < other.modifiers.0 ==> one.rank() < other.rank(),
        one.modifiers == other.modifiers && one.trigger is Keysym && other.trigger is Code
            ==> one.rank() < other.rank(),
        one.modifiers == other.modifiers ==> (one.trigger matches KeyTrigger::Keysym(a) ==> (
        other.trigger matches KeyTrigger::Keysym(b) ==> (a < b ==> one.rank() < other.rank()))),
        one.modifiers == other.modifiers ==> (one.trigger matches KeyTrigger::Code(a) ==> (
        other.trigger matches KeyTrigger::Code(b) ==> (a < b ==> one.rank() < other.rank()))),
{
    numbers_are_taken_apart(one);
    numbers_are_taken_apart(other);
}

proof fn numbers_are_taken_apart(key: BindingKey)
    ensures
        BindingKey::ranked(key.rank()) == key,
        key.rank() as int == key.modifiers.0 * 0x2_0000_0000 + match key.trigger {
            KeyTrigger::Keysym(n) => n as int,
            KeyTrigger::Code(n) => 0x1_0000_0000 + n,
        },
{
    let value = match key.trigger {
        KeyTrigger::Keysym(n) => n as int,
        KeyTrigger::Code(n) => 0x1_0000_0000 + n,
    };
    let n = key.modifiers.0 * 0x2_0000_0000 + value;
    assert(0 <= n <= u64::MAX);
    assert(n / 0x2_0000_0000 == key.modifiers.0);
    assert((n / 0x1_0000_0000) % 2 == value / 0x1_0000_0000);
    assert(n % 0x1_0000_0000 == value % 0x1_0000_0000);
}

/// Bindings are listed in the order of their keys, each key with what is bound to it.
pub proof fn bindings_are_listed_in_order(
    map: Map<u64, BindingView>,
    i: int,
    j: int,
)
    requires
        map.dom().finite(),
        forall|n: u64| #[trigger]
            map.contains_key(n) ==> BindingKey::ranked(n).rank() == n,
        0 <= i < config::in_order(map).len(),
        0 <= j < config::in_order(map).len(),
    ensures
        ({
            let list = config::in_order(map);
            &&& list.len() == map.dom().len()
            &&& map.contains_key(list[i].0.rank())
            &&& list[i].1 == map[list[i].0.rank()]
            &&& i < j ==> list[i].0.rank() < list[j].0.rank()
        }),
{
    let ranks = ranking::ascending(map.dom());
    ranking::ranking_ranks(map.dom(), |id: u64| 0);
    ranks.unique_seq_to_set();
    assert(ranks.to_set().contains(ranks[i]));
    assert(ranks.to_set().contains(ranks[j]));
    geometry_laws::ascending_ids_ascend(map.dom());
}

} // verus!
