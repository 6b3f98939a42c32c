//! What holds of every configuration that is read.

use crate::actions;
use crate::bindings;
use crate::config;
use crate::document;
use crate::model;
use crate::scan;
use crate::settings;
use crate::text;
use vstd::prelude::*;

verus! {

/// How many of the first `n` sections bind a key.
pub open spec fn binding_count(sections: Seq<document::SectionView>, n: int) -> nat
    decreases n,
{
    if n <= 0 {
        0
    } else if sections[n - 1].node.name == "bind"@ {
        binding_count(sections, n - 1) + 1
    } else {
        binding_count(sections, n - 1)
    }
}

/// Whether a binding can be used: only actions that may repeat do, and the action can be done
/// (as some spelling of the key has been told).
pub open spec fn usable(binding: actions::BindingView) -> bool {
    &&& binding.repeat ==> binding.action.repeats()
    &&& exists|source: Seq<char>| actions::action_fault(binding.action, source) is None
}

proof fn literals_differ()
    ensures
        "bind"@ != "general"@,
        "bind"@ != "input"@,
        "bind"@ != "camera"@,
{
    reveal_strlit("bind");
    reveal_strlit("general");
    reveal_strlit("input");
    reveal_strlit("camera");
    assert("bind"@.len() == 4);
    assert("general"@.len() == 7);
    assert("input"@.len() == 5);
    assert("camera"@.len() == 6);
}

proof fn drafts_hold_bindings(
    sections: Seq<document::SectionView>,
    n: int,
    symbols: Map<Seq<char>, u32>,
    contents: Seq<char>,
)
    requires
        0 <= n <= sections.len(),
    ensures
        config::drafted(sections, n, symbols, contents) matches Ok(draft) ==> {
            &&& draft.config.bindings.dom().finite()
            &&& draft.config.bindings.dom().len() == binding_count(sections, n)
            &&& forall|k: u64| #[trigger]
                draft.config.bindings.contains_key(k) ==> usable(draft.config.bindings[k])
        },
    decreases n,
{
    if n > 0 {
        drafts_hold_bindings(sections, n - 1, symbols, contents);
        literals_differ();
        let section = sections[n - 1];
        if let Ok(before) = config::drafted(sections, n - 1, symbols, contents) {
            if section.node.name == "bind"@ {
                if let Ok(after) = before.with_section(section, symbols) {
                    let (source, binding) = config::bind(section)->Ok_0;
                    assert(actions::action_fault(binding.action, source) is None);
                    assert(usable(binding));
                    let key = bindings::spelt(source, symbols)->Ok_0;
                    assert(after.config.bindings == before.config.bindings.insert(
                        key.rank(),
                        binding,
                    ));
                }
            }
        }
    }
}

/// Every section that binds a key makes one binding, and nothing else does: none of the built-in
/// bindings is left, and no two sections bind the same key.
pub proof fn files_replace_the_built_in_bindings(
    sections: Seq<document::SectionView>,
    symbols: Map<Seq<char>, u32>,
    contents: Seq<char>,
)
    ensures
        config::composed(sections, symbols, contents) matches Ok(read) ==> {
            &&& read.bindings.dom().finite()
            &&& read.bindings.dom().len() == binding_count(sections, sections.len() as int)
        },
{
    drafts_hold_bindings(sections, sections.len() as int, symbols, contents);
}

/// No binding repeats an action that must not, nor names what cannot be done.
pub proof fn bindings_are_usable(
    sections: Seq<document::SectionView>,
    symbols: Map<Seq<char>, u32>,
    contents: Seq<char>,
    key: u64,
)
    ensures
        config::composed(sections, symbols, contents) matches Ok(read)
            ==> read.bindings.contains_key(key) ==> usable(read.bindings[key]),
{
    drafts_hold_bindings(sections, sections.len() as int, symbols, contents);
}

/// Components that say the same make the same key, whatever the white space around them and the
/// case of the modifiers.
pub proof fn spellings_are_normalized(
    a: Seq<Seq<char>>,
    b: Seq<Seq<char>>,
    n: int,
    symbols: Map<Seq<char>, u32>,
)
    requires
        a.len() == b.len(),
        0 <= n <= a.len(),
        forall|i: int| 0 <= i < a.len() ==> same_component(#[trigger] a[i], b[i]),
    ensures
        bindings::combined(a, n, symbols) == bindings::combined(b, n, symbols),
    decreases n,
{
    if n > 0 {
        spellings_are_normalized(a, b, n - 1, symbols);
        assert(same_component(a[n - 1], b[n - 1]));
    }
}

/// Two components that say the same: both a modifier of the same name, whatever its case, or the
/// same key.
pub open spec fn same_component(a: Seq<char>, b: Seq<char>) -> bool {
    let (x, y) = (scan::trimmed(a), scan::trimmed(b));
    x == y || (scan::lowered(x) == scan::lowered(y) && x.len() > 0 && y.len() > 0
        && bindings::modifier_bit(scan::lowered(x)) is Some)
}

/// Whether a node has a name and entries, and no block.
pub open spec fn leaf(
    node: document::NodeView,
    name: Seq<char>,
    entries: Seq<document::EntryView>,
) -> bool {
    node.name == name && node.entries == entries && !node.has_children
}

pub open spec fn argument(value: document::ValueView) -> document::EntryView {
    document::EntryView { name: None, value }
}

pub open spec fn whole(n: int) -> document::EntryView {
    argument(document::ValueView::Integer(n as i128))
}

/// Whether a section holds settings under a name, and nothing else.
pub open spec fn holds_settings(section: document::SectionView, name: Seq<char>, n: int) -> bool {
    &&& section.node.name == name
    &&& section.node.entries.len() == 0
    &&& section.node.has_children
    &&& section.children.len() == n
}

/// Whether a section binds a key to the action that a name and entries say.
pub open spec fn binds(
    section: document::SectionView,
    key: Seq<char>,
    repeat: bool,
    name: Seq<char>,
    entries: Seq<document::EntryView>,
) -> bool {
    let spelling = argument(document::ValueView::Text(key));
    &&& section.node.name == "bind"@
    &&& section.node.entries == if repeat {
        seq![
            spelling,
            document::EntryView {
                name: Some("repeat"@),
                value: document::ValueView::Bool(true),
            },
        ]
    } else {
        seq![spelling]
    }
    &&& section.node.has_children
    &&& section.children.len() == 1
    &&& leaf(section.children[0], name, entries)
}

/// Whether sections say what the configuration file that is offered to begin with says, wherever in
/// a text they are.
pub open spec fn say_what_is_generated(sections: Seq<document::SectionView>) -> bool {
    &&& sections.len() == 28
    &&& holds_settings(sections[0], "general"@, 1)
    &&& leaf(sections[0].children[0], "gap"@, seq![whole(8)])
    &&& holds_settings(sections[1], "input"@, 2)
    &&& leaf(sections[1].children[0], "repeat-delay"@, seq![whole(300)])
    &&& leaf(sections[1].children[1], "repeat-rate"@, seq![whole(25)])
    &&& holds_settings(sections[2], "camera"@, 1)
    &&& leaf(
        sections[2].children[0],
        "keep-visible"@,
        seq![
            document::EntryView {
                name: Some("margin"@),
                value: document::ValueView::Integer(32),
            },
        ],
    )
    &&& binds(
        sections[3],
        "Super+Return"@,
        false,
        "spawn"@,
        seq![argument(document::ValueView::Text("kitty"@))],
    )
    &&& forall|n: int|
        1 <= n <= 9 ==> binds(
            sections[2 + 2 * n],
            "Super+"@ + #[trigger] text::decimal(n),
            false,
            "focus-workspace"@,
            seq![whole(n)],
        )
    &&& forall|n: int|
        1 <= n <= 9 ==> binds(
            sections[3 + 2 * n],
            "Super+Shift+"@ + #[trigger] text::decimal(n),
            false,
            "move-window-to-workspace"@,
            seq![whole(n)],
        )
    &&& binds(sections[22], "Super+Space"@, false, "toggle-floating"@, seq![])
    &&& binds(sections[23], "Super+F"@, false, "toggle-fullscreen"@, seq![])
    &&& binds(sections[24], "Super+Left"@, true, "pan-camera"@, seq![whole(-160), whole(0)])
    &&& binds(sections[25], "Super+Right"@, true, "pan-camera"@, seq![whole(160), whole(0)])
    &&& binds(sections[26], "Super+Up"@, true, "pan-camera"@, seq![whole(0), whole(-160)])
    &&& binds(sections[27], "Super+Down"@, true, "pan-camera"@, seq![whole(0), whole(160)])
}

/// Whether a table has the symbol of a key under its name.
pub open spec fn names(symbols: Map<Seq<char>, u32>, name: Seq<char>, symbol: u32) -> bool {
    symbols.contains_key(name) && symbols[name] == symbol
}

/// Whether a table has the symbols of the return key, the space bar, F, the arrow keys and the
/// digits.
pub open spec fn names_the_keys(symbols: Map<Seq<char>, u32>) -> bool {
    &&& names(symbols, "Return"@, 0xff0d)
    &&& names(symbols, "Space"@, 0x20)
    &&& names(symbols, "f"@, 0x66)
    &&& names(symbols, "Left"@, 0xff51)
    &&& names(symbols, "Right"@, 0xff53)
    &&& names(symbols, "Up"@, 0xff52)
    &&& names(symbols, "Down"@, 0xff54)
    &&& forall|n: int|
        1 <= n <= 9 ==> names(symbols, #[trigger] text::decimal(n), (0x30 + n) as u32)
}

proof fn last_piece(a: Seq<char>, b: Seq<char>)
    requires
        forall|i: int| 0 <= i < b.len() ==> #[trigger] b[i] != '+',
    ensures
        scan::pieces(a.push('+') + b, '+') == scan::pieces(a, '+').push(b),
    decreases b.len(),
{
    let s = a.push('+') + b;
    if b.len() == 0 {
        assert(s =~= a.push('+'));
        assert(s.drop_last() =~= a);
        assert(b =~= Seq::empty());
    } else {
        last_piece(a, b.drop_last());
        assert(s.drop_last() =~= a.push('+') + b.drop_last());
        let before = scan::pieces(a, '+').push(b.drop_last());
        assert(before.drop_last() =~= scan::pieces(a, '+'));
        assert(b.drop_last().push(b.last()) =~= b);
    }
}

proof fn one_piece(b: Seq<char>)
    requires
        forall|i: int| 0 <= i < b.len() ==> #[trigger] b[i] != '+',
    ensures
        scan::pieces(b, '+') == seq![b],
    decreases b.len(),
{
    if b.len() == 0 {
        assert(b =~= Seq::empty());
    } else {
        one_piece(b.drop_last());
        assert(b.drop_last().push(b.last()) =~= b);
        assert(seq![b.drop_last()].drop_last().push(b) =~= seq![b]);
    }
}

/// Whether a component is the name of a key: it is none of the modifiers, has no white space around
/// it, and is no code.
spec fn key_name(x: Seq<char>) -> bool {
    &&& x.len() > 0
    &&& !text::whitespace(x[0])
    &&& !text::whitespace(x.last())
    &&& x[0] != 'c'
    &&& bindings::modifier_bit(scan::lowered(x)) is None
    &&& forall|i: int| 0 <= i < x.len() ==> #[trigger] x[i] != '+'
}

proof fn names_are_triggers(x: Seq<char>, symbols: Map<Seq<char>, u32>, symbol: u32)
    requires
        key_name(x),
        names(symbols, bindings::symbol_name(x), symbol),
        symbol != 0,
    ensures
        scan::trimmed(x) == x,
        bindings::trigger_of(x, symbols) == Ok::<bindings::KeyTrigger, bindings::KeyFault>(
            bindings::KeyTrigger::Keysym(symbol),
        ),
{
    reveal_strlit("code:");
    assert("code:"@[0] == 'c');
    if "code:"@.is_prefix_of(x) {
        assert(x[0] == "code:"@[0]);
    }
}

proof fn modifiers_are_read()
    ensures
        scan::trimmed("Super"@) == "Super"@,
        "Super"@.len() == 5,
        bindings::modifier_bit(scan::lowered("Super"@)) == Some(8u8),
        forall|i: int| 0 <= i < 5 ==> #[trigger] "Super"@[i] != '+',
        scan::trimmed("Shift"@) == "Shift"@,
        "Shift"@.len() == 5,
        bindings::modifier_bit(scan::lowered("Shift"@)) == Some(4u8),
        forall|i: int| 0 <= i < 5 ==> #[trigger] "Shift"@[i] != '+',
{
    reveal_strlit("Super");
    reveal_strlit("Shift");
    reveal_strlit("ctrl");
    reveal_strlit("alt");
    reveal_strlit("shift");
    reveal_strlit("super");
    let a = scan::lowered("Super"@);
    let b = scan::lowered("Shift"@);
    assert(a =~= "super"@);
    assert(b =~= "shift"@);
    assert("ctrl"@.len() == 4);
    assert("alt"@.len() == 3);
    assert("super"@[1] == 'u');
    assert("shift"@[1] == 'h');
}

/// A key with the super modifier, and with shift too, is what its spelling says.
proof fn spellings_are_read(x: Seq<char>, symbols: Map<Seq<char>, u32>, symbol: u32)
    requires
        key_name(x),
        names(symbols, bindings::symbol_name(x), symbol),
        symbol != 0,
    ensures
        bindings::spelt("Super+"@ + x, symbols) matches Ok(key) && key.rank() == config::super_key(
            symbol,
        ),
        bindings::spelt("Super+Shift+"@ + x, symbols) matches Ok(key) && key.rank()
            == config::super_shift_key(symbol),
{
    names_are_triggers(x, symbols, symbol);
    modifiers_are_read();
    reveal_strlit("Super+");
    reveal_strlit("Super+Shift+");
    reveal_strlit("Super");
    reveal_strlit("Shift");
    let (a, b) = ("Super"@, "Shift"@);
    assert("Super+"@ =~= a.push('+'));
    assert("Super+Shift+"@ =~= (a.push('+') + b).push('+'));
    one_piece(a);
    last_piece(a, b);
    last_piece(a, x);
    last_piece(a.push('+') + b, x);
    let one = scan::pieces("Super+"@ + x, '+');
    let two = scan::pieces("Super+Shift+"@ + x, '+');
    assert(one =~= seq![a, x]);
    assert(two =~= seq![a, b, x]);
    reveal_with_fuel(bindings::combined, 4);
    assert(0u8 & 8u8 == 0) by (bit_vector);
    assert(0u8 | 8u8 == 8) by (bit_vector);
    assert(8u8 & 4u8 == 0) by (bit_vector);
    assert(8u8 | 4u8 == 12) by (bit_vector);
}

/// The digits and the names of the other keys are names of keys.
proof fn digits_are_names(n: int)
    requires
        1 <= n <= 9,
    ensures
        text::decimal(n).len() == 1,
        key_name(text::decimal(n)),
        bindings::symbol_name(text::decimal(n)) == text::decimal(n),
{
    let x = text::decimal(n);
    reveal_with_fuel(text::decimal, 2);
    assert(x =~= seq![text::digit(n)]);
    modifiers_are_longer(scan::lowered(x));
    assert(scan::lowered(x) =~= x);
}

proof fn modifiers_are_longer(x: Seq<char>)
    requires
        x.len() < 3 || x.len() > 5,
    ensures
        bindings::modifier_bit(x) is None,
{
    reveal_strlit("ctrl");
    reveal_strlit("alt");
    reveal_strlit("shift");
    reveal_strlit("super");
    assert("ctrl"@.len() == 4 && "alt"@.len() == 3 && "shift"@.len() == 5 && "super"@.len() == 5);
}

proof fn other_keys_are_names()
    ensures
        key_name("Return"@),
        bindings::symbol_name("Return"@) == "Return"@,
        key_name("Space"@),
        bindings::symbol_name("Space"@) == "Space"@,
        key_name("F"@),
        bindings::symbol_name("F"@) == "f"@,
        key_name("Left"@),
        bindings::symbol_name("Left"@) == "Left"@,
        key_name("Right"@),
        bindings::symbol_name("Right"@) == "Right"@,
        key_name("Up"@),
        bindings::symbol_name("Up"@) == "Up"@,
        key_name("Down"@),
        bindings::symbol_name("Down"@) == "Down"@,
{
    reveal_strlit("Return");
    reveal_strlit("Space");
    reveal_strlit("F");
    reveal_strlit("f");
    reveal_strlit("Left");
    reveal_strlit("Right");
    reveal_strlit("Up");
    reveal_strlit("Down");
    reveal_strlit("ctrl");
    reveal_strlit("alt");
    reveal_strlit("shift");
    reveal_strlit("super");
    modifiers_are_longer(scan::lowered("Return"@));
    modifiers_are_longer(scan::lowered("F"@));
    modifiers_are_longer(scan::lowered("Up"@));
    assert("ctrl"@[0] == 'c' && "ctrl"@.len() == 4);
    assert("alt"@.len() == 3);
    assert("shift"@[0] == 's' && "shift"@[1] == 'h' && "shift"@.len() == 5);
    assert("super"@[0] == 's' && "super"@[1] == 'u' && "super"@.len() == 5);
    assert(scan::lowered("Space"@)[1] == 'p');
    assert(scan::lowered("Left"@)[0] == 'l');
    assert(scan::lowered("Right"@)[0] == 'r');
    assert(scan::lowered("Down"@)[0] == 'd');
    assert(scan::lowered("F"@) =~= "f"@);
}

/// A section that binds a key to an action that can be done does so.
proof fn sections_bind(
    section: document::SectionView,
    key: Seq<char>,
    repeat: bool,
    name: Seq<char>,
    entries: Seq<document::EntryView>,
    action: actions::ActionView,
)
    requires
        binds(section, key, repeat, name, entries),
        actions::action(section.children[0]) == Ok::<actions::ActionView, Seq<char>>(action),
        repeat ==> action.repeats(),
        actions::action_fault(action, key) is None,
    ensures
        config::bind(section) == Ok::<(Seq<char>, actions::BindingView), Seq<char>>(
            (key, actions::BindingView { action, repeat }),
        ),
{
    let all = section.node.entries;
    let allowed = seq!["repeat"@];
    reveal_with_fuel(settings::properties_fault, 3);
    reveal_with_fuel(settings::positional, 3);
    reveal_with_fuel(settings::property, 3);
    if repeat {
        assert(allowed[0] == "repeat"@);
        assert(allowed.contains("repeat"@));
        assert(all.drop_last() =~= seq![argument(document::ValueView::Text(key))]);
        assert(all.drop_last().drop_last() =~= Seq::empty());
        assert(all[0].name is None);
    } else {
        assert(all.drop_last() =~= Seq::empty());
    }
    assert(section.node.arguments() =~= seq![document::ValueView::Text(key)]);
}

proof fn action_names_differ(name: Seq<char>)
    ensures
        "focus-workspace"@ != "spawn"@,
        "move-window-to-workspace"@ != "spawn"@,
        "move-window-to-workspace"@ != "focus-workspace"@,
        name == "pan-camera"@ || name == "toggle-floating"@ || name == "toggle-fullscreen"@ ==> name
            != "spawn"@ && name != "focus-workspace"@ && name != "move-window-to-workspace"@ && name
            != "focus-output"@ && name != "move-workspace-to-output"@ && name != "focus-window"@
            && name != "set-window-mode"@,
        "toggle-floating"@ != "pan-camera"@,
        "toggle-fullscreen"@ != "pan-camera"@,
        "toggle-fullscreen"@ != "toggle-floating"@,
{
    reveal_strlit("spawn");
    reveal_strlit("focus-workspace");
    reveal_strlit("move-window-to-workspace");
    reveal_strlit("focus-output");
    reveal_strlit("move-workspace-to-output");
    reveal_strlit("focus-window");
    reveal_strlit("pan-camera");
    reveal_strlit("set-window-mode");
    reveal_strlit("toggle-floating");
    reveal_strlit("toggle-fullscreen");
    assert("spawn"@.len() == 5);
    assert("focus-workspace"@.len() == 15 && "focus-workspace"@[0] == 'f');
    assert("move-window-to-workspace"@.len() == 24);
    assert("focus-output"@.len() == 12);
    assert("move-workspace-to-output"@.len() == 24);
    assert("focus-window"@.len() == 12);
    assert("pan-camera"@.len() == 10);
    assert("set-window-mode"@.len() == 15 && "set-window-mode"@[0] == 's');
    assert("toggle-floating"@.len() == 15 && "toggle-floating"@[0] == 't');
    assert("toggle-fullscreen"@.len() == 17);
}

proof fn spawning_is_read(node: document::NodeView, program: Seq<char>)
    requires
        leaf(node, "spawn"@, seq![argument(document::ValueView::Text(program))]),
    ensures
        actions::action(node) == Ok::<actions::ActionView, Seq<char>>(
            actions::ActionView::Spawn(seq![program]),
        ),
{
    let all = node.entries;
    reveal_with_fuel(settings::properties_fault, 2);
    reveal_with_fuel(settings::positional, 2);
    reveal_with_fuel(settings::all_texts, 2);
    assert(all.drop_last() =~= Seq::empty());
    let values = node.arguments();
    assert(values =~= seq![document::ValueView::Text(program)]);
    assert(values.drop_last() =~= Seq::empty());
    assert(settings::all_texts(values) == Some(Seq::<Seq<char>>::empty().push(program)));
    assert(Seq::<Seq<char>>::empty().push(program) =~= seq![program]);
}

proof fn workspaces_are_read(node: document::NodeView, n: int)
    requires
        1 <= n <= 9,
        node.entries == seq![whole(n)],
        !node.has_children,
    ensures
        node.name == "focus-workspace"@ ==> actions::action(node) == Ok::<
            actions::ActionView,
            Seq<char>,
        >(
            actions::ActionView::FocusWorkspace {
                workspace: actions::SelectorView::Index(n as usize, None),
            },
        ),
        node.name == "move-window-to-workspace"@ ==> actions::action(node) == Ok::<
            actions::ActionView,
            Seq<char>,
        >(
            actions::ActionView::MoveWindowToWorkspace {
                workspace: actions::SelectorView::Index(n as usize, None),
                activate: false,
            },
        ),
{
    let all = node.entries;
    action_names_differ(node.name);
    reveal_with_fuel(settings::properties_fault, 2);
    reveal_with_fuel(settings::positional, 2);
    reveal_with_fuel(settings::property, 2);
    assert(all.drop_last() =~= Seq::empty());
    assert(node.arguments() =~= seq![document::ValueView::Integer(n as i128)]);
}

proof fn panning_is_read(node: document::NodeView, x: int, y: int)
    requires
        leaf(node, "pan-camera"@, seq![whole(x), whole(y)]),
        -1000 <= x <= 1000,
        -1000 <= y <= 1000,
    ensures
        actions::action(node) == Ok::<actions::ActionView, Seq<char>>(
            actions::ActionView::PanCamera { x: x as i64, y: y as i64 },
        ),
{
    let all = node.entries;
    action_names_differ(node.name);
    reveal_with_fuel(settings::properties_fault, 3);
    reveal_with_fuel(settings::positional, 3);
    assert(all.drop_last() =~= seq![whole(x)]);
    assert(all.drop_last().drop_last() =~= Seq::empty());
    assert(node.arguments() =~= seq![
        document::ValueView::Integer(x as i128),
        document::ValueView::Integer(y as i128),
    ]);
}

proof fn toggling_is_read(node: document::NodeView)
    requires
        node.entries.len() == 0,
        !node.has_children,
    ensures
        node.name == "toggle-floating"@ ==> actions::action(node) == Ok::<
            actions::ActionView,
            Seq<char>,
        >(actions::ActionView::ToggleFloating),
        node.name == "toggle-fullscreen"@ ==> actions::action(node) == Ok::<
            actions::ActionView,
            Seq<char>,
        >(actions::ActionView::ToggleFullscreen),
{
    action_names_differ(node.name);
}

/// A draft with a binding more.
spec fn with_bound(
    draft: config::DraftView,
    rank: u64,
    binding: actions::BindingView,
) -> config::DraftView {
    config::DraftView {
        config: config::ConfigView {
            bindings: draft.config.bindings.insert(rank, binding),
            ..draft.config
        },
        ..draft
    }
}

proof fn sections_add_bindings(
    draft: config::DraftView,
    section: document::SectionView,
    symbols: Map<Seq<char>, u32>,
    key: Seq<char>,
    rank: u64,
    binding: actions::BindingView,
)
    requires
        section.node.name == "bind"@,
        config::bind(section) == Ok::<(Seq<char>, actions::BindingView), Seq<char>>(
            (key, binding),
        ),
        bindings::spelt(key, symbols) is Ok,
        (bindings::spelt(key, symbols)->Ok_0).rank() == rank,
        !draft.config.bindings.contains_key(rank),
    ensures
        draft.with_section(section, symbols) == Ok::<config::DraftView, bindings::ConfigFault>(
            with_bound(draft, rank, binding),
        ),
{
    literals_differ();
}

/// What is drafted when the settings have been read.
spec fn settled() -> config::DraftView {
    config::DraftView {
        config: config::ConfigView::unbound(),
        general: true,
        input: true,
        camera: true,
    }
}

proof fn settings_are_read(
    sections: Seq<document::SectionView>,
    symbols: Map<Seq<char>, u32>,
    contents: Seq<char>,
)
    requires
        say_what_is_generated(sections),
    ensures
        config::drafted(sections, 3, symbols, contents) == Ok::<
            config::DraftView,
            bindings::ConfigFault,
        >(settled()),
{
    reveal_strlit("general");
    reveal_strlit("input");
    reveal_strlit("camera");
    assert("general"@.len() == 7 && "input"@.len() == 5 && "camera"@.len() == 6);
    reveal_strlit("repeat-delay");
    reveal_strlit("repeat-rate");
    assert("repeat-delay"@.len() == 12 && "repeat-rate"@.len() == 11);
    reveal_strlit("centered");
    reveal_strlit("keep-visible");
    assert("centered"@.len() == 8 && "keep-visible"@.len() == 12);
    reveal_with_fuel(config::drafted, 4);
    reveal_with_fuel(config::general, 2);
    reveal_with_fuel(config::input, 3);
    reveal_with_fuel(settings::properties_fault, 2);
    reveal_with_fuel(settings::positional, 2);
    reveal_with_fuel(settings::property, 2);
    let gap = sections[0].children[0];
    let delay = sections[1].children[0];
    let rate = sections[1].children[1];
    let camera = sections[2].children[0];
    assert(gap.entries.drop_last() =~= Seq::empty());
    assert(delay.entries.drop_last() =~= Seq::empty());
    assert(rate.entries.drop_last() =~= Seq::empty());
    assert(camera.entries.drop_last() =~= Seq::empty());
    assert(gap.arguments() =~= seq![document::ValueView::Integer(8)]);
    assert(delay.arguments() =~= seq![document::ValueView::Integer(300)]);
    assert(rate.arguments() =~= seq![document::ValueView::Integer(25)]);
    let allowed = seq!["margin"@];
    assert(allowed[0] == "margin"@);
    assert(allowed.contains("margin"@));
    assert(settings::only_integer(gap, "gap"@) == Ok::<i64, Seq<char>>(8));
    assert(settings::only_u64(delay, "repeat-delay"@) == Ok::<u64, Seq<char>>(300));
    assert(settings::only_u32(rate, "repeat-rate"@) == Ok::<u32, Seq<char>>(25));
    let start = config::DraftView::start();
    let first = config::DraftView { general: true, ..start };
    let second = config::DraftView { input: true, ..first };
    assert(start.with_section(sections[0], symbols) == Ok::<
        config::DraftView,
        bindings::ConfigFault,
    >(first));
    assert(first.with_section(sections[1], symbols) == Ok::<
        config::DraftView,
        bindings::ConfigFault,
    >(second));
    assert(config::camera(sections[2].children) == Ok::<model::CameraPolicy, Seq<char>>(
        model::CameraPolicy::KeepVisible { margin: 32 },
    ));
    assert(second.with_section(sections[2], symbols) == Ok::<
        config::DraftView,
        bindings::ConfigFault,
    >(settled()));
}

/// The keys of the bindings for the first workspaces are next to each other.
proof fn workspace_keys(map: Map<u64, actions::BindingView>, n: int)
    requires
        0 <= n <= 9,
    ensures
        forall|k: u64| #[trigger]
            config::with_workspaces(map, n).contains_key(k) <==> map.contains_key(k)
                || config::super_key(0x30) < k <= config::super_key(0x30) + n
                || config::super_shift_key(0x30) < k <= config::super_shift_key(0x30) + n,
        map.dom().finite() ==> config::with_workspaces(map, n).dom().finite(),
        map == launching() ==> config::with_workspaces(map, n).dom().len() == 1 + 2 * n,
    decreases n,
{
    if n > 0 {
        workspace_keys(map, n - 1);
        let before = config::with_workspaces(map, n - 1);
        let after = config::with_workspaces(map, n);
        assert(config::super_key((0x30 + n) as u32) == config::super_key(0x30) + n);
        assert(config::super_shift_key((0x30 + n) as u32) == config::super_shift_key(0x30) + n);
        assert(after.dom() =~= before.dom().insert(config::super_key((0x30 + n) as u32)).insert(
            config::super_shift_key((0x30 + n) as u32),
        ));
    }
}

/// The binding of the return key alone.
spec fn launching() -> Map<u64, actions::BindingView> {
    Map::empty().insert(
        config::super_key(0xff0d),
        config::once(actions::ActionView::Spawn(seq!["kitty"@])),
    )
}

/// A section that binds a key adds its binding to what was read before it.
proof fn one_more_is_read(
    sections: Seq<document::SectionView>,
    n: int,
    symbols: Map<Seq<char>, u32>,
    contents: Seq<char>,
    draft: config::DraftView,
    key: Seq<char>,
    rank: u64,
    repeat: bool,
    name: Seq<char>,
    entries: Seq<document::EntryView>,
    action: actions::ActionView,
)
    requires
        0 <= n < sections.len(),
        config::drafted(sections, n, symbols, contents) == Ok::<
            config::DraftView,
            bindings::ConfigFault,
        >(draft),
        binds(sections[n], key, repeat, name, entries),
        actions::action(sections[n].children[0]) == Ok::<actions::ActionView, Seq<char>>(action),
        repeat ==> action.repeats(),
        actions::action_fault(action, key) is None,
        bindings::spelt(key, symbols) is Ok,
        (bindings::spelt(key, symbols)->Ok_0).rank() == rank,
        !draft.config.bindings.contains_key(rank),
    ensures
        config::drafted(sections, n + 1, symbols, contents) == Ok::<
            config::DraftView,
            bindings::ConfigFault,
        >(with_bound(draft, rank, actions::BindingView { action, repeat })),
{
    sections_bind(sections[n], key, repeat, name, entries, action);
    sections_add_bindings(
        draft,
        sections[n],
        symbols,
        key,
        rank,
        actions::BindingView { action, repeat },
    );
}

/// What is drafted when the bindings of the first workspaces have been read.
spec fn with_first(n: int) -> config::DraftView {
    config::DraftView {
        config: config::ConfigView {
            bindings: config::with_workspaces(launching(), n),
            ..config::ConfigView::unbound()
        },
        ..settled()
    }
}

proof fn launching_is_read(
    sections: Seq<document::SectionView>,
    symbols: Map<Seq<char>, u32>,
    contents: Seq<char>,
)
    requires
        say_what_is_generated(sections),
        names_the_keys(symbols),
    ensures
        config::drafted(sections, 4, symbols, contents) == Ok::<
            config::DraftView,
            bindings::ConfigFault,
        >(with_first(0)),
{
    settings_are_read(sections, symbols, contents);
    assert("Super+Return"@ == "Super+"@ + "Return"@) by {
        reveal_strlit("Super+");
        reveal_strlit("Return");
        reveal_strlit("Super+Return");
        assert("Super+Return"@ =~= "Super+"@ + "Return"@);
    }
    other_keys_are_names();
    spellings_are_read("Return"@, symbols, 0xff0d);
    spawning_is_read(sections[3].children[0], "kitty"@);
    let action = actions::ActionView::Spawn(seq!["kitty"@]);
    assert(actions::action_fault(action, "Super+Return"@) is None) by {
        reveal_strlit("kitty");
    }
    one_more_is_read(
        sections,
        3,
        symbols,
        contents,
        settled(),
        "Super+Return"@,
        config::super_key(0xff0d),
        false,
        "spawn"@,
        seq![argument(document::ValueView::Text("kitty"@))],
        action,
    );
}

proof fn next_workspace_is_read(
    sections: Seq<document::SectionView>,
    n: int,
    symbols: Map<Seq<char>, u32>,
    contents: Seq<char>,
)
    requires
        sections.len() == 28,
        1 <= n <= 9,
        config::drafted(sections, 2 + 2 * n, symbols, contents) == Ok::<
            config::DraftView,
            bindings::ConfigFault,
        >(with_first(n - 1)),
        binds(
            sections[2 + 2 * n],
            "Super+"@ + text::decimal(n),
            false,
            "focus-workspace"@,
            seq![whole(n)],
        ),
        binds(
            sections[3 + 2 * n],
            "Super+Shift+"@ + text::decimal(n),
            false,
            "move-window-to-workspace"@,
            seq![whole(n)],
        ),
        names(symbols, text::decimal(n), (0x30 + n) as u32),
    ensures
        config::drafted(sections, 4 + 2 * n, symbols, contents) == Ok::<
            config::DraftView,
            bindings::ConfigFault,
        >(with_first(n)),
{
    let symbol = (0x30 + n) as u32;
    let x = text::decimal(n);
    let workspace = actions::SelectorView::Index(n as usize, None);
    let focus = actions::ActionView::FocusWorkspace { workspace };
    let send = actions::ActionView::MoveWindowToWorkspace { workspace, activate: false };
    let before = with_first(n - 1);
    let middle = with_bound(before, config::super_key(symbol), config::once(focus));
    digits_are_names(n);
    spellings_are_read(x, symbols, symbol);
    workspace_keys(launching(), n - 1);
    workspaces_are_read(sections[2 + 2 * n].children[0], n);
    workspaces_are_read(sections[3 + 2 * n].children[0], n);
    one_more_is_read(
        sections,
        2 + 2 * n,
        symbols,
        contents,
        before,
        "Super+"@ + x,
        config::super_key(symbol),
        false,
        "focus-workspace"@,
        seq![whole(n)],
        focus,
    );
    one_more_is_read(
        sections,
        3 + 2 * n,
        symbols,
        contents,
        middle,
        "Super+Shift+"@ + x,
        config::super_shift_key(symbol),
        false,
        "move-window-to-workspace"@,
        seq![whole(n)],
        send,
    );
}

proof fn workspaces_are_bound(
    sections: Seq<document::SectionView>,
    n: int,
    symbols: Map<Seq<char>, u32>,
    contents: Seq<char>,
)
    requires
        say_what_is_generated(sections),
        names_the_keys(symbols),
        0 <= n <= 9,
    ensures
        config::drafted(sections, 4 + 2 * n, symbols, contents) == Ok::<
            config::DraftView,
            bindings::ConfigFault,
        >(with_first(n)),
    decreases n,
{
    if n == 0 {
        launching_is_read(sections, symbols, contents);
    } else {
        workspaces_are_bound(sections, n - 1, symbols, contents);
        next_workspace_is_read(sections, n, symbols, contents);
    }
}

proof fn spellings_are_joined()
    ensures
        "Super+Space"@ == "Super+"@ + "Space"@,
        "Super+F"@ == "Super+"@ + "F"@,
        "Super+Left"@ == "Super+"@ + "Left"@,
        "Super+Right"@ == "Super+"@ + "Right"@,
        "Super+Up"@ == "Super+"@ + "Up"@,
        "Super+Down"@ == "Super+"@ + "Down"@,
{
    reveal_strlit("Super+");
    reveal_strlit("Space");
    reveal_strlit("F");
    reveal_strlit("Left");
    reveal_strlit("Right");
    reveal_strlit("Up");
    reveal_strlit("Down");
    reveal_strlit("Super+Space");
    reveal_strlit("Super+F");
    reveal_strlit("Super+Left");
    reveal_strlit("Super+Right");
    reveal_strlit("Super+Up");
    reveal_strlit("Super+Down");
    assert("Super+Space"@ =~= "Super+"@ + "Space"@);
    assert("Super+F"@ =~= "Super+"@ + "F"@);
    assert("Super+Left"@ =~= "Super+"@ + "Left"@);
    assert("Super+Right"@ =~= "Super+"@ + "Right"@);
    assert("Super+Up"@ =~= "Super+"@ + "Up"@);
    assert("Super+Down"@ =~= "Super+"@ + "Down"@);
}

/// The configuration file that is offered to begin with reads as the configuration that holds where
/// there is no file: what its sections say, from whichever text they are, gives the same gap,
/// camera, repetition of keys and bindings, where the keys have their symbols.
pub proof fn generated_configurations_are_usual(
    sections: Seq<document::SectionView>,
    symbols: Map<Seq<char>, u32>,
    contents: Seq<char>,
)
    requires
        say_what_is_generated(sections),
        names_the_keys(symbols),
    ensures
        config::composed(sections, symbols, contents) == Ok::<
            config::ConfigView,
            bindings::ConfigFault,
        >(config::ConfigView::usual()),
        config::ConfigView::usual().bindings.dom().len() == 25,
        document::parsed(contents) == Ok::<
            Seq<document::SectionView>,
            Seq<document::DiagnosticView>,
        >(sections) ==> config::configured(contents, symbols) == Ok::<
            config::ConfigView,
            bindings::ConfigFault,
        >(config::ConfigView::usual()),
{
    workspaces_are_bound(sections, 9, symbols, contents);
    workspace_keys(launching(), 9);
    other_keys_are_names();
    spellings_are_joined();
    toggling_is_read(sections[22].children[0]);
    toggling_is_read(sections[23].children[0]);
    panning_is_read(sections[24].children[0], -160, 0);
    panning_is_read(sections[25].children[0], 160, 0);
    panning_is_read(sections[26].children[0], 0, -160);
    panning_is_read(sections[27].children[0], 0, 160);
    let d22 = config::drafted(sections, 22, symbols, contents)->Ok_0;
    spellings_are_read("Space"@, symbols, 0x20);
    one_more_is_read(
        sections,
        22,
        symbols,
        contents,
        d22,
        "Super+Space"@,
        config::super_key(0x20),
        false,
        "toggle-floating"@,
        seq![],
        actions::ActionView::ToggleFloating,
    );
    let d23 = config::drafted(sections, 23, symbols, contents)->Ok_0;
    spellings_are_read("F"@, symbols, 0x66);
    one_more_is_read(
        sections,
        23,
        symbols,
        contents,
        d23,
        "Super+F"@,
        config::super_key(0x66),
        false,
        "toggle-fullscreen"@,
        seq![],
        actions::ActionView::ToggleFullscreen,
    );
    let d24 = config::drafted(sections, 24, symbols, contents)->Ok_0;
    spellings_are_read("Left"@, symbols, 0xff51);
    one_more_is_read(
        sections,
        24,
        symbols,
        contents,
        d24,
        "Super+Left"@,
        config::super_key(0xff51),
        true,
        "pan-camera"@,
        seq![whole(-160), whole(0)],
        actions::ActionView::PanCamera { x: -160i64, y: 0 },
    );
    let d25 = config::drafted(sections, 25, symbols, contents)->Ok_0;
    spellings_are_read("Right"@, symbols, 0xff53);
    one_more_is_read(
        sections,
        25,
        symbols,
        contents,
        d25,
        "Super+Right"@,
        config::super_key(0xff53),
        true,
        "pan-camera"@,
        seq![whole(160), whole(0)],
        actions::ActionView::PanCamera { x: 160, y: 0 },
    );
    let d26 = config::drafted(sections, 26, symbols, contents)->Ok_0;
    spellings_are_read("Up"@, symbols, 0xff52);
    one_more_is_read(
        sections,
        26,
        symbols,
        contents,
        d26,
        "Super+Up"@,
        config::super_key(0xff52),
        true,
        "pan-camera"@,
        seq![whole(0), whole(-160)],
        actions::ActionView::PanCamera { x: 0, y: -160i64 },
    );
    let d27 = config::drafted(sections, 27, symbols, contents)->Ok_0;
    spellings_are_read("Down"@, symbols, 0xff54);
    one_more_is_read(
        sections,
        27,
        symbols,
        contents,
        d27,
        "Super+Down"@,
        config::super_key(0xff54),
        true,
        "pan-camera"@,
        seq![whole(0), whole(160)],
        actions::ActionView::PanCamera { x: 0, y: 160 },
    );
    let d28 = config::drafted(sections, 28, symbols, contents)->Ok_0;
    assert(d28.config.bindings == config::built_in());
}

} // verus!
