//! The actions that keys can be bound to.

use crate::document;
use crate::document::{Node, Value};
use crate::geometry::Direction;
use crate::listing;
use crate::listing::copy_each;
use crate::model::WindowMode;
use crate::settings;
use crate::settings::{about, value_i64};
use crate::suggestions;
use crate::suggestions::unknown;
use crate::text;
use crate::text::{copy_option, quote, reads};
use vstd::prelude::*;

verus! {

#[derive(Clone, Copy, Debug, Eq, PartialEq, Structural)]
pub enum CardinalDirection {
    Left,
    Right,
    Up,
    Down,
}

impl CardinalDirection {
    /// The unit vector that points in the direction.
    pub open spec fn vector(self) -> Direction {
        match self {
            CardinalDirection::Left => Direction { x_bits: 0xbff0_0000_0000_0000, y_bits: 0 },
            CardinalDirection::Right => Direction { x_bits: 0x3ff0_0000_0000_0000, y_bits: 0 },
            CardinalDirection::Up => Direction { x_bits: 0, y_bits: 0xbff0_0000_0000_0000 },
            CardinalDirection::Down => Direction { x_bits: 0, y_bits: 0x3ff0_0000_0000_0000 },
        }
    }

    /// The unit vector that points in the direction.
    pub fn as_direction(self) -> (r: Direction)
        ensures
            r == self.vector(),
    {
        match self {
            CardinalDirection::Left => Direction { x_bits: 0xbff0_0000_0000_0000, y_bits: 0 },
            CardinalDirection::Right => Direction { x_bits: 0x3ff0_0000_0000_0000, y_bits: 0 },
            CardinalDirection::Up => Direction { x_bits: 0, y_bits: 0xbff0_0000_0000_0000 },
            CardinalDirection::Down => Direction { x_bits: 0, y_bits: 0x3ff0_0000_0000_0000 },
        }
    }
}

/// Which workspace an action is about. Indices count from one, on the named output or the active
/// one.
#[derive(Debug, Eq, PartialEq)]
pub enum WorkspaceSelector {
    Index(usize, Option<String>),
    Name(String),
    Id(u32),
}

#[verifier::ext_equal]
pub enum SelectorView {
    Index(usize, Option<Seq<char>>),
    Name(Seq<char>),
    Id(u32),
}

impl View for WorkspaceSelector {
    type V = SelectorView;

    open spec fn view(&self) -> SelectorView {
        match self {
            WorkspaceSelector::Index(index, output) => SelectorView::Index(
                *index,
                text::characters(*output),
            ),
            WorkspaceSelector::Name(name) => SelectorView::Name(name@),
            WorkspaceSelector::Id(id) => SelectorView::Id(*id),
        }
    }
}

impl Clone for WorkspaceSelector {
    fn clone(&self) -> (r: Self)
        ensures
            r@ == self@,
    {
        match self {
            WorkspaceSelector::Index(index, output) => WorkspaceSelector::Index(
                *index,
                copy_option(output),
            ),
            WorkspaceSelector::Name(name) => WorkspaceSelector::Name(name.clone()),
            WorkspaceSelector::Id(id) => WorkspaceSelector::Id(*id),
        }
    }
}

#[derive(Debug, Eq, PartialEq)]
pub enum Action {
    Spawn(Vec<String>),
    FocusWorkspace { workspace: WorkspaceSelector },
    MoveWindowToWorkspace { workspace: WorkspaceSelector, activate: bool },
    FocusOutput { output: String },
    MoveWorkspaceToOutput { output: String, index: Option<usize>, activate: bool },
    FocusDirection(CardinalDirection),
    PanCamera { x: i64, y: i64 },
    SetWindowMode(WindowMode),
    ToggleFloating,
    ToggleFullscreen,
    CloseWindow,
    Quit,
}

#[verifier::ext_equal]
pub enum ActionView {
    Spawn(Seq<Seq<char>>),
    FocusWorkspace { workspace: SelectorView },
    MoveWindowToWorkspace { workspace: SelectorView, activate: bool },
    FocusOutput { output: Seq<char> },
    MoveWorkspaceToOutput { output: Seq<char>, index: Option<usize>, activate: bool },
    FocusDirection(CardinalDirection),
    PanCamera { x: i64, y: i64 },
    SetWindowMode(WindowMode),
    ToggleFloating,
    ToggleFullscreen,
    CloseWindow,
    Quit,
}

impl View for Action {
    type V = ActionView;

    open spec fn view(&self) -> ActionView {
        match self {
            Action::Spawn(value) => ActionView::Spawn(listing::each(value@)),
            Action::FocusWorkspace { workspace } => ActionView::FocusWorkspace {
                workspace: workspace@,
            },
            Action::MoveWindowToWorkspace { workspace, activate } => ActionView::MoveWindowToWorkspace {
                workspace: workspace@,
                activate: *activate,
            },
            Action::FocusOutput { output } => ActionView::FocusOutput {
                output: output@,
            },
            Action::MoveWorkspaceToOutput { output, index, activate } => ActionView::MoveWorkspaceToOutput {
                output: output@,
                index: *index,
                activate: *activate,
            },
            Action::FocusDirection(value) => ActionView::FocusDirection(*value),
            Action::PanCamera { x, y } => ActionView::PanCamera {
                x: *x,
                y: *y,
            },
            Action::SetWindowMode(value) => ActionView::SetWindowMode(*value),
            Action::ToggleFloating => ActionView::ToggleFloating,
            Action::ToggleFullscreen => ActionView::ToggleFullscreen,
            Action::CloseWindow => ActionView::CloseWindow,
            Action::Quit => ActionView::Quit,
        }
    }
}

impl Clone for Action {
    fn clone(&self) -> (r: Self)
        ensures
            r@ == self@,
    {
        match self {
            Action::Spawn(value) => Action::Spawn(copy_each(value)),
            Action::FocusWorkspace { workspace } => Action::FocusWorkspace {
                workspace: workspace.clone(),
            },
            Action::MoveWindowToWorkspace { workspace, activate } => Action::MoveWindowToWorkspace {
                workspace: workspace.clone(),
                activate: *activate,
            },
            Action::FocusOutput { output } => Action::FocusOutput {
                output: output.clone(),
            },
            Action::MoveWorkspaceToOutput { output, index, activate } => Action::MoveWorkspaceToOutput {
                output: output.clone(),
                index: *index,
                activate: *activate,
            },
            Action::FocusDirection(value) => Action::FocusDirection(*value),
            Action::PanCamera { x, y } => Action::PanCamera {
                x: *x,
                y: *y,
            },
            Action::SetWindowMode(value) => Action::SetWindowMode(*value),
            Action::ToggleFloating => Action::ToggleFloating,
            Action::ToggleFullscreen => Action::ToggleFullscreen,
            Action::CloseWindow => Action::CloseWindow,
            Action::Quit => Action::Quit,
        }
    }
}

#[derive(Debug, Eq, PartialEq)]
pub struct Binding {
    pub action: Action,
    pub repeat: bool,
}

#[verifier::ext_equal]
pub struct BindingView {
    pub action: ActionView,
    pub repeat: bool,
}

impl View for Binding {
    type V = BindingView;

    open spec fn view(&self) -> BindingView {
        BindingView {
            action: self.action@,
            repeat: self.repeat,
        }
    }
}

impl Clone for Binding {
    fn clone(&self) -> (r: Self)
        ensures
            r@ == self@,
    {
        Binding {
            action: self.action.clone(),
            repeat: self.repeat,
        }
    }
}

impl ActionView {
    /// Whether the action may be done again and again while the key is held: moving and focusing
    /// may, what toggles or starts something may not.
    pub open spec fn repeats(self) -> bool {
        match self {
            ActionView::FocusWorkspace { .. } => true,
            ActionView::MoveWindowToWorkspace { .. } => true,
            ActionView::FocusDirection(_) => true,
            ActionView::PanCamera { .. } => true,
            _ => false,
        }
    }
}

impl Action {
    /// Whether the action may be done again and again while the key is held.
    pub fn can_repeat(&self) -> (r: bool)
        ensures
            r == self@.repeats(),
    {
        match self {
            Action::FocusWorkspace { .. } => true,
            Action::MoveWindowToWorkspace { .. } => true,
            Action::FocusDirection(_) => true,
            Action::PanCamera { .. } => true,
            _ => false,
        }
    }
}

/// The workspace that an action is about, as a node says it.
pub open spec fn selected(node: document::NodeView) -> Result<SelectorView, Seq<char>> {
    match settings::index_property(node, "id"@) {
        Err(message) => Err(message),
        Ok(Some(id)) => if node.arguments().len() != 0 || node.property("output"@) is Some {
            Err("workspace `id` cannot be combined with an argument or `output`"@)
        } else if id > u32::MAX {
            Err("workspace id is out of range"@)
        } else {
            Ok(SelectorView::Id(id as u32))
        },
        Ok(None) => if node.arguments().len() != 1 {
            Err(settings::of_name(node.name, " requires one workspace selector"@))
        } else {
            match node.arguments()[0] {
                document::ValueView::Integer(n) => if 0 <= n <= usize::MAX {
                    match settings::text_property(node, "output"@) {
                        Ok(output) => Ok(SelectorView::Index(n as usize, output)),
                        Err(message) => Err(message),
                    }
                } else {
                    Err("workspace index is out of range"@)
                },
                document::ValueView::Text(name) => if node.property("output"@) is Some {
                    Err("workspace names cannot be combined with `output`"@)
                } else {
                    Ok(SelectorView::Name(name))
                },
                _ => Err("workspace selector must be an integer index or string name"@),
            }
        },
    }
}

pub open spec fn cardinal(name: Seq<char>) -> Result<CardinalDirection, Seq<char>> {
    if name == "left"@ {
        Ok(CardinalDirection::Left)
    } else if name == "right"@ {
        Ok(CardinalDirection::Right)
    } else if name == "up"@ {
        Ok(CardinalDirection::Up)
    } else if name == "down"@ {
        Ok(CardinalDirection::Down)
    } else {
        Err("unknown direction "@ + text::quoted(name) + "; expected left, right, up, or down"@)
    }
}

pub open spec fn window_mode(name: Seq<char>) -> Result<WindowMode, Seq<char>> {
    if name == "tiled"@ {
        Ok(WindowMode::Tiled)
    } else if name == "floating"@ {
        Ok(WindowMode::Floating)
    } else if name == "maximized"@ {
        Ok(WindowMode::Maximized)
    } else if name == "fullscreen"@ {
        Ok(WindowMode::Fullscreen)
    } else {
        Err("unknown window mode "@ + text::quoted(name))
    }
}

pub open spec fn action_names() -> Seq<Seq<char>> {
    seq![
        "spawn"@,
        "focus-workspace"@,
        "move-window-to-workspace"@,
        "focus-output"@,
        "move-workspace-to-output"@,
        "focus-window"@,
        "pan-camera"@,
        "set-window-mode"@,
        "toggle-floating"@,
        "toggle-fullscreen"@,
        "close-window"@,
        "quit"@,
    ]
}

pub open spec fn spawned(node: document::NodeView) -> Result<ActionView, Seq<char>> {
    match node.stray_property(Seq::empty()) {
        Some(message) => Err(message),
        None => match settings::all_texts(node.arguments()) {
            Some(argv) => Ok(ActionView::Spawn(argv)),
            None => Err(settings::of_name(node.name, " arguments must be strings"@)),
        },
    }
}

pub open spec fn workspace_focus(node: document::NodeView) -> Result<ActionView, Seq<char>> {
    match node.stray_property(seq!["output"@, "id"@]) {
        Some(message) => Err(message),
        None => match selected(node) {
            Ok(workspace) => Ok(ActionView::FocusWorkspace { workspace }),
            Err(message) => Err(message),
        },
    }
}

pub open spec fn window_move(node: document::NodeView) -> Result<ActionView, Seq<char>> {
    match node.stray_property(seq!["output"@, "id"@, "activate"@]) {
        Some(message) => Err(message),
        None => match selected(node) {
            Err(message) => Err(message),
            Ok(workspace) => match settings::truth_property(node, "activate"@) {
                Err(message) => Err(message),
                Ok(activate) => Ok(
                    ActionView::MoveWindowToWorkspace {
                        workspace,
                        activate: activate.unwrap_or(false),
                    },
                ),
            },
        },
    }
}

pub open spec fn workspace_move(node: document::NodeView) -> Result<ActionView, Seq<char>> {
    match node.stray_property(seq!["index"@, "activate"@]) {
        Some(message) => Err(message),
        None => match settings::first_text(node, "move-workspace-to-output"@) {
            Err(message) => Err(message),
            Ok(output) => match settings::index_property(node, "index"@) {
                Err(message) => Err(message),
                Ok(index) => match settings::truth_property(node, "activate"@) {
                    Err(message) => Err(message),
                    Ok(activate) => Ok(
                        ActionView::MoveWorkspaceToOutput {
                            output,
                            index,
                            activate: activate.unwrap_or(true),
                        },
                    ),
                },
            },
        },
    }
}

pub open spec fn camera_pan(node: document::NodeView) -> Result<ActionView, Seq<char>> {
    match node.stray_property(Seq::empty()) {
        Some(message) => Err(message),
        None => if node.arguments().len() != 2 {
            Err("`pan-camera` requires x and y integers"@)
        } else {
            match settings::integer(node.arguments()[0], "pan-camera x"@) {
                Err(message) => Err(message),
                Ok(x) => match settings::integer(node.arguments()[1], "pan-camera y"@) {
                    Err(message) => Err(message),
                    Ok(y) => Ok(ActionView::PanCamera { x, y }),
                },
            }
        },
    }
}

pub open spec fn plain(node: document::NodeView, action: ActionView) -> Result<
    ActionView,
    Seq<char>,
> {
    match node.stray_entry() {
        Some(message) => Err(message),
        None => Ok(action),
    }
}

/// The action that a node says.
pub open spec fn action(node: document::NodeView) -> Result<ActionView, Seq<char>> {
    let name = node.name;
    if node.stray_block() is Some {
        Err(node.stray_block()->0)
    } else if name == "spawn"@ {
        spawned(node)
    } else if name == "focus-workspace"@ {
        workspace_focus(node)
    } else if name == "move-window-to-workspace"@ {
        window_move(node)
    } else if name == "focus-output"@ {
        match settings::only_text(node, "focus-output"@) {
            Ok(output) => Ok(ActionView::FocusOutput { output }),
            Err(message) => Err(message),
        }
    } else if name == "move-workspace-to-output"@ {
        workspace_move(node)
    } else if name == "focus-window"@ {
        match settings::only_text(node, "focus-window"@) {
            Err(message) => Err(message),
            Ok(direction) => match cardinal(direction) {
                Ok(direction) => Ok(ActionView::FocusDirection(direction)),
                Err(message) => Err(message),
            },
        }
    } else if name == "pan-camera"@ {
        camera_pan(node)
    } else if name == "set-window-mode"@ {
        match settings::only_text(node, "set-window-mode"@) {
            Err(message) => Err(message),
            Ok(mode) => match window_mode(mode) {
                Ok(mode) => Ok(ActionView::SetWindowMode(mode)),
                Err(message) => Err(message),
            },
        }
    } else if name == "toggle-floating"@ {
        plain(node, ActionView::ToggleFloating)
    } else if name == "toggle-fullscreen"@ {
        plain(node, ActionView::ToggleFullscreen)
    } else if name == "close-window"@ {
        plain(node, ActionView::CloseWindow)
    } else if name == "quit"@ {
        plain(node, ActionView::Quit)
    } else {
        Err(suggestions::unknown_name("action"@, name, action_names()))
    }
}

/// A message about a binding.
pub open spec fn of_binding(source: Seq<char>, rest: Seq<char>) -> Seq<char> {
    "binding "@ + text::quoted(source) + rest
}

/// The index of the workspace that an action is about, where it is one.
pub open spec fn workspace_index(action: ActionView) -> Option<usize> {
    match action {
        ActionView::FocusWorkspace { workspace } => index_of(workspace),
        ActionView::MoveWindowToWorkspace { workspace, .. } => index_of(workspace),
        _ => None,
    }
}

pub open spec fn index_of(selector: SelectorView) -> Option<usize> {
    match selector {
        SelectorView::Index(index, _) => Some(index),
        _ => None,
    }
}

/// What is wrong with an action, if anything: indices count from one and fit in 32 bits, and
/// something must be named to be spawned.
pub open spec fn action_fault(action: ActionView, source: Seq<char>) -> Option<Seq<char>> {
    match workspace_index(action) {
        Some(index) => if index == 0 {
            Some(of_binding(source, " uses workspace index zero"@))
        } else if index > u32::MAX {
            Some(of_binding(source, " uses a workspace index larger than u32::MAX"@))
        } else {
            None
        },
        None => match action {
            ActionView::Spawn(argv) => if argv.len() == 0 || argv[0].len() == 0 {
                Some(of_binding(source, " has an empty Spawn argv"@))
            } else {
                None
            },
            ActionView::MoveWorkspaceToOutput { index, .. } => if index == Some(0usize) {
                Some(of_binding(source, " uses target index zero"@))
            } else {
                None
            },
            _ => None,
        },
    }
}

fn parse_workspace(node: &Node) -> (r: Result<WorkspaceSelector, String>)
    ensures
        match selected(node@) {
            Ok(selector) => r is Ok && r->Ok_0@ == selector,
            Err(message) => r is Err && r->Err_0@ == message,
        },
{
    let args: Vec<&Value> = node.positional();
    assert(settings::borrowed(args@).len() == args@.len());
    match node.property_usize("id") {
        Err(message) => {
            return Err(message);
        },
        Ok(Some(id)) => {
            if args.len() != 0 || node.get("output").is_some() {
                return Err(
                    "workspace `id` cannot be combined with an argument or `output`".to_owned(),
                );
            }
            if id > 0xffff_ffff {
                return Err("workspace id is out of range".to_owned());
            }
            return Ok(WorkspaceSelector::Id(id as u32));
        },
        Ok(None) => {},
    }
    if args.len() != 1 {
        return Err(about(node.name.as_str(), " requires one workspace selector"));
    }
    assert(settings::borrowed(args@)[0] == args@[0]@);
    match args[0] {
        Value::Integer(n) => {
            if 0 <= *n && *n <= usize::MAX as i128 {
                match node.property_string("output") {
                    Ok(output) => Ok(WorkspaceSelector::Index(*n as usize, output)),
                    Err(message) => Err(message),
                }
            } else {
                Err("workspace index is out of range".to_owned())
            }
        },
        Value::Text(name) => {
            if node.get("output").is_some() {
                Err("workspace names cannot be combined with `output`".to_owned())
            } else {
                Ok(WorkspaceSelector::Name(name.clone()))
            }
        },
        _ => Err("workspace selector must be an integer index or string name".to_owned()),
    }
}

fn parse_cardinal(node: &Node) -> (r: Result<CardinalDirection, String>)
    ensures
        match settings::only_text(node@, "focus-window"@) {
            Err(message) => r is Err && r->Err_0@ == message,
            Ok(name) => match cardinal(name) {
                Ok(direction) => r == Ok::<CardinalDirection, String>(direction),
                Err(message) => r is Err && r->Err_0@ == message,
            },
        },
{
    let name: String = match node.one_string("focus-window") {
        Ok(name) => name,
        Err(message) => {
            return Err(message);
        },
    };
    if reads(&name, "left") {
        Ok(CardinalDirection::Left)
    } else if reads(&name, "right") {
        Ok(CardinalDirection::Right)
    } else if reads(&name, "up") {
        Ok(CardinalDirection::Up)
    } else if reads(&name, "down") {
        Ok(CardinalDirection::Down)
    } else {
        let mut message: String = "unknown direction ".to_owned();
        message.append(quote(name.as_str()).as_str());
        message.append("; expected left, right, up, or down");
        Err(message)
    }
}

fn parse_mode(name: &String) -> (r: Result<WindowMode, String>)
    ensures
        match window_mode(name@) {
            Ok(mode) => r == Ok::<WindowMode, String>(mode),
            Err(message) => r is Err && r->Err_0@ == message,
        },
{
    if reads(name, "tiled") {
        Ok(WindowMode::Tiled)
    } else if reads(name, "floating") {
        Ok(WindowMode::Floating)
    } else if reads(name, "maximized") {
        Ok(WindowMode::Maximized)
    } else if reads(name, "fullscreen") {
        Ok(WindowMode::Fullscreen)
    } else {
        let mut message: String = "unknown window mode ".to_owned();
        message.append(quote(name.as_str()).as_str());
        Err(message)
    }
}

fn parse_spawn(node: &Node) -> (r: Result<Action, String>)
    ensures
        match spawned(node@) {
            Ok(action) => r is Ok && r->Ok_0@ == action,
            Err(message) => r is Err && r->Err_0@ == message,
        },
{
    let none: [&str; 0] = [];
    assert(suggestions::texts(none@) =~= Seq::empty());
    if let Err(message) = node.require_properties(&none) {
        return Err(message);
    }
    match node.positional_strings() {
        Some(argv) => Ok(Action::Spawn(argv)),
        None => Err(about(node.name.as_str(), " arguments must be strings")),
    }
}

fn parse_workspace_focus(node: &Node) -> (r: Result<Action, String>)
    ensures
        match workspace_focus(node@) {
            Ok(action) => r is Ok && r->Ok_0@ == action,
            Err(message) => r is Err && r->Err_0@ == message,
        },
{
    let allowed: [&str; 2] = ["output", "id"];
    assert(suggestions::texts(allowed@) =~= seq!["output"@, "id"@]);
    if let Err(message) = node.require_properties(&allowed) {
        return Err(message);
    }
    match parse_workspace(node) {
        Ok(workspace) => Ok(Action::FocusWorkspace { workspace }),
        Err(message) => Err(message),
    }
}

fn parse_window_move(node: &Node) -> (r: Result<Action, String>)
    ensures
        match window_move(node@) {
            Ok(action) => r is Ok && r->Ok_0@ == action,
            Err(message) => r is Err && r->Err_0@ == message,
        },
{
    let allowed: [&str; 3] = ["output", "id", "activate"];
    assert(suggestions::texts(allowed@) =~= seq!["output"@, "id"@, "activate"@]);
    if let Err(message) = node.require_properties(&allowed) {
        return Err(message);
    }
    let workspace: WorkspaceSelector = match parse_workspace(node) {
        Ok(workspace) => workspace,
        Err(message) => {
            return Err(message);
        },
    };
    match node.property_bool("activate") {
        Ok(activate) => Ok(
            Action::MoveWindowToWorkspace { workspace, activate: activate.unwrap_or(false) },
        ),
        Err(message) => Err(message),
    }
}

fn parse_workspace_move(node: &Node) -> (r: Result<Action, String>)
    ensures
        match workspace_move(node@) {
            Ok(action) => r is Ok && r->Ok_0@ == action,
            Err(message) => r is Err && r->Err_0@ == message,
        },
{
    let allowed: [&str; 2] = ["index", "activate"];
    assert(suggestions::texts(allowed@) =~= seq!["index"@, "activate"@]);
    if let Err(message) = node.require_properties(&allowed) {
        return Err(message);
    }
    let output: String = match node.first_string("move-workspace-to-output") {
        Ok(output) => output,
        Err(message) => {
            return Err(message);
        },
    };
    let index: Option<usize> = match node.property_usize("index") {
        Ok(index) => index,
        Err(message) => {
            return Err(message);
        },
    };
    match node.property_bool("activate") {
        Ok(activate) => Ok(
            Action::MoveWorkspaceToOutput { output, index, activate: activate.unwrap_or(true) },
        ),
        Err(message) => Err(message),
    }
}

fn parse_camera_pan(node: &Node) -> (r: Result<Action, String>)
    ensures
        match camera_pan(node@) {
            Ok(action) => r is Ok && r->Ok_0@ == action,
            Err(message) => r is Err && r->Err_0@ == message,
        },
{
    let none: [&str; 0] = [];
    assert(suggestions::texts(none@) =~= Seq::empty());
    if let Err(message) = node.require_properties(&none) {
        return Err(message);
    }
    let args: Vec<&Value> = node.positional();
    assert(settings::borrowed(args@).len() == args@.len());
    if args.len() != 2 {
        return Err("`pan-camera` requires x and y integers".to_owned());
    }
    assert(settings::borrowed(args@)[0] == args@[0]@);
    assert(settings::borrowed(args@)[1] == args@[1]@);
    let x: i64 = match value_i64(args[0], "pan-camera x") {
        Ok(x) => x,
        Err(message) => {
            return Err(message);
        },
    };
    match value_i64(args[1], "pan-camera y") {
        Ok(y) => Ok(Action::PanCamera { x, y }),
        Err(message) => Err(message),
    }
}

fn empty_action(node: &Node, action: Action) -> (r: Result<Action, String>)
    ensures
        match plain(node@, action@) {
            Ok(done) => r is Ok && r->Ok_0@ == done,
            Err(message) => r is Err && r->Err_0@ == message,
        },
{
    match node.require_no_entries() {
        Ok(()) => Ok(action),
        Err(message) => Err(message),
    }
}

/// The action that a node says.
pub fn parse_action(node: &Node) -> (r: Result<Action, String>)
    ensures
        match action(node@) {
            Ok(said) => r is Ok && r->Ok_0@ == said,
            Err(message) => r is Err && r->Err_0@ == message,
        },
{
    if let Err(message) = node.require_no_children() {
        return Err(message);
    }
    let name: &String = &node.name;
    if reads(name, "spawn") {
        parse_spawn(node)
    } else if reads(name, "focus-workspace") {
        parse_workspace_focus(node)
    } else if reads(name, "move-window-to-workspace") {
        parse_window_move(node)
    } else if reads(name, "focus-output") {
        match node.one_string("focus-output") {
            Ok(output) => Ok(Action::FocusOutput { output }),
            Err(message) => Err(message),
        }
    } else if reads(name, "move-workspace-to-output") {
        parse_workspace_move(node)
    } else if reads(name, "focus-window") {
        match parse_cardinal(node) {
            Ok(direction) => Ok(Action::FocusDirection(direction)),
            Err(message) => Err(message),
        }
    } else if reads(name, "pan-camera") {
        parse_camera_pan(node)
    } else if reads(name, "set-window-mode") {
        match node.one_string("set-window-mode") {
            Err(message) => Err(message),
            Ok(mode) => match parse_mode(&mode) {
                Ok(mode) => Ok(Action::SetWindowMode(mode)),
                Err(message) => Err(message),
            },
        }
    } else if reads(name, "toggle-floating") {
        empty_action(node, Action::ToggleFloating)
    } else if reads(name, "toggle-fullscreen") {
        empty_action(node, Action::ToggleFullscreen)
    } else if reads(name, "close-window") {
        empty_action(node, Action::CloseWindow)
    } else if reads(name, "quit") {
        empty_action(node, Action::Quit)
    } else {
        let names: [&str; 12] = [
            "spawn",
            "focus-workspace",
            "move-window-to-workspace",
            "focus-output",
            "move-workspace-to-output",
            "focus-window",
            "pan-camera",
            "set-window-mode",
            "toggle-floating",
            "toggle-fullscreen",
            "close-window",
            "quit",
        ];
        assert(suggestions::texts(names@) =~= action_names());
        Err(unknown("action", name.as_str(), &names))
    }
}

pub(crate) fn about_binding(source: &str, rest: &str) -> (r: String)
    ensures
        r@ == of_binding(source@, rest@),
{
    let mut r: String = "binding ".to_owned();
    r.append(quote(source).as_str());
    r.append(rest);
    r
}

/// Refuses actions that cannot be done.
pub fn validate_action(action: &Action, source: &str) -> (r: Result<(), String>)
    ensures
        match action_fault(action@, source@) {
            None => r is Ok,
            Some(message) => r is Err && r->Err_0@ == message,
        },
{
    let selector: Option<&WorkspaceSelector> = match action {
        Action::FocusWorkspace { workspace } => Some(workspace),
        Action::MoveWindowToWorkspace { workspace, .. } => Some(workspace),
        _ => None,
    };
    if let Some(WorkspaceSelector::Index(index, _)) = selector {
        if *index == 0 {
            return Err(about_binding(source, " uses workspace index zero"));
        }
        if *index > 0xffff_ffff {
            return Err(about_binding(source, " uses a workspace index larger than u32::MAX"));
        }
    }
    match action {
        Action::Spawn(argv) => {
            if argv.len() > 0 {
                assert(listing::each(argv@)[0] == argv@[0]@);
            }
            if argv.len() == 0 || argv[0].as_str().unicode_len() == 0 {
                Err(about_binding(source, " has an empty Spawn argv"))
            } else {
                Ok(())
            }
        },
        Action::MoveWorkspaceToOutput { index: Some(index), .. } => if *index == 0 {
            Err(about_binding(source, " uses target index zero"))
        } else {
            Ok(())
        },
        _ => Ok(()),
    }
}

} // verus!
