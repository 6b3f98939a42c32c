//! How the compositor is started.

use crate::scan;
use crate::scan::{strip_prefix, text_of};
use crate::suggestions;
use crate::text;
use crate::text::{chars_of, quote};
use vstd::prelude::*;

verus! {

#[derive(Clone, Copy, Debug, Eq, PartialEq, Structural)]
pub enum BackendKind {
    /// In a window of another compositor.
    Winit,
    /// On the outputs of the machine.
    Native,
}

impl Default for BackendKind {
    fn default() -> (r: Self)
        ensures
            r == BackendKind::Winit,
    {
        BackendKind::Winit
    }
}

#[derive(Debug, Eq, PartialEq)]
pub struct LaunchOptions {
    pub backend: BackendKind,
    /// The path of the configuration file.
    pub config: Option<String>,
    pub nested: bool,
}

#[verifier::ext_equal]
pub struct OptionsView {
    pub backend: BackendKind,
    pub config: Option<Seq<char>>,
    pub nested: bool,
}

impl View for LaunchOptions {
    type V = OptionsView;

    open spec fn view(&self) -> OptionsView {
        OptionsView {
            backend: self.backend,
            config: text::characters(self.config),
            nested: self.nested,
        }
    }
}

pub open spec fn unknown_argument(argument: Seq<char>) -> Seq<char> {
    "unknown argument "@ + text::quoted(argument)
        + "; usage: astera [--backend=winit|native] [--config PATH]"@
}

pub open spec fn repeated_argument(name: Seq<char>) -> Seq<char> {
    name + " cannot be used multiple times"@
}

impl OptionsView {
    pub open spec fn effective(self) -> BackendKind {
        if self.nested {
            BackendKind::Winit
        } else {
            self.backend
        }
    }
}

/// The options that some arguments have given so far.
#[derive(Debug, Eq, PartialEq)]
struct Given {
    backend: Option<BackendKind>,
    config: Option<String>,
    nested: bool,
}

#[verifier::ext_equal]
pub struct GivenView {
    pub backend: Option<BackendKind>,
    pub config: Option<Seq<char>>,
    pub nested: bool,
}

impl View for Given {
    type V = GivenView;

    closed spec fn view(&self) -> GivenView {
        GivenView {
            backend: self.backend,
            config: text::characters(self.config),
            nested: self.nested,
        }
    }
}

/// Whether an argument can be the value of the option before it: what begins with a dash cannot,
/// but for a dash alone.
pub open spec fn is_value(argument: Seq<char>) -> bool {
    argument == "-"@ || argument.len() == 0 || argument[0] != '-'
}

/// The value of the option at a place, and whether it is an argument of its own; nothing of that
/// where the value is missing, and nothing at all where the argument is not that option.
pub open spec fn valued(name: Seq<char>, arguments: Seq<Seq<char>>, from: int) -> Option<
    Option<(Seq<char>, bool)>,
> {
    if arguments[from] == name {
        if from + 1 < arguments.len() && is_value(arguments[from + 1]) {
            Some(Some((arguments[from + 1], true)))
        } else {
            Some(None)
        }
    } else {
        match scan::after_prefix(arguments[from], name + "="@) {
            Some(value) => Some(Some((value, false))),
            None => None,
        }
    }
}

/// The place behind an option and its value.
pub open spec fn behind(from: int, apart: bool) -> int {
    if apart {
        from + 2
    } else {
        from + 1
    }
}

pub open spec fn backend_named(name: Seq<char>) -> Option<BackendKind> {
    if name == "winit"@ {
        Some(BackendKind::Winit)
    } else if name == "native"@ {
        Some(BackendKind::Native)
    } else {
        None
    }
}

impl GivenView {
    pub open spec fn nothing() -> Self {
        GivenView { backend: None, config: None, nested: false }
    }

    /// The options, those that were not given as they usually are.
    pub open spec fn completed(self) -> OptionsView {
        OptionsView {
            backend: match self.backend {
                Some(backend) => backend,
                None => BackendKind::Winit,
            },
            config: self.config,
            nested: self.nested,
        }
    }

    /// What has been given after the arguments from a place on. Each option is given once at most,
    /// a path is not empty, and two dashes end the arguments.
    pub open spec fn with_arguments(self, arguments: Seq<Seq<char>>, from: int) -> Result<
        Self,
        Seq<char>,
    >
        decreases arguments.len() - from,
    {
        if from < 0 || from >= arguments.len() {
            Ok(self)
        } else if arguments[from] == "--"@ {
            if from + 1 < arguments.len() {
                Err(unknown_argument(arguments[from + 1]))
            } else {
                Ok(self)
            }
        } else if arguments[from] == "--nested"@ {
            if self.nested {
                Err(repeated_argument("--nested"@))
            } else {
                GivenView { nested: true, ..self }.with_arguments(arguments, from + 1)
            }
        } else {
            match (valued("--backend"@, arguments, from), valued("--config"@, arguments, from)) {
                (Some(None), _) => Err("--backend requires winit or native"@),
                (Some(Some((name, apart))), _) => if self.backend is Some {
                    Err(repeated_argument("--backend"@))
                } else {
                    match backend_named(name) {
                        None => Err("--backend requires winit or native"@),
                        Some(backend) => GivenView {
                            backend: Some(backend),
                            ..self
                        }.with_arguments(arguments, behind(from, apart)),
                    }
                },
                (None, Some(None)) => Err("--config requires a path"@),
                (None, Some(Some((path, apart)))) => if self.config is Some {
                    Err(repeated_argument("--config"@))
                } else if path.len() == 0 {
                    Err("--config requires a path"@)
                } else {
                    GivenView { config: Some(path), ..self }.with_arguments(
                        arguments,
                        behind(from, apart),
                    )
                },
                (None, None) => Err(unknown_argument(arguments[from])),
            }
        }
    }
}

pub(crate) fn is(argument: &str, other: &str) -> (r: bool)
    ensures
        r == (argument@ == other@),
{
    text::same(&argument.to_owned(), &other.to_owned())
}

fn can_be_value(argument: &str) -> (r: bool)
    ensures
        r == is_value(argument@),
{
    let chars: Vec<char> = chars_of(argument);
    is(argument, "-") || chars.len() == 0 || chars[0] != '-'
}

/// The value of an option and where the arguments go on.
fn value_of(name: &str, arguments: &[&str], from: usize) -> (r: Option<Option<(String, usize)>>)
    requires
        from < arguments@.len(),
    ensures
        match valued(name@, suggestions::texts(arguments@), from as int) {
            None => r is None,
            Some(None) => r is Some && r->0 is None,
            Some(Some((value, apart))) => r is Some && r->0 is Some && (r->0->0).0@ == value
                && (r->0->0).1 == behind(from as int, apart) && from < (r->0->0).1
                <= arguments@.len(),
        },
{
    let ghost all = suggestions::texts(arguments@);
    let argument: &str = arguments[from];
    assert(all[from as int] == argument@);
    if is(argument, name) {
        if arguments.len() - from <= 1 {
            return Some(None);
        }
        let value: &str = arguments[from + 1];
        assert(all[from + 1] == value@);
        if can_be_value(value) {
            Some(Some((value.to_owned(), from + 2)))
        } else {
            Some(None)
        }
    } else {
        let mut prefix: String = name.to_owned();
        prefix.append("=");
        let chars: Vec<char> = chars_of(argument);
        match strip_prefix(&chars, prefix.as_str()) {
            Some(value) => Some(Some((text_of(value.as_slice()), from + 1))),
            None => None,
        }
    }
}

fn find_backend(name: &str) -> (r: Option<BackendKind>)
    ensures
        r == backend_named(name@),
{
    if is(name, "winit") {
        Some(BackendKind::Winit)
    } else if is(name, "native") {
        Some(BackendKind::Native)
    } else {
        None
    }
}

pub(crate) fn refuse_unknown(argument: &str) -> (r: String)
    ensures
        r@ == unknown_argument(argument@),
{
    let mut message: String = "unknown argument ".to_owned();
    message.append(quote(argument).as_str());
    message.append("; usage: astera [--backend=winit|native] [--config PATH]");
    message
}

fn refuse_repeated(name: &str) -> (r: String)
    ensures
        r@ == repeated_argument(name@),
{
    let mut message: String = name.to_owned();
    message.append(" cannot be used multiple times");
    message
}

fn read_arguments(arguments: &[&str]) -> (r: Result<Given, String>)
    ensures
        match GivenView::nothing().with_arguments(suggestions::texts(arguments@), 1) {
            Ok(given) => r is Ok && r->Ok_0@ == given,
            Err(message) => r is Err && r->Err_0@ == message,
        },
{
    let ghost all = suggestions::texts(arguments@);
    let ghost goal = GivenView::nothing().with_arguments(all, 1);
    let mut given = Given { backend: None, config: None, nested: false };
    if arguments.len() == 0 {
        return Ok(given);
    }
    let mut i: usize = 1;
    while i < arguments.len()
        invariant
            1 <= i <= arguments@.len(),
            all == suggestions::texts(arguments@),
            goal == GivenView::nothing().with_arguments(all, 1),
            goal == given@.with_arguments(all, i as int),
        decreases arguments@.len() - i,
    {
        let argument: &str = arguments[i];
        assert(all[i as int] == argument@);
        if is(argument, "--") {
            if arguments.len() - i > 1 {
                assert(all[i + 1] == arguments@[i + 1]@);
                return Err(refuse_unknown(arguments[i + 1]));
            }
            return Ok(given);
        }
        if is(argument, "--nested") {
            if given.nested {
                return Err(refuse_repeated("--nested"));
            }
            given.nested = true;
            i = i + 1;
        } else {
            match (value_of("--backend", arguments, i), value_of("--config", arguments, i)) {
                (Some(None), _) => {
                    return Err("--backend requires winit or native".to_owned());
                },
                (Some(Some((name, next))), _) => {
                    if given.backend.is_some() {
                        return Err(refuse_repeated("--backend"));
                    }
                    match find_backend(name.as_str()) {
                        None => {
                            return Err("--backend requires winit or native".to_owned());
                        },
                        Some(backend) => {
                            given.backend = Some(backend);
                            i = next;
                        },
                    }
                },
                (None, Some(None)) => {
                    return Err("--config requires a path".to_owned());
                },
                (None, Some(Some((path, next)))) => {
                    if given.config.is_some() {
                        return Err(refuse_repeated("--config"));
                    }
                    let chars: Vec<char> = chars_of(path.as_str());
                    if chars.len() == 0 {
                        return Err("--config requires a path".to_owned());
                    }
                    given.config = Some(path);
                    i = next;
                },
                (None, None) => {
                    return Err(refuse_unknown(argument));
                },
            }
        }
    }
    Ok(given)
}

impl LaunchOptions {
    /// The options that arguments ask for; the first argument is the name of the program.
    pub fn try_parse_from(arguments: &[&str]) -> (r: Result<Self, String>)
        ensures
            match GivenView::nothing().with_arguments(suggestions::texts(arguments@), 1) {
                Ok(given) => r is Ok && r->Ok_0@ == given.completed(),
                Err(message) => r is Err && r->Err_0@ == message,
            },
    {
        match read_arguments(arguments) {
            Ok(given) => Ok(
                LaunchOptions {
                    backend: match given.backend {
                        Some(backend) => backend,
                        None => BackendKind::Winit,
                    },
                    config: given.config,
                    nested: given.nested,
                },
            ),
            Err(message) => Err(message),
        }
    }

    /// The backend to use: an older flag for the nested one comes before all else.
    pub fn effective_backend(&self) -> (r: BackendKind)
        ensures
            r == self@.effective(),
    {
        if self.nested {
            BackendKind::Winit
        } else {
            self.backend
        }
    }
}

} // verus!
