//! The plain form of the arguments: the last of several that say different things counts.

use crate::launch;
use crate::launch::{is, refuse_unknown, BackendKind};
use crate::scan;
use crate::scan::{strip_prefix, text_of};
use crate::suggestions;
use crate::text;
use crate::text::chars_of;
use vstd::prelude::*;

verus! {

#[derive(Debug, Eq, PartialEq)]
pub struct LaunchOptions {
    pub backend: BackendKind,
    /// The path of the configuration file.
    pub config_path: Option<String>,
}

#[verifier::ext_equal]
pub struct OptionsView {
    pub backend: BackendKind,
    pub config_path: Option<Seq<char>>,
}

impl View for LaunchOptions {
    type V = OptionsView;

    open spec fn view(&self) -> OptionsView {
        OptionsView { backend: self.backend, config_path: text::characters(self.config_path) }
    }
}

impl OptionsView {
    pub open spec fn initial() -> Self {
        OptionsView { backend: BackendKind::Winit, config_path: None }
    }

    /// The options after the arguments from a place on.
    pub open spec fn with_arguments(self, arguments: Seq<Seq<char>>, from: int) -> Result<
        Self,
        Seq<char>,
    >
        decreases arguments.len() - from,
    {
        if from < 0 || from >= arguments.len() {
            Ok(self)
        } else {
            let argument = arguments[from];
            if argument == "--backend=winit"@ || argument == "--nested"@ {
                OptionsView { backend: BackendKind::Winit, ..self }.with_arguments(
                    arguments,
                    from + 1,
                )
            } else if argument == "--backend=native"@ {
                OptionsView { backend: BackendKind::Native, ..self }.with_arguments(
                    arguments,
                    from + 1,
                )
            } else if argument == "--config"@ {
                if from + 1 < arguments.len() {
                    OptionsView { config_path: Some(arguments[from + 1]), ..self }.with_arguments(
                        arguments,
                        from + 2,
                    )
                } else {
                    Err("--config requires a path"@)
                }
            } else {
                match scan::after_prefix(argument, "--config="@) {
                    Some(path) => OptionsView { config_path: Some(path), ..self }.with_arguments(
                        arguments,
                        from + 1,
                    ),
                    None => Err(launch::unknown_argument(argument)),
                }
            }
        }
    }
}

impl LaunchOptions {
    /// The options that arguments ask for; the first argument is the name of the program.
    pub fn from_args(arguments: &[&str]) -> (r: Result<Self, String>)
        ensures
            match OptionsView::initial().with_arguments(suggestions::texts(arguments@), 1) {
                Ok(options) => r is Ok && r->Ok_0@ == options,
                Err(message) => r is Err && r->Err_0@ == message,
            },
    {
        let ghost all = suggestions::texts(arguments@);
        let ghost goal = OptionsView::initial().with_arguments(all, 1);
        let mut options = LaunchOptions { backend: BackendKind::Winit, config_path: None };
        if arguments.len() == 0 {
            return Ok(options);
        }
        let mut i: usize = 1;
        while i < arguments.len()
            invariant
                1 <= i <= arguments@.len(),
                all == suggestions::texts(arguments@),
                goal == OptionsView::initial().with_arguments(all, 1),
                goal == options@.with_arguments(all, i as int),
            decreases arguments@.len() - i,
        {
            let argument: &str = arguments[i];
            assert(all[i as int] == argument@);
            if is(argument, "--backend=winit") || is(argument, "--nested") {
                options.backend = BackendKind::Winit;
            } else if is(argument, "--backend=native") {
                options.backend = BackendKind::Native;
            } else if is(argument, "--config") {
                if arguments.len() - i <= 1 {
                    return Err("--config requires a path".to_owned());
                }
                i = i + 1;
                assert(all[i as int] == arguments@[i as int]@);
                options.config_path = Some(arguments[i].to_owned());
            } else {
                let chars: Vec<char> = chars_of(argument);
                match strip_prefix(&chars, "--config=") {
                    Some(path) => {
                        options.config_path = Some(text_of(path.as_slice()));
                    },
                    None => {
                        return Err(refuse_unknown(argument));
                    },
                }
            }
            i = i + 1;
        }
        Ok(options)
    }
}

} // verus!
