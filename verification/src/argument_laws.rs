//! What arguments ask for, of the compositor and of its client.

use crate::backend;
use crate::client;
use crate::client::{CameraCommand, FailureView, WindowCommand, WorkspaceCommand};
use crate::launch;
use crate::launch::{BackendKind, GivenView};
use crate::scan;
use crate::text;
use crate::wire::v1;
use vstd::prelude::*;

verus! {

/// Whether what the argument at a place asks for has been given.
pub open spec fn honoured(given: GivenView, arguments: Seq<Seq<char>>, i: int) -> bool {
    &&& arguments[i] == "--nested"@ ==> given.nested
    &&& arguments[i] == "--backend=native"@ ==> given.backend == Some(BackendKind::Native)
    &&& arguments[i] == "--backend=winit"@ ==> given.backend == Some(BackendKind::Winit)
    &&& arguments[i] == "--backend"@ ==> i + 1 < arguments.len() && ((arguments[i + 1]
        == "native"@ && given.backend == Some(BackendKind::Native)) || (arguments[i + 1]
        == "winit"@ && given.backend == Some(BackendKind::Winit)))
    &&& arguments[i] == "--config"@ ==> i + 1 < arguments.len() && given.config == Some(
        arguments[i + 1],
    )
    &&& forall|path: Seq<char>|
        arguments[i] == #[trigger] ("--config="@ + path) ==> path.len() > 0 && given.config == Some(
            path,
        )
}

/// Whether what was given later comes from an argument.
pub open spec fn asked_for(
    before: GivenView,
    given: GivenView,
    arguments: Seq<Seq<char>>,
) -> bool {
    &&& given.nested != before.nested ==> arguments.contains("--nested"@)
    &&& given.backend != before.backend ==> arguments.contains("--backend"@) || arguments.contains(
        "--backend=native"@,
    ) || arguments.contains("--backend=winit"@)
    &&& given.config != before.config ==> given.config is Some && (arguments.contains(
        given.config->0,
    ) || arguments.contains("--config="@ + given.config->0))
}

proof fn spellings()
    ensures
        "--backend"@ + "="@ + "native"@ == "--backend=native"@,
        "--backend"@ + "="@ + "winit"@ == "--backend=winit"@,
        "--config"@ + "="@ == "--config="@,
        "--backend"@ + "="@ == "--backend="@,
        "--backend="@.len() == 10 && "--backend="@[2] == 'b',
        "--config="@.len() == 9 && "--config="@[2] == 'c',
        "--nested"@.len() == 8 && "--nested"@[2] == 'n',
        "--"@.len() == 2,
        "-"@.len() == 1,
        "--backend"@.len() == 9 && "--backend"@[2] == 'b' && "--backend"@[0] == '-',
        "--config"@.len() == 8 && "--config"@[2] == 'c' && "--config"@[0] == '-',
        "--nested"@[0] == '-' && "--backend="@[0] == '-' && "--config="@[0] == '-',
        "winit"@ != "native"@,
{
    reveal_strlit("--backend");
    reveal_strlit("--config");
    reveal_strlit("--nested");
    reveal_strlit("--backend=native");
    reveal_strlit("--backend=winit");
    reveal_strlit("--backend=");
    reveal_strlit("--config=");
    reveal_strlit("=");
    reveal_strlit("native");
    reveal_strlit("winit");
    reveal_strlit("--");
    reveal_strlit("-");
    assert("--backend"@ + "="@ + "native"@ =~= "--backend=native"@);
    assert("--backend"@ + "="@ + "winit"@ =~= "--backend=winit"@);
    assert("--config"@ + "="@ =~= "--config="@);
    assert("--backend"@ + "="@ =~= "--backend="@);
    assert("winit"@.len() != "native"@.len());
}

proof fn prefixes_come_off(prefix: Seq<char>, value: Seq<char>)
    ensures
        scan::after_prefix(prefix + value, prefix) == Some(value),
{
    assert(prefix.is_prefix_of(prefix + value));
    assert((prefix + value).skip(prefix.len() as int) =~= value);
}

proof fn prefixes_go_on(argument: Seq<char>, prefix: Seq<char>)
    requires
        scan::after_prefix(argument, prefix) is Some,
    ensures
        argument == prefix + scan::after_prefix(argument, prefix)->0,
{
    assert(argument =~= prefix + argument.skip(prefix.len() as int));
}

proof fn values_are_no_options(arguments: Seq<Seq<char>>, i: int, given: GivenView)
    requires
        0 <= i < arguments.len(),
        launch::is_value(arguments[i]),
    ensures
        honoured(given, arguments, i),
{
    spellings();
    assert forall|path: Seq<char>| arguments[i] == #[trigger] ("--config="@ + path) implies false by {
        assert(("--config="@ + path)[0] == "--config="@[0]);
    }
    assert(("--backend="@ + "native"@)[0] == '-');
    assert(("--backend="@ + "winit"@)[0] == '-');
}

/// Every argument that is accepted has its effect, wherever it stands, and what had been given
/// before is not taken back.
pub proof fn options_are_honoured(
    before: GivenView,
    arguments: Seq<Seq<char>>,
    from: int,
    i: int,
)
    requires
        0 <= from <= i < arguments.len(),
        before.with_arguments(arguments, from) is Ok,
    ensures
        honoured(before.with_arguments(arguments, from)->Ok_0, arguments, i),
        ({
            let given = before.with_arguments(arguments, from)->Ok_0;
            &&& before.nested ==> given.nested
            &&& before.backend is Some ==> given.backend == before.backend
            &&& before.config is Some ==> given.config == before.config
        }),
{
    what_is_given_stays(before, arguments, from);
    options_are_honoured_from(before, arguments, from, i);
}

proof fn what_is_given_stays(before: GivenView, arguments: Seq<Seq<char>>, from: int)
    requires
        before.with_arguments(arguments, from) is Ok,
    ensures
        ({
            let given = before.with_arguments(arguments, from)->Ok_0;
            &&& before.nested ==> given.nested
            &&& before.backend is Some ==> given.backend == before.backend
            &&& before.config is Some ==> given.config == before.config
        }),
    decreases arguments.len() - from,
{
    if 0 <= from < arguments.len() && arguments[from] != "--"@ {
        if arguments[from] == "--nested"@ {
            what_is_given_stays(GivenView { nested: true, ..before }, arguments, from + 1);
        } else {
            match (
                launch::valued("--backend"@, arguments, from),
                launch::valued("--config"@, arguments, from),
            ) {
                (Some(Some((name, apart))), _) => {
                    what_is_given_stays(
                        GivenView { backend: launch::backend_named(name), ..before },
                        arguments,
                        launch::behind(from, apart),
                    );
                },
                (None, Some(Some((path, apart)))) => {
                    what_is_given_stays(
                        GivenView { config: Some(path), ..before },
                        arguments,
                        launch::behind(from, apart),
                    );
                },
                _ => {},
            }
        }
    }
}

proof fn options_are_honoured_from(
    before: GivenView,
    arguments: Seq<Seq<char>>,
    from: int,
    i: int,
)
    requires
        0 <= from <= i < arguments.len(),
        before.with_arguments(arguments, from) is Ok,
    ensures
        honoured(before.with_arguments(arguments, from)->Ok_0, arguments, i),
    decreases arguments.len() - from,
{
    spellings();
    let given = before.with_arguments(arguments, from)->Ok_0;
    let argument = arguments[from];
    prefixes_come_off("--backend="@, "native"@);
    prefixes_come_off("--backend="@, "winit"@);
    if argument == "--"@ {
        assert(i == from);
        assert forall|path: Seq<char>| argument == #[trigger] ("--config="@ + path) implies false by {
            assert(("--config="@ + path).len() > 2);
        }
        assert(("--backend="@ + "native"@).len() > 2);
        assert(("--backend="@ + "winit"@).len() > 2);
    } else if argument == "--nested"@ {
        let next = GivenView { nested: true, ..before };
        what_is_given_stays(next, arguments, from + 1);
        if i > from {
            options_are_honoured_from(next, arguments, from + 1, i);
        } else {
            assert forall|path: Seq<char>| argument == #[trigger] ("--config="@ + path) implies false by {
                assert(("--config="@ + path)[2] == 'c');
            }
            assert(("--backend="@ + "native"@)[2] == 'b');
            assert(("--backend="@ + "winit"@)[2] == 'b');
        }
    } else {
        match (
            launch::valued("--backend"@, arguments, from),
            launch::valued("--config"@, arguments, from),
        ) {
            (Some(Some((name, apart))), _) => {
                let next = GivenView { backend: launch::backend_named(name), ..before };
                let behind = launch::behind(from, apart);
                what_is_given_stays(next, arguments, behind);
                if !apart {
                    prefixes_go_on(argument, "--backend="@);
                }
                assert(argument[2] == 'b');
                if i == from {
                    assert forall|path: Seq<char>| argument == #[trigger] (
                    "--config="@ + path) implies false by {
                        assert(("--config="@ + path)[2] == 'c');
                    }
                } else if i < behind {
                    values_are_no_options(arguments, i, given);
                } else {
                    options_are_honoured_from(next, arguments, behind, i);
                }
            },
            (None, Some(Some((path, apart)))) => {
                let next = GivenView { config: Some(path), ..before };
                let behind = launch::behind(from, apart);
                what_is_given_stays(next, arguments, behind);
                if !apart {
                    prefixes_go_on(argument, "--config="@);
                }
                assert(argument[2] == 'c');
                if i == from {
                    assert(("--backend="@ + "native"@)[2] == 'b');
                    assert(("--backend="@ + "winit"@)[2] == 'b');
                    assert forall|other: Seq<char>| argument == #[trigger] (
                    "--config="@ + other) implies other.len() > 0 && given.config == Some(other) by {
                        prefixes_come_off("--config="@, other);
                        if apart {
                            assert(("--config="@ + other).len() > 8);
                        }
                    }
                } else if i < behind {
                    values_are_no_options(arguments, i, given);
                } else {
                    options_are_honoured_from(next, arguments, behind, i);
                }
            },
            _ => {},
        }
    }
}

/// Nothing is given that no argument asks for.
pub proof fn options_are_asked_for(before: GivenView, arguments: Seq<Seq<char>>, from: int)
    requires
        0 <= from,
        before.with_arguments(arguments, from) is Ok,
    ensures
        asked_for(before, before.with_arguments(arguments, from)->Ok_0, arguments),
    decreases arguments.len() - from,
{
    spellings();
    if from < arguments.len() && arguments[from] != "--"@ {
        let argument = arguments[from];
        assert(arguments.contains(argument));
        if argument == "--nested"@ {
            options_are_asked_for(GivenView { nested: true, ..before }, arguments, from + 1);
        } else {
            match (
                launch::valued("--backend"@, arguments, from),
                launch::valued("--config"@, arguments, from),
            ) {
                (Some(Some((name, apart))), _) => {
                    let next = GivenView { backend: launch::backend_named(name), ..before };
                    if !apart {
                        prefixes_go_on(argument, "--backend="@);
                    }
                    options_are_asked_for(next, arguments, launch::behind(from, apart));
                },
                (None, Some(Some((path, apart)))) => {
                    let next = GivenView { config: Some(path), ..before };
                    if !apart {
                        prefixes_go_on(argument, "--config="@);
                    } else {
                        assert(arguments.contains(arguments[from + 1]));
                    }
                    what_is_given_stays(next, arguments, launch::behind(from, apart));
                    options_are_asked_for(next, arguments, launch::behind(from, apart));
                },
                _ => {},
            }
        }
    }
}

/// The flag for the nested backend comes before the backend that was asked for.
pub proof fn nested_sessions_are_nested(options: launch::OptionsView)
    ensures
        options.nested ==> options.effective() == BackendKind::Winit,
        !options.nested ==> options.effective() == options.backend,
        GivenView::nothing().completed().backend == BackendKind::Winit,
        GivenView::nothing().completed().config is None,
{
}

/// In the plain form an argument that comes last has the last word: whatever came before, the
/// options are those, but for what it says.
pub proof fn the_last_argument_counts(
    options: backend::OptionsView,
    arguments: Seq<Seq<char>>,
    from: int,
    path: Seq<char>,
)
    requires
        0 <= from <= arguments.len(),
        options.with_arguments(arguments, from) is Ok,
    ensures
        ({
            let before = options.with_arguments(arguments, from)->Ok_0;
            let native = options.with_arguments(arguments.push("--backend=native"@), from);
            let winit = options.with_arguments(arguments.push("--backend=winit"@), from);
            let nested = options.with_arguments(arguments.push("--nested"@), from);
            let config = options.with_arguments(arguments.push("--config="@ + path), from);
            let apart = options.with_arguments(arguments.push("--config"@).push(path), from);
            &&& native is Ok && native->Ok_0.backend == BackendKind::Native
                && native->Ok_0.config_path == before.config_path
            &&& winit is Ok && winit->Ok_0.backend == BackendKind::Winit
                && winit->Ok_0.config_path == before.config_path
            &&& nested is Ok && nested->Ok_0.backend == BackendKind::Winit
                && nested->Ok_0.config_path == before.config_path
            &&& config is Ok && config->Ok_0.backend == before.backend && config->Ok_0.config_path
                == Some(path)
            &&& apart is Ok && apart->Ok_0.backend == before.backend && apart->Ok_0.config_path
                == Some(path)
        }),
    decreases arguments.len() - from,
{
    spellings();
    reveal_strlit("--backend=native");
    reveal_strlit("--backend=winit");
    let native = arguments.push("--backend=native"@);
    let winit = arguments.push("--backend=winit"@);
    let nested = arguments.push("--nested"@);
    let config = arguments.push("--config="@ + path);
    let apart = arguments.push("--config"@).push(path);
    assert(("--backend="@ + "native"@)[2] == 'b' && ("--backend="@ + "winit"@)[2] == 'b');
    assert(("--config="@ + path)[2] == 'c' && ("--config="@ + path).len() > 8);
    if from < arguments.len() {
        let argument = arguments[from];
        assert(native[from] == argument && winit[from] == argument && nested[from] == argument
            && config[from] == argument && apart[from] == argument);
        if argument == "--backend=winit"@ || argument == "--nested"@ {
            let next = backend::OptionsView { backend: BackendKind::Winit, ..options };
            the_last_argument_counts(next, arguments, from + 1, path);
        } else if argument == "--backend=native"@ {
            let next = backend::OptionsView { backend: BackendKind::Native, ..options };
            the_last_argument_counts(next, arguments, from + 1, path);
        } else if argument == "--config"@ {
            let value = arguments[from + 1];
            assert(native[from + 1] == value && winit[from + 1] == value && nested[from + 1]
                == value && config[from + 1] == value && apart[from + 1] == value);
            let next = backend::OptionsView { config_path: Some(value), ..options };
            the_last_argument_counts(next, arguments, from + 2, path);
        } else {
            let value = scan::after_prefix(argument, "--config="@);
            let next = backend::OptionsView { config_path: value, ..options };
            the_last_argument_counts(next, arguments, from + 1, path);
        }
    } else {
        prefixes_come_off("--config="@, path);
        assert("--backend=native"@.len() != "--backend=winit"@.len());
        let end = arguments.len() as int;
        assert(apart[end] == "--config"@ && apart[end + 1] == path);
        assert(native[end] == "--backend=native"@ && winit[end] == "--backend=winit"@);
        assert(nested[end] == "--nested"@ && config[end] == "--config="@ + path);
        let given = backend::OptionsView { config_path: Some(path), ..options };
        assert(given.with_arguments(apart, end + 2) == Ok::<backend::OptionsView, Seq<char>>(given));
        assert(given.with_arguments(config, end + 1) == Ok::<backend::OptionsView, Seq<char>>(
            given,
        ));
        let other = backend::OptionsView { backend: BackendKind::Native, ..options };
        assert(other.with_arguments(native, end + 1) == Ok::<backend::OptionsView, Seq<char>>(
            other,
        ));
        let usual = backend::OptionsView { backend: BackendKind::Winit, ..options };
        assert(usual.with_arguments(winit, end + 1) == Ok::<backend::OptionsView, Seq<char>>(
            usual,
        ));
        assert(usual.with_arguments(nested, end + 1) == Ok::<backend::OptionsView, Seq<char>>(
            usual,
        ));
    }
}

/// Failures of different kinds end the process with different codes, none of which says that
/// all went well.
pub proof fn failures_are_told_apart(one: FailureView, other: FailureView)
    ensures
        one.exit_code() != 0 && one.exit_code() != 1,
        one.exit_code() == other.exit_code() <==> (one is Usage && other is Usage) || (one is Ipc
            && other is Ipc) || (one is Server && other is Server) || (one is Stream
            && other is Stream),
        one is Usage && other is Ipc ==> one.exit_code() < other.exit_code(),
        one is Ipc && other is Server ==> one.exit_code() < other.exit_code(),
        one is Server && other is Stream ==> one.exit_code() < other.exit_code(),
{
}

/// Events whose sequences follow that of the snapshot without a gap are all taken in, as far as
/// numbers reach.
pub proof fn gapless_events_are_taken(start: u64, events: Seq<u64>)
    requires
        start + events.len() <= u64::MAX,
        forall|i: int| 0 <= i < events.len() ==> #[trigger] events[i] == start + 1 + i,
    ensures
        client::followed(start, events) is Some,
        start + events.len() < u64::MAX ==> client::followed(start, events) == Some(
            Some((start + events.len() + 1) as u64),
        ),
    decreases events.len(),
{
    if events.len() > 0 {
        gapless_events_are_taken(start, events.drop_last());
    }
}

/// A command without a window is about the focused one, and fails where there is none. One that
/// names its window means the same whatever is shown.
pub proof fn unnamed_windows_are_the_focused(
    mode: v1::WindowMode,
    workspace: String,
    output: Option<String>,
    activate: bool,
    snapshot: v1::SnapshotView,
    other: v1::SnapshotView,
    window: u64,
)
    ensures
        snapshot.focused_window == Some(v1::WindowId(window)) ==> {
            &&& (WindowCommand::Close { window: None }).meant(snapshot) == (WindowCommand::Close {
                window: Some(window),
            }).meant(snapshot)
            &&& (WindowCommand::Mode { mode, window: None }).meant(snapshot) == (
            WindowCommand::Mode { mode, window: Some(window) }).meant(snapshot)
            &&& (WindowCommand::Move { workspace, window: None, output, activate }).meant(snapshot)
                == (WindowCommand::Move {
                workspace,
                window: Some(window),
                output,
                activate,
            }).meant(snapshot)
        },
        snapshot.focused_window is None ==> {
            &&& (WindowCommand::Close { window: None }).meant(snapshot) is Err
            &&& (WindowCommand::Mode { mode, window: None }).meant(snapshot) is Err
            &&& (WindowCommand::Move { workspace, window: None, output, activate }).meant(
                snapshot,
            ) is Err
        },
        (WindowCommand::Close { window: Some(window) }).meant(snapshot) == Ok::<
            v1::CommandView,
            Seq<char>,
        >(v1::CommandView::CloseWindow(v1::WindowId(window))),
        (WindowCommand::Activate { window }).meant(snapshot) == Ok::<v1::CommandView, Seq<char>>(
            v1::CommandView::FocusWindow(v1::WindowId(window)),
        ),
        (WindowCommand::Mode { mode, window: Some(window) }).meant(snapshot) == Ok::<
            v1::CommandView,
            Seq<char>,
        >(v1::CommandView::SetWindowMode { window: v1::WindowId(window), mode }),
        (WindowCommand::Move { workspace, window: Some(window), output, activate }).meant(snapshot)
            == (WindowCommand::Move { workspace, window: Some(window), output, activate }).meant(
            other,
        ),
        (WindowCommand::Move { workspace, window: Some(window), output, activate }).meant(snapshot)
            matches Ok(sent) ==> (sent matches v1::CommandView::MoveWindow {
            window: moved,
            target,
            activate: shown,
        } && moved == v1::WindowId(window) && shown == activate && client::meant_workspace(
            workspace@,
            text::characters(output),
        ) == Ok::<v1::WorkspaceSelectorView, Seq<char>>(target)),
{
}

/// A command on a workspace is sent for the one that its arguments mean, with what was asked for.
pub proof fn commands_are_for_the_workspace(
    workspace: String,
    name: String,
    output: Option<String>,
    target: String,
    index: Option<u32>,
    activate: bool,
    dx: i64,
    dy: i64,
    snapshot: v1::SnapshotView,
)
    ensures
        match snapshot.workspace_meant(workspace@, text::characters(output)) {
            Ok(id) => {
                &&& (WorkspaceCommand::Rename { workspace, name, output }).meant(snapshot) == Ok::<
                    v1::CommandView,
                    Seq<char>,
                >(v1::CommandView::SetWorkspaceName { workspace: id, name: Some(name@) })
                &&& (WorkspaceCommand::ClearName { workspace, output }).meant(snapshot) == Ok::<
                    v1::CommandView,
                    Seq<char>,
                >(v1::CommandView::SetWorkspaceName { workspace: id, name: None })
                &&& (CameraCommand::Pan { dx, dy, workspace: Some(workspace), output }).meant(
                    snapshot,
                ) == Ok::<v1::CommandView, Seq<char>>(
                    v1::CommandView::PanCamera { workspace: id, dx, dy },
                )
            },
            Err(message) => {
                &&& (WorkspaceCommand::Rename { workspace, name, output }).meant(snapshot) is Err
                &&& (WorkspaceCommand::ClearName { workspace, output }).meant(snapshot) is Err
                &&& (CameraCommand::Pan { dx, dy, workspace: Some(workspace), output }).meant(
                    snapshot,
                ) is Err
            },
        },
        (WorkspaceCommand::Move { workspace, output: target, index, activate }).meant(snapshot)
            matches Ok(sent) ==> (sent matches v1::CommandView::MoveWorkspace {
            workspace: moved,
            target_output,
            target_index,
            activate: shown,
        } && snapshot.workspace_meant(workspace@, None) == Ok::<v1::WorkspaceId, Seq<char>>(moved)
            && target_index == index && shown == activate && client::meant_output(Some(target@))
            == Ok::<v1::OutputSelectorView, Seq<char>>(target_output)),
        (CameraCommand::Pan { dx, dy, workspace: None, output }).meant(snapshot) matches Ok(sent)
            ==> (sent matches v1::CommandView::PanCamera { workspace: moved, dx: x, dy: y }
            && snapshot.active_workspace() == Some(moved) && x == dx && y == dy),
{
}

} // verus!
