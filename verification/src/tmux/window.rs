//! Windows: creation against a session, and the window's layout operations.
//! A window and its default pane come into being atomically on the external
//! program's side; here that cycle is resolved with two-phase construction:
//! an identity-only `WindowCore` is built and registered first, and the
//! externally visible `Window`, which owns its default `Pane`, is assembled
//! afterwards. No circular ownership is needed.

use crate::paths::path_exists;
use crate::text::{trim_spec, views_of};
use crate::tmux::pane::{build_pane, Direction, Pane};
use crate::tmux::session::Session;
use crate::tmux::{
    root_option_value, targeted_command, PaneTarget, Root, RootOptions, SessionTarget, Target,
    TmuxError, WindowTarget,
};
use vstd::prelude::*;
use vstd::string::StringExecFns;

verus! {

/// A window's optional creation parameters.
#[derive(Debug)]
pub struct WindowOptions {
    pub name: Option<String>,
    pub shell_command: Option<String>,
    pub root: Root,
}

/// Accumulates a window's creation parameters against a session; the caller
/// runs the invocations this builder prepares.
#[derive(Debug)]
pub struct WindowBuilder {
    pub opts: WindowOptions,
    pub session_target: SessionTarget,
}

pub open spec fn opt_view(o: Option<String>) -> Option<Seq<char>> {
    match o {
        None => None,
        Some(s) => Some(s@),
    }
}

pub open spec fn name_options(name: Option<Seq<char>>) -> Seq<Seq<char>> {
    match name {
        None => Seq::empty(),
        Some(n) => seq!["-n"@, n],
    }
}

pub open spec fn command_options(cmd: Option<Seq<char>>) -> Seq<Seq<char>> {
    match cmd {
        None => Seq::empty(),
        Some(c) => seq![c],
    }
}

/// The option part of a window creation: the chosen name, the working
/// directory, and the shell command to run in the new window.
pub open spec fn window_creation_options(
    name: Option<Seq<char>>,
    root: RootOptions,
    cmd: Option<Seq<char>>,
) -> Seq<Seq<char>> {
    name_options(name) + seq!["-c"@, root_option_value(root)] + command_options(cmd)
}

/// The full creation invocation: targeted at the session, asking the
/// external program to print `default_pane_id|window_id` on stdout.
pub open spec fn window_create_args_spec(
    session: Seq<char>,
    name: Option<Seq<char>>,
    root: RootOptions,
    cmd: Option<Seq<char>>,
) -> Seq<Seq<char>> {
    seq!["new-window"@, "-t"@, session, "-P"@, "-F"@, "#{pane_id}|#{window_id}"@]
        + window_creation_options(name, root, cmd)
}

impl WindowBuilder {
    pub fn new(session: &Session) -> (r: Self)
        ensures
            r.session_target == session.target,
            r.opts.name is None,
            r.opts.shell_command is None,
            r.opts.root.opt() == RootOptions::Default,
    {
        let opts = WindowOptions { name: None, shell_command: None, root: Root::default() };
        Self { opts, session_target: session.target().clone() }
    }

    /// Chooses the window's name; a named window also has its auto-rename
    /// behavior locked off after creation.
    pub fn name(self, name: String) -> (r: Self)
        ensures
            r.opts.name == Some(name),
            r.opts.shell_command == self.opts.shell_command,
            r.opts.root == self.opts.root,
            r.session_target == self.session_target,
    {
        Self { opts: WindowOptions { name: Some(name), ..self.opts }, ..self }
    }

    /// Chooses an explicit root directory, accepted exactly when the probe
    /// found the path.
    pub fn root_checked(self, path: String, present: bool) -> (r: Result<Self, TmuxError>)
        ensures
            present ==> (r matches Ok(b) && b.opts.root.opt() == RootOptions::Custom(path)
                && b.opts.name == self.opts.name && b.opts.shell_command
                == self.opts.shell_command && b.session_target == self.session_target),
            !present ==> (r matches Err(TmuxError::RootNotFound { path: p }) && p == path),
    {
        if present {
            Ok(
                Self {
                    opts: WindowOptions { root: Root(RootOptions::Custom(path)), ..self.opts },
                    ..self
                },
            )
        } else {
            Err(TmuxError::RootNotFound { path })
        }
    }

    /// Chooses an explicit root directory, validated to exist on this machine.
    pub fn root(self, path: String) -> (r: Result<Self, TmuxError>)
        ensures
            r matches Ok(b) ==> (b.opts.root.opt() == RootOptions::Custom(path) && b.opts.name
                == self.opts.name && b.opts.shell_command == self.opts.shell_command
                && b.session_target == self.session_target),
            r matches Err(e) ==> (e matches TmuxError::RootNotFound { path: p } && p == path),
    {
        let present = path_exists(path.as_str());
        self.root_checked(path, present)
    }

    /// Chooses a shell command that the new window runs instead of a shell.
    pub fn raw_command(self, command: String) -> (r: Self)
        ensures
            r.opts.shell_command == Some(command),
            r.opts.name == self.opts.name,
            r.opts.root == self.opts.root,
            r.session_target == self.session_target,
    {
        Self { opts: WindowOptions { shell_command: Some(command), ..self.opts }, ..self }
    }

    /// The option part of the creation invocation.
    pub fn creation_options(&self) -> (args: Vec<String>)
        ensures
            views_of(args@) == window_creation_options(
                opt_view(self.opts.name),
                self.opts.root.opt(),
                opt_view(self.opts.shell_command),
            ),
    {
        let mut args: Vec<String> = Vec::new();
        match &self.opts.name {
            None => {},
            Some(n) => {
                args.push("-n".to_owned());
                args.push(n.clone());
            },
        }
        args.push("-c".to_owned());
        match self.opts.root.option() {
            RootOptions::Default => args.push("#{pane_current_path}".to_owned()),
            RootOptions::Custom(p) => args.push(p.clone()),
        }
        match &self.opts.shell_command {
            None => {},
            Some(c) => args.push(c.clone()),
        }
        proof {
            assert(views_of(args@) =~= window_creation_options(
                opt_view(self.opts.name),
                self.opts.root.opt(),
                opt_view(self.opts.shell_command),
            ));
        }
        args
    }

    /// The first half of `build`: refuses a session that no longer exists,
    /// and otherwise hands back the creation invocation to run.
    pub fn create_args(&self, session_exists: bool) -> (r: Result<Vec<String>, TmuxError>)
        ensures
            !session_exists ==> (r matches Err(TmuxError::TargetNotFound { address })
                && address@ == self.session_target.addr_spec()),
            session_exists ==> (r matches Ok(args) && views_of(args@)
                == window_create_args_spec(
                self.session_target.addr_spec(),
                opt_view(self.opts.name),
                self.opts.root.opt(),
                opt_view(self.opts.shell_command),
            )),
    {
        let mut args = targeted_command(&self.session_target, "new-window", session_exists)?;
        args.push("-P".to_owned());
        args.push("-F".to_owned());
        args.push("#{pane_id}|#{window_id}".to_owned());
        let mut options = self.creation_options();
        let ghost base = args@;
        let ghost opts_view = options@;
        args.append(&mut options);
        proof {
            assert(views_of(args@) =~= views_of(base) + views_of(opts_view));
            assert(views_of(base) + views_of(opts_view) =~= window_create_args_spec(
                self.session_target.addr_spec(),
                opt_view(self.opts.name),
                self.opts.root.opt(),
                opt_view(self.opts.shell_command),
            ));
        }
        Ok(args)
    }

    /// The second half of `build`: reads `default_pane_id|window_id` from
    /// the creation invocation's stdout and derives the window's and default
    /// pane's addresses from the session's, without querying the external
    /// program again.
    pub fn create_finish(&self, stdout: String) -> (r: Result<WindowCore, TmuxError>)
        ensures
            r is Ok <==> trim_spec(stdout@).contains('|'),
            r matches Ok(core) ==> {
                &&& core.wf()
                &&& core.target.sid() == self.session_target.sid()
                &&& trim_spec(stdout@) == core.default_pane_target.pid() + seq!['|']
                    + core.target.wid()
                &&& !core.default_pane_target.pid().contains('|')
            },
            r matches Err(e) ==> (e matches TmuxError::MalformedResponse { raw } && raw
                == stdout),
    {
        match crate::tmux::parse_two_fields(stdout.as_str()) {
            Some(p) => {
                let (default_pane_id, window_id) = p;
                let target = self.session_target.window_target(window_id.as_str());
                let default_pane_target = target.pane_target(default_pane_id.as_str());
                proof {
                    let t = trim_spec(stdout@);
                    assert(t[default_pane_id@.len() as int] == '|');
                    assert(t.contains('|'));
                }
                Ok(WindowCore::new(target, default_pane_target))
            },
            None => Err(TmuxError::MalformedResponse { raw: stdout }),
        }
    }

    /// The step after registration: exactly a window that was explicitly
    /// named has its auto-rename behavior locked off, so the external
    /// program cannot rename it after the running command.
    pub fn post_build_args(&self, core: &WindowCore, window_exists: bool) -> (r: Result<
        Option<Vec<String>>,
        TmuxError,
    >)
        ensures
            self.opts.name is None ==> (r matches Ok(q) && q is None),
            self.opts.name is Some && !window_exists ==> (r matches Err(
                TmuxError::TargetNotFound { address },
            ) && address@ == core.target.addr_spec()),
            self.opts.name is Some && window_exists ==> (r matches Ok(q) && q matches Some(
                args,
            ) && views_of(args@) == seq![
                "set-window-option"@,
                "-t"@,
                core.target.addr_spec(),
                "allow-rename"@,
                "off"@,
            ]),
    {
        match &self.opts.name {
            None => Ok(None),
            Some(_) => {
                let args = core.set_option_args("allow-rename", "off", window_exists)?;
                Ok(Some(args))
            },
        }
    }
}

/// A window's identity record: its own address and its default pane's,
/// known atomically from the creation response. This is the first phase of
/// window construction; registration against the session happens on it,
/// before the `Window` aggregate exists.
#[derive(Debug)]
pub struct WindowCore {
    pub target: WindowTarget,
    pub default_pane_target: PaneTarget,
}

impl Clone for WindowCore {
    fn clone(&self) -> (r: Self)
        ensures
            r == *self,
    {
        WindowCore {
            target: self.target.clone(),
            default_pane_target: self.default_pane_target.clone(),
        }
    }
}

impl WindowCore {
    pub open spec fn wf(&self) -> bool {
        &&& self.target.wf()
        &&& self.default_pane_target.wf()
        &&& self.default_pane_target.sid() == self.target.sid()
        &&& self.default_pane_target.wid() == self.target.wid()
    }

    pub fn new(target: WindowTarget, default_pane_target: PaneTarget) -> (r: Self)
        ensures
            r.target == target,
            r.default_pane_target == default_pane_target,
    {
        Self { target, default_pane_target }
    }

    /// The invocation that sets one window option to one value.
    pub fn set_option_args(&self, option: &str, value: &str, exists: bool) -> (r: Result<
        Vec<String>,
        TmuxError,
    >)
        ensures
            !exists ==> (r matches Err(TmuxError::TargetNotFound { address }) && address@
                == self.target.addr_spec()),
            exists ==> (r matches Ok(args) && views_of(args@) == seq![
                "set-window-option"@,
                "-t"@,
                self.target.addr_spec(),
                option@,
                value@,
            ]),
    {
        let mut args = targeted_command(&self.target, "set-window-option", exists)?;
        args.push(option.to_owned());
        args.push(value.to_owned());
        proof {
            assert(views_of(args@) =~= seq![
                "set-window-option"@,
                "-t"@,
                self.target.addr_spec(),
                option@,
                value@,
            ]);
        }
        Ok(args)
    }

    /// The invocation that makes this window the active one in its session.
    pub fn select_args(&self, exists: bool) -> (r: Result<Vec<String>, TmuxError>)
        ensures
            !exists ==> (r matches Err(TmuxError::TargetNotFound { address }) && address@
                == self.target.addr_spec()),
            exists ==> (r matches Ok(args) && views_of(args@) == seq![
                "select-window"@,
                "-t"@,
                self.target.addr_spec(),
            ]),
    {
        targeted_command(&self.target, "select-window", exists)
    }

    /// The invocation that re-flows all panes of this window to equal sizes
    /// along the given axis.
    pub fn even_out_args(&self, direction: Direction, exists: bool) -> (r: Result<
        Vec<String>,
        TmuxError,
    >)
        ensures
            !exists ==> (r matches Err(TmuxError::TargetNotFound { address }) && address@
                == self.target.addr_spec()),
            exists && direction is Vertical ==> (r matches Ok(args) && views_of(args@) == seq![
                "select-layout"@,
                "-t"@,
                self.target.addr_spec(),
                "even-vertical"@,
            ]),
            exists && direction is Horizontal ==> (r matches Ok(args) && views_of(args@)
                == seq![
                "select-layout"@,
                "-t"@,
                self.target.addr_spec(),
                "even-horizontal"@,
            ]),
    {
        let mut args = targeted_command(&self.target, "select-layout", exists)?;
        match direction {
            Direction::Vertical => {
                args.push("even-vertical".to_owned());
                proof {
                    assert(views_of(args@) =~= seq![
                        "select-layout"@,
                        "-t"@,
                        self.target.addr_spec(),
                        "even-vertical"@,
                    ]);
                }
            },
            Direction::Horizontal => {
                args.push("even-horizontal".to_owned());
                proof {
                    assert(views_of(args@) =~= seq![
                        "select-layout"@,
                        "-t"@,
                        self.target.addr_spec(),
                        "even-horizontal"@,
                    ]);
                }
            },
        }
        Ok(args)
    }

    /// The one-time reclamation move: this window is relocated into the slot
    /// of the session's implicit first window, destroying that window, so
    /// that exactly one window remains after the first explicit build.
    pub fn move_kill_args(&self, other: &WindowTarget, exists: bool) -> (r: Result<
        Vec<String>,
        TmuxError,
    >)
        ensures
            !exists ==> (r matches Err(TmuxError::TargetNotFound { address }) && address@
                == self.target.addr_spec()),
            exists ==> (r matches Ok(args) && views_of(args@) == seq![
                "move-window"@,
                "-t"@,
                self.target.addr_spec(),
                "-s"@,
                self.target.addr_spec(),
                "-t"@,
                other.addr_spec(),
                "-k"@,
            ]),
    {
        let mut args = targeted_command(&self.target, "move-window", exists)?;
        args.push("-s".to_owned());
        args.push(self.target.get().to_owned());
        args.push("-t".to_owned());
        args.push(other.get().to_owned());
        args.push("-k".to_owned());
        proof {
            assert(views_of(args@) =~= seq![
                "move-window"@,
                "-t"@,
                self.target.addr_spec(),
                "-s"@,
                self.target.addr_spec(),
                "-t"@,
                other.addr_spec(),
                "-k"@,
            ]);
        }
        Ok(args)
    }
}

/// The externally visible window: its identity record together with its
/// default pane. The window owns the pane; neither owns the other
/// circularly.
#[derive(Debug)]
pub struct Window {
    pub window_core: WindowCore,
    pub default_pane: Pane,
}

impl Clone for Window {
    fn clone(&self) -> (r: Self)
        ensures
            r == *self,
    {
        Window { window_core: self.window_core.clone(), default_pane: self.default_pane.clone() }
    }
}

impl Window {
    pub open spec fn wf(&self) -> bool {
        &&& self.window_core.wf()
        &&& self.default_pane.target == self.window_core.default_pane_target
    }

    /// The second construction phase: wraps an already registered identity
    /// record and its default pane into the aggregate.
    pub fn new(window_core: WindowCore) -> (r: Self)
        ensures
            r.window_core == window_core,
            r.default_pane.target == window_core.default_pane_target,
            window_core.wf() ==> r.wf(),
    {
        let default_pane = build_pane(window_core.default_pane_target.clone());
        Self { window_core, default_pane }
    }

    pub fn builder(session: &Session) -> (r: WindowBuilder)
        ensures
            r.session_target == session.target,
            r.opts.name is None,
            r.opts.shell_command is None,
            r.opts.root.opt() == RootOptions::Default,
    {
        WindowBuilder::new(session)
    }

    pub fn default_pane(&self) -> (r: Pane)
        ensures
            r == self.default_pane,
    {
        self.default_pane.clone()
    }

    /// The invocation that re-flows this window's panes to equal sizes.
    pub fn event_out(&self, direction: Direction, exists: bool) -> (r: Result<
        Vec<String>,
        TmuxError,
    >)
        ensures
            !exists ==> (r matches Err(TmuxError::TargetNotFound { address }) && address@
                == self.window_core.target.addr_spec()),
            exists && direction is Vertical ==> (r matches Ok(args) && views_of(args@) == seq![
                "select-layout"@,
                "-t"@,
                self.window_core.target.addr_spec(),
                "even-vertical"@,
            ]),
            exists && direction is Horizontal ==> (r matches Ok(args) && views_of(args@)
                == seq![
                "select-layout"@,
                "-t"@,
                self.window_core.target.addr_spec(),
                "even-horizontal"@,
            ]),
    {
        self.window_core.even_out_args(direction, exists)
    }

    /// The invocation that makes this window the active one.
    pub fn select(&self, exists: bool) -> (r: Result<Vec<String>, TmuxError>)
        ensures
            !exists ==> (r matches Err(TmuxError::TargetNotFound { address }) && address@
                == self.window_core.target.addr_spec()),
            exists ==> (r matches Ok(args) && views_of(args@) == seq![
                "select-window"@,
                "-t"@,
                self.window_core.target.addr_spec(),
            ]),
    {
        self.window_core.select_args(exists)
    }

    pub fn target(&self) -> (r: &WindowTarget)
        ensures
            *r == self.window_core.target,
    {
        &self.window_core.target
    }
}

} // verus!
