//! The multiplexer control layer: a typed object model over the external
//! program's command-line protocol. Everything that decides or computes is
//! verified here; spawning the external program is left to the caller, who
//! runs the argument vectors this module builds and hands back what came out.

pub mod pane;
pub mod session;
pub mod window;

use crate::paths::path_exists;
use crate::text::views_of;
use vstd::prelude::*;
use vstd::string::StringExecFns;

verus! {

/// The closed set of failures the control layer reports.
#[derive(Debug)]
pub enum TmuxError {
    /// The external program exited non-zero, or answered with text that is
    /// not valid.
    ExecutionFailed { args: Vec<String>, stderr: String },
    /// An existence probe failed before a targeted command was attempted.
    TargetNotFound { address: String },
    /// A session with that name is already present.
    AlreadyExists { name: String },
    /// The program's stdout did not match the expected delimited format.
    MalformedResponse { raw: String },
    /// An explicit root directory does not exist.
    RootNotFound { path: String },
    /// A percentage split size above one hundred.
    InvalidPercentage { value: u8 },
    /// The attach or switch action itself failed after being spawned.
    AttachFailed { target: String, stderr: String },
    /// The environment overrides are contradictory or hold invalid text.
    InvalidEnvironment,
}

/// What the calling process's environment shows for one variable.
#[derive(Debug)]
pub enum EnvVar {
    Unset,
    Present(String),
    Invalid,
}

/// Whether the calling process already sits inside the multiplexer.
#[derive(Clone, Copy, Debug)]
pub enum TerminalState {
    InTmux,
    Normal,
}

/// What one finished invocation of the external program came back with:
/// its exit condition and captured streams. `valid_text` reports whether
/// both streams decoded as text.
#[derive(Debug)]
pub struct CmdOutput {
    pub success: bool,
    pub valid_text: bool,
    pub stdout: String,
    pub stderr: String,
}

/// The socket-override arguments that precede every subcommand, chosen from
/// the two environment overrides: a socket name, or a socket path, never
/// both, and never invalid text.
pub fn socket_args(name: &EnvVar, path: &EnvVar) -> (r: Result<Vec<String>, TmuxError>)
    ensures
        name is Invalid || path is Invalid ==> r matches Err(TmuxError::InvalidEnvironment),
        name is Present && path is Present ==> r matches Err(TmuxError::InvalidEnvironment),
        name is Present && path is Unset ==> (r matches Ok(args) && views_of(args@)
            == seq!["-L"@, name->Present_0@]),
        name is Unset && path is Present ==> (r matches Ok(args) && views_of(args@)
            == seq!["-S"@, path->Present_0@]),
        name is Unset && path is Unset ==> (r matches Ok(args) && views_of(args@)
            == Seq::<Seq<char>>::empty()),
{
    match (name, path) {
        (EnvVar::Invalid, _) => Err(TmuxError::InvalidEnvironment),
        (_, EnvVar::Invalid) => Err(TmuxError::InvalidEnvironment),
        (EnvVar::Present(_), EnvVar::Present(_)) => Err(TmuxError::InvalidEnvironment),
        (EnvVar::Present(n), EnvVar::Unset) => {
            let mut args: Vec<String> = Vec::new();
            args.push("-L".to_owned());
            args.push(n.clone());
            proof {
                assert(views_of(args@) =~= seq!["-L"@, n@]);
            }
            Ok(args)
        },
        (EnvVar::Unset, EnvVar::Present(p)) => {
            let mut args: Vec<String> = Vec::new();
            args.push("-S".to_owned());
            args.push(p.clone());
            proof {
                assert(views_of(args@) =~= seq!["-S"@, p@]);
            }
            Ok(args)
        },
        (EnvVar::Unset, EnvVar::Unset) => {
            let args: Vec<String> = Vec::new();
            proof {
                assert(views_of(args@) =~= Seq::<Seq<char>>::empty());
            }
            Ok(args)
        },
    }
}

/// The probe that tells whether the external program's server is running:
/// it succeeds exactly when a server answers.
pub fn server_probe_args() -> (args: Vec<String>)
    ensures
        views_of(args@) == seq!["display-message"@, "-p"@, "#{socket_path}"@],
{
    let mut args: Vec<String> = Vec::new();
    args.push("display-message".to_owned());
    args.push("-p".to_owned());
    args.push("#{socket_path}".to_owned());
    proof {
        assert(views_of(args@) =~= seq!["display-message"@, "-p"@, "#{socket_path}"@]);
    }
    args
}

/// Turns one finished invocation into the command runner's contract: the
/// captured stdout on success, `ExecutionFailed` on a non-zero exit or on
/// output that is not valid text.
pub fn run_result(args: Vec<String>, out: CmdOutput) -> (r: Result<String, TmuxError>)
    ensures
        out.success && out.valid_text ==> (r matches Ok(s) && s == out.stdout),
        !(out.success && out.valid_text) ==> (r matches Err(TmuxError::ExecutionFailed {
            args: a,
            stderr: e,
        }) && a == args && e == out.stderr),
{
    if out.success && out.valid_text {
        Ok(out.stdout)
    } else {
        Err(TmuxError::ExecutionFailed { args, stderr: out.stderr })
    }
}

/// Reads a creation response: one line of the form `first|second`, taken
/// apart at the first delimiter after trimming. `None` exactly when the
/// delimiter is absent, the defensive sign of a protocol mismatch.
pub fn parse_two_fields(stdout: &str) -> (r: Option<(String, String)>)
    ensures
        match r {
            Some(p) => crate::text::trim_spec(stdout@) == p.0@ + seq!['|'] + p.1@
                && !p.0@.contains('|'),
            None => !crate::text::trim_spec(stdout@).contains('|'),
        },
{
    let trimmed = crate::text::trim_ws(stdout);
    crate::text::split_once_at(trimmed.as_str(), '|')
}

/// Either inherit the multiplexer's default working directory, or use an
/// explicit one, validated to exist when it was chosen.
#[derive(Debug)]
pub enum RootOptions {
    Default,
    Custom(String),
}

#[derive(Debug)]
pub struct Root(pub RootOptions);

impl Root {
    pub open spec fn opt(&self) -> RootOptions {
        self.0
    }

    pub fn option(&self) -> (r: &RootOptions)
        ensures
            *r == self.opt(),
    {
        &self.0
    }

    /// An explicit root, accepted exactly when the probe found the path.
    pub fn checked(path: String, present: bool) -> (r: Result<Self, TmuxError>)
        ensures
            present ==> (r matches Ok(root) && root.opt() == RootOptions::Custom(path)),
            !present ==> (r matches Err(TmuxError::RootNotFound { path: p }) && p == path),
    {
        if present {
            Ok(Root(RootOptions::Custom(path)))
        } else {
            Err(TmuxError::RootNotFound { path })
        }
    }

    /// An explicit root directory; fails with `RootNotFound` when the path
    /// does not exist on this machine.
    pub fn custom(path: String) -> (r: Result<Self, TmuxError>)
        ensures
            r matches Ok(root) ==> root.opt() == RootOptions::Custom(path),
            r matches Err(e) ==> (e matches TmuxError::RootNotFound { path: p } && p == path),
    {
        let present = path_exists(path.as_str());
        Root::checked(path, present)
    }
}

/// An explicit root is rejected exactly when its path was not found: for
/// every path, `checked` fails with `RootNotFound` carrying that path if and
/// only if the probe answered no, and otherwise yields the custom root. A
/// builder that accepted a custom root passes it through as the `-c`
/// working-directory argument of its creation invocation, which is how a
/// window or pane built with it starts in that directory.
pub proof fn lemma_missing_root_rejected(
    path: String,
    present: bool,
    r: Result<Root, TmuxError>,
)
    requires
        call_ensures(Root::checked, (path, present), r),
    ensures
        !present <==> r is Err,
        !present ==> (r matches Err(TmuxError::RootNotFound { path: p }) && p == path),
        present ==> (r matches Ok(root) && root.opt() == RootOptions::Custom(path)),
{
}

impl Default for Root {
    fn default() -> (r: Self)
        ensures
            r.opt() == RootOptions::Default,
    {
        Root(RootOptions::Default)
    }
}

/// The working-directory argument handed to a creation or split invocation:
/// an explicit root is passed through; the default asks the external program
/// to substitute the current pane's own directory, so context is inherited
/// from the session rather than from this process's environment.
pub open spec fn root_option_value(root: RootOptions) -> Seq<char> {
    match root {
        RootOptions::Default => "#{pane_current_path}"@,
        RootOptions::Custom(p) => p@,
    }
}

/// An addressing identity: its address string is exactly the external
/// program's syntax for it, and probing or targeting it builds on that
/// string alone.
pub trait Target {
    spec fn addr_spec(&self) -> Seq<char>;

    fn get(&self) -> (r: &str)
        ensures
            r@ == self.addr_spec(),
    ;
}

/// A session address: the bare session id.
#[derive(Debug)]
pub struct SessionTarget {
    pub session_id: String,
    pub target: String,
}

impl Clone for SessionTarget {
    fn clone(&self) -> (r: Self)
        ensures
            r == *self,
    {
        SessionTarget { session_id: self.session_id.clone(), target: self.target.clone() }
    }
}

/// A window address: `<session_id>:<window_id>`.
#[derive(Debug)]
pub struct WindowTarget {
    pub session_id: String,
    pub window_id: String,
    pub target: String,
}

impl Clone for WindowTarget {
    fn clone(&self) -> (r: Self)
        ensures
            r == *self,
    {
        WindowTarget {
            session_id: self.session_id.clone(),
            window_id: self.window_id.clone(),
            target: self.target.clone(),
        }
    }
}

/// A pane address: `<session_id>:<window_id>.<pane_id>`.
#[derive(Debug)]
pub struct PaneTarget {
    pub session_id: String,
    pub window_id: String,
    pub pane_id: String,
    pub target: String,
}

impl Clone for PaneTarget {
    fn clone(&self) -> (r: Self)
        ensures
            r == *self,
    {
        PaneTarget {
            session_id: self.session_id.clone(),
            window_id: self.window_id.clone(),
            pane_id: self.pane_id.clone(),
            target: self.target.clone(),
        }
    }
}

pub open spec fn window_address(sid: Seq<char>, wid: Seq<char>) -> Seq<char> {
    sid + seq![':'] + wid
}

pub open spec fn pane_address(sid: Seq<char>, wid: Seq<char>, pid: Seq<char>) -> Seq<char> {
    sid + seq![':'] + wid + seq!['.'] + pid
}

impl SessionTarget {
    pub open spec fn sid(&self) -> Seq<char> {
        self.session_id@
    }

    pub open spec fn wf(&self) -> bool {
        self.target@ == self.session_id@
    }

    pub fn new(session_id: &str) -> (r: Self)
        ensures
            r.wf(),
            r.sid() == session_id@,
    {
        Self { session_id: session_id.to_owned(), target: session_id.to_owned() }
    }

    /// Derives the address of a window of this session; pure, the external
    /// program is not consulted.
    pub fn window_target(&self, window_id: &str) -> (r: WindowTarget)
        ensures
            r.wf(),
            r.sid() == self.sid(),
            r.wid() == window_id@,
    {
        WindowTarget::new(self.session_id.clone(), window_id.to_owned())
    }
}

impl Target for SessionTarget {
    open spec fn addr_spec(&self) -> Seq<char> {
        self.target@
    }

    fn get(&self) -> (r: &str)
        ensures
            r@ == self.addr_spec(),
    {
        self.target.as_str()
    }
}

impl WindowTarget {
    pub open spec fn sid(&self) -> Seq<char> {
        self.session_id@
    }

    pub open spec fn wid(&self) -> Seq<char> {
        self.window_id@
    }

    pub open spec fn wf(&self) -> bool {
        self.target@ == window_address(self.session_id@, self.window_id@)
    }

    pub fn new(session_id: String, window_id: String) -> (r: Self)
        ensures
            r.wf(),
            r.sid() == session_id@,
            r.wid() == window_id@,
    {
        let mut target = session_id.clone();
        target.append(":");
        target.append(window_id.as_str());
        proof {
            reveal_strlit(":");
            assert(":"@ =~= seq![':']);
            assert(target@ =~= window_address(session_id@, window_id@));
        }
        Self { session_id, window_id, target }
    }

    /// Derives the address of a pane of this window; pure.
    pub fn pane_target(&self, pane_id: &str) -> (r: PaneTarget)
        ensures
            r.wf(),
            r.sid() == self.sid(),
            r.wid() == self.wid(),
            r.pid() == pane_id@,
    {
        PaneTarget::new(self.session_id.clone(), self.window_id.clone(), pane_id.to_owned())
    }
}

impl Target for WindowTarget {
    open spec fn addr_spec(&self) -> Seq<char> {
        self.target@
    }

    fn get(&self) -> (r: &str)
        ensures
            r@ == self.addr_spec(),
    {
        self.target.as_str()
    }
}

impl PaneTarget {
    pub open spec fn sid(&self) -> Seq<char> {
        self.session_id@
    }

    pub open spec fn wid(&self) -> Seq<char> {
        self.window_id@
    }

    pub open spec fn pid(&self) -> Seq<char> {
        self.pane_id@
    }

    pub open spec fn wf(&self) -> bool {
        self.target@ == pane_address(self.session_id@, self.window_id@, self.pane_id@)
    }

    pub fn new(session_id: String, window_id: String, pane_id: String) -> (r: Self)
        ensures
            r.wf(),
            r.sid() == session_id@,
            r.wid() == window_id@,
            r.pid() == pane_id@,
    {
        let mut target = session_id.clone();
        target.append(":");
        target.append(window_id.as_str());
        target.append(".");
        target.append(pane_id.as_str());
        proof {
            reveal_strlit(":");
            reveal_strlit(".");
            assert(":"@ =~= seq![':']);
            assert("."@ =~= seq!['.']);
            assert(target@ =~= pane_address(session_id@, window_id@, pane_id@));
        }
        Self { session_id, window_id, pane_id, target }
    }

    /// The address of a new pane on the same window as `sibling`: the session
    /// and window identities carry over, only the pane id is new. Used when a
    /// split produces a sibling pane.
    pub fn from_sibling(sibling: &Self, pane_id: &str) -> (r: Self)
        ensures
            r.wf(),
            r.sid() == sibling.sid(),
            r.wid() == sibling.wid(),
            r.pid() == pane_id@,
    {
        PaneTarget::new(
            sibling.session_id.clone(),
            sibling.window_id.clone(),
            pane_id.to_owned(),
        )
    }
}

impl Target for PaneTarget {
    open spec fn addr_spec(&self) -> Seq<char> {
        self.target@
    }

    fn get(&self) -> (r: &str)
        ensures
            r@ == self.addr_spec(),
    {
        self.target.as_str()
    }
}

/// The existence probe for any target: a `has-session` invocation whose exit
/// condition tells whether the address still names something.
pub fn exists_probe_args<T: Target>(t: &T) -> (args: Vec<String>)
    ensures
        views_of(args@) == seq!["has-session"@, "-t"@, t.addr_spec()],
{
    let mut args: Vec<String> = Vec::new();
    args.push("has-session".to_owned());
    args.push("-t".to_owned());
    args.push(t.get().to_owned());
    proof {
        assert(views_of(args@) =~= seq!["has-session"@, "-t"@, t.addr_spec()]);
    }
    args
}

/// A command scoped to a target, built only when the existence probe
/// answered yes: otherwise the descriptive `TargetNotFound` is returned
/// instead of the external program's bare non-zero exit.
pub fn targeted_command<T: Target>(t: &T, subcommand: &str, exists: bool) -> (r: Result<
    Vec<String>,
    TmuxError,
>)
    ensures
        !exists ==> (r matches Err(TmuxError::TargetNotFound { address }) && address@
            == t.addr_spec()),
        exists ==> (r matches Ok(args) && views_of(args@) == seq![
            subcommand@,
            "-t"@,
            t.addr_spec(),
        ] && args@.len() == 3 && args@[0]@ == subcommand@ && args@[1]@ == "-t"@ && args@[2]@
            == t.addr_spec()),
{
    if !exists {
        return Err(TmuxError::TargetNotFound { address: t.get().to_owned() });
    }
    let mut args: Vec<String> = Vec::new();
    args.push(subcommand.to_owned());
    args.push("-t".to_owned());
    args.push(t.get().to_owned());
    proof {
        assert(views_of(args@) =~= seq![subcommand@, "-t"@, t.addr_spec()]);
    }
    Ok(args)
}

} // verus!
