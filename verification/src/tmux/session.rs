//! Sessions: creation, recovery from an existing session, the attach/switch
//! state machine, and the window-reclamation counter.

use crate::text::{
    all_digits, dec_value, lemma_split_first_unique, parse_u64, split_all, trim_spec, trim_ws,
    views_of, join_with, no_part_contains,
};
use crate::paths::path_exists;
use crate::tmux::{
    targeted_command, EnvVar, Root, RootOptions, SessionTarget, Target, TerminalState, TmuxError,
    WindowTarget,
};
use vstd::prelude::*;

verus! {

/// The creation invocation for a new detached session: it asks the external
/// program to print `default_window_id|session_id` on stdout, and passes the
/// explicit root directory when one was chosen.
pub open spec fn session_create_args_spec(name: Seq<char>, root: RootOptions) -> Seq<Seq<char>> {
    let base = seq![
        "new-session"@,
        "-d"@,
        "-s"@,
        name,
        "-P"@,
        "-F"@,
        "#{window_id}|#{session_id}"@,
    ];
    match root {
        RootOptions::Default => base,
        RootOptions::Custom(p) => base + seq!["-c"@, p@],
    }
}

/// Accumulates a session's optional creation parameters; `build` (driven by
/// the caller, who runs the external program) is the only side-effecting step.
#[derive(Debug)]
pub struct SessionBuilder {
    pub root: Root,
    pub session_name: String,
}

impl SessionBuilder {
    pub fn new(session_name: String) -> (r: Self)
        ensures
            r.session_name == session_name,
            r.root.opt() == RootOptions::Default,
    {
        Self { root: Root::default(), session_name }
    }

    /// Chooses an explicit root directory, accepted exactly when the probe
    /// found the path; on rejection the builder is unchanged.
    pub fn root_checked(&mut self, path: String, present: bool) -> (r: Result<(), TmuxError>)
        ensures
            final(self).session_name == old(self).session_name,
            present ==> (r is Ok && final(self).root.opt() == RootOptions::Custom(path)),
            !present ==> (r matches Err(TmuxError::RootNotFound { path: p }) && p == path
                && final(self).root.opt() == old(self).root.opt()),
    {
        if present {
            self.root = Root(RootOptions::Custom(path));
            Ok(())
        } else {
            Err(TmuxError::RootNotFound { path })
        }
    }

    /// Chooses an explicit root directory, validated to exist on this machine.
    pub fn root(&mut self, path: String) -> (r: Result<(), TmuxError>)
        ensures
            final(self).session_name == old(self).session_name,
            r is Ok ==> final(self).root.opt() == RootOptions::Custom(path),
            r is Err ==> (r matches Err(TmuxError::RootNotFound { path: p }) && p == path
                && final(self).root.opt() == old(self).root.opt()),
    {
        let present = path_exists(path.as_str());
        self.root_checked(path, present)
    }

    /// The arguments of the creation invocation.
    pub fn creation_args(&self) -> (args: Vec<String>)
        ensures
            views_of(args@) == session_create_args_spec(self.session_name@, self.root.opt()),
    {
        let mut args: Vec<String> = Vec::new();
        args.push("new-session".to_owned());
        args.push("-d".to_owned());
        args.push("-s".to_owned());
        args.push(self.session_name.clone());
        args.push("-P".to_owned());
        args.push("-F".to_owned());
        args.push("#{window_id}|#{session_id}".to_owned());
        match self.root.option() {
            RootOptions::Default => {
                proof {
                    assert(views_of(args@) =~= session_create_args_spec(
                        self.session_name@,
                        self.root.opt(),
                    ));
                }
            },
            RootOptions::Custom(p) => {
                args.push("-c".to_owned());
                args.push(p.clone());
                proof {
                    assert(views_of(args@) =~= session_create_args_spec(
                        self.session_name@,
                        self.root.opt(),
                    ));
                }
            },
        }
        args
    }

    /// The first half of `build`: refuses a name that is already in use, and
    /// otherwise hands back the creation invocation to run. The existence
    /// answer comes from probing this builder's name as a session target.
    pub fn build_precheck(&self, exists: bool) -> (r: Result<Vec<String>, TmuxError>)
        ensures
            exists ==> (r matches Err(TmuxError::AlreadyExists { name }) && name
                == self.session_name),
            !exists ==> (r matches Ok(args) && views_of(args@) == session_create_args_spec(
                self.session_name@,
                self.root.opt(),
            )),
    {
        if exists {
            return Err(TmuxError::AlreadyExists { name: self.session_name.clone() });
        }
        Ok(self.creation_args())
    }

    /// The second half of `build`: reads `default_window_id|session_id` from
    /// the creation invocation's stdout and assembles the session, whose
    /// window counter starts at zero so that the first explicit window
    /// reclaims the implicit one.
    pub fn build_finish(&self, stdout: String) -> (r: Result<Session, TmuxError>)
        ensures
            r is Ok <==> trim_spec(stdout@).contains('|'),
            r matches Ok(s) ==> {
                &&& s.wf()
                &&& s.window_count == 0
                &&& trim_spec(stdout@) == s.default_window_target.wid() + seq!['|']
                    + s.target.sid()
                &&& !s.default_window_target.wid().contains('|')
            },
            r matches Err(e) ==> (e matches TmuxError::MalformedResponse { raw } && raw
                == stdout),
    {
        match crate::tmux::parse_two_fields(stdout.as_str()) {
            Some(p) => {
                let (default_window_id, session_id) = p;
                let target = SessionTarget::new(session_id.as_str());
                let default_window_target = target.window_target(default_window_id.as_str());
                proof {
                    let t = trim_spec(stdout@);
                    assert(t[default_window_id@.len() as int] == '|');
                    assert(t.contains('|'));
                }
                Ok(Session { window_count: 0, target, default_window_target })
            },
            None => Err(TmuxError::MalformedResponse { raw: stdout }),
        }
    }
}

/// A live session: its own address, the address of the implicitly created
/// first window, and the count of windows explicitly built against it, which
/// guards the one-time reclamation of that implicit window.
#[derive(Debug)]
pub struct Session {
    pub window_count: u64,
    pub target: SessionTarget,
    pub default_window_target: WindowTarget,
}

/// The recovery query for an existing session: it asks the external program
/// to print `default_window_id|session_id|window_count`.
pub open spec fn session_query_args_spec(identifier: Seq<char>) -> Seq<Seq<char>> {
    seq![
        "display-message"@,
        "-p"@,
        "-t"@,
        identifier,
        "#{window_id}|#{session_id}|#{session_windows}"@,
    ]
}

/// The three fields of a recovery response, read off the trimmed stdout.
pub open spec fn recovery_fields(
    t: Seq<char>,
    wid: Seq<char>,
    sid: Seq<char>,
    count: Seq<char>,
) -> bool {
    &&& t == wid + seq!['|'] + sid + seq!['|'] + count
    &&& !wid.contains('|')
    &&& !sid.contains('|')
}

/// Whether a recovery response is well-formed: three delimited fields whose
/// last is a decimal count within range.
pub open spec fn recovery_response_ok(t: Seq<char>) -> bool {
    exists|wid: Seq<char>, sid: Seq<char>, count: Seq<char>|
        {
            &&& #[trigger] recovery_fields(t, wid, sid, count)
            &&& count.len() > 0
            &&& all_digits(count)
            &&& dec_value(count) <= u64::MAX
        }
}

impl Session {
    pub open spec fn wf(&self) -> bool {
        &&& self.target.wf()
        &&& self.default_window_target.wf()
        &&& self.default_window_target.sid() == self.target.sid()
    }

    /// The first half of recovery: refuses an identifier that names no
    /// session, and otherwise hands back the query to run.
    pub fn from_precheck(identifier: &str, exists: bool) -> (r: Result<Vec<String>, TmuxError>)
        ensures
            !exists ==> (r matches Err(TmuxError::TargetNotFound { address }) && address@
                == identifier@),
            exists ==> (r matches Ok(args) && views_of(args@) == session_query_args_spec(
                identifier@,
            )),
    {
        if !exists {
            return Err(TmuxError::TargetNotFound { address: identifier.to_owned() });
        }
        let mut args: Vec<String> = Vec::new();
        args.push("display-message".to_owned());
        args.push("-p".to_owned());
        args.push("-t".to_owned());
        args.push(identifier.to_owned());
        args.push("#{window_id}|#{session_id}|#{session_windows}".to_owned());
        proof {
            assert(views_of(args@) =~= session_query_args_spec(identifier@));
        }
        Ok(args)
    }

    /// The second half of recovery: reads the three-field response and
    /// assembles the session with its current window count.
    pub fn from_finish(stdout: String) -> (r: Result<Session, TmuxError>)
        ensures
            r is Ok <==> recovery_response_ok(trim_spec(stdout@)),
            r matches Ok(s) ==> {
                &&& s.wf()
                &&& exists|count: Seq<char>|
                    {
                        &&& #[trigger] recovery_fields(
                            trim_spec(stdout@),
                            s.default_window_target.wid(),
                            s.target.sid(),
                            count,
                        )
                        &&& all_digits(count)
                        &&& s.window_count == dec_value(count)
                    }
            },
            r matches Err(e) ==> (e matches TmuxError::MalformedResponse { raw } && raw
                == stdout),
    {
        let trimmed = trim_ws(stdout.as_str());
        let ghost t = trim_spec(stdout@);
        match crate::text::split_once_at(trimmed.as_str(), '|') {
            Some(p1) => {
                let (wid, rest) = p1;
                match crate::text::split_once_at(rest.as_str(), '|') {
                    Some(p2) => {
                        let (sid, count_text) = p2;
                        match parse_u64(count_text.as_str()) {
                            Some(count) => {
                                let target = SessionTarget::new(sid.as_str());
                                let default_window_target = target.window_target(wid.as_str());
                                proof {
                                    assert(t =~= wid@ + seq!['|'] + sid@ + seq!['|']
                                        + count_text@);
                                    assert(recovery_fields(t, wid@, sid@, count_text@));
                                }
                                Ok(
                                    Session {
                                        window_count: count,
                                        target,
                                        default_window_target,
                                    },
                                )
                            },
                            None => {
                                proof {
                                    assert(t =~= wid@ + seq!['|'] + sid@ + seq!['|']
                                        + count_text@);
                                    assert(recovery_fields(t, wid@, sid@, count_text@));
                                    lemma_recovery_parse_unique(t, wid@, sid@, count_text@);
                                }
                                Err(TmuxError::MalformedResponse { raw: stdout })
                            },
                        }
                    },
                    None => {
                        proof {
                            if recovery_response_ok(t) {
                                let (w2, s2, c2) = choose|w2: Seq<char>, s2: Seq<char>, c2: Seq<
                                    char,
                                >| #[trigger] recovery_fields(t, w2, s2, c2) && c2.len() > 0
                                    && all_digits(c2) && dec_value(c2) <= u64::MAX;
                                assert(w2 + seq!['|'] + s2 + seq!['|'] + c2 =~= w2
                                    + seq!['|'] + (s2 + seq!['|'] + c2));
                                lemma_split_first_unique(
                                    wid@,
                                    rest@,
                                    w2,
                                    s2 + seq!['|'] + c2,
                                    '|',
                                );
                                assert(rest@[s2.len() as int] == '|');
                                assert(rest@.contains('|'));
                            }
                        }
                        Err(TmuxError::MalformedResponse { raw: stdout })
                    },
                }
            },
            None => {
                proof {
                    if recovery_response_ok(t) {
                        let (w2, s2, c2) = choose|w2: Seq<char>, s2: Seq<char>, c2: Seq<char>|
                            #[trigger] recovery_fields(t, w2, s2, c2) && c2.len() > 0
                                && all_digits(c2) && dec_value(c2) <= u64::MAX;
                        assert(t[w2.len() as int] == '|');
                        assert(t.contains('|'));
                    }
                }
                Err(TmuxError::MalformedResponse { raw: stdout })
            },
        }
    }

    /// Reads the environment marker: present means the calling process is
    /// already inside the multiplexer. Re-evaluated per call, never cached.
    pub fn terminal_state(marker: &EnvVar) -> (r: Result<TerminalState, TmuxError>)
        ensures
            marker is Present ==> (r matches Ok(s) && s is InTmux),
            marker is Unset ==> (r matches Ok(s) && s is Normal),
            marker is Invalid ==> r matches Err(TmuxError::InvalidEnvironment),
    {
        match marker {
            EnvVar::Present(_) => Ok(TerminalState::InTmux),
            EnvVar::Unset => Ok(TerminalState::Normal),
            EnvVar::Invalid => Err(TmuxError::InvalidEnvironment),
        }
    }

    /// The foreground session's name is asked for only when the server runs
    /// and the caller sits inside the multiplexer; otherwise there is no
    /// active session, which is a valid state, not a failure.
    pub fn active_name_plan(server_running: bool, marker: &EnvVar) -> (r: Result<
        Option<Vec<String>>,
        TmuxError,
    >)
        ensures
            !server_running ==> (r matches Ok(q) && q is None),
            server_running && marker is Unset ==> (r matches Ok(q) && q is None),
            server_running && marker is Present ==> (r matches Ok(q) && q matches Some(args)
                && views_of(args@) == seq!["display-message"@, "-p"@, "#{session_name}"@]),
            server_running && marker is Invalid ==> r matches Err(
                TmuxError::InvalidEnvironment,
            ),
    {
        if !server_running {
            return Ok(None);
        }
        match Self::terminal_state(marker)? {
            TerminalState::Normal => Ok(None),
            TerminalState::InTmux => {
                let mut args: Vec<String> = Vec::new();
                args.push("display-message".to_owned());
                args.push("-p".to_owned());
                args.push("#{session_name}".to_owned());
                proof {
                    assert(views_of(args@) =~= seq![
                        "display-message"@,
                        "-p"@,
                        "#{session_name}"@,
                    ]);
                }
                Ok(Some(args))
            },
        }
    }

    /// The name in the query's answer, with the line ending removed.
    pub fn active_name_finish(stdout: String) -> (name: String)
        ensures
            name@ == trim_spec(stdout@),
    {
        trim_ws(stdout.as_str())
    }

    /// All session names are listed only when the server runs; a stopped
    /// server means an empty listing, not a failure.
    pub fn list_sessions_plan(server_running: bool) -> (r: Option<Vec<String>>)
        ensures
            !server_running ==> r is None,
            server_running ==> (r matches Some(args) && views_of(args@) == seq![
                "list-sessions"@,
                "-F"@,
                "#{session_name}"@,
            ]),
    {
        if !server_running {
            return None;
        }
        let mut args: Vec<String> = Vec::new();
        args.push("list-sessions".to_owned());
        args.push("-F".to_owned());
        args.push("#{session_name}".to_owned());
        proof {
            assert(views_of(args@) =~= seq!["list-sessions"@, "-F"@, "#{session_name}"@]);
        }
        Some(args)
    }

    /// One session name per line of the listing's answer.
    pub fn list_sessions_finish(stdout: String) -> (names: Vec<String>)
        ensures
            trim_spec(stdout@).len() == 0 ==> names@.len() == 0,
            trim_spec(stdout@).len() > 0 ==> {
                &&& names@.len() >= 1
                &&& join_with(views_of(names@), '\n') == trim_spec(stdout@)
                &&& no_part_contains(views_of(names@), '\n')
            },
    {
        let trimmed = trim_ws(stdout.as_str());
        if trimmed.as_str().unicode_len() == 0 {
            Vec::new()
        } else {
            split_all(trimmed.as_str(), '\n')
        }
    }

    /// The attach/switch state machine: already inside the multiplexer, the
    /// client is switched to this session; outside it, the session is
    /// attached, which blocks until the user detaches. Either way the target
    /// is probed first.
    pub fn attach_args(&self, state: TerminalState, exists: bool) -> (r: Result<
        Vec<String>,
        TmuxError,
    >)
        ensures
            !exists ==> (r matches Err(TmuxError::TargetNotFound { address }) && address@
                == self.target.addr_spec()),
            exists && state is InTmux ==> (r matches Ok(args) && views_of(args@) == seq![
                "switch-client"@,
                "-t"@,
                self.target.addr_spec(),
            ]),
            exists && state is Normal ==> (r matches Ok(args) && views_of(args@) == seq![
                "attach-session"@,
                "-t"@,
                self.target.addr_spec(),
            ]),
    {
        match state {
            TerminalState::InTmux => targeted_command(&self.target, "switch-client", exists),
            TerminalState::Normal => targeted_command(&self.target, "attach-session", exists),
        }
    }

    /// Reads the attach invocation's outcome: on a non-zero exit the captured
    /// stderr is surfaced as `AttachFailed` for this target.
    pub fn attach_finish(&self, success: bool, stderr: String) -> (r: Result<(), TmuxError>)
        ensures
            success ==> r is Ok,
            !success ==> (r matches Err(TmuxError::AttachFailed { target, stderr: e })
                && target@ == self.target.addr_spec() && e == stderr),
    {
        if success {
            Ok(())
        } else {
            Err(TmuxError::AttachFailed { target: self.target.get().to_owned(), stderr })
        }
    }

    /// The atomically-guarded compare-and-increment behind window
    /// registration: exactly the first registered window learns that it must
    /// reclaim the session's implicit window. Exclusive access to the session
    /// makes the check and the increment one step.
    pub fn register_window(&mut self) -> (reclaim: bool)
        requires
            old(self).window_count < u64::MAX,
        ensures
            final(self).window_count == old(self).window_count + 1,
            final(self).target == old(self).target,
            final(self).default_window_target == old(self).default_window_target,
            reclaim <==> old(self).window_count == 0,
    {
        let first = self.window_count == 0;
        self.window_count = self.window_count + 1;
        first
    }

    pub fn target(&self) -> (r: &SessionTarget)
        ensures
            *r == self.target,
    {
        &self.target
    }
}

/// A name that is already in use is always refused: every outcome of
/// `build_precheck` against a positive existence probe is the `AlreadyExists`
/// failure for that name, and no creation invocation is handed out.
pub proof fn lemma_existing_name_always_rejected(
    b: &SessionBuilder,
    r: Result<Vec<String>, TmuxError>,
)
    requires
        call_ensures(SessionBuilder::build_precheck, (b, true), r),
    ensures
        r matches Err(TmuxError::AlreadyExists { name }) && name == b.session_name,
{
}

/// A name that is not in use is never refused: every outcome of
/// `build_precheck` against a negative existence probe is the creation
/// invocation, and every well-formed creation response then yields the
/// session, whose address is exactly the id the external program answered
/// with. (That the created session thereafter probes as existing is the
/// external program's side of the contract.)
pub proof fn lemma_fresh_name_always_builds(
    b: &SessionBuilder,
    pre: Result<Vec<String>, TmuxError>,
    stdout: String,
    fin: Result<Session, TmuxError>,
)
    requires
        call_ensures(SessionBuilder::build_precheck, (b, false), pre),
        call_ensures(SessionBuilder::build_finish, (b, stdout), fin),
        trim_spec(stdout@).contains('|'),
    ensures
        pre is Ok,
        fin matches Ok(s) && s.wf() && s.window_count == 0,
{
}

/// Recovering a session from an identifier that names none always fails with
/// `TargetNotFound` for that identifier, and no invocation of any kind is
/// handed out, so nothing is created as a side effect.
pub proof fn lemma_unknown_identifier_never_recovers(
    identifier: &str,
    r: Result<Vec<String>, TmuxError>,
)
    requires
        call_ensures(Session::from_precheck, (identifier, false), r),
    ensures
        r matches Err(TmuxError::TargetNotFound { address }) && address@ == identifier@,
{
}

/// Inside the multiplexer the session is brought to the foreground with
/// `switch-client`, never `attach-session`: every attach invocation prepared
/// under the `InTmux` state carries that subcommand.
pub proof fn lemma_attach_in_tmux_switches(
    s: &Session,
    r: Result<Vec<String>, TmuxError>,
)
    requires
        call_ensures(Session::attach_args, (s, TerminalState::InTmux, true), r),
    ensures
        r matches Ok(args) && args@.len() > 0 && views_of(args@)[0] == "switch-client"@,
{
    match r {
        Ok(args) => {
            assert(views_of(args@).len() == 3);
            assert(args@.len() == 3);
        },
        Err(_) => {},
    }
}

proof fn lemma_counts_run_up(counts: Seq<u64>, i: int)
    requires
        counts.len() >= 1,
        counts[0] == 0,
        forall|j: int| 0 <= j < counts.len() - 1 ==> #[trigger] counts[j + 1] == counts[j]
            + 1,
        0 <= i < counts.len(),
    ensures
        counts[i] == i,
    decreases i,
{
    if i > 0 {
        lemma_counts_run_up(counts, i - 1);
        assert(counts[(i - 1) + 1] == counts[i - 1] + 1);
    }
}

/// Exactly the first window built against a fresh session reclaims the
/// implicit window. The premises are the shape of `register_window`'s
/// contract: starting from a zero counter, each registration increments it
/// by one and answers "reclaim" exactly on a zero counter; then the first
/// registration, and only the first, reclaims, and after `n` registrations
/// the counter reads `n` — one window each.
pub proof fn lemma_single_reclamation(counts: Seq<u64>, reclaims: Seq<bool>)
    requires
        counts.len() == reclaims.len() + 1,
        counts[0] == 0,
        forall|i: int| 0 <= i < reclaims.len() ==> #[trigger] counts[i + 1] == counts[i] + 1,
        forall|i: int| 0 <= i < reclaims.len() ==> ((#[trigger] reclaims[i]) <==> counts[i]
            == 0),
    ensures
        forall|i: int| 0 <= i < reclaims.len() ==> ((#[trigger] reclaims[i]) <==> i == 0),
        forall|i: int| 0 <= i < counts.len() ==> #[trigger] counts[i] == i,
{
    assert forall|i: int| 0 <= i < counts.len() implies #[trigger] counts[i] == i by {
        lemma_counts_run_up(counts, i);
    }
}

/// A malformed count field admits no well-formed reading of the response:
/// the three fields of `recovery_fields` are unique, so a failed number
/// parse rules out every decomposition.
proof fn lemma_recovery_parse_unique(
    t: Seq<char>,
    wid: Seq<char>,
    sid: Seq<char>,
    count: Seq<char>,
)
    requires
        recovery_fields(t, wid, sid, count),
        !(count.len() > 0 && all_digits(count) && dec_value(count) <= u64::MAX),
    ensures
        !recovery_response_ok(t),
{
    if recovery_response_ok(t) {
        let (w2, s2, c2) = choose|w2: Seq<char>, s2: Seq<char>, c2: Seq<char>|
            #[trigger] recovery_fields(t, w2, s2, c2) && c2.len() > 0 && all_digits(c2)
                && dec_value(c2) <= u64::MAX;
        assert(wid + seq!['|'] + sid + seq!['|'] + count =~= wid + seq!['|'] + (sid
            + seq!['|'] + count));
        assert(w2 + seq!['|'] + s2 + seq!['|'] + c2 =~= w2 + seq!['|'] + (s2 + seq!['|']
            + c2));
        lemma_split_first_unique(wid, sid + seq!['|'] + count, w2, s2 + seq!['|'] + c2, '|');
        lemma_split_first_unique(sid, count, s2, c2, '|');
    }
}

} // verus!
