//! Panes: splitting an existing pane, selection, and keystroke injection.

use crate::paths::path_exists;
use crate::text::{dec_digits, fmt_u64, trim_spec, trim_ws, views_of};
use crate::tmux::{
    root_option_value, targeted_command, PaneTarget, Root, RootOptions, Target, TmuxError,
};
use vstd::prelude::*;
use vstd::string::StringExecFns;

verus! {

/// The axis of a split or of a layout re-flow.
#[derive(Debug, Copy, Clone, PartialEq, Eq, Structural, Hash)]
pub enum Direction {
    Horizontal,
    Vertical,
}

/// A split's size: a percentage of the window (at most one hundred), or an
/// absolute cell count. Percentages above one hundred are a validation
/// error, not a clamp, and are caught at build time.
#[derive(Debug, Copy, Clone, PartialEq, Eq, Structural, Hash)]
pub enum SplitSize {
    Percentage(u8),
    Absolute(u32),
}

/// A split's optional parameters.
#[derive(Debug)]
pub struct SplitOptions {
    pub direction: Direction,
    pub root: Root,
    pub size: Option<SplitSize>,
}

/// Accumulates a split's parameters against the pane being split; the caller
/// runs the invocation this builder prepares.
#[derive(Debug)]
pub struct SplitBuilder {
    pub opts: SplitOptions,
    pub sibling_target: PaneTarget,
}

pub open spec fn direction_flag(d: Direction) -> Seq<char> {
    match d {
        Direction::Vertical => "-v"@,
        Direction::Horizontal => "-h"@,
    }
}

/// The size arguments passed through to the external program: a percentage
/// is written with a trailing percent sign, an absolute count bare.
pub open spec fn size_options_spec(size: SplitSize) -> Seq<Seq<char>> {
    match size {
        SplitSize::Percentage(p) => seq!["-l"@, dec_digits(p as int) + seq!['%']],
        SplitSize::Absolute(a) => seq!["-l"@, dec_digits(a as int)],
    }
}

pub open spec fn size_part(size: Option<SplitSize>) -> Seq<Seq<char>> {
    match size {
        None => Seq::empty(),
        Some(s) => size_options_spec(s),
    }
}

/// Whether the chosen size passes validation.
pub open spec fn split_size_ok(size: Option<SplitSize>) -> bool {
    match size {
        Some(SplitSize::Percentage(p)) => p <= 100,
        _ => true,
    }
}

/// The full split invocation: targeted at the sibling pane, asking for the
/// new pane's id on stdout, with direction, size and root directory.
pub open spec fn split_args_spec(
    sibling: Seq<char>,
    d: Direction,
    size: Option<SplitSize>,
    root: RootOptions,
) -> Seq<Seq<char>> {
    seq!["split-window"@, "-t"@, sibling, "-P"@, "-F"@, "#{pane_id}"@, direction_flag(d)]
        + size_part(size) + seq!["-c"@, root_option_value(root)]
}

impl SplitBuilder {
    pub(crate) fn new(sibling_target: PaneTarget, direction: Direction) -> (r: Self)
        ensures
            r.sibling_target == sibling_target,
            r.opts.direction == direction,
            r.opts.size is None,
            r.opts.root.opt() == RootOptions::Default,
    {
        Self {
            opts: SplitOptions { direction, size: None, root: Root::default() },
            sibling_target,
        }
    }

    /// Chooses a size; it is validated at build time, not here, so a builder
    /// can be constructed once and reused to probe a boundary.
    pub fn size(self, size: SplitSize) -> (r: Self)
        ensures
            r.opts.size == Some(size),
            r.opts.direction == self.opts.direction,
            r.opts.root == self.opts.root,
            r.sibling_target == self.sibling_target,
    {
        Self { opts: SplitOptions { size: Some(size), ..self.opts }, ..self }
    }

    /// Chooses an explicit root directory, accepted exactly when the probe
    /// found the path.
    pub fn root_checked(self, path: String, present: bool) -> (r: Result<Self, TmuxError>)
        ensures
            present ==> (r matches Ok(b) && b.opts.root.opt() == RootOptions::Custom(path)
                && b.opts.direction == self.opts.direction && b.opts.size == self.opts.size
                && b.sibling_target == self.sibling_target),
            !present ==> (r matches Err(TmuxError::RootNotFound { path: p }) && p == path),
    {
        if present {
            Ok(Self { opts: SplitOptions { root: Root(RootOptions::Custom(path)), ..self.opts }, ..self })
        } else {
            Err(TmuxError::RootNotFound { path })
        }
    }

    /// Chooses an explicit root directory, validated to exist on this machine.
    pub fn root(self, path: String) -> (r: Result<Self, TmuxError>)
        ensures
            r matches Ok(b) ==> (b.opts.root.opt() == RootOptions::Custom(path)
                && b.opts.direction == self.opts.direction && b.opts.size == self.opts.size
                && b.sibling_target == self.sibling_target),
            r matches Err(e) ==> (e matches TmuxError::RootNotFound { path: p } && p == path),
    {
        let present = path_exists(path.as_str());
        self.root_checked(path, present)
    }

    /// The first half of `build`: refuses a stale sibling or a percentage
    /// above one hundred, and otherwise hands back the split invocation.
    /// A percentage builds successfully exactly when it is at most one
    /// hundred.
    pub fn split_args(&self, sibling_exists: bool) -> (r: Result<Vec<String>, TmuxError>)
        ensures
            !sibling_exists ==> (r matches Err(TmuxError::TargetNotFound { address })
                && address@ == self.sibling_target.addr_spec()),
            sibling_exists && !split_size_ok(self.opts.size) ==> (r matches Err(
                TmuxError::InvalidPercentage { value },
            ) && Some(SplitSize::Percentage(value)) == self.opts.size),
            sibling_exists && split_size_ok(self.opts.size) ==> (r matches Ok(args)
                && views_of(args@) == split_args_spec(
                self.sibling_target.addr_spec(),
                self.opts.direction,
                self.opts.size,
                self.opts.root.opt(),
            )),
    {
        let mut args = targeted_command(&self.sibling_target, "split-window", sibling_exists)?;
        args.push("-P".to_owned());
        args.push("-F".to_owned());
        args.push("#{pane_id}".to_owned());
        match self.opts.direction {
            Direction::Vertical => args.push("-v".to_owned()),
            Direction::Horizontal => args.push("-h".to_owned()),
        }
        match &self.opts.size {
            None => {},
            Some(SplitSize::Percentage(p)) => {
                if *p > 100 {
                    return Err(TmuxError::InvalidPercentage { value: *p });
                }
                args.push("-l".to_owned());
                let mut amount = fmt_u64(*p as u64);
                amount.append("%");
                proof {
                    reveal_strlit("%");
                    assert("%"@ =~= seq!['%']);
                }
                args.push(amount);
            },
            Some(SplitSize::Absolute(a)) => {
                args.push("-l".to_owned());
                args.push(fmt_u64(*a as u64));
            },
        }
        args.push("-c".to_owned());
        match self.opts.root.option() {
            RootOptions::Default => args.push("#{pane_current_path}".to_owned()),
            RootOptions::Custom(p) => args.push(p.clone()),
        }
        proof {
            assert(views_of(args@) =~= split_args_spec(
                self.sibling_target.addr_spec(),
                self.opts.direction,
                self.opts.size,
                self.opts.root.opt(),
            ));
        }
        Ok(args)
    }

    /// The second half of `build`: the invocation's stdout holds the new
    /// pane's bare id, and the new pane sits on the sibling's window.
    pub fn build_finish(&self, stdout: String) -> (p: Pane)
        ensures
            p.target.wf(),
            p.target.sid() == self.sibling_target.sid(),
            p.target.wid() == self.sibling_target.wid(),
            p.target.pid() == trim_spec(stdout@),
    {
        let pane_id = trim_ws(stdout.as_str());
        let target = PaneTarget::from_sibling(&self.sibling_target, pane_id.as_str());
        build_pane(target)
    }
}

/// A percentage builds successfully exactly when it is at most one hundred:
/// for every split builder sized with `Percentage(p)` whose sibling still
/// exists, the split invocation is handed out if and only if `p <= 100`,
/// and above that bound the failure is `InvalidPercentage` carrying `p` —
/// a validation error, never a clamp.
pub proof fn lemma_percentage_bound(
    b: &SplitBuilder,
    p: u8,
    r: Result<Vec<String>, TmuxError>,
)
    requires
        b.opts.size == Some(SplitSize::Percentage(p)),
        call_ensures(SplitBuilder::split_args, (b, true), r),
    ensures
        p <= 100 <==> r is Ok,
        p > 100 ==> (r matches Err(TmuxError::InvalidPercentage { value }) && value == p),
{
}

/// A pane produced by a split sits on the very window of the pane it was
/// split from: its address shares the sibling's session and window
/// identities, and only the pane id is the one the external program
/// answered. So the existence probes of the new pane and of its sibling
/// address the same window. (That both probes answer yes right after the
/// split is the external program's side of the contract.)
pub proof fn lemma_split_stays_on_window(b: &SplitBuilder, stdout: String, p: Pane)
    requires
        call_ensures(SplitBuilder::build_finish, (b, stdout), p),
    ensures
        p.target.wf(),
        p.target.sid() == b.sibling_target.sid(),
        p.target.wid() == b.sibling_target.wid(),
{
}

/// A pane, addressed through its window and session.
#[derive(Debug)]
pub struct Pane {
    pub target: PaneTarget,
}

impl Clone for Pane {
    fn clone(&self) -> (r: Self)
        ensures
            r == *self,
    {
        Pane { target: self.target.clone() }
    }
}

pub fn build_pane(target: PaneTarget) -> (p: Pane)
    ensures
        p.target == target,
{
    Pane { target }
}

impl Pane {
    /// Starts a split of this pane along the given axis; pure until the
    /// builder's invocation is run.
    pub fn split(&self, direction: Direction) -> (r: SplitBuilder)
        ensures
            r.sibling_target == self.target,
            r.opts.direction == direction,
            r.opts.size is None,
            r.opts.root.opt() == RootOptions::Default,
    {
        SplitBuilder::new(self.target.clone(), direction)
    }

    /// The invocation that makes this pane the active one.
    pub fn select(&self, exists: bool) -> (r: Result<Vec<String>, TmuxError>)
        ensures
            !exists ==> (r matches Err(TmuxError::TargetNotFound { address }) && address@
                == self.target.addr_spec()),
            exists ==> (r matches Ok(args) && views_of(args@) == seq![
                "select-pane"@,
                "-t"@,
                self.target.addr_spec(),
            ]),
    {
        targeted_command(&self.target, "select-pane", exists)
    }

    /// The invocation that types `command` into the pane followed by the
    /// activation keystroke: raw keystroke injection, with no shell escaping
    /// beyond what the external program gives.
    pub fn run_command(&self, command: &str, exists: bool) -> (r: Result<Vec<String>, TmuxError>)
        ensures
            !exists ==> (r matches Err(TmuxError::TargetNotFound { address }) && address@
                == self.target.addr_spec()),
            exists ==> (r matches Ok(args) && views_of(args@) == seq![
                "send-keys"@,
                "-t"@,
                self.target.addr_spec(),
                command@,
                "Enter"@,
            ]),
    {
        let mut args = targeted_command(&self.target, "send-keys", exists)?;
        args.push(command.to_owned());
        args.push("Enter".to_owned());
        proof {
            assert(views_of(args@) =~= seq![
                "send-keys"@,
                "-t"@,
                self.target.addr_spec(),
                command@,
                "Enter"@,
            ]);
        }
        Ok(args)
    }

    pub fn target(&self) -> (r: &PaneTarget)
        ensures
            *r == self.target,
    {
        &self.target
    }
}

} // verus!
