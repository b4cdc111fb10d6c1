//! The session manager's decisions: which target a switch resolves to, and
//! how the session listing is assembled. Running the external program, the
//! scripts and the filesystem work around these decisions happen at the
//! boundary.

use crate::config::Config;
use crate::directory_manager::DirectoryManager;
use crate::layout::{Layout, LayoutManager};
use crate::text::{
    join_with, lemma_lex_le_total, lemma_lex_le_trans, lex_le, str_eq, str_le, views_of,
};
use vstd::prelude::*;
use vstd::seq_lib::lemma_multiset_commutative;
use vstd::string::StringExecFns;

verus! {

/// What a switch was asked for: the remembered last session, or a named one.
#[derive(Debug)]
pub enum SwitchTarget {
    LastSession,
    Session(String),
}

/// The parameters of creating a layout for a directory.
#[derive(Debug)]
pub struct CreateSessionOptions {
    pub path: String,
    pub name: Option<String>,
    pub disable_editor: bool,
    pub machine_readable: bool,
}

/// The parameters of the session listing.
#[derive(Debug, Clone, Copy)]
pub struct Options {
    pub tmux_format: bool,
    pub include_active: bool,
    pub exclude_running: bool,
    pub only_running: bool,
}

/// What a switch does, decided from the name, the foreground session and the
/// running sessions: nothing when the name is already in the foreground;
/// attach when a session of that name runs in the background; otherwise the
/// stored layout is run.
#[derive(Debug, Clone, Copy, PartialEq, Eq, Structural)]
pub enum SwitchPlan {
    AlreadyAttached,
    AttachRunning,
    RunLayout,
}

/// Whether `name` occurs among `names`.
pub open spec fn name_listed(names: Seq<String>, name: Seq<char>) -> bool {
    exists|i: int| 0 <= i < names.len() && (#[trigger] names[i])@ == name
}

fn listed(names: &Vec<String>, name: &str) -> (r: bool)
    ensures
        r == name_listed(names@, name@),
{
    let n = names.len();
    let mut i: usize = 0;
    while i < n
        invariant
            0 <= i <= n,
            n == names@.len(),
            forall|j: int| 0 <= j < i ==> (#[trigger] names@[j])@ != name@,
        decreases n - i,
    {
        if str_eq(names[i].as_str(), name) {
            return true;
        }
        i = i + 1;
    }
    false
}

/// Names in nondecreasing lexicographic order.
pub open spec fn sorted_names(s: Seq<String>) -> bool {
    forall|i: int, j: int| 0 <= i < j < s.len() ==> lex_le(
        (#[trigger] s[i])@,
        (#[trigger] s[j])@,
    )
}

/// No name directly repeated.
pub open spec fn adjacent_distinct(s: Seq<String>) -> bool {
    forall|i: int| 0 <= i && i + 1 < s.len() ==> (#[trigger] s[i])@ != s[i + 1]@
}

/// Places one name into a sorted listing, keeping it sorted; the contents
/// change by exactly that name.
fn insert_sorted(out: &mut Vec<String>, x: String)
    requires
        sorted_names(old(out)@),
    ensures
        sorted_names(final(out)@),
        final(out)@.to_multiset() == old(out)@.to_multiset().insert(x),
{
    broadcast use vstd::seq_lib::group_to_multiset_ensures;

    let n = out.len();
    let mut j: usize = 0;
    while j < n && str_le(out[j].as_str(), x.as_str())
        invariant
            0 <= j <= n,
            n == out@.len(),
            out@ == old(out)@,
            forall|k: int| 0 <= k < j ==> lex_le((#[trigger] out@[k])@, x@),
        decreases n - j,
    {
        j = j + 1;
    }
    proof {
        if j < n {
            lemma_lex_le_total(out@[j as int]@, x@);
        }
    }
    let ghost before = out@;
    out.insert(j, x);
    proof {
        let s = out@;
        assert(s == before.insert(j as int, x));
        assert(s =~= before.subrange(0, j as int).push(x) + before.subrange(
            j as int,
            n as int,
        ));
        assert forall|a: int, b: int| 0 <= a < b < s.len() implies lex_le(
            (#[trigger] s[a])@,
            (#[trigger] s[b])@,
        ) by {
            if a < j && b < j {
            } else if a == j && b > j {
                assert(s[b] == before[b - 1]);
                if j < n {
                    assert(lex_le(x@, before[j as int]@));
                    if b - 1 > j {
                        assert(lex_le(before[j as int]@, before[b - 1]@));
                        lemma_lex_le_trans(x@, before[j as int]@, before[b - 1]@);
                    }
                }
            } else if a < j && b == j {
                assert(s[a] == before[a]);
                assert(lex_le(before[a]@, x@));
            } else if a < j && b > j {
                assert(s[a] == before[a]);
                assert(s[b] == before[b - 1]);
            } else if a > j && b > j {
                assert(s[a] == before[a - 1]);
                assert(s[b] == before[b - 1]);
            }
        }
        lemma_multiset_commutative(
            before.subrange(0, j as int).push(x),
            before.subrange(j as int, n as int),
        );
        lemma_multiset_commutative(
            before.subrange(0, j as int),
            before.subrange(j as int, n as int),
        );
        assert(before.subrange(0, j as int) + before.subrange(j as int, n as int)
            =~= before);
        assert(s.to_multiset() =~= before.to_multiset().insert(x));
    }
}

/// Whether `name` occurs among the first `i` of `names`.
pub open spec fn name_listed_prefix(names: Seq<String>, i: int, name: Seq<char>) -> bool {
    exists|j: int| 0 <= j < i && j < names.len() && (#[trigger] names[j])@ == name
}

/// Collapses directly repeated names of a sorted listing; what is listed
/// stays exactly what was listed.
fn dedup_adjacent(v: &Vec<String>) -> (r: Vec<String>)
    requires
        sorted_names(v@),
    ensures
        sorted_names(r@),
        adjacent_distinct(r@),
        forall|x: Seq<char>| #[trigger] name_listed(r@, x) <==> name_listed(v@, x),
{
    let n = v.len();
    let mut r: Vec<String> = Vec::new();
    let mut i: usize = 0;
    while i < n
        invariant
            0 <= i <= n,
            n == v@.len(),
            sorted_names(v@),
            sorted_names(r@),
            adjacent_distinct(r@),
            forall|k: int| 0 <= k < r@.len() ==> name_listed_prefix(
                v@,
                i as int,
                (#[trigger] r@[k])@,
            ),
            forall|j: int| 0 <= j < i ==> name_listed(r@, (#[trigger] v@[j])@),
            r@.len() > 0 ==> i > 0 && r@.last()@ == v@[i - 1]@,
        decreases n - i,
    {
        let push_it: bool = if r.len() == 0 {
            true
        } else {
            !str_eq(r[r.len() - 1].as_str(), v[i].as_str())
        };
        if push_it {
            let ghost r_old = r@;
            r.push(v[i].clone());
            proof {
                assert forall|a: int, b: int| 0 <= a < b < r@.len() implies lex_le(
                    (#[trigger] r@[a])@,
                    (#[trigger] r@[b])@,
                ) by {
                    if b == r@.len() - 1 {
                        assert(r@[a] == r_old[a]);
                        let j = choose|j: int|
                            0 <= j < i && j < v@.len() && (#[trigger] v@[j])@ == r_old[a]@;
                        assert(lex_le(v@[j]@, v@[i as int]@));
                    }
                }
                assert forall|j: int| 0 <= j < i + 1 implies name_listed(
                    r@,
                    (#[trigger] v@[j])@,
                ) by {
                    if j < i {
                        let k = choose|k: int|
                            0 <= k < r_old.len() && (#[trigger] r_old[k])@ == v@[j]@;
                        assert(r@[k]@ == v@[j]@);
                        assert(name_listed(r@, v@[j]@));
                    } else {
                        assert(r@[r@.len() - 1]@ == v@[i as int]@);
                        assert(name_listed(r@, v@[i as int]@));
                    }
                }
            }
        } else {
            proof {
                assert(r@[r@.len() - 1]@ == v@[i as int]@);
                assert(name_listed(r@, v@[i as int]@));
            }
        }
        i = i + 1;
    }
    proof {
        assert forall|x: Seq<char>| #[trigger] name_listed(r@, x) implies name_listed(v@, x)
            by {
            let k = choose|k: int| 0 <= k < r@.len() && (#[trigger] r@[k])@ == x;
            let j = choose|j: int|
                0 <= j < n && j < v@.len() && (#[trigger] v@[j])@ == r@[k]@;
            assert(name_listed(v@, x));
        }
    }
    r
}

/// `join_with`, one part added at the right end.
proof fn lemma_join_snoc(parts: Seq<Seq<char>>, d: char)
    requires
        parts.len() >= 2,
    ensures
        join_with(parts, d) == join_with(parts.drop_last(), d) + seq![d] + parts.last(),
    decreases parts.len(),
{
    if parts.len() == 2 {
        assert(parts.drop_first() =~= seq![parts[1]]);
        assert(parts.drop_last() =~= seq![parts[0]]);
        assert(join_with(seq![parts[1]], d) == parts[1]);
        assert(join_with(seq![parts[0]], d) == parts[0]);
    } else {
        lemma_join_snoc(parts.drop_first(), d);
        assert(parts.drop_first().drop_last() =~= parts.drop_last().drop_first());
        assert(parts.drop_first().last() == parts.last());
        assert(parts.drop_last()[0] == parts[0]);
        assert(parts.drop_last().len() >= 2);
        assert(join_with(parts, d) =~= join_with(parts.drop_last(), d) + seq![d]
            + parts.last());
    }
}

/// Joins the listed names with the chosen separator: a space in the status
/// bar format, a line break otherwise.
fn join_names(v: &Vec<String>, tmux_format: bool) -> (r: String)
    ensures
        v@.len() == 0 ==> r@ == Seq::<char>::empty(),
        v@.len() > 0 ==> r@ == join_with(views_of(v@), if tmux_format { ' ' } else { '\n' }),
{
    let ghost d = if tmux_format { ' ' } else { '\n' };
    let mut out = String::new();
    let n = v.len();
    if n == 0 {
        return out;
    }
    out.append(v[0].as_str());
    proof {
        assert(views_of(v@.subrange(0, 1)) =~= seq![v@[0]@]);
        assert(join_with(views_of(v@.subrange(0, 1)), d) == v@[0]@);
    }
    let mut i: usize = 1;
    while i < n
        invariant
            1 <= i <= n,
            n == v@.len(),
            d == if tmux_format { ' ' } else { '\n' },
            out@ == join_with(views_of(v@.subrange(0, i as int)), d),
        decreases n - i,
    {
        if tmux_format {
            out.append(" ");
        } else {
            out.append("\n");
        }
        out.append(v[i].as_str());
        proof {
            reveal_strlit(" ");
            reveal_strlit("\n");
            assert(" "@ =~= seq![' ']);
            assert("\n"@ =~= seq!['\n']);
            let next = views_of(v@.subrange(0, i + 1));
            lemma_join_snoc(next, d);
            assert(next.drop_last() =~= views_of(v@.subrange(0, i as int)));
            assert(next.last() == v@[i as int]@);
            assert(out@ =~= join_with(next, d));
        }
        i = i + 1;
    }
    proof {
        assert(v@.subrange(0, n as int) =~= v@);
    }
    out
}

/// What the listing knows of the moment: the running sessions and the
/// foreground one.
#[derive(Debug)]
pub struct ExcludeInfo {
    pub running_sessions: Vec<String>,
    pub active_session: Option<String>,
}

impl ExcludeInfo {
    pub fn new(running_sessions: Vec<String>, active_session: Option<String>) -> (r: Self)
        ensures
            r.running_sessions == running_sessions,
            r.active_session == active_session,
    {
        Self { running_sessions, active_session }
    }
}

/// Whether a name stays in the listing: the foreground session only on
/// request, running sessions unless excluded, and with `only_running` the
/// running ones alone.
pub open spec fn kept_name(
    name: Seq<char>,
    running: Seq<String>,
    active: Option<String>,
    opts: Options,
) -> bool {
    &&& !(!opts.include_active && (active matches Some(a) && name == a@))
    &&& !(opts.exclude_running && name_listed(running, name))
    &&& !(opts.only_running && !name_listed(running, name))
}

/// Whether a name stays in the listing.
pub fn exclude(session_name: &str, info: &ExcludeInfo, opts: &Options) -> (r: bool)
    ensures
        r == kept_name(session_name@, info.running_sessions@, info.active_session, *opts),
{
    match &info.active_session {
        Some(a) => {
            if !opts.include_active && str_eq(session_name, a.as_str()) {
                return false;
            }
        },
        None => {},
    }
    let runs = listed(&info.running_sessions, session_name);
    if opts.exclude_running && runs {
        return false;
    }
    if opts.only_running && !runs {
        return false;
    }
    true
}

/// The name as the listing shows it: the foreground session is marked with
/// an asterisk.
pub open spec fn marked(name: Seq<char>, active: Option<String>) -> Seq<char> {
    if active matches Some(a) && name == a@ {
        name + seq!['*']
    } else {
        name
    }
}

/// Whether `x` is one of the names the listing shows: some configured or
/// running name that is kept, as the listing marks it.
pub open spec fn listed_output_name(
    x: Seq<char>,
    layouts: Seq<String>,
    running: Seq<String>,
    active: Option<String>,
    opts: Options,
) -> bool {
    exists|j: int|
        {
            &&& 0 <= j < (layouts + running).len()
            &&& kept_name((#[trigger] (layouts + running)[j])@, running, active, opts)
            &&& x == marked((layouts + running)[j]@, active)
        }
}

/// Whether `x` is shown for one of the first `upto` source names.
pub open spec fn picked(
    src: Seq<String>,
    upto: int,
    x: Seq<char>,
    running: Seq<String>,
    active: Option<String>,
    opts: Options,
) -> bool {
    exists|j: int|
        {
            &&& 0 <= j < upto
            &&& j < src.len()
            &&& kept_name((#[trigger] src[j])@, running, active, opts)
            &&& x == marked(src[j]@, active)
        }
}

/// Inserting one name extends what a listing lists by exactly that name.
proof fn lemma_insert_name_listed(a: Seq<String>, b: Seq<String>, v: String, x: Seq<char>)
    requires
        b.to_multiset() == a.to_multiset().insert(v),
    ensures
        name_listed(b, x) <==> (name_listed(a, x) || x == v@),
{
    broadcast use vstd::seq_lib::group_to_multiset_ensures;

    if name_listed(b, x) {
        let i = choose|i: int| 0 <= i < b.len() && (#[trigger] b[i])@ == x;
        assert(b.contains(b[i]));
        assert(b.to_multiset().count(b[i]) > 0);
        if b[i] == v {
        } else {
            assert(b.to_multiset().count(b[i]) == a.to_multiset().count(b[i]));
            assert(a.contains(b[i]));
            let j = choose|j: int| 0 <= j < a.len() && a[j] == b[i];
            assert(name_listed(a, x));
        }
    }
    if name_listed(a, x) {
        let i = choose|i: int| 0 <= i < a.len() && (#[trigger] a[i])@ == x;
        assert(a.contains(a[i]));
        assert(a.to_multiset().count(a[i]) > 0);
        assert(b.to_multiset().count(a[i]) > 0);
        assert(b.contains(a[i]));
        let j = choose|j: int| 0 <= j < b.len() && b[j] == a[i];
        assert(name_listed(b, x));
    }
    if x == v@ {
        assert(b.to_multiset().count(v) == a.to_multiset().count(v) + 1);
        assert(b.contains(v));
        let j = choose|j: int| 0 <= j < b.len() && b[j] == v;
        assert(name_listed(b, x));
    }
}

/// Assembles the session listing: every configured layout name and every
/// running session name that the filters keep, the foreground one marked
/// with an asterisk, sorted, without repetition, joined by the chosen
/// separator.
pub fn run(
    layouts: Vec<String>,
    running: Vec<String>,
    active: Option<String>,
    opts: &Options,
) -> (r: String)
    ensures
        exists|items: Seq<String>|
            {
                &&& sorted_names(items)
                &&& adjacent_distinct(items)
                &&& (forall|x: Seq<char>| #[trigger] name_listed(items, x)
                    <==> listed_output_name(x, layouts@, running@, active, *opts))
                &&& (items.len() == 0 ==> r@ == Seq::<char>::empty())
                &&& (items.len() > 0 ==> r@ == join_with(
                    views_of(items),
                    if opts.tmux_format { ' ' } else { '\n' },
                ))
            },
{
    let info = ExcludeInfo::new(running, active);
    let ghost running_v = info.running_sessions@;
    let ghost active_v = info.active_session;
    let mut all = layouts;
    let ghost layouts_v = all@;
    let mut k: usize = 0;
    let m = info.running_sessions.len();
    while k < m
        invariant
            0 <= k <= m,
            m == info.running_sessions@.len(),
            running_v == info.running_sessions@,
            all@ == layouts_v + running_v.subrange(0, k as int),
        decreases m - k,
    {
        all.push(info.running_sessions[k].clone());
        proof {
            assert(all@ =~= layouts_v + running_v.subrange(0, k + 1));
        }
        k = k + 1;
    }
    proof {
        assert(running_v.subrange(0, m as int) =~= running_v);
    }
    let n = all.len();
    let mut sorted: Vec<String> = Vec::new();
    let ghost src = all@;
    let mut i: usize = 0;
    while i < n
        invariant
            0 <= i <= n,
            n == all@.len(),
            src == all@,
            running_v == info.running_sessions@,
            active_v == info.active_session,
            sorted_names(sorted@),
            forall|x: Seq<char>| #[trigger] name_listed(sorted@, x) <==> picked(
                src,
                i as int,
                x,
                running_v,
                active_v,
                *opts,
            ),
        decreases n - i,
    {
        let ghost sorted_old = sorted@;
        let keep = exclude(all[i].as_str(), &info, opts);
        if keep {
            let shown: String = match &info.active_session {
                Some(a) => {
                    if str_eq(all[i].as_str(), a.as_str()) {
                        let mut s = all[i].clone();
                        s.append("*");
                        proof {
                            reveal_strlit("*");
                            assert("*"@ =~= seq!['*']);
                            assert(s@ =~= marked(src[i as int]@, active_v));
                        }
                        s
                    } else {
                        all[i].clone()
                    }
                },
                None => all[i].clone(),
            };
            let ghost shown_g = shown;
            insert_sorted(&mut sorted, shown);
            proof {
                assert(shown_g@ == marked(src[i as int]@, active_v));
                assert forall|x: Seq<char>| #[trigger] name_listed(sorted@, x) <==> (
                name_listed(sorted_old, x) || x == shown_g@) by {
                    lemma_insert_name_listed(sorted_old, sorted@, shown_g, x);
                }
                assert forall|x: Seq<char>| #[trigger] name_listed(sorted@, x) implies
                    picked(src, i + 1, x, running_v, active_v, *opts) by {
                    if name_listed(sorted_old, x) {
                        let j = choose|j: int|
                            {
                                &&& 0 <= j < i
                                &&& j < src.len()
                                &&& kept_name(
                                    (#[trigger] src[j])@,
                                    running_v,
                                    active_v,
                                    *opts,
                                )
                                &&& x == marked(src[j]@, active_v)
                            };
                        assert(picked(src, i + 1, x, running_v, active_v, *opts));
                    } else {
                        assert(x == shown_g@);
                        assert(kept_name(src[i as int]@, running_v, active_v, *opts)
                            && x == marked(src[i as int]@, active_v));
                        assert(picked(src, i + 1, x, running_v, active_v, *opts));
                    }
                }
                assert forall|x: Seq<char>| #[trigger] picked(
                    src,
                    i + 1,
                    x,
                    running_v,
                    active_v,
                    *opts,
                ) implies name_listed(sorted@, x) by {
                    let j = choose|j: int|
                        {
                            &&& 0 <= j < i + 1
                            &&& j < src.len()
                            &&& kept_name((#[trigger] src[j])@, running_v, active_v, *opts)
                            &&& x == marked(src[j]@, active_v)
                        };
                    if j < i {
                        assert(picked(src, i as int, x, running_v, active_v, *opts));
                        assert(name_listed(sorted_old, x));
                    } else {
                        assert(x == shown_g@);
                    }
                }
            }
        } else {
            proof {
                assert forall|x: Seq<char>| #[trigger] picked(
                    src,
                    i + 1,
                    x,
                    running_v,
                    active_v,
                    *opts,
                ) implies picked(src, i as int, x, running_v, active_v, *opts) by {
                    let j = choose|j: int|
                        {
                            &&& 0 <= j < i + 1
                            &&& j < src.len()
                            &&& kept_name((#[trigger] src[j])@, running_v, active_v, *opts)
                            &&& x == marked(src[j]@, active_v)
                        };
                    assert(j < i);
                }
                assert forall|x: Seq<char>| #[trigger] name_listed(sorted@, x) implies
                    picked(src, i + 1, x, running_v, active_v, *opts) by {
                    let j = choose|j: int|
                        {
                            &&& 0 <= j < i
                            &&& j < src.len()
                            &&& kept_name((#[trigger] src[j])@, running_v, active_v, *opts)
                            &&& x == marked(src[j]@, active_v)
                        };
                    assert(picked(src, i + 1, x, running_v, active_v, *opts));
                }
            }
        }
        i = i + 1;
    }
    let deduped = dedup_adjacent(&sorted);
    let out = join_names(&deduped, opts.tmux_format);
    proof {
        let ghost items = deduped@;
        assert(src =~= layouts_v + running_v);
        assert forall|x: Seq<char>| #[trigger] name_listed(items, x) <==> listed_output_name(
            x,
            layouts_v,
            running_v,
            active_v,
            *opts,
        ) by {
            assert(name_listed(items, x) <==> name_listed(sorted@, x));
            if name_listed(sorted@, x) {
                let j = choose|j: int|
                    {
                        &&& 0 <= j < n
                        &&& j < src.len()
                        &&& kept_name((#[trigger] src[j])@, running_v, active_v, *opts)
                        &&& x == marked(src[j]@, active_v)
                    };
                assert((layouts_v + running_v)[j] == src[j]);
                assert(listed_output_name(x, layouts_v, running_v, active_v, *opts));
            }
            if listed_output_name(x, layouts_v, running_v, active_v, *opts) {
                let j = choose|j: int|
                    {
                        &&& 0 <= j < (layouts_v + running_v).len()
                        &&& kept_name(
                            (#[trigger] (layouts_v + running_v)[j])@,
                            running_v,
                            active_v,
                            *opts,
                        )
                        &&& x == marked((layouts_v + running_v)[j]@, active_v)
                    };
                assert((layouts_v + running_v)[j] == src[j]);
                assert(picked(src, n as int, x, running_v, active_v, *opts));
                assert(name_listed(sorted@, x));
            }
        }
    }
    out
}
#[derive(Debug)]
pub struct SessionManager {
    pub layout_mgr: LayoutManager,
    pub config: Config,
    pub dir_mgr: DirectoryManager,
}

impl SessionManager {
    pub fn new(config: Config, dir_mgr: DirectoryManager, layout_mgr: LayoutManager) -> (r:
        Self)
        ensures
            r.config == config,
            r.dir_mgr == dir_mgr,
            r.layout_mgr == layout_mgr,
    {
        Self { layout_mgr, config, dir_mgr }
    }

    /// The stored layout under this name, if any.
    pub fn layout(&self, name: &str) -> (r: Option<&Layout>)
        ensures
            r is Some <==> self.layout_mgr.contains_spec(name@),
            r matches Some(l) ==> l.tmux_name@ == name@,
    {
        self.layout_mgr.layout(name)
    }

    /// The running sessions a switch may attach to: all of them except the
    /// one already in the foreground.
    pub fn running_sessions(active_session: &Option<String>, running: Vec<String>) -> (r: Vec<
        String,
    >)
        ensures
            active_session is None ==> r@ == running@,
            active_session matches Some(a) ==> r@ == running@.filter(|s: String| s@ != a@),
    {
        match active_session {
            None => running,
            Some(a) => {
                let ghost pred = |s: String| s@ != a@;
                let n = running.len();
                let mut kept: Vec<String> = Vec::new();
                let mut i: usize = 0;
                proof {
                    assert(running@.subrange(0, 0).filter(pred) =~= Seq::<String>::empty());
                }
                while i < n
                    invariant
                        0 <= i <= n,
                        n == running@.len(),
                        pred == (|s: String| s@ != a@),
                        kept@ == running@.subrange(0, i as int).filter(pred),
                    decreases n - i,
                {
                    let ghost prefix = running@.subrange(0, i as int);
                    let ghost next = running@.subrange(0, i + 1);
                    proof {
                        assert(next.drop_last() =~= prefix);
                        reveal(Seq::filter);
                    }
                    if !str_eq(running[i].as_str(), a.as_str()) {
                        kept.push(running[i].clone());
                    }
                    i = i + 1;
                }
                proof {
                    assert(running@.subrange(0, n as int) =~= running@);
                }
                kept
            },
        }
    }

    /// The switch decision: the foreground session wins, then a running
    /// session of that name, and only otherwise the stored layout.
    pub fn switch_plan(name: &str, active: &Option<String>, running: &Vec<String>) -> (r:
        SwitchPlan)
        ensures
            (active matches Some(a) && a@ == name@) ==> r is AlreadyAttached,
            !(active matches Some(a) && a@ == name@) && name_listed(running@, name@) ==> r
                is AttachRunning,
            !(active matches Some(a) && a@ == name@) && !name_listed(running@, name@) ==> r
                is RunLayout,
    {
        match active {
            Some(a) => {
                if str_eq(a.as_str(), name) {
                    return SwitchPlan::AlreadyAttached;
                }
            },
            None => {},
        }
        if listed(running, name) {
            SwitchPlan::AttachRunning
        } else {
            SwitchPlan::RunLayout
        }
    }
}

} // verus!
