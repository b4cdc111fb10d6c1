//! Found repositories and their presentation. Walking the filesystem and
//! opening repositories happen at the boundary; a found repository arrives
//! here as a name and a path, and the aligned listing is computed here.

use crate::paths::{display_spec, DirPath};
use crate::text::views_of;
use vstd::prelude::*;
use vstd::string::StrSliceExecFns;
use vstd::string::StringExecFns;

verus! {

/// The failures of repository presentation.
#[derive(Debug)]
pub enum Error {
    /// Nothing to format: the listing was empty.
    NoRepos,
}

/// One found repository.
#[derive(Debug)]
pub struct Repo {
    pub name: String,
    pub path: DirPath,
}

/// The longest name in the listing.
pub open spec fn max_name_len(rs: Seq<Repo>) -> int
    decreases rs.len(),
{
    if rs.len() == 0 {
        0
    } else {
        let rest = max_name_len(rs.drop_first());
        if rs[0].name@.len() >= rest {
            rs[0].name@.len() as int
        } else {
            rest
        }
    }
}

/// `n` spaces.
pub open spec fn spaces(n: int) -> Seq<char> {
    Seq::new(n as nat, |i: int| ' ')
}

/// One line of the listing: the name, padding up to a common column, and
/// the path.
pub open spec fn repo_line(r: Repo, max: int) -> Seq<char> {
    r.name@ + spaces(max - r.name@.len() + 4) + " -- "@ + display_spec(
        views_of(r.path.components@),
    )
}

fn pad(n: usize) -> (r: String)
    ensures
        r@ == spaces(n as int),
{
    let mut out: Vec<char> = Vec::new();
    let mut i: usize = 0;
    while i < n
        invariant
            0 <= i <= n,
            out@ == spaces(i as int),
        decreases n - i,
    {
        out.push(' ');
        proof {
            assert(out@ =~= spaces(i + 1));
        }
        i = i + 1;
    }
    crate::text::string_from_chars(&out)
}

/// `max_name_len` seen from the right end.
proof fn lemma_max_name_len_snoc(rs: Seq<Repo>)
    requires
        rs.len() > 0,
    ensures
        max_name_len(rs) == if rs.last().name@.len() >= max_name_len(rs.drop_last()) {
            rs.last().name@.len() as int
        } else {
            max_name_len(rs.drop_last())
        },
        max_name_len(rs) >= rs.last().name@.len(),
    decreases rs.len(),
{
    if rs.len() == 1 {
        assert(rs.drop_last() =~= Seq::<Repo>::empty());
        assert(rs.drop_first() =~= Seq::<Repo>::empty());
    } else {
        lemma_max_name_len_snoc(rs.drop_first());
        assert(rs.drop_first().drop_last() =~= rs.drop_last().drop_first());
        assert(rs.drop_first().last() == rs.last());
        assert(rs.drop_last()[0] == rs[0]);
    }
}

/// Every name fits within the longest.
proof fn lemma_max_name_len_bound(rs: Seq<Repo>, i: int)
    requires
        0 <= i < rs.len(),
    ensures
        max_name_len(rs) >= rs[i].name@.len(),
    decreases rs.len(),
{
    if i == 0 {
    } else {
        lemma_max_name_len_bound(rs.drop_first(), i - 1);
    }
}

/// The aligned listing: every line carries its repository's name, padding
/// that brings all paths to one column, and the path. Refused only for an
/// empty listing.
pub fn format_repos(repos: &Vec<Repo>) -> (r: Result<Vec<String>, Error>)
    requires
        max_name_len(repos@) + 4 <= usize::MAX,
    ensures
        repos@.len() == 0 <==> r is Err,
        r matches Err(e) ==> e is NoRepos,
        r matches Ok(lines) ==> {
            &&& lines@.len() == repos@.len()
            &&& forall|i: int| 0 <= i < lines@.len() ==> (#[trigger] lines@[i])@ == repo_line(
                repos@[i],
                max_name_len(repos@),
            )
        },
{
    let n = repos.len();
    if n == 0 {
        return Err(Error::NoRepos);
    }
    let mut max: usize = 0;
    let mut i: usize = 0;
    while i < n
        invariant
            0 <= i <= n,
            n == repos@.len(),
            max == max_name_len(repos@.subrange(0, i as int)),
            max_name_len(repos@) + 4 <= usize::MAX,
        decreases n - i,
    {
        proof {
            lemma_max_name_len_snoc(repos@.subrange(0, i + 1));
            assert(repos@.subrange(0, i + 1).drop_last() =~= repos@.subrange(0, i as int));
            lemma_max_name_len_bound(repos@, i as int);
            lemma_max_prefix_bound(repos@, i + 1);
        }
        let len = repos[i].name.as_str().unicode_len();
        if len > max {
            max = len;
        }
        i = i + 1;
    }
    proof {
        assert(repos@.subrange(0, n as int) =~= repos@);
    }
    let mut lines: Vec<String> = Vec::new();
    let mut k: usize = 0;
    while k < n
        invariant
            0 <= k <= n,
            n == repos@.len(),
            max == max_name_len(repos@),
            max + 4 <= usize::MAX,
            lines@.len() == k,
            forall|j: int| 0 <= j < k ==> (#[trigger] lines@[j])@ == repo_line(
                repos@[j],
                max as int,
            ),
        decreases n - k,
    {
        proof {
            lemma_max_name_len_bound(repos@, k as int);
        }
        let name_len = repos[k].name.as_str().unicode_len();
        let padding = pad(max - name_len + 4);
        let mut line = repos[k].name.clone();
        line.append(padding.as_str());
        line.append(" -- ");
        let shown = repos[k].path.display();
        line.append(shown.as_str());
        proof {
            assert(line@ =~= repo_line(repos@[k as int], max as int));
        }
        lines.push(line);
        k = k + 1;
    }
    Ok(lines)
}

/// Whether one exclusion rule bars a directory entry: an absolute rule must
/// equal the entry's whole path, any other rule its bare name.
pub open spec fn excluded_spec(
    exclude: Seq<char>,
    path_shown: Seq<char>,
    file_name: Seq<char>,
) -> bool {
    if exclude.len() > 0 && exclude[0] == '/' {
        exclude == path_shown
    } else {
        exclude == file_name
    }
}

pub fn is_excluded(exclude: &str, path_shown: &str, file_name: &str) -> (r: bool)
    ensures
        r == excluded_spec(exclude@, path_shown@, file_name@),
{
    let absolute = exclude.unicode_len() > 0 && exclude.get_char(0) == '/';
    if absolute {
        crate::text::str_eq(exclude, path_shown)
    } else {
        crate::text::str_eq(exclude, file_name)
    }
}

/// Whether any rule of a set bars the entry.
pub fn is_excluded_from(excludes: &Vec<String>, path_shown: &str, file_name: &str) -> (r:
    bool)
    ensures
        r == exists|i: int| 0 <= i < excludes@.len() && excluded_spec(
            (#[trigger] excludes@[i])@,
            path_shown@,
            file_name@,
        ),
{
    let n = excludes.len();
    let mut i: usize = 0;
    while i < n
        invariant
            0 <= i <= n,
            n == excludes@.len(),
            forall|j: int| 0 <= j < i ==> !excluded_spec(
                (#[trigger] excludes@[j])@,
                path_shown@,
                file_name@,
            ),
        decreases n - i,
    {
        if is_excluded(excludes[i].as_str(), path_shown, file_name) {
            return true;
        }
        i = i + 1;
    }
    false
}

/// The path as shown in listings: a path under the home directory is written
/// with a leading tilde in its place.
pub fn shorten_path(home: Option<&DirPath>, path: &DirPath) -> (r: DirPath)
    ensures
        match home {
            Some(h) => {
                if h.components@.len() <= path.components@.len() && views_of(
                    path.components@.subrange(0, h.components@.len() as int),
                ) == views_of(h.components@) {
                    r.components@.len() == path.components@.len() - h.components@.len() + 1
                    && r.components@[0]@ == "~"@ && views_of(r.components@).skip(1)
                        == views_of(path.components@).skip(h.components@.len() as int)
                } else {
                    views_of(r.components@) == views_of(path.components@)
                }
            },
            None => views_of(r.components@) == views_of(path.components@),
        },
{
    match home {
        None => path.clone(),
        Some(h) => {
            let hn = h.components.len();
            let pn = path.components.len();
            let mut prefix_matches = hn <= pn;
            let mut i: usize = 0;
            while prefix_matches && i < hn && i < pn
                invariant
                    0 <= i <= hn,
                    i <= pn,
                    hn == h.components@.len(),
                    pn == path.components@.len(),
                    prefix_matches ==> hn <= pn && forall|k: int|
                        0 <= k < i ==> (#[trigger] path.components@[k])@
                            == h.components@[k]@,
                    !prefix_matches ==> hn > pn || exists|k: int|
                        0 <= k < hn && k < pn && (#[trigger] path.components@[k])@
                            != h.components@[k]@,
                decreases hn - i, (if prefix_matches { 1int } else { 0int }),
            {
                if !crate::text::str_eq(
                    path.components[i].as_str(),
                    h.components[i].as_str(),
                ) {
                    prefix_matches = false;
                } else {
                    i = i + 1;
                }
            }
            if prefix_matches && i == hn {
                let mut components: Vec<String> = Vec::new();
                components.push("~".to_owned());
                let mut k: usize = hn;
                while k < pn
                    invariant
                        hn <= k <= pn,
                        pn == path.components@.len(),
                        components@.len() == k - hn + 1,
                        components@[0]@ == "~"@,
                        forall|j: int| 1 <= j < components@.len() ==> (
                        #[trigger] components@[j])@ == path.components@[hn + j - 1]@,
                    decreases pn - k,
                {
                    components.push(path.components[k].clone());
                    k = k + 1;
                }
                proof {
                    assert(views_of(path.components@.subrange(0, hn as int)) =~= views_of(
                        h.components@,
                    ));
                    assert(views_of(components@).skip(1) =~= views_of(
                        path.components@,
                    ).skip(hn as int));
                }
                DirPath { components }
            } else {
                proof {
                    if hn <= pn && views_of(path.components@.subrange(0, hn as int))
                        == views_of(h.components@) {
                        let k = choose|k: int|
                            0 <= k < hn && k < pn && (#[trigger] path.components@[k])@
                                != h.components@[k]@;
                        assert(views_of(path.components@.subrange(0, hn as int))[k]
                            == path.components@.subrange(0, hn as int)[k]@);
                        assert(views_of(h.components@)[k] == h.components@[k]@);
                        assert(false);
                    }
                }
                path.clone()
            }
        },
    }
}

/// The longest name of a prefix never exceeds the longest overall.
proof fn lemma_max_prefix_bound(rs: Seq<Repo>, i: int)
    requires
        0 <= i <= rs.len(),
    ensures
        max_name_len(rs.subrange(0, i)) <= max_name_len(rs),
    decreases i,
{
    if i > 0 {
        lemma_max_prefix_bound(rs, i - 1);
        lemma_max_name_len_snoc(rs.subrange(0, i));
        assert(rs.subrange(0, i).drop_last() =~= rs.subrange(0, i - 1));
        lemma_max_name_len_bound(rs, i - 1);
    }
}

} // verus!
