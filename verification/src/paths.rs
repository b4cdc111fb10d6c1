//! Filesystem probes. The control layer validates explicit directories before
//! it hands them to the external program; the probes are the only place where
//! the disk is consulted, and nothing is assumed of their answers.

use vstd::prelude::*;

verus! {

/// An absolute path, modeled by its components below the filesystem root.
/// The logic that derives names from paths reads nothing else of a path, so
/// this is all of it that the library holds; conversion from the platform's
/// path type happens at the boundary.
#[derive(Debug)]
pub struct DirPath {
    pub components: Vec<String>,
}

impl Clone for DirPath {
    fn clone(&self) -> (r: Self)
        ensures
            r.components@ == self.components@,
    {
        let mut components: Vec<String> = Vec::new();
        let mut i: usize = 0;
        while i < self.components.len()
            invariant
                0 <= i <= self.components@.len(),
                components@ == self.components@.subrange(0, i as int),
            decreases self.components@.len() - i,
        {
            components.push(self.components[i].clone());
            proof {
                assert(components@ =~= self.components@.subrange(0, i + 1));
            }
            i = i + 1;
        }
        proof {
            assert(self.components@.subrange(0, self.components@.len() as int)
                =~= self.components@);
        }
        DirPath { components }
    }
}

impl DirPath {
    pub fn new(components: Vec<String>) -> (r: Self)
        ensures
            r.components == components,
    {
        DirPath { components }
    }

    /// The final component: the entry's own name.
    pub fn file_name(&self) -> (r: Option<&String>)
        ensures
            self.components@.len() == 0 <==> r is None,
            r matches Some(n) ==> n == self.components@.last(),
    {
        if self.components.len() == 0 {
            None
        } else {
            Some(&self.components[self.components.len() - 1])
        }
    }

    /// The path one component deeper.
    pub fn join(&self, component: String) -> (r: Self)
        ensures
            r.components@ == self.components@.push(component),
    {
        let mut r = self.clone();
        r.components.push(component);
        r
    }

    /// Whether two paths name the same entry: the same components.
    pub fn eq_path(&self, other: &DirPath) -> (r: bool)
        ensures
            r == (crate::text::views_of(self.components@) == crate::text::views_of(
                other.components@,
            )),
    {
        let n = self.components.len();
        if n != other.components.len() {
            proof {
                assert(crate::text::views_of(self.components@).len() == n);
                assert(crate::text::views_of(other.components@).len()
                    == other.components@.len());
            }
            return false;
        }
        let mut i: usize = 0;
        while i < n
            invariant
                0 <= i <= n,
                n == self.components@.len(),
                n == other.components@.len(),
                forall|k: int| 0 <= k < i ==> (#[trigger] self.components@[k])@
                    == other.components@[k]@,
            decreases n - i,
        {
            if !crate::text::str_eq(
                self.components[i].as_str(),
                other.components[i].as_str(),
            ) {
                proof {
                    assert(crate::text::views_of(self.components@)[i as int]
                        != crate::text::views_of(other.components@)[i as int]);
                }
                return false;
            }
            i = i + 1;
        }
        proof {
            assert(crate::text::views_of(self.components@) =~= crate::text::views_of(
                other.components@,
            ));
        }
        true
    }

    /// The path written the usual way: a separator before each component.
    pub fn display(&self) -> (r: String)
        ensures
            r@ == display_spec(crate::text::views_of(self.components@)),
    {
        let n = self.components.len();
        let mut out = String::new();
        let mut i: usize = 0;
        while i < n
            invariant
                0 <= i <= n,
                n == self.components@.len(),
                out@ == display_spec(crate::text::views_of(self.components@.subrange(
                    0,
                    i as int,
                ))),
            decreases n - i,
        {
            out.append("/");
            out.append(self.components[i].as_str());
            proof {
                reveal_strlit("/");
                assert("/"@ =~= seq!['/']);
                let cv = crate::text::views_of(self.components@);
                lemma_display_snoc(crate::text::views_of(self.components@.subrange(
                    0,
                    i + 1,
                )));
                assert(crate::text::views_of(self.components@.subrange(0, i + 1)).drop_last()
                    =~= crate::text::views_of(self.components@.subrange(0, i as int)));
                assert(out@ =~= display_spec(crate::text::views_of(self.components@.subrange(
                    0,
                    i + 1,
                ))));
            }
            i = i + 1;
        }
        proof {
            assert(self.components@.subrange(0, n as int) =~= self.components@);
        }
        out
    }
}

/// The written path, one component added at the right end.
proof fn lemma_display_snoc(comps: Seq<Seq<char>>)
    requires
        comps.len() > 0,
    ensures
        display_spec(comps) == display_spec(comps.drop_last()) + seq!['/'] + comps.last(),
    decreases comps.len(),
{
    if comps.len() == 1 {
        assert(comps.drop_last() =~= Seq::<Seq<char>>::empty());
        assert(comps.drop_first() =~= Seq::<Seq<char>>::empty());
        assert(display_spec(comps) =~= display_spec(comps.drop_last()) + seq!['/']
            + comps.last());
    } else {
        lemma_display_snoc(comps.drop_first());
        assert(comps.drop_first().drop_last() =~= comps.drop_last().drop_first());
        assert(comps.drop_first().last() == comps.last());
        assert(comps.drop_last()[0] == comps[0]);
        assert(display_spec(comps) =~= display_spec(comps.drop_last()) + seq!['/']
            + comps.last());
    }
}

/// The path written the usual way, a separator before each component.
pub open spec fn display_spec(comps: Seq<Seq<char>>) -> Seq<char>
    decreases comps.len(),
{
    if comps.len() == 0 {
        Seq::empty()
    } else {
        seq!['/'] + comps[0] + display_spec(comps.drop_first())
    }
}

/// Whether a path names an existing filesystem entry.
/// Relies on `std::path::Path::exists`; the answer depends on the disk, so
/// nothing is promised of it, and callers state what holds either way.
#[verifier::external_body]
pub(crate) fn path_exists(path: &str) -> bool {
    std::path::Path::new(path).exists()
}

/// Whether a path names an existing directory.
/// Relies on `std::path::Path::is_dir`; as with `path_exists`, the answer
/// depends on the disk and nothing is promised of it.
#[verifier::external_body]
pub(crate) fn path_is_dir(path: &str) -> bool {
    std::path::Path::new(path).is_dir()
}

} // verus!
