//! Layouts: the stored scripts that describe working environments. A layout
//! has two names: the multiplexer-facing name, slash-separated where it was
//! deduced from nested directories, and the storage name under which its
//! script file lives. This module holds the naming rules and the in-memory
//! manager; reading and writing the script files happens at the boundary.

use crate::paths::DirPath;
use crate::text::{deduce_from, replace_char, replace_chars, split_last_at, str_eq, views_of};
use vstd::prelude::*;
use vstd::string::StrSliceExecFns;
use vstd::string::StringExecFns;

verus! {

/// The failures of layout naming and management.
#[derive(Debug)]
pub enum Error {
    AlreadyExists(String),
    NotFound(String),
    /// A path without a usable final component.
    InvalidFilename,
    InvalidLayoutName(String),
    NotADirectory(DirPath),
}

/// Whether a path names a directory or a plain file, decided at the boundary.
#[derive(Debug, Clone, Copy, PartialEq, Eq, Structural)]
pub enum PathState {
    Directory,
    File,
}

/// How a new layout's script body comes to be.
#[derive(Debug, Clone, Copy, PartialEq, Eq, Structural)]
pub enum TemplateDecision {
    GenerateCustom,
    GenerateDefault,
    LeaveEmpty,
}

/// Whether an editor is opened on a freshly created layout.
#[derive(Debug, Clone, Copy, PartialEq, Eq, Structural)]
pub enum EditorDecision {
    Spawn,
    DontSpawn,
}

/// The characters the external multiplexer treats specially in names; a
/// layout name may hold none of them.
pub open spec fn is_special_char(c: char) -> bool {
    c == '@' || c == '$' || c == '%' || c == ':' || c == '.'
}

pub open spec fn has_special_char(s: Seq<char>) -> bool {
    exists|i: int| 0 <= i < s.len() && is_special_char(#[trigger] s[i])
}

fn find_special_char(name: &str) -> (r: bool)
    ensures
        r == has_special_char(name@),
{
    let n = name.unicode_len();
    let mut i: usize = 0;
    while i < n
        invariant
            0 <= i <= n,
            n == name@.len(),
            forall|k: int| 0 <= k < i ==> !is_special_char(name@[k]),
        decreases n - i,
    {
        let c = name.get_char(i);
        if c == '@' || c == '$' || c == '%' || c == ':' || c == '.' {
            return true;
        }
        i = i + 1;
    }
    false
}

/// What the stored file name is for a layout name.
/// Relies on `sanitize_filename::sanitize`: the result depends on the given
/// name alone, with everything a filesystem refuses stripped.
pub uninterp spec fn sanitized_of(s: Seq<char>) -> Seq<char>;

#[verifier::external_body]
fn sanitize_file_name(name: &str) -> (r: String)
    ensures
        r@ == sanitized_of(name@),
{
    sanitize_filename::sanitize(name)
}

/// A validated multiplexer-facing layout name.
#[derive(Debug)]
pub struct LayoutName(pub String);

impl LayoutName {
    /// Accepts a name exactly when it holds no character the multiplexer
    /// treats specially.
    pub fn try_new(name: String) -> (r: Result<Self, Error>)
        ensures
            has_special_char(name@) <==> r is Err,
            r matches Ok(n) ==> n.0 == name,
            r matches Err(e) ==> e is InvalidLayoutName,
    {
        if find_special_char(name.as_str()) {
            return Err(
                Error::InvalidLayoutName(
                    "the name holds a character that the multiplexer treats specially".to_owned(),
                ),
            );
        }
        Ok(LayoutName(name))
    }

    /// Deduces a free name for a directory: its own name, disambiguated with
    /// parent directory names while the name is taken. Fails when the path is
    /// not a directory, has no components, still collides after every parent
    /// was used, or holds special characters.
    pub fn try_from_path(path: &DirPath, state: PathState, layout_manager: &LayoutManager) -> (r:
        Result<Self, Error>)
        ensures
            state is File ==> (r matches Err(e) && e is NotADirectory),
            state is Directory && path.components@.len() == 0 ==> (r matches Err(e)
                && e is InvalidFilename),
            state is Directory && path.components@.len() > 0 ==> {
                let full = deduce_from(
                    views_of(path.components@),
                    path.components@.len() - 2,
                    path.components@.last()@,
                    layout_manager.taken_names(),
                );
                &&& layout_manager.contains_spec(full) ==> (r matches Err(e)
                    && e matches Error::AlreadyExists(n) && n@ == full)
                &&& !layout_manager.contains_spec(full) && has_special_char(full) ==> (r matches
                    Err(e) && e is InvalidLayoutName)
                &&& !layout_manager.contains_spec(full) && !has_special_char(full) ==> (r matches
                    Ok(n) && n.0@ == full)
            },
    {
        if let PathState::File = state {
            return Err(Error::NotADirectory(path.clone()));
        }
        let n = path.components.len();
        if n == 0 {
            return Err(Error::InvalidFilename);
        }
        let ghost cv = views_of(path.components@);
        let mut name: String = path.components[n - 1].clone();
        let mut i: usize = n - 1;
        let ghost full = deduce_from(cv, n - 2, path.components@.last()@, layout_manager.taken_names());
        while i > 0 && layout_manager.contains(name.as_str())
            invariant
                0 <= i <= n - 1,
                n == path.components@.len(),
                cv == views_of(path.components@),
                full == deduce_from(cv, i - 1, name@, layout_manager.taken_names()),
            decreases i,
    {
            let mut prefixed = path.components[i - 1].clone();
            prefixed.append("/");
            prefixed.append(name.as_str());
            proof {
                reveal_strlit("/");
                assert("/"@ =~= seq!['/']);
                assert(prefixed@ =~= cv[i - 1] + seq!['/'] + name@);
            }
            name = prefixed;
            i = i - 1;
        }
        proof {
            assert(full == name@);
        }
        if layout_manager.contains(name.as_str()) {
            return Err(Error::AlreadyExists(name));
        }
        Self::try_new(name)
    }

    /// Reads a multiplexer-facing name back out of a storage name: the
    /// storage delimiter becomes the name delimiter again.
    pub fn try_from_storage_name(storage_name: String) -> (r: Result<Self, Error>)
        ensures
            has_special_char(replace_chars(storage_name@, '.', '/')) <==> r is Err,
            r matches Ok(n) ==> n.0@ == replace_chars(storage_name@, '.', '/'),
            r matches Err(e) ==> e is InvalidLayoutName,
    {
        let name = replace_char(storage_name.as_str(), '.', '/');
        Self::try_new(name)
    }

    pub fn tmux_name(&self) -> (r: &str)
        ensures
            r@ == self.0@,
    {
        self.0.as_str()
    }

    /// The name under which the layout's script file is stored: the name
    /// delimiter becomes the storage delimiter, and the result is made safe
    /// as a file name.
    pub fn storage_name(&self) -> (r: String)
        ensures
            r@ == sanitized_of(replace_chars(self.0@, '/', '.')),
    {
        let storage = replace_char(self.0.as_str(), '/', '.');
        sanitize_file_name(storage.as_str())
    }
}

/// A layout under both of its names.
#[derive(Debug)]
pub struct Layout {
    pub tmux_name: String,
    pub storage_name: String,
}

impl Layout {
    /// Whether two layouts collide: they clash already when either name is
    /// shared, since each must be unique.
    pub open spec fn conflicts_with(&self, other: &Layout) -> bool {
        self.tmux_name@ == other.tmux_name@ || self.storage_name@ == other.storage_name@
    }

    pub fn new(layout_name: LayoutName) -> (r: Self)
        ensures
            r.tmux_name == layout_name.0,
            r.storage_name@ == sanitized_of(replace_chars(layout_name.0@, '/', '.')),
    {
        let storage_name = layout_name.storage_name();
        Self { tmux_name: layout_name.0, storage_name }
    }

    pub fn tmux_name(&self) -> (r: &str)
        ensures
            r@ == self.tmux_name@,
    {
        self.tmux_name.as_str()
    }

    /// The script file's extension.
    pub fn extension() -> (r: String)
        ensures
            r@ == "lua"@,
    {
        "lua".to_owned()
    }

    /// Where the layout's script lives under the layouts directory: the
    /// storage name with the script extension appended.
    pub fn storage_path(&self, layouts_dir: &DirPath) -> (r: DirPath)
        ensures
            r.components@.len() == layouts_dir.components@.len() + 1,
            r.components@.subrange(0, layouts_dir.components@.len() as int)
                == layouts_dir.components@,
            r.components@.last()@ == self.storage_name@ + seq!['.'] + "lua"@,
    {
        let mut file = self.storage_name.clone();
        file.append(".");
        file.append("lua");
        proof {
            reveal_strlit(".");
            assert("."@ =~= seq!['.']);
        }
        let r = layouts_dir.join(file);
        proof {
            assert(r.components@.subrange(0, layouts_dir.components@.len() as int)
                =~= layouts_dir.components@);
        }
        r
    }
}

/// One filesystem entry below the layouts directory, as the boundary found
/// it: its path and whether it is a directory.
#[derive(Debug)]
pub struct LayoutInfo {
    pub path: DirPath,
    pub state: PathState,
}

impl LayoutInfo {
    pub fn new(path: DirPath, state: PathState) -> (r: Self)
        ensures
            r.path == path,
            r.state == state,
    {
        Self { path, state }
    }
}

/// The stem of a file name whose extension is the script extension, `None`
/// for every other entry name. A delimiter in first position marks a hidden
/// file, not an extension.
pub open spec fn layout_stem(name: Seq<char>) -> Option<Seq<char>> {
    if exists|i: int| 1 <= i < name.len() && name[i] == '.' {
        let i = choose|i: int| 1 <= i < name.len() && name[i] == '.' && (forall|j: int|
            i < j < name.len() ==> name[j] != '.');
        if name.subrange(i + 1, name.len() as int) == "lua"@ {
            Some(name.subrange(0, i))
        } else {
            None
        }
    } else {
        None
    }
}

/// Whether an enumerated entry is taken up as a layout: a plain file, named
/// with the script extension.
pub open spec fn is_layout_entry(info: LayoutInfo) -> bool {
    &&& info.state is File
    &&& info.path.components@.len() > 0
    &&& layout_stem(info.path.components@.last()@) is Some
}

/// Whether a taken-up entry has an unusable name: its stem, read back as a
/// multiplexer-facing name, holds a special character.
pub open spec fn is_bad_entry(info: LayoutInfo) -> bool {
    &&& is_layout_entry(info)
    &&& has_special_char(replace_chars(layout_stem(info.path.components@.last()@)->0, '.', '/'))
}

/// The multiplexer-facing names of the layouts that a listing of entries
/// yields, in order.
pub open spec fn extracted_names(infos: Seq<LayoutInfo>) -> Seq<Seq<char>>
    decreases infos.len(),
{
    if infos.len() == 0 {
        Seq::empty()
    } else {
        let rest = extracted_names(infos.drop_first());
        if is_layout_entry(infos[0]) {
            seq![replace_chars(layout_stem(infos[0].path.components@.last()@)->0, '.', '/')]
                + rest
        } else {
            rest
        }
    }
}

/// The stem of `name` when its extension is the script extension.
fn file_layout_stem(name: &str) -> (r: Option<String>)
    ensures
        match r {
            Some(s) => layout_stem(name@) == Some(s@),
            None => layout_stem(name@) is None,
        },
{
    match split_last_at(name, '.') {
        Some(p) => {
            let (stem, ext) = p;
            proof {
                reveal_strlit("lua");
            }
            if stem.as_str().unicode_len() == 0 {
                proof {
                    lemma_layout_stem_unique(name@, stem@, ext@);
                }
                None
            } else if str_eq(ext.as_str(), "lua") {
                proof {
                    lemma_layout_stem_unique(name@, stem@, ext@);
                }
                Some(stem)
            } else {
                proof {
                    lemma_layout_stem_unique(name@, stem@, ext@);
                }
                None
            }
        },
        None => {
            proof {
                if exists|i: int| 1 <= i < name@.len() && name@[i] == '.' {
                    let i = choose|i: int| 1 <= i < name@.len() && name@[i] == '.';
                    assert(name@.contains('.'));
                }
            }
            None
        },
    }
}

/// The decomposition at the last delimiter decides `layout_stem` outright.
proof fn lemma_layout_stem_unique(name: Seq<char>, stem: Seq<char>, ext: Seq<char>)
    requires
        name == stem + seq!['.'] + ext,
        !ext.contains('.'),
    ensures
        stem.len() == 0 ==> layout_stem(name) is None,
        stem.len() > 0 && ext == "lua"@ ==> layout_stem(name) == Some(stem),
        stem.len() > 0 && ext != "lua"@ ==> layout_stem(name) is None,
{
    let k = stem.len() as int;
    assert(name[k] == '.');
    assert(forall|j: int| k < j < name.len() ==> name[j] == ext[j - k - 1]);
    assert(forall|j: int| k < j < name.len() ==> name[j] != '.');
    if stem.len() == 0 {
        if exists|i: int| 1 <= i < name.len() && name[i] == '.' {
            let i = choose|i: int| 1 <= i < name.len() && name[i] == '.';
            assert(false);
        }
    } else {
        assert(1 <= k < name.len() && name[k] == '.');
        let i = choose|i: int| 1 <= i < name.len() && name[i] == '.' && (forall|j: int|
            i < j < name.len() ==> name[j] != '.');
        assert(i == k);
        assert(name.subrange(k + 1, name.len() as int) =~= ext);
        assert(name.subrange(0, k) =~= stem);
    }
}

/// Takes the layouts out of a listing of the layouts directory: plain files
/// with the script extension, each read back under its multiplexer-facing
/// name. Fails exactly when some taken-up entry has an unusable name.
pub fn extract_layouts(infos: Vec<LayoutInfo>) -> (r: Result<Vec<Layout>, Error>)
    ensures
        r is Ok <==> (forall|k: int| 0 <= k < infos@.len() ==> !is_bad_entry(
            #[trigger] infos@[k],
        )),
        r matches Ok(layouts) ==> {
            &&& views_of(layouts@.map_values(|l: Layout| l.tmux_name)) == extracted_names(
                infos@,
            )
            &&& forall|k: int| 0 <= k < layouts@.len() ==> (#[trigger] layouts@[k]).storage_name@
                == sanitized_of(replace_chars(layouts@[k].tmux_name@, '/', '.'))
        },
{
    let mut layouts: Vec<Layout> = Vec::new();
    let n = infos.len();
    let mut k: usize = 0;
    while k < n
        invariant
            0 <= k <= n,
            n == infos@.len(),
            forall|j: int| 0 <= j < k ==> !is_bad_entry(#[trigger] infos@[j]),
            views_of(layouts@.map_values(|l: Layout| l.tmux_name)) == extracted_names(
                infos@.subrange(0, k as int),
            ),
            forall|j: int| 0 <= j < layouts@.len() ==> (#[trigger] layouts@[j]).storage_name@
                == sanitized_of(replace_chars(layouts@[j].tmux_name@, '/', '.')),
        decreases n - k,
    {
        let info = &infos[k];
        let is_file = match info.state {
            PathState::File => true,
            PathState::Directory => false,
        };
        let taken: Option<String> = if is_file {
            match info.path.file_name() {
                Some(name) => file_layout_stem(name.as_str()),
                None => None,
            }
        } else {
            None
        };
        match taken {
            Some(stem) => {
                match LayoutName::try_from_storage_name(stem) {
                    Ok(layout_name) => {
                        let layout = Layout::new(layout_name);
                        layouts.push(layout);
                        proof {
                            lemma_extracted_names_step(infos@, k as int);
                            assert(views_of(layouts@.map_values(|l: Layout| l.tmux_name))
                                =~= extracted_names(infos@.subrange(0, k as int)).push(
                                layouts@.last().tmux_name@,
                            ));
                        }
                    },
                    Err(e) => {
                        proof {
                            assert(is_bad_entry(infos@[k as int]));
                        }
                        return Err(e);
                    },
                }
            },
            None => {
                proof {
                    lemma_extracted_names_step(infos@, k as int);
                }
            },
        }
        k = k + 1;
    }
    proof {
        assert(infos@.subrange(0, n as int) =~= infos@);
    }
    Ok(layouts)
}

/// Extending the prefix by one entry extends the extracted names by that
/// entry's name exactly when the entry is taken up.
proof fn lemma_extracted_names_step(infos: Seq<LayoutInfo>, k: int)
    requires
        0 <= k < infos.len(),
    ensures
        is_layout_entry(infos[k]) ==> extracted_names(infos.subrange(0, k + 1))
            == extracted_names(infos.subrange(0, k)).push(
            replace_chars(layout_stem(infos[k].path.components@.last()@)->0, '.', '/'),
        ),
        !is_layout_entry(infos[k]) ==> extracted_names(infos.subrange(0, k + 1))
            == extracted_names(infos.subrange(0, k)),
{
    lemma_extracted_names_snoc(infos.subrange(0, k + 1));
    assert(infos.subrange(0, k + 1).drop_last() =~= infos.subrange(0, k));
    assert(infos.subrange(0, k + 1).last() == infos[k]);
}

/// `extracted_names` unrolled at the right end.
proof fn lemma_extracted_names_snoc(infos: Seq<LayoutInfo>)
    requires
        infos.len() > 0,
    ensures
        is_layout_entry(infos.last()) ==> extracted_names(infos) == extracted_names(
            infos.drop_last(),
        ).push(replace_chars(layout_stem(infos.last().path.components@.last()@)->0, '.', '/')),
        !is_layout_entry(infos.last()) ==> extracted_names(infos) == extracted_names(
            infos.drop_last(),
        ),
    decreases infos.len(),
{
    if infos.len() == 1 {
        assert(extracted_names(infos.drop_first()) =~= Seq::<Seq<char>>::empty());
        assert(infos.drop_last() =~= Seq::<LayoutInfo>::empty());
        if is_layout_entry(infos[0]) {
            assert(extracted_names(infos) =~= extracted_names(infos.drop_last()).push(
                replace_chars(layout_stem(infos.last().path.components@.last()@)->0, '.', '/'),
            ));
        }
    } else {
        lemma_extracted_names_snoc(infos.drop_first());
        assert(infos.drop_first().drop_last() =~= infos.drop_last().drop_first());
        assert(infos.drop_first().last() == infos.last());
        assert(infos.drop_last()[0] == infos[0]);
        assert(infos.drop_last().len() > 0);
        if is_layout_entry(infos.last()) {
            assert(extracted_names(infos) =~= extracted_names(infos.drop_last()).push(
                replace_chars(layout_stem(infos.last().path.components@.last()@)->0, '.', '/'),
            ));
        } else {
            assert(extracted_names(infos) =~= extracted_names(infos.drop_last()));
        }
    }
}

/// What a layout's template is rendered with: the new session's name and
/// its root directory, written as the boundary shows it.
#[derive(Debug)]
pub struct TemplateData {
    pub session_root: String,
    pub session_name: String,
}

impl TemplateData {
    pub fn new(session_name: String, session_root: String) -> (r: Self)
        ensures
            r.session_name == session_name,
            r.session_root == session_root,
    {
        Self { session_root, session_name }
    }
}

/// The in-memory collection of known layouts.
#[derive(Debug)]
pub struct LayoutManager {
    pub layouts: Vec<Layout>,
}

impl LayoutManager {
    /// Whether some known layout carries this multiplexer-facing name.
    pub open spec fn contains_spec(&self, name: Seq<char>) -> bool {
        exists|i: int| 0 <= i < self.layouts@.len() && (#[trigger] self.layouts@[i]).tmux_name@
            == name
    }

    /// The set of names already in use.
    pub open spec fn taken_names(&self) -> Set<Seq<char>> {
        Set::new(|n: Seq<char>| self.contains_spec(n))
    }

    pub fn new(layouts: Vec<Layout>) -> (r: Self)
        ensures
            r.layouts == layouts,
    {
        Self { layouts }
    }

    /// The first known layout under this name, if any.
    pub fn layout(&self, tmux_name: &str) -> (r: Option<&Layout>)
        ensures
            r is Some <==> self.contains_spec(tmux_name@),
            r matches Some(l) ==> exists|i: int|
                {
                    &&& 0 <= i < self.layouts@.len()
                    &&& *l == self.layouts@[i]
                    &&& l.tmux_name@ == tmux_name@
                    &&& forall|j: int| 0 <= j < i ==> (#[trigger] self.layouts@[j]).tmux_name@
                        != tmux_name@
                },
    {
        let n = self.layouts.len();
        let mut i: usize = 0;
        while i < n
            invariant
                0 <= i <= n,
                n == self.layouts@.len(),
                forall|j: int| 0 <= j < i ==> (#[trigger] self.layouts@[j]).tmux_name@
                    != tmux_name@,
            decreases n - i,
        {
            if str_eq(self.layouts[i].tmux_name.as_str(), tmux_name) {
                return Some(&self.layouts[i]);
            }
            i = i + 1;
        }
        None
    }

    pub fn contains(&self, tmux_name: &str) -> (r: bool)
        ensures
            r == self.contains_spec(tmux_name@),
    {
        self.layout(tmux_name).is_some()
    }

    /// All known multiplexer-facing names, in order.
    pub fn list(&self) -> (r: Vec<String>)
        ensures
            r@.len() == self.layouts@.len(),
            forall|i: int| 0 <= i < r@.len() ==> (#[trigger] r@[i])@
                == self.layouts@[i].tmux_name@,
    {
        let n = self.layouts.len();
        let mut r: Vec<String> = Vec::new();
        let mut i: usize = 0;
        while i < n
            invariant
                0 <= i <= n,
                n == self.layouts@.len(),
                r@.len() == i,
                forall|j: int| 0 <= j < i ==> (#[trigger] r@[j])@
                    == self.layouts@[j].tmux_name@,
            decreases n - i,
        {
            r.push(self.layouts[i].tmux_name.clone());
            i = i + 1;
        }
        r
    }

    /// Whether the new layout collides with a known one under either name.
    pub open spec fn conflict_spec(&self, layout: Layout) -> bool {
        exists|i: int| 0 <= i < self.layouts@.len() && (#[trigger] self.layouts@[i]).conflicts_with(
            &layout,
        )
    }

    /// Adds a layout, refused exactly when it collides with a known one.
    pub fn create(&mut self, layout: Layout) -> (r: Result<(), Error>)
        ensures
            old(self).conflict_spec(layout) <==> r is Err,
            r is Ok ==> final(self).layouts@ == old(self).layouts@.push(layout),
            r matches Err(e) ==> (e matches Error::AlreadyExists(n) && n == layout.tmux_name
                && final(self).layouts@ == old(self).layouts@),
    {
        let n = self.layouts.len();
        let mut i: usize = 0;
        while i < n
            invariant
                0 <= i <= n,
                n == self.layouts@.len(),
                forall|j: int| 0 <= j < i ==> !(#[trigger] self.layouts@[j]).conflicts_with(
                    &layout,
                ),
            decreases n - i,
        {
            let same_tmux = str_eq(
                self.layouts[i].tmux_name.as_str(),
                layout.tmux_name.as_str(),
            );
            let same_storage = str_eq(
                self.layouts[i].storage_name.as_str(),
                layout.storage_name.as_str(),
            );
            if same_tmux || same_storage {
                return Err(Error::AlreadyExists(layout.tmux_name));
            }
            i = i + 1;
        }
        self.layouts.push(layout);
        Ok(())
    }

    /// Removes the layouts under this name, refused exactly when none
    /// carries it.
    pub fn remove(&mut self, tmux_name: &str) -> (r: Result<(), Error>)
        ensures
            old(self).contains_spec(tmux_name@) <==> r is Ok,
            r is Ok ==> final(self).layouts@ == old(self).layouts@.filter(
                |l: Layout| l.tmux_name@ != tmux_name@,
            ),
            r matches Err(e) ==> (e matches Error::NotFound(n) && n@ == tmux_name@
                && final(self).layouts@ == old(self).layouts@),
    {
        if !self.contains(tmux_name) {
            return Err(Error::NotFound(tmux_name.to_owned()));
        }
        let ghost pred = |l: Layout| l.tmux_name@ != tmux_name@;
        let n = self.layouts.len();
        let mut kept: Vec<Layout> = Vec::new();
        let mut i: usize = 0;
        proof {
            assert(self.layouts@.subrange(0, 0).filter(pred) =~= Seq::<Layout>::empty());
        }
        while i < n
            invariant
                0 <= i <= n,
                n == self.layouts@.len(),
                kept@ == self.layouts@.subrange(0, i as int).filter(
                    |l: Layout| l.tmux_name@ != tmux_name@,
                ),
            decreases n - i,
        {
            let ghost prefix = self.layouts@.subrange(0, i as int);
            let ghost next = self.layouts@.subrange(0, i + 1);
            proof {
                assert(next.drop_last() =~= prefix);
                reveal(Seq::filter);
            }
            let keep = !str_eq(self.layouts[i].tmux_name.as_str(), tmux_name);
            if keep {
                kept.push(self.layouts[i].clone_layout());
            }
            i = i + 1;
        }
        proof {
            assert(self.layouts@.subrange(0, n as int) =~= self.layouts@);
        }
        self.layouts = kept;
        Ok(())
    }
}

impl Layout {
    /// An identical layout value.
    pub fn clone_layout(&self) -> (r: Self)
        ensures
            r == *self,
    {
        Layout { tmux_name: self.tmux_name.clone(), storage_name: self.storage_name.clone() }
    }
}

/// How a new layout's script body comes to be: an explicitly disabled
/// template leaves it empty; otherwise a custom template is used when one
/// exists, and the built-in one when none does.
pub fn template_decision(template_disabled: bool, custom_exists: bool) -> (r: TemplateDecision)
    ensures
        template_disabled ==> r is LeaveEmpty,
        !template_disabled && custom_exists ==> r is GenerateCustom,
        !template_disabled && !custom_exists ==> r is GenerateDefault,
{
    match (template_disabled, custom_exists) {
        (true, _) => TemplateDecision::LeaveEmpty,
        (false, true) => TemplateDecision::GenerateCustom,
        (false, false) => TemplateDecision::GenerateDefault,
    }
}

/// Whether an editor opens on a freshly created layout.
pub fn editor_decision(disable_editor_on_creation: bool) -> (r: EditorDecision)
    ensures
        disable_editor_on_creation <==> r is DontSpawn,
{
    if disable_editor_on_creation {
        EditorDecision::DontSpawn
    } else {
        EditorDecision::Spawn
    }
}

} // verus!
