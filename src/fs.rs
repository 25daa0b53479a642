//! Directories, the filesystem port, and the upward search for a file.
use vstd::prelude::*;
use crate::text;

verus! {

/// An absolute directory, as the names of its components from the root down.
#[derive(Debug, Clone, PartialEq, Eq)]
pub struct DirPath {
    pub parts: Vec<String>,
}

impl View for DirPath {
    type V = Seq<Seq<char>>;

    open spec fn view(&self) -> Seq<Seq<char>> {
        self.parts@.map_values(|p: String| p@)
    }
}

/// Read access to the files of a directory tree. An implementation answers
/// from one state of the tree: what exists at a path (`has`) and what reading
/// it gives (`read`), the same for every call of one run.
///
/// The library reaches an implementation only through a type parameter, so
/// there `has` and `read` stand for that implementation's tree, whatever it
/// is; their bodies here are only what an implementation that states no tree
/// of its own inherits (an empty, unreadable tree).
pub trait Filesystem {
    /// Something exists at the path.
    open spec fn has(&self, path: Seq<char>) -> bool {
        false
    }

    /// The text read from the path; `None` where it cannot be read.
    open spec fn read(&self, path: Seq<char>) -> Option<Seq<char>> {
        None
    }

    /// Whether something exists at `path`.
    fn path_exists(&self, path: &str) -> (r: bool)
        ensures
            r == self.has(path@),
    ;

    /// The contents of the file at `path`, or a description of why it could not be read.
    fn read_to_string(&self, path: &str) -> (r: Result<String, String>)
        ensures
            match r {
                Ok(s) => self.read(path@) == Some(s@),
                Err(_) => self.read(path@) is None,
            },
    ;
}

/// The number of components of the nearest directory, from `dir` up to the
/// root, in which `name` exists.
pub open spec fn nearest_depth<F: Filesystem>(fs: &F, dir: Seq<Seq<char>>, name: Seq<char>) -> Option<int>
    decreases dir.len(),
{
    if fs.has(file_text(dir, name)) {
        Some(dir.len() as int)
    } else if dir.len() == 0 {
        None
    } else {
        nearest_depth(fs, dir.drop_last(), name)
    }
}

/// The path of `name` in the nearest directory that holds it.
pub open spec fn nearest_file<F: Filesystem>(fs: &F, dir: Seq<Seq<char>>, name: Seq<char>) -> Option<Seq<char>> {
    match nearest_depth(fs, dir, name) {
        Some(k) => Some(file_text(dir.subrange(0, k), name)),
        None => None,
    }
}

/// The nearest directory holding `name` is one that holds it with none
/// nearer to `dir`; there is none exactly where no directory up to the root
/// holds it.
pub proof fn lemma_nearest_depth<F: Filesystem>(fs: &F, dir: Seq<Seq<char>>, name: Seq<char>)
    ensures
        nearest_depth(fs, dir, name) is None <==> forall|k: int|
            0 <= k <= dir.len() ==> !fs.has(#[trigger] file_text(dir.subrange(0, k), name)),
        nearest_depth(fs, dir, name) matches Some(k) ==> 0 <= k <= dir.len() && fs.has(file_text(dir.subrange(0, k), name))
            && forall|m: int| k < m <= dir.len() ==> !fs.has(#[trigger] file_text(dir.subrange(0, m), name)),
    decreases dir.len(),
{
    assert(dir.subrange(0, dir.len() as int) =~= dir);
    if !fs.has(file_text(dir, name)) {
        if dir.len() == 0 {
            assert forall|k: int| 0 <= k <= dir.len() implies !fs.has(#[trigger] file_text(dir.subrange(0, k), name)) by {
                assert(dir.subrange(0, k) =~= dir);
            }
        } else {
            let up = dir.drop_last();
            lemma_nearest_depth(fs, up, name);
            assert forall|k: int| 0 <= k <= up.len() implies #[trigger] up.subrange(0, k) == dir.subrange(0, k) by {
                assert(up.subrange(0, k) =~= dir.subrange(0, k));
            }
            if nearest_depth(fs, up, name) is None {
                assert forall|k: int| 0 <= k <= dir.len() implies !fs.has(#[trigger] file_text(dir.subrange(0, k), name)) by {
                    if k < dir.len() {
                        assert(up.subrange(0, k) == dir.subrange(0, k));
                    }
                }
            } else {
                let k = nearest_depth(fs, up, name)->0;
                assert(up.subrange(0, k) == dir.subrange(0, k));
                assert forall|m: int| k < m <= dir.len() implies !fs.has(#[trigger] file_text(dir.subrange(0, m), name)) by {
                    if m < dir.len() {
                        assert(up.subrange(0, m) == dir.subrange(0, m));
                        assert(!fs.has(file_text(up.subrange(0, m), name)));
                    }
                }
            }
        }
    }
}

/// The text of the components joined behind a slash each: empty for the root.
pub open spec fn prefix_text(parts: Seq<Seq<char>>) -> Seq<char>
    decreases parts.len(),
{
    if parts.len() == 0 {
        seq![]
    } else {
        prefix_text(parts.drop_last()) + "/"@ + parts.last()
    }
}

/// How a directory is written: `/` for the root, else `/a/b`.
pub open spec fn dir_text(parts: Seq<Seq<char>>) -> Seq<char> {
    if parts.len() == 0 {
        "/"@
    } else {
        prefix_text(parts)
    }
}

/// The path of `name` inside the directory.
pub open spec fn file_text(parts: Seq<Seq<char>>, name: Seq<char>) -> Seq<char> {
    prefix_text(parts) + "/"@ + name
}

/// The components named by the pieces of a path between slashes: empty pieces
/// and `.` name none.
pub open spec fn path_parts(pieces: Seq<Seq<char>>) -> Seq<Seq<char>>
    decreases pieces.len(),
{
    if pieces.len() == 0 {
        seq![]
    } else {
        let rest = path_parts(pieces.drop_last());
        let p = pieces.last();
        if p.len() == 0 || p == "."@ {
            rest
        } else {
            rest.push(p)
        }
    }
}

/// The first item whose answer is `true`, answers and items taken in step.
pub open spec fn first_hit<T>(items: Seq<T>, found: Seq<bool>) -> Option<T>
    decreases items.len(),
{
    if items.len() == 0 || found.len() == 0 {
        None
    } else if found[0] {
        Some(items[0])
    } else {
        first_hit(items.drop_first(), found.drop_first())
    }
}

/// Searching a concatenation: the first part's hit, else the second part's.
pub proof fn lemma_first_hit_concat<T>(a: Seq<T>, b: Seq<T>, fa: Seq<bool>, fb: Seq<bool>)
    requires
        fa.len() == a.len(),
    ensures
        first_hit(a + b, fa + fb) == (if first_hit(a, fa) is Some {
            first_hit(a, fa)
        } else {
            first_hit(b, fb)
        }),
    decreases a.len(),
{
    if a.len() == 0 {
        assert(a + b =~= b);
        assert(fa + fb =~= fb);
    } else {
        assert((a + b).drop_first() =~= a.drop_first() + b);
        assert((fa + fb).drop_first() =~= fa.drop_first() + fb);
        lemma_first_hit_concat(a.drop_first(), b, fa.drop_first(), fb);
    }
}

/// Nothing is hit where every answer is `false`.
pub proof fn lemma_first_hit_none<T>(items: Seq<T>, found: Seq<bool>)
    requires
        forall|i: int| 0 <= i < found.len() ==> !found[i],
    ensures
        first_hit(items, found) is None,
    decreases items.len(),
{
    if items.len() > 0 && found.len() > 0 {
        lemma_first_hit_none(items.drop_first(), found.drop_first());
    }
}

/// The search found something only where some answer was `true`, and then the
/// item of the first such answer.
pub proof fn lemma_first_hit_some<T>(items: Seq<T>, found: Seq<bool>)
    requires
        found.len() == items.len(),
    ensures
        first_hit(items, found) matches Some(x) ==> exists|i: int|
            0 <= i < items.len() && found[i] && x == items[i] && forall|j: int|
                0 <= j < i ==> !found[j],
        first_hit(items, found) is None ==> forall|i: int| 0 <= i < found.len() ==> !found[i],
    decreases items.len(),
{
    if items.len() > 0 && !found[0] {
        lemma_first_hit_some(items.drop_first(), found.drop_first());
        if let Some(x) = first_hit(items, found) {
            let i = choose|i: int|
                0 <= i < items.drop_first().len() && found.drop_first()[i] && x
                    == items.drop_first()[i] && forall|j: int|
                    0 <= j < i ==> !found.drop_first()[j];
            assert(found[i + 1] && x == items[i + 1]);
            assert forall|j: int| 0 <= j < i + 1 implies !found[j] by {
                if j > 0 {
                    assert(found[j] == found.drop_first()[j - 1]);
                }
            }
        } else {
            assert forall|i: int| 0 <= i < found.len() implies !found[i] by {
                if i > 0 {
                    assert(found[i] == found.drop_first()[i - 1]);
                }
            }
        }
    }
}

impl DirPath {
    /// The root directory.
    pub fn root() -> (r: DirPath)
        ensures
            r@ == Seq::<Seq<char>>::empty(),
    {
        let r = DirPath { parts: Vec::new() };
        assert(r@ =~= Seq::<Seq<char>>::empty());
        r
    }

    /// The directory that an absolute path names; `.` components and repeated
    /// slashes name nothing.
    pub fn parse(s: &str) -> (r: DirPath)
        ensures
            r@ == path_parts(text::split(s@, "/"@)),
    {
        proof {
            reveal_strlit("/");
        }
        let pieces = text::text_split(s, "/");
        let ghost all = text::split(s@, "/"@);
        let mut parts: Vec<String> = Vec::new();
        let mut i: usize = 0;
        while i < pieces.len()
            invariant
                pieces@.len() == all.len(),
                forall|k: int| 0 <= k < pieces@.len() ==> (#[trigger] pieces@[k])@ == all[k],
                i <= pieces@.len(),
                parts@.map_values(|p: String| p@) == path_parts(all.subrange(0, i as int)),
            decreases pieces.len() - i,
        {
            let piece = pieces[i];
            let keep = piece.unicode_len() > 0 && !text::same_text(piece, ".");
            proof {
                assert(all.subrange(0, i + 1).drop_last() =~= all.subrange(0, i as int));
            }
            if keep {
                parts.push(piece.to_owned());
                proof {
                    assert(parts@.map_values(|p: String| p@) =~= path_parts(
                        all.subrange(0, i as int),
                    ).push(piece@));
                }
            }
            i = i + 1;
        }
        assert(all.subrange(0, pieces@.len() as int) =~= all);
        DirPath { parts }
    }

    /// How the directory is written.
    pub fn to_text(&self) -> (r: String)
        ensures
            r@ == dir_text(self@),
    {
        if self.parts.len() == 0 {
            return "/".to_owned();
        }
        let r = self.prefix(self.parts.len());
        assert(self@.subrange(0, self@.len() as int) =~= self@);
        r
    }

    /// The text of the first `k` components, a slash before each.
    fn prefix(&self, k: usize) -> (r: String)
        requires
            k <= self@.len(),
        ensures
            r@ == prefix_text(self@.subrange(0, k as int)),
    {
        let mut s = String::new();
        let mut j: usize = 0;
        while j < k
            invariant
                k <= self@.len(),
                j <= k,
                s@ == prefix_text(self@.subrange(0, j as int)),
            decreases k - j,
        {
            proof {
                assert(self@.subrange(0, j + 1).drop_last() =~= self@.subrange(0, j as int));
            }
            s.append("/");
            s.append(self.parts[j].as_str());
            j = j + 1;
        }
        assert(prefix_text(self@.subrange(0, 0)) =~= Seq::<char>::empty());
        s
    }

    /// The ancestor made of the first `k` components.
    pub fn ancestor(&self, k: usize) -> (r: DirPath)
        requires
            k <= self@.len(),
        ensures
            r@ == self@.subrange(0, k as int),
    {
        let mut parts: Vec<String> = Vec::new();
        let mut j: usize = 0;
        while j < k
            invariant
                k <= self@.len(),
                j <= k,
                parts@.len() == j,
                forall|m: int| 0 <= m < j ==> (#[trigger] parts@[m])@ == self@[m],
            decreases k - j,
        {
            parts.push(self.parts[j].clone());
            j = j + 1;
        }
        let r = DirPath { parts };
        assert(r@ =~= self@.subrange(0, k as int));
        r
    }

    /// The path of `name` inside the ancestor made of the first `k` components.
    pub fn file_at(&self, k: usize, name: &str) -> (r: String)
        requires
            k <= self@.len(),
        ensures
            r@ == file_text(self@.subrange(0, k as int), name@),
    {
        let mut s = self.prefix(k);
        s.append("/");
        s.append(name);
        s
    }
}

/// The number of components of the nearest directory, from `dir` up to the
/// root, that holds `filename`; `None` where none does. The directories are
/// asked from `dir` up, and the search stops at the first that has the file.
pub fn find_depth_in_parents<F: Filesystem>(fs: &F, dir: &DirPath, filename: &str) -> (r: Option<usize>)
    ensures
        match r {
            Some(k) => nearest_depth(fs, dir@, filename@) == Some(k as int),
            None => nearest_depth(fs, dir@, filename@) is None,
        },
        r is None <==> forall|k: int|
            0 <= k <= dir@.len() ==> !fs.has(#[trigger] file_text(dir@.subrange(0, k), filename@)),
        r matches Some(k) ==> k <= dir@.len() && fs.has(file_text(dir@.subrange(0, k as int), filename@))
            && forall|m: int| k < m <= dir@.len() ==> !fs.has(#[trigger] file_text(dir@.subrange(0, m), filename@)),
{
    let mut k: usize = dir.parts.len();
    assert(dir@.subrange(0, k as int) =~= dir@);
    loop
        invariant
            k <= dir@.len(),
            nearest_depth(fs, dir@, filename@) == nearest_depth(fs, dir@.subrange(0, k as int), filename@),
        decreases k,
    {
        proof {
            lemma_nearest_depth(fs, dir@, filename@);
        }
        let path = dir.file_at(k, filename);
        let ghost sub = dir@.subrange(0, k as int);
        assert(sub.len() == k);
        if fs.path_exists(path.as_str()) {
            return Some(k);
        }
        if k == 0 {
            return None;
        }
        assert(sub.drop_last() =~= dir@.subrange(0, k - 1));
        k = k - 1;
    }
}

/// The path of `filename` in `dir` or in the nearest of its ancestors where it
/// exists; `None` where it exists in none of them.
pub fn find_in_parents<F: Filesystem>(fs: &F, dir: &DirPath, filename: &str) -> (r: Option<String>)
    ensures
        crate::text::opt_view(r) == nearest_file(fs, dir@, filename@),
        r is None <==> forall|k: int|
            0 <= k <= dir@.len() ==> !fs.has(#[trigger] file_text(dir@.subrange(0, k), filename@)),
        r matches Some(p) ==> exists|k: int|
            0 <= k <= dir@.len() && p@ == file_text(dir@.subrange(0, k), filename@) && fs.has(p@)
                && forall|m: int| k < m <= dir@.len() ==> !fs.has(#[trigger] file_text(dir@.subrange(0, m), filename@)),
{
    let depth = find_depth_in_parents(fs, dir, filename);
    match depth {
        Some(k) => {
            let p = dir.file_at(k, filename);
            assert(p@ == file_text(dir@.subrange(0, k as int), filename@));
            Some(p)
        },
        None => None,
    }
}

} // verus!
