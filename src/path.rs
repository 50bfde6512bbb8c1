use vstd::prelude::*;
use crate::names::name_views;

verus! {

/// An absolute path, held as its components from the root down; the root
/// itself has none.
pub struct FsPath {
    pub comps: Vec<String>,
}

impl View for FsPath {
    type V = Seq<Seq<char>>;

    open spec fn view(&self) -> Seq<Seq<char>> {
        name_views(self.comps@)
    }
}

/// A copy of a list of strings.
pub fn copy_strings(v: &Vec<String>) -> (r: Vec<String>)
    ensures
        r.len() == v.len(),
        name_views(r@) == name_views(v@),
{
    let mut r: Vec<String> = Vec::new();
    let mut i: usize = 0;
    while i < v.len()
        invariant
            i <= v.len(),
            r.len() == i,
            forall|j: int| 0 <= j < i ==> #[trigger] r@[j]@ == v@[j]@,
        decreases v.len() - i,
    {
        r.push(v[i].clone());
        i = i + 1;
    }
    proof {
        assert(name_views(r@) =~= name_views(v@));
    }
    r
}

impl FsPath {
    /// The root directory.
    pub fn root() -> (r: FsPath)
        ensures
            r@ == Seq::<Seq<char>>::empty(),
    {
        let r = FsPath { comps: Vec::new() };
        proof {
            assert(r@ =~= Seq::<Seq<char>>::empty());
        }
        r
    }

    /// A copy of this path.
    pub fn duplicate(&self) -> (r: FsPath)
        ensures
            r@ == self@,
    {
        FsPath { comps: copy_strings(&self.comps) }
    }

    /// Whether this is the root directory.
    pub fn is_root(&self) -> (r: bool)
        ensures
            r == (self@.len() == 0),
    {
        self.comps.len() == 0
    }

    /// The directory that holds this path; none for the root.
    pub fn parent(&self) -> (r: Option<FsPath>)
        ensures
            match r {
                Some(p) => self@.len() > 0 && p@ == self@.drop_last(),
                None => self@.len() == 0,
            },
    {
        if self.comps.len() == 0 {
            return None;
        }
        let mut comps: Vec<String> = Vec::new();
        let n = self.comps.len() - 1;
        let mut i: usize = 0;
        while i < n
            invariant
                i <= n == self.comps.len() - 1,
                comps.len() == i,
                forall|j: int| 0 <= j < i ==> #[trigger] comps@[j]@ == self.comps@[j]@,
            decreases n - i,
        {
            comps.push(self.comps[i].clone());
            i = i + 1;
        }
        let p = FsPath { comps };
        proof {
            assert(p@ =~= self@.drop_last());
        }
        Some(p)
    }

    /// The last component; none for the root.
    pub fn file_name(&self) -> (r: Option<String>)
        ensures
            match r {
                Some(s) => self@.len() > 0 && s@ == self@.last(),
                None => self@.len() == 0,
            },
    {
        let n = self.comps.len();
        if n == 0 {
            None
        } else {
            Some(self.comps[n - 1].clone())
        }
    }

    /// This path with `name` added below it.
    pub fn join(&self, name: &String) -> (r: FsPath)
        ensures
            r@ == self@.push(name@),
    {
        let mut comps = copy_strings(&self.comps);
        comps.push(name.clone());
        let r = FsPath { comps };
        proof {
            assert(r@ =~= self@.push(name@));
        }
        r
    }

    /// Whether two paths are the same.
    pub fn same_as(&self, other: &FsPath) -> (r: bool)
        ensures
            r == (self@ == other@),
    {
        if self.comps.len() != other.comps.len() {
            proof {
                assert(self@.len() != other@.len());
            }
            return false;
        }
        let mut i: usize = 0;
        while i < self.comps.len()
            invariant
                i <= self.comps.len() == other.comps.len(),
                forall|j: int| 0 <= j < i ==> self@[j] == other@[j],
            decreases self.comps.len() - i,
        {
            if self.comps[i] != other.comps[i] {
                proof {
                    assert(self@[i as int] != other@[i as int]);
                }
                return false;
            }
            i = i + 1;
        }
        proof {
            assert(self@ =~= other@);
        }
        true
    }
}

/// A copy of a list of paths.
pub fn copy_paths(v: &Vec<FsPath>) -> (r: Vec<FsPath>)
    ensures
        r.len() == v.len(),
        paths_view(r@) == paths_view(v@),
{
    let mut r: Vec<FsPath> = Vec::new();
    let mut i: usize = 0;
    while i < v.len()
        invariant
            i <= v.len(),
            r.len() == i,
            forall|j: int| 0 <= j < i ==> #[trigger] r@[j]@ == v@[j]@,
        decreases v.len() - i,
    {
        r.push(v[i].duplicate());
        i = i + 1;
    }
    proof {
        assert(paths_view(r@) =~= paths_view(v@));
    }
    r
}

/// The views of a list of paths.
pub open spec fn paths_view(v: Seq<FsPath>) -> Seq<Seq<Seq<char>>> {
    v.map_values(|p: FsPath| p@)
}

/// The views of a list of path pairs.
pub open spec fn pairs_view(v: Seq<(FsPath, FsPath)>) -> Seq<(Seq<Seq<char>>, Seq<Seq<char>>)> {
    v.map_values(|p: (FsPath, FsPath)| (p.0@, p.1@))
}

} // verus!
