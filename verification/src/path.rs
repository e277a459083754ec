use vstd::prelude::*;

verus! {

/// A path as the sequence of its component names, outermost first.
///
/// Two paths are the same when they name the same components in the same
/// order; one path lies inside another when the other's components are a
/// prefix of its own.
#[derive(Debug, PartialEq, Eq)]
pub struct TreePath {
    pub components: Vec<String>,
}

impl View for TreePath {
    type V = Seq<Seq<char>>;

    open spec fn view(&self) -> Seq<Seq<char>> {
        Seq::new(self.components@.len(), |i: int| self.components@[i]@)
    }
}

impl Clone for TreePath {
    fn clone(&self) -> (r: Self)
        ensures
            r@ == self@,
    {
        let mut components: Vec<String> = Vec::new();
        let mut i: usize = 0;
        while i < self.components.len()
            invariant
                i <= self.components.len(),
                components@.len() == i,
                forall|k: int| 0 <= k < i ==> components@[k]@ == self.components@[k]@,
            decreases self.components.len() - i,
        {
            components.push(self.components[i].clone());
            i = i + 1;
        }
        let r = TreePath { components };
        assert(r@ =~= self@);
        r
    }
}

impl TreePath {
    /// The path with no components.
    pub fn empty() -> (r: TreePath)
        ensures
            r@ == Seq::<Seq<char>>::empty(),
    {
        let r = TreePath { components: Vec::new() };
        assert(r@ =~= Seq::<Seq<char>>::empty());
        r
    }

    /// Number of components.
    pub fn len(&self) -> (n: usize)
        ensures
            n == self@.len(),
    {
        self.components.len()
    }

    /// Whether both paths name the same components in the same order.
    pub fn same_as(&self, other: &TreePath) -> (r: bool)
        ensures
            r == (self@ == other@),
    {
        if self.components.len() != other.components.len() {
            assert(self@.len() != other@.len());
            return false;
        }
        let mut i: usize = 0;
        while i < self.components.len()
            invariant
                i <= self.components.len(),
                self.components.len() == other.components.len(),
                forall|k: int| 0 <= k < i ==> self@[k] == other@[k],
            decreases self.components.len() - i,
        {
            if self.components[i] != other.components[i] {
                assert(self@[i as int] != other@[i as int]);
                return false;
            }
            i = i + 1;
        }
        assert(self@ =~= other@);
        true
    }

    /// Whether this path lies at or below `base`: whole components are
    /// compared, never parts of a name.
    pub fn starts_with(&self, base: &TreePath) -> (r: bool)
        ensures
            r == base@.is_prefix_of(self@),
    {
        if base.components.len() > self.components.len() {
            return false;
        }
        let mut i: usize = 0;
        while i < base.components.len()
            invariant
                i <= base.components.len(),
                base.components.len() <= self.components.len(),
                forall|k: int| 0 <= k < i ==> self@[k] == base@[k],
            decreases base.components.len() - i,
        {
            if self.components[i] != base.components[i] {
                assert(base@[i as int] != self@.subrange(0, base@.len() as int)[i as int]);
                return false;
            }
            i = i + 1;
        }
        assert(base@ =~= self@.subrange(0, base@.len() as int));
        true
    }

    /// The path one level below this one, under `name`.
    pub fn join(&self, name: &String) -> (r: TreePath)
        ensures
            r@ == self@.push(name@),
    {
        let mut r = self.clone();
        r.components.push(name.clone());
        assert(r@ =~= self@.push(name@));
        r
    }

    /// The components that follow the first `n`.
    pub fn skip(&self, n: usize) -> (r: TreePath)
        requires
            n <= self@.len(),
        ensures
            r@ == self@.skip(n as int),
    {
        let mut components: Vec<String> = Vec::new();
        let mut i: usize = n;
        while i < self.components.len()
            invariant
                n <= i <= self.components.len(),
                components@.len() == i - n,
                forall|k: int| 0 <= k < i - n ==> components@[k]@ == self.components@[k + n]@,
            decreases self.components.len() - i,
        {
            components.push(self.components[i].clone());
            i = i + 1;
        }
        let r = TreePath { components };
        assert(r@ =~= self@.skip(n as int));
        r
    }

    /// This path as seen from `base`, when it lies at or below it.
    pub fn strip_prefix(&self, base: &TreePath) -> (r: Option<TreePath>)
        ensures
            r is Some <==> base@.is_prefix_of(self@),
            r matches Some(rest) ==> rest@ == relative_to(base@, self@),
    {
        if self.starts_with(base) {
            Some(self.skip(base.len()))
        } else {
            None
        }
    }
}

/// What remains of `path` once the components of `origin` are taken off its front.
pub open spec fn relative_to(origin: Seq<Seq<char>>, path: Seq<Seq<char>>) -> Seq<Seq<char>> {
    path.skip(origin.len() as int)
}

/// The path of an entry relative to the capture root.
///
/// An entry that does not lie inside the capture root cannot have come out of
/// a traversal of that root, so such an input is excluded.
pub fn find_relative_path(origin: &TreePath, relative: &TreePath) -> (r: TreePath)
    requires
        origin@.is_prefix_of(relative@),
    ensures
        r@ == relative_to(origin@, relative@),
        origin@ + r@ == relative@,
{
    let r = relative.skip(origin.len());
    assert(origin@ + r@ =~= relative@);
    r
}

} // verus!
