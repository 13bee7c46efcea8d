//! Paths of protobuf names: absolute (from the root package) and relative,
//! held as their dot-separated components.

use vstd::prelude::*;

verus! {

/// Views of a list of names.
pub open spec fn names_view(v: Seq<String>) -> Seq<Seq<char>> {
    v.map_values(|s: String| s@)
}

/// Appending a name appends its view.
proof fn lemma_names_view_push(v: Seq<String>, x: String)
    ensures
        names_view(v.push(x)) == names_view(v).push(x@),
{
    assert(names_view(v.push(x)) =~= names_view(v).push(x@));
}

/// Copy a list of names.
fn clone_names(v: &Vec<String>) -> (r: Vec<String>)
    ensures
        names_view(r@) == names_view(v@),
{
    let mut r: Vec<String> = Vec::new();
    let mut i: usize = 0;
    while i < v.len()
        invariant
            i <= v@.len(),
            names_view(r@) == names_view(v@.take(i as int)),
        decreases v@.len() - i,
    {
        r.push(v[i].clone());
        assert(names_view(v@.take(i + 1)) =~= names_view(v@.take(i as int)).push(v@[i as int]@));
        i = i + 1;
    }
    assert(v@.take(i as int) =~= v@);
    r
}

/// `prefix` is a prefix of `path`.
pub open spec fn is_path_prefix(prefix: Seq<Seq<char>>, path: Seq<Seq<char>>) -> bool {
    prefix.len() <= path.len() && path.take(prefix.len() as int) == prefix
}

/// Whether the first `n` names of `a` and `b`, from `a_from` and `b_from`,
/// are the same.
fn names_eq_from(a: &Vec<String>, a_from: usize, b: &Vec<String>, n: usize) -> (r: bool)
    requires
        a_from + n <= a.len(),
        n <= b@.len(),
    ensures
        r == (names_view(a@).subrange(a_from as int, a_from + n) == names_view(b@).take(
            n as int,
        )),
{
    let mut i: usize = 0;
    while i < n
        invariant
            i <= n,
            a_from + n <= a.len(),
            n <= b@.len(),
            names_view(a@).subrange(a_from as int, a_from + i) == names_view(b@).take(i as int),
        decreases n - i,
    {
        if a[a_from + i] != b[i] {
            assert(names_view(a@).subrange(a_from as int, a_from + n)[i as int] != names_view(
                b@,
            ).take(n as int)[i as int]);
            return false;
        }
        assert(names_view(a@).subrange(a_from as int, a_from + i + 1) =~= names_view(
            a@,
        ).subrange(a_from as int, a_from + i).push(a@[a_from + i]@));
        assert(names_view(b@).take(i + 1) =~= names_view(b@).take(i as int).push(b@[i as int]@));
        i = i + 1;
    }
    true
}

/// Absolute path: the names of the packages and messages from the root,
/// written `.a.b.C` in `.proto` files.
pub struct ProtobufAbsPath {
    /// Names, outermost first.
    pub components: Vec<String>,
}

impl View for ProtobufAbsPath {
    type V = Seq<Seq<char>>;

    open spec fn view(&self) -> Seq<Seq<char>> {
        names_view(self.components@)
    }
}

/// Relative path: names to follow from some scope, written `b.C`.
pub struct ProtobufRelPath {
    /// Names, outermost first.
    pub components: Vec<String>,
}

impl View for ProtobufRelPath {
    type V = Seq<Seq<char>>;

    open spec fn view(&self) -> Seq<Seq<char>> {
        names_view(self.components@)
    }
}

/// Path to a message or an enum as written in a `.proto` file.
pub enum ProtobufPath {
    /// Written with a leading dot.
    Abs(ProtobufAbsPath),
    /// Written without a leading dot.
    Rel(ProtobufRelPath),
}

impl ProtobufAbsPath {
    /// The root package.
    pub fn root() -> (r: ProtobufAbsPath)
        ensures
            r@ == Seq::<Seq<char>>::empty(),
    {
        let r = ProtobufAbsPath { components: Vec::new() };
        assert(r@ =~= Seq::<Seq<char>>::empty());
        r
    }

    /// Copy of the path.
    pub fn clone_path(&self) -> (r: ProtobufAbsPath)
        ensures
            r@ == self@,
    {
        ProtobufAbsPath { components: clone_names(&self.components) }
    }

    /// Whether this is the root package.
    pub fn is_root(&self) -> (r: bool)
        ensures
            r == (self@.len() == 0),
    {
        self.components.len() == 0
    }

    /// Append a simple name.
    pub fn push_simple(&mut self, name: &str)
        ensures
            final(self)@ == old(self)@.push(name@),
    {
        self.components.push(name.to_owned());
        assert(names_view(self.components@) =~= names_view(old(self).components@).push(name@));
    }

    /// Append a relative path.
    pub fn push_relative(&mut self, rel: &ProtobufRelPath)
        ensures
            final(self)@ == old(self)@ + rel@,
    {
        let mut i: usize = 0;
        while i < rel.components.len()
            invariant
                i <= rel@.len(),
                self@ == old(self)@ + rel@.take(i as int),
            decreases rel@.len() - i,
        {
            let ghost before = self@;
            self.push_simple(rel.components[i].as_str());
            assert(rel@.take(i + 1) =~= rel@.take(i as int).push(rel.components@[i as int]@));
            assert(self@ =~= old(self)@ + rel@.take(i + 1));
            i = i + 1;
        }
        assert(rel@.take(i as int) =~= rel@);
    }

    /// Whether `prefix` is a prefix of this path, name by name.
    pub fn starts_with(&self, prefix: &ProtobufAbsPath) -> (r: bool)
        ensures
            r == is_path_prefix(prefix@, self@),
    {
        if prefix.components.len() > self.components.len() {
            return false;
        }
        let r = names_eq_from(&self.components, 0, &prefix.components, prefix.components.len());
        assert(names_view(prefix.components@).take(prefix@.len() as int) =~= prefix@);
        assert(self@.subrange(0, prefix@.len() as int) =~= self@.take(prefix@.len() as int));
        r
    }

    /// Whether the two paths are the same.
    pub fn path_eq(&self, other: &ProtobufAbsPath) -> (r: bool)
        ensures
            r == (self@ == other@),
    {
        if self.components.len() != other.components.len() {
            return false;
        }
        let r = self.starts_with(other);
        assert(self@.take(self@.len() as int) =~= self@);
        r
    }

    /// The rest of this path after `prefix`, if `prefix` is a prefix of it.
    pub fn remove_prefix(&self, prefix: &ProtobufAbsPath) -> (r: Option<ProtobufRelPath>)
        ensures
            r is Some <==> is_path_prefix(prefix@, self@),
            r matches Some(rel) ==> self@ == prefix@ + rel@,
    {
        if !self.starts_with(prefix) {
            return None;
        }
        let mut rest: Vec<String> = Vec::new();
        let mut i: usize = prefix.components.len();
        while i < self.components.len()
            invariant
                prefix@.len() <= i <= self@.len(),
                names_view(rest@) == self@.subrange(prefix@.len() as int, i as int),
            decreases self@.len() - i,
        {
            let ghost before = rest@;
            rest.push(self.components[i].clone());
            proof {
                lemma_names_view_push(before, self.components@[i as int]);
            }
            assert(names_view(rest@) =~= self@.subrange(prefix@.len() as int, i + 1));
            i = i + 1;
        }
        let r = ProtobufRelPath { components: rest };
        assert(self@ =~= prefix@ + r@);
        Some(r)
    }

    /// This path, then each of its parents up to the root.
    pub fn self_and_parents(&self) -> (r: Vec<ProtobufAbsPath>)
        ensures
            r@.len() == self@.len() + 1,
            forall|i: int|
                0 <= i < r@.len() ==> (#[trigger] r@[i])@ == self@.take(self@.len() - i),
    {
        let mut r: Vec<ProtobufAbsPath> = Vec::new();
        let mut n: usize = self.components.len();
        loop
            invariant
                n <= self@.len(),
                r@.len() == self@.len() - n,
                forall|i: int|
                    0 <= i < r@.len() ==> (#[trigger] r@[i])@ == self@.take(self@.len() - i),
            decreases n,
        {
            let mut components: Vec<String> = Vec::new();
            let mut i: usize = 0;
            while i < n
                invariant
                    i <= n <= self@.len(),
                    names_view(components@) == self@.take(i as int),
                decreases n - i,
            {
                let ghost before = components@;
                components.push(self.components[i].clone());
                proof {
                    lemma_names_view_push(before, self.components@[i as int]);
                }
                assert(names_view(components@) =~= self@.take(i + 1));
                i = i + 1;
            }
            r.push(ProtobufAbsPath { components });
            if n == 0 {
                return r;
            }
            n = n - 1;
        }
    }
}

impl ProtobufRelPath {
    /// Whether the path has no names.
    pub fn is_empty(&self) -> (r: bool)
        ensures
            r == (self@.len() == 0),
    {
        self.components.len() == 0
    }

    /// Copy of the path.
    pub fn clone_path(&self) -> (r: ProtobufRelPath)
        ensures
            r@ == self@,
    {
        ProtobufRelPath { components: clone_names(&self.components) }
    }

    /// The first name and the path after it; `None` for an empty path.
    pub fn split_first_rem(&self) -> (r: Option<(String, ProtobufRelPath)>)
        ensures
            r is None <==> self@.len() == 0,
            r matches Some((first, rem)) ==> first@ == self@[0] && rem@ == self@.drop_first(),
    {
        if self.components.len() == 0 {
            return None;
        }
        let mut rest: Vec<String> = Vec::new();
        let mut i: usize = 1;
        while i < self.components.len()
            invariant
                1 <= i <= self@.len(),
                names_view(rest@) == self@.subrange(1, i as int),
            decreases self@.len() - i,
        {
            let ghost before = rest@;
            rest.push(self.components[i].clone());
            proof {
                lemma_names_view_push(before, self.components@[i as int]);
            }
            assert(names_view(rest@) =~= self@.subrange(1, i + 1));
            i = i + 1;
        }
        let rem = ProtobufRelPath { components: rest };
        assert(rem@ =~= self@.drop_first());
        Some((self.components[0].clone(), rem))
    }
}

} // verus!
