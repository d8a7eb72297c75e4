use vstd::prelude::*;

verus! {

/// A filesystem path kept as its components: a base path as the platform
/// gave it, followed by the names joined below it. The caller turns it into a
/// native path by joining the components in order.
#[derive(Debug, PartialEq, Eq)]
pub struct FsPath {
    pub parts: Vec<String>,
}

impl View for FsPath {
    type V = Seq<Seq<char>>;

    open spec fn view(&self) -> Seq<Seq<char>> {
        self.parts@.map_values(|p: String| p@)
    }
}

impl FsPath {
    /// The path made of `base` alone.
    pub fn new(base: &str) -> (r: FsPath)
        ensures
            r@ == seq![base@],
    {
        let mut parts: Vec<String> = Vec::new();
        parts.push(String::from_str(base));
        let r = FsPath { parts };
        assert(r@ =~= seq![base@]);
        r
    }

    /// This path with `name` joined below it.
    pub fn join(&self, name: &str) -> (r: FsPath)
        ensures
            r@ == self@.push(name@),
    {
        let mut parts: Vec<String> = Vec::new();
        let mut i: usize = 0;
        while i < self.parts.len()
            invariant
                i <= self.parts.len(),
                parts@.len() == i,
                forall|j: int| 0 <= j < i ==> #[trigger] parts@[j]@ == self.parts@[j]@,
            decreases self.parts.len() - i,
        {
            parts.push(self.parts[i].clone());
            i = i + 1;
        }
        parts.push(String::from_str(name));
        let r = FsPath { parts };
        assert(r@ =~= self@.push(name@));
        r
    }

    /// A copy of this path.
    pub fn duplicate(&self) -> (r: FsPath)
        ensures
            r@ == self@,
    {
        let mut parts: Vec<String> = Vec::new();
        let mut i: usize = 0;
        while i < self.parts.len()
            invariant
                i <= self.parts.len(),
                parts@.len() == i,
                forall|j: int| 0 <= j < i ==> #[trigger] parts@[j]@ == self.parts@[j]@,
            decreases self.parts.len() - i,
        {
            parts.push(self.parts[i].clone());
            i = i + 1;
        }
        let r = FsPath { parts };
        assert(r@ =~= self@);
        r
    }
}

} // verus!
