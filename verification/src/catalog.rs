//! The template catalog: an addressable set of named template resources,
//! keyed by their logical, pre-substitution path. The engine only looks
//! resources up; where they come from (disk, an embedded bundle, a test) is
//! the caller's concern.

use vstd::prelude::*;

verus! {

/// First-match lookup of `path` among `(path, content)` entries.
pub open spec fn lookup_entries(es: Seq<(Seq<char>, Seq<char>)>, path: Seq<char>) -> Option<
    Seq<char>,
>
    decreases es.len(),
{
    if es.len() == 0 {
        Option::None
    } else if es[0].0 == path {
        Option::Some(es[0].1)
    } else {
        lookup_entries(es.drop_first(), path)
    }
}

proof fn lemma_lookup_at(es: Seq<(Seq<char>, Seq<char>)>, path: Seq<char>, i: int)
    requires
        0 <= i <= es.len(),
        forall|j: int| 0 <= j < i ==> (#[trigger] es[j]).0 != path,
        i < es.len() ==> es[i].0 == path,
    ensures
        i < es.len() ==> lookup_entries(es, path) == Option::Some(es[i].1),
        i == es.len() ==> lookup_entries(es, path) is None,
    decreases es.len(),
{
    if es.len() > 0 && es[0].0 != path {
        let e1 = es.drop_first();
        assert(forall|j: int| 0 <= j < i - 1 ==> (#[trigger] e1[j]) == es[j + 1]);
        lemma_lookup_at(e1, path, i - 1);
    }
}

/// A set of named template resources.
pub struct TemplateCatalog {
    entries: Vec<(String, String)>,
}

impl View for TemplateCatalog {
    type V = Seq<(Seq<char>, Seq<char>)>;

    closed spec fn view(&self) -> Seq<(Seq<char>, Seq<char>)> {
        self.entries@.map(|i: int, e: (String, String)| (e.0@, e.1@))
    }
}

impl TemplateCatalog {
    /// A catalog with no resources.
    pub fn new() -> (c: TemplateCatalog)
        ensures
            c@ == Seq::<(Seq<char>, Seq<char>)>::empty(),
    {
        let c = TemplateCatalog { entries: Vec::new() };
        proof {
            assert(c@ =~= Seq::<(Seq<char>, Seq<char>)>::empty());
        }
        c
    }

    /// Adds one resource under its logical path.
    pub fn add(&mut self, path: String, content: String)
        ensures
            final(self)@ == old(self)@.push((path@, content@)),
    {
        let ghost before = self@;
        self.entries.push((path, content));
        proof {
            assert(self@ =~= before.push((self.entries@.last().0@, self.entries@.last().1@)));
        }
    }

    /// The content stored under `path`, if any.
    pub fn get_resource(&self, path: &str) -> (r: Option<String>)
        ensures
            match r {
                Some(c) => lookup_entries(self@, path@) == Option::Some(c@),
                None => lookup_entries(self@, path@) is None,
            },
    {
        let needle = String::from_str(path);
        let n = self.entries.len();
        let mut i: usize = 0;
        while i < n
            invariant
                0 <= i <= n,
                n == self.entries@.len(),
                needle@ == path@,
                self@.len() == n,
                forall|j: int| 0 <= j < n ==> #[trigger] self@[j] == (self.entries@[j].0@,
                self.entries@[j].1@),
                forall|j: int| 0 <= j < i ==> (#[trigger] self@[j]).0 != path@,
            decreases n - i,
        {
            if self.entries[i].0 == needle {
                let c = self.entries[i].1.clone();
                proof {
                    lemma_lookup_at(self@, path@, i as int);
                }
                return Some(c);
            }
            i = i + 1;
        }
        proof {
            lemma_lookup_at(self@, path@, n as int);
        }
        None
    }
}

} // verus!
