//! The header of a table: its column names and where each one stands.

use vstd::hash_map::StringHashMap;
use vstd::prelude::*;

verus! {

/// The map from each name in `names` to the last position at which it stands.
pub open spec fn name_positions(names: Seq<Seq<char>>) -> Map<Seq<char>, usize>
    decreases names.len(),
{
    if names.len() == 0 {
        Map::empty()
    } else {
        name_positions(names.drop_last()).insert(names.last(), (names.len() - 1) as usize)
    }
}

/// Whether `p` is the last position at which `name` stands in `names`.
pub open spec fn is_last_position(names: Seq<Seq<char>>, name: Seq<char>, p: int) -> bool {
    &&& 0 <= p < names.len()
    &&& names[p] == name
    &&& forall|j: int| p < j < names.len() ==> names[j] != name
}

/// The keys of `name_positions(names)` are the names, and each is mapped to
/// the last position at which it stands.
pub proof fn lemma_name_positions(names: Seq<Seq<char>>, name: Seq<char>)
    requires
        names.len() <= usize::MAX,
    ensures
        name_positions(names).contains_key(name) <==> names.contains(name),
        names.contains(name) ==> {
            is_last_position(names, name, name_positions(names)[name] as int)
        },
    decreases names.len(),
{
    if names.len() > 0 {
        let front = names.drop_last();
        lemma_name_positions(front, name);
        if names.last() == name {
            assert(names[names.len() - 1] == name);
        } else if front.contains(name) {
            let j = choose|j: int| 0 <= j < front.len() && front[j] == name;
            assert(names[j] == name);
            let p = name_positions(front)[name];
            assert(front[p as int] == names[p as int]);
            assert forall|j: int| p < j < names.len() implies names[j] != name by {
                if j < front.len() {
                    assert(front[j] == names[j]);
                }
            }
        } else {
            if names.contains(name) {
                let j = choose|j: int| 0 <= j < names.len() && names[j] == name;
                assert(front[j] == name);
            }
        }
    }
}

/// Where no name stands twice, the map has as many entries as there are
/// names.
pub proof fn lemma_distinct_names(names: Seq<Seq<char>>)
    requires
        names.len() <= usize::MAX,
        names.no_duplicates(),
    ensures
        name_positions(names).dom().finite(),
        name_positions(names).len() == names.len(),
    decreases names.len(),
{
    if names.len() > 0 {
        let front = names.drop_last();
        lemma_distinct_names(front);
        lemma_name_positions(front, names.last());
        if front.contains(names.last()) {
            let j = choose|j: int| 0 <= j < front.len() && front[j] == names.last();
            assert(names[j] == names[names.len() - 1]);
        }
    }
}

/// The column names of a table, in order, with an index from name to
/// position.
///
/// Where a name occurs more than once, the index holds its last position.
pub struct HeaderIndex {
    names: Vec<String>,
    index: StringHashMap<usize>,
}

impl View for HeaderIndex {
    type V = Seq<Seq<char>>;

    /// The column names, in order.
    closed spec fn view(&self) -> Seq<Seq<char>> {
        self.names.deep_view()
    }
}

impl HeaderIndex {
    #[verifier::type_invariant]
    spec fn well_formed(self) -> bool {
        self.index@ == name_positions(self.names.deep_view())
    }

    /// The index: for each name, the position that a lookup by it gives.
    pub closed spec fn index(&self) -> Map<Seq<char>, usize> {
        self.index@
    }

    /// Builds the header of a table with the given column names.
    pub fn new(names: Vec<String>) -> (header: HeaderIndex)
        ensures
            header@ == names.deep_view(),
            header.index() == name_positions(names.deep_view()),
    {
        let mut index: StringHashMap<usize> = StringHashMap::with_capacity(names.len());
        let mut i: usize = 0;
        while i < names.len()
            invariant
                i <= names.len(),
                index@ == name_positions(names.deep_view().take(i as int)),
            decreases names.len() - i,
        {
            proof {
                assert(names.deep_view().take(i + 1).drop_last() =~= names.deep_view().take(
                    i as int,
                ));
            }
            index.insert(names[i].clone(), i);
            i += 1;
        }
        proof {
            assert(names.deep_view().take(names.len() as int) =~= names.deep_view());
        }
        HeaderIndex { names, index }
    }

    /// The number of columns.
    pub fn width(&self) -> (width: usize)
        ensures
            width == self@.len(),
    {
        self.names.len()
    }

    /// The column names, in order.
    pub fn names(&self) -> (names: &Vec<String>)
        ensures
            names.deep_view() == self@,
    {
        &self.names
    }

    /// The position of the column called `name`: the last one of that name,
    /// or `None` if no column has it.
    pub fn index_of(&self, name: &str) -> (position: Option<usize>)
        ensures
            self.index() == name_positions(self@),
            position == if self.index().contains_key(name@) {
                Some(self.index()[name@])
            } else {
                None
            },
            match position {
                Some(p) => is_last_position(self@, name@, p as int),
                None => !self@.contains(name@),
            },
    {
        proof {
            use_type_invariant(self);
            assert(self.names.deep_view().len() == self.names.len());
            lemma_name_positions(self.names.deep_view(), name@);
        }
        match self.index.get(name) {
            Some(p) => Some(*p),
            None => None,
        }
    }
}

} // verus!
