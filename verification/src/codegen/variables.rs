use vstd::prelude::*;

verus! {

/// The mapping that a list of declarations leaves behind: each name with
/// the spelling given at its last declaration.
pub open spec fn bindings(entries: Seq<(String, String)>) -> Map<Seq<char>, Seq<char>>
    decreases entries.len(),
{
    if entries.len() == 0 {
        Map::empty()
    } else {
        bindings(entries.drop_last()).insert(entries.last().0@, entries.last().1@)
    }
}

/// The types of the variables declared so far in one compilation: from a
/// variable's name to the target spelling of its type. The table is flat:
/// a later declaration of a name replaces the earlier one.
pub struct VarTable {
    entries: Vec<(String, String)>,
}

impl View for VarTable {
    type V = Map<Seq<char>, Seq<char>>;

    closed spec fn view(&self) -> Map<Seq<char>, Seq<char>> {
        bindings(self.entries@)
    }
}

proof fn lemma_bindings_skip_other(entries: Seq<(String, String)>, name: Seq<char>, from: int)
    requires
        0 <= from <= entries.len(),
        forall|j: int| from <= j < entries.len() ==> entries[j].0@ != name,
    ensures
        bindings(entries).contains_key(name) == bindings(entries.take(from)).contains_key(name),
        bindings(entries).contains_key(name) ==> bindings(entries)[name] == bindings(
            entries.take(from),
        )[name],
    decreases entries.len() - from,
{
    if from == entries.len() {
        assert(entries.take(from) =~= entries);
    } else {
        lemma_bindings_skip_other(entries.drop_last(), name, from);
        assert(entries.drop_last().take(from) =~= entries.take(from));
    }
}

impl VarTable {
    pub fn new() -> (r: Self)
        ensures
            r@ == Map::<Seq<char>, Seq<char>>::empty(),
    {
        VarTable { entries: Vec::new() }
    }

    /// Records that `name` has the type spelled `c_type`.
    pub fn insert(&mut self, name: String, c_type: String)
        ensures
            final(self)@ == old(self)@.insert(name@, c_type@),
    {
        let ghost before = self.entries@;
        self.entries.push((name, c_type));
        assert(self.entries@.drop_last() =~= before);
    }

    /// The spelling recorded for `name`, if any.
    pub fn lookup(&self, name: &String) -> (r: Option<&String>)
        ensures
            r is Some == self@.contains_key(name@),
            r matches Some(spelling) ==> spelling@ == self@[name@],
    {
        let mut i: usize = self.entries.len();
        while i > 0
            invariant
                i <= self.entries.len(),
                forall|j: int| i <= j < self.entries.len() ==> self.entries@[j].0@ != name@,
            decreases i,
        {
            i -= 1;
            if self.entries[i].0 == *name {
                proof {
                    lemma_bindings_skip_other(self.entries@, name@, i + 1);
                    assert(self.entries@.take(i + 1).drop_last() =~= self.entries@.take(i as int));
                }
                return Some(&self.entries[i].1);
            }
        }
        proof {
            lemma_bindings_skip_other(self.entries@, name@, 0);
        }
        None
    }
}

} // verus!
