use vstd::prelude::*;

verus! {

/// A support header that generated code may need beyond the two that every
/// output names.
#[derive(Clone, Copy, Debug, PartialEq, Eq, Structural)]
pub enum Include {
    StdBool,
    IntTypes,
    StdInt,
}

impl Include {
    /// The header's name as it stands behind `#include`.
    pub open spec fn spec_header(&self) -> Seq<char> {
        match *self {
            Include::StdBool => "<stdbool.h>"@,
            Include::IntTypes => "<inttypes.h>"@,
            Include::StdInt => "<stdint.h>"@,
        }
    }

    pub fn header(&self) -> (r: &'static str)
        ensures
            r@ == self.spec_header(),
    {
        match self {
            Include::StdBool => "<stdbool.h>",
            Include::IntTypes => "<inttypes.h>",
            Include::StdInt => "<stdint.h>",
        }
    }
}

/// The support headers that one compilation has asked for. A header is in
/// the set or not: asking for it again changes nothing.
pub struct IncludeSet {
    stdbool: bool,
    inttypes: bool,
    stdint: bool,
}

impl View for IncludeSet {
    type V = Set<Include>;

    closed spec fn view(&self) -> Set<Include> {
        Set::new(
            |inc: Include|
                match inc {
                    Include::StdBool => self.stdbool,
                    Include::IntTypes => self.inttypes,
                    Include::StdInt => self.stdint,
                },
        )
    }
}

impl IncludeSet {
    pub fn new() -> (r: Self)
        ensures
            r@ == Set::<Include>::empty(),
    {
        let r = IncludeSet { stdbool: false, inttypes: false, stdint: false };
        assert(r@ =~= Set::<Include>::empty());
        r
    }

    pub fn contains(&self, inc: Include) -> (r: bool)
        ensures
            r == self@.contains(inc),
    {
        match inc {
            Include::StdBool => self.stdbool,
            Include::IntTypes => self.inttypes,
            Include::StdInt => self.stdint,
        }
    }

    /// Asks for `inc`.
    pub fn register(&mut self, inc: Include)
        ensures
            final(self)@ == old(self)@.insert(inc),
    {
        match inc {
            Include::StdBool => {
                self.stdbool = true;
            },
            Include::IntTypes => {
                self.inttypes = true;
            },
            Include::StdInt => {
                self.stdint = true;
            },
        }
        assert(self@ =~= old(self)@.insert(inc));
    }
}

} // verus!
