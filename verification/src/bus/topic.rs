//! Topic names.

use vstd::prelude::*;

verus! {

/// A named destination for published messages. Names are compared byte for
/// byte, so they are case-sensitive.
#[derive(Clone, Debug, PartialEq, Eq, PartialOrd, Ord, Hash)]
pub struct Topic(pub String);

impl View for Topic {
    type V = Seq<char>;

    open spec fn view(&self) -> Seq<char> {
        self.0@
    }
}

impl Topic {
    /// Names a topic.
    pub fn new(name: &str) -> (topic: Topic)
        ensures
            topic@ == name@,
    {
        Topic(name.to_owned())
    }

    /// The name as a string slice.
    pub fn name(&self) -> (name: &str)
        ensures
            name@ == self@,
    {
        self.0.as_str()
    }

    /// A second handle on the same name.
    pub fn duplicate(&self) -> (topic: Topic)
        ensures
            topic@ == self@,
    {
        Topic(self.0.clone())
    }
}

} // verus!
