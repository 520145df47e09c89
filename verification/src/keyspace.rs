//! The keyspace of the store that the rows go to.
use vstd::prelude::*;

verus! {

/// A keyspace of the store, by its name.
#[derive(Debug, PartialEq, Eq)]
pub struct ChronicleKeyspace {
    name: String,
}

impl View for ChronicleKeyspace {
    type V = Seq<char>;

    closed spec fn view(&self) -> Seq<char> {
        self.name@
    }
}

impl ChronicleKeyspace {
    /// The keyspace of the given name.
    pub fn new(name: String) -> (keyspace: ChronicleKeyspace)
        ensures
            keyspace@ == name@,
    {
        ChronicleKeyspace { name }
    }

    /// The name of the keyspace.
    pub fn name(&self) -> (name: &str)
        ensures
            name@ == self@,
    {
        self.name.as_str()
    }
}

impl Clone for ChronicleKeyspace {
    fn clone(&self) -> (keyspace: ChronicleKeyspace)
        ensures
            keyspace@ == self@,
    {
        ChronicleKeyspace { name: self.name.clone() }
    }
}

} // verus!
