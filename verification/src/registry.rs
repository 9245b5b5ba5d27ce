//! Registry of source readers by canonical name.

use vstd::hash_map::StringHashMap;
use vstd::prelude::*;

verus! {

/// Registry of reader implementations, keyed by canonical name.
#[verifier::reject_recursive_types(R)]
pub struct ReaderRegistry<R> {
    readers: StringHashMap<R>,
}

impl<R> View for ReaderRegistry<R> {
    type V = Map<Seq<char>, R>;

    closed spec fn view(&self) -> Map<Seq<char>, R> {
        self.readers@
    }
}

impl<R> Default for ReaderRegistry<R> {
    fn default() -> (r: Self)
        ensures
            r@ == Map::<Seq<char>, R>::empty(),
    {
        ReaderRegistry { readers: StringHashMap::new() }
    }
}

impl<R> ReaderRegistry<R> {
    /// Creates an empty registry.
    pub fn new() -> (r: Self)
        ensures
            r@ == Map::<Seq<char>, R>::empty(),
    {
        ReaderRegistry { readers: StringHashMap::new() }
    }

    /// Registers `reader` under `name`, replacing any reader registered there.
    pub fn register(&mut self, name: &str, reader: R)
        ensures
            final(self)@ == old(self)@.insert(name@, reader),
    {
        self.readers.insert(name.to_owned(), reader);
    }

    /// The reader registered under `name`, if any.
    pub fn get(&self, name: &str) -> (r: Option<&R>)
        ensures
            match r {
                Some(reader) => self@.contains_key(name@) && *reader == self@[name@],
                None => !self@.contains_key(name@),
            },
    {
        self.readers.get(name)
    }
}

/// A reader registered under a name is the one that name retrieves, until
/// another is registered under it; other names are unaffected.
pub proof fn lemma_register_then_get<R>(m: Map<Seq<char>, R>, name: Seq<char>, reader: R, other: Seq<char>)
    ensures
        m.insert(name, reader).contains_key(name),
        m.insert(name, reader)[name] == reader,
        other != name ==> (m.insert(name, reader).contains_key(other) == m.contains_key(other)),
        other != name && m.contains_key(other) ==> m.insert(name, reader)[other] == m[other],
{
}

} // verus!
