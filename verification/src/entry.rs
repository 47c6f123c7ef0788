//! The entry: one media item and a reference into its content source.

use vstd::prelude::*;

verus! {

/// A named record that identifies one media item.
///
/// An entry is immutable once made. Its name is the filename under which the
/// filesystem shows it and is never empty.
#[derive(Debug)]
pub struct Entry {
    name: String,
    source_id: String,
    source_index: u64,
}

/// What an [`Entry`] holds, as plain values.
pub struct EntryView {
    pub name: Seq<char>,
    pub source_id: Seq<char>,
    pub source_index: u64,
}

impl View for Entry {
    type V = EntryView;

    closed spec fn view(&self) -> EntryView {
        EntryView {
            name: self.name@,
            source_id: self.source_id@,
            source_index: self.source_index,
        }
    }
}

impl Entry {
    #[verifier::type_invariant]
    spec fn named(&self) -> bool {
        self.name@.len() > 0
    }

    /// Makes an entry, unless `name` is empty.
    pub fn new(name: String, source_id: String, source_index: u64) -> (made: Option<Entry>)
        ensures
            made is Some <==> name@.len() > 0,
            made matches Some(entry) ==> entry@ == (EntryView {
                name: name@,
                source_id: source_id@,
                source_index,
            }),
    {
        if name.as_str().unicode_len() == 0 {
            None
        } else {
            Some(Entry { name, source_id, source_index })
        }
    }

    /// The filename of the entry.
    pub fn name(&self) -> (name: &String)
        ensures
            name@ == self@.name,
            name@.len() > 0,
    {
        proof {
            use_type_invariant(self);
        }
        &self.name
    }

    /// The opaque identifier of the content source.
    pub fn source_id(&self) -> (source_id: &String)
        ensures
            source_id@ == self@.source_id,
    {
        &self.source_id
    }

    /// The index of the item within its content source.
    pub fn source_index(&self) -> (source_index: u64)
        ensures
            source_index == self@.source_index,
    {
        self.source_index
    }

    /// A second entry with the same contents.
    pub fn duplicate(&self) -> (copy: Entry)
        ensures
            copy@ == self@,
    {
        proof {
            use_type_invariant(self);
        }
        Entry {
            name: self.name.clone(),
            source_id: self.source_id.clone(),
            source_index: self.source_index,
        }
    }
}

} // verus!
