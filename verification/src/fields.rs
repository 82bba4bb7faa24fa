//! The field table: which attribute of an object goes under which key of its record.

use vstd::prelude::*;

verus! {

/// One field of a projection: the key in the record, and the attribute that is read for
/// it.
#[derive(Clone, Debug, PartialEq, Eq)]
pub struct FieldSpec {
    pub output_key: String,
    pub source_attribute: String,
}

/// The mathematical content of a [`FieldSpec`].
pub struct FieldSpecView {
    pub output_key: Seq<char>,
    pub source_attribute: Seq<char>,
}

impl View for FieldSpec {
    type V = FieldSpecView;

    open spec fn view(&self) -> FieldSpecView {
        FieldSpecView {
            output_key: self.output_key@,
            source_attribute: self.source_attribute@,
        }
    }
}

/// The fields that a list of pairs of output key and source attribute describes, in the
/// order of the list.
pub open spec fn fields_of(pairs: Seq<(String, String)>) -> Seq<FieldSpecView> {
    Seq::new(
        pairs.len(),
        |i: int| FieldSpecView { output_key: pairs[i].0@, source_attribute: pairs[i].1@ },
    )
}

/// The fields of a projection, in the order in which they were given. A table is made
/// once and never changed; it may be empty, and an output key may occur more than once.
#[derive(Clone, Debug, PartialEq, Eq)]
pub struct FieldTable {
    specs: Vec<FieldSpec>,
}

impl View for FieldTable {
    type V = Seq<FieldSpecView>;

    closed spec fn view(&self) -> Seq<FieldSpecView> {
        Seq::new(self.specs@.len(), |i: int| self.specs@[i]@)
    }
}

impl FieldTable {
    /// The table of the given pairs of output key and source attribute, in their order.
    pub fn new(pairs: Vec<(String, String)>) -> (table: FieldTable)
        ensures
            table@ == fields_of(pairs@),
    {
        let mut specs: Vec<FieldSpec> = Vec::new();
        let mut i: usize = 0;
        while i < pairs.len()
            invariant
                i <= pairs.len(),
                specs@.len() == i,
                forall|j: int|
                    0 <= j < i ==> (#[trigger] specs@[j])@ == (FieldSpecView {
                        output_key: pairs@[j].0@,
                        source_attribute: pairs@[j].1@,
                    }),
            decreases pairs.len() - i,
        {
            specs.push(
                FieldSpec {
                    output_key: pairs[i].0.clone(),
                    source_attribute: pairs[i].1.clone(),
                },
            );
            i = i + 1;
        }
        let table = FieldTable { specs };
        assert(table@ =~= fields_of(pairs@));
        table
    }

    /// The number of fields.
    pub fn len(&self) -> (len: usize)
        ensures
            len == self@.len(),
    {
        self.specs.len()
    }

    /// Whether the table has no field.
    pub fn is_empty(&self) -> (empty: bool)
        ensures
            empty == (self@.len() == 0),
    {
        self.specs.len() == 0
    }

    /// The field at `index`, counted from zero in the order of the table; `None` from the
    /// number of fields on.
    pub fn get(&self, index: usize) -> (field: Option<&FieldSpec>)
        ensures
            match field {
                Some(spec) => index < self@.len() && spec@ == self@[index as int],
                None => index >= self@.len(),
            },
    {
        if index < self.specs.len() {
            Some(&self.specs[index])
        } else {
            None
        }
    }
}

} // verus!
