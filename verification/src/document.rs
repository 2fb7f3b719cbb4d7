//! Documents, as they travel from the user to the indexing workers.

use vstd::prelude::*;

verus! {

/// A field of the schema, by its position there.
#[derive(Debug, Clone, Copy, PartialEq, Eq, Structural)]
pub struct Field(pub u8);

/// One text of a document, under the field it belongs to.
#[derive(Debug)]
pub struct FieldValue {
    pub field: Field,
    pub text: String,
}

/// A document: texts under fields, in the order in which they were added.
#[derive(Debug)]
pub struct Document {
    pub field_values: Vec<FieldValue>,
}

impl View for Document {
    type V = Seq<(Field, Seq<char>)>;

    open spec fn view(&self) -> Seq<(Field, Seq<char>)> {
        self.field_values@.map_values(|value: FieldValue| (value.field, value.text@))
    }
}

impl Default for Document {
    /// A document without any text.
    fn default() -> (document: Document)
        ensures
            document@ == Seq::<(Field, Seq<char>)>::empty(),
    {
        let document = Document { field_values: Vec::new() };
        assert(document@ =~= Seq::<(Field, Seq<char>)>::empty());
        document
    }
}

impl Document {
    /// Adds a text under a field.
    pub fn add_text(&mut self, field: Field, text: &str)
        ensures
            final(self)@ == old(self)@.push((field, text@)),
    {
        self.field_values.push(FieldValue { field, text: text.to_string() });
        assert(self@ =~= old(self)@.push((field, text@)));
    }
}

/// A document is seen as all its texts, each in full and under its field, in order.
pub proof fn law_document_is_all_its_texts(document: Document)
    ensures
        document@.len() == document.field_values@.len(),
        forall|i: int|
            0 <= i < document@.len() ==> {
                &&& (#[trigger] document@[i]).0 == document.field_values@[i].field
                &&& document@[i].1 == document.field_values@[i].text@
            },
{
}

} // verus!
