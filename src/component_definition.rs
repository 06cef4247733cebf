use crate::variant::VariantType;
use vstd::prelude::*;

verus! {

/// One named, typed field of a component schema.
#[derive(Debug, PartialEq, Eq, Hash)]
pub struct ComponentFieldDefinition {
    pub name: String,
    pub field_type: VariantType,
}

/// What a schema field is, mathematically: its name and its kind.
pub type FieldView = (Seq<char>, VariantType);

impl ComponentFieldDefinition {
    pub open spec fn spec_view(&self) -> FieldView {
        (self.name@, self.field_type)
    }

    pub fn new(name: String, field_type: VariantType) -> (r: Self)
        ensures
            r.name == name,
            r.field_type == field_type,
    {
        ComponentFieldDefinition { name, field_type }
    }

    pub fn get_type(&self) -> (r: VariantType)
        ensures
            r == self.field_type,
    {
        self.field_type
    }

    pub fn get_name(&self) -> (r: String)
        ensures
            r == self.name,
    {
        self.name.clone()
    }
}

impl Clone for ComponentFieldDefinition {
    fn clone(&self) -> (r: Self)
        ensures
            r == *self,
    {
        ComponentFieldDefinition { name: self.name.clone(), field_type: self.field_type }
    }
}

impl Default for ComponentFieldDefinition {
    fn default() -> (r: Self)
        ensures
            r.name@ == Seq::<char>::empty(),
            r.field_type == VariantType::Nil,
    {
        ComponentFieldDefinition { name: String::new(), field_type: VariantType::Nil }
    }
}

pub fn create_component_field_definition(name: String, field_type: VariantType) -> (r:
    ComponentFieldDefinition)
    ensures
        r.name == name,
        r.field_type == field_type,
{
    ComponentFieldDefinition::new(name, field_type)
}

/// A component schema: an ordered list of field definitions. Two schemas
/// with the same fields in the same order are the same schema.
#[derive(Debug, PartialEq, Eq, Hash)]
pub struct ComponentDefinition {
    pub fields: Vec<ComponentFieldDefinition>,
}

impl View for ComponentDefinition {
    type V = Seq<FieldView>;

    open spec fn view(&self) -> Seq<FieldView> {
        self.fields@.map_values(|f: ComponentFieldDefinition| f.spec_view())
    }
}

/// The names of the fields a schema declares.
pub open spec fn schema_names(schema: Seq<FieldView>) -> Set<Seq<char>> {
    Set::new(|k: Seq<char>| exists|i: int| 0 <= i < schema.len() && #[trigger] schema[i].0 == k)
}

impl ComponentDefinition {
    pub fn add_field(&mut self, field_definition: ComponentFieldDefinition)
        ensures
            final(self).fields@ == old(self).fields@.push(field_definition),
    {
        self.fields.push(field_definition);
    }

    pub fn get_fields(&self) -> (r: Vec<ComponentFieldDefinition>)
        ensures
            r@ == self.fields@,
    {
        let mut out: Vec<ComponentFieldDefinition> = Vec::new();
        let mut i: usize = 0;
        while i < self.fields.len()
            invariant
                i <= self.fields@.len(),
                out@ == self.fields@.subrange(0, i as int),
            decreases self.fields@.len() - i,
        {
            out.push(self.fields[i].clone());
            i = i + 1;
            assert(out@ =~= self.fields@.subrange(0, i as int));
        }
        assert(out@ =~= self.fields@);
        out
    }
}

impl Clone for ComponentDefinition {
    fn clone(&self) -> (r: Self)
        ensures
            r.fields@ == self.fields@,
    {
        ComponentDefinition { fields: self.get_fields() }
    }
}

impl Default for ComponentDefinition {
    fn default() -> (r: Self)
        ensures
            r.fields@ == Seq::<ComponentFieldDefinition>::empty(),
    {
        ComponentDefinition { fields: Vec::new() }
    }
}

pub fn create_component_definition() -> (r: Box<ComponentDefinition>)
    ensures
        r.fields@ == Seq::<ComponentFieldDefinition>::empty(),
{
    Box::new(ComponentDefinition::default())
}

} // verus!
