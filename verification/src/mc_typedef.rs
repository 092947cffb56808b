//! Type definitions: named, ordered field lists with a total byte size.
//!
//! Typedefs may be nested by reference: a field's value type may name
//! another typedef. References are by name only, so the registry can be
//! serialized as a flat structure.

use vstd::prelude::*;

use crate::error::RegistryError;
use crate::ident::str_eq;
use crate::ident::McIdentifier;
use crate::mc_instance::McSupportData;
use crate::mc_type::McDimType;

verus! {

/// One field of a typedef.
#[derive(Debug)]
pub struct McTypeDefField {
    /// Field name, unique within the typedef.
    pub name: McIdentifier,
    /// Type and dimensions of the field.
    pub dim_type: McDimType,
    /// Tool metadata of the field.
    pub support_data: McSupportData,
    /// Byte offset of the field within the typedef.
    pub offset: u16,
}

impl Clone for McTypeDefField {
    fn clone(&self) -> (r: Self)
        ensures
            r == *self,
    {
        McTypeDefField {
            name: self.name.clone(),
            dim_type: self.dim_type.clone(),
            support_data: self.support_data.clone(),
            offset: self.offset,
        }
    }
}

/// A named, ordered sequence of fields with a total byte size.
#[derive(Debug)]
pub struct McTypeDef {
    /// Typedef name, unique in the typedef list.
    pub name: McIdentifier,
    /// Total byte size of the typedef.
    pub size: usize,
    /// The fields, in declaration order.
    pub fields: Vec<McTypeDefField>,
}

impl Clone for McTypeDef {
    fn clone(&self) -> (r: Self)
        ensures
            r.name == self.name,
            r.size == self.size,
            r.fields@ == self.fields@,
    {
        let mut fields: Vec<McTypeDefField> = Vec::new();
        let n = self.fields.len();
        let mut i: usize = 0;
        while i < n
            invariant
                n == self.fields@.len(),
                i <= n,
                fields@ == self.fields@.subrange(0, i as int),
            decreases n - i,
        {
            fields.push(self.fields[i].clone());
            proof {
                assert(fields@ =~= self.fields@.subrange(0, i + 1));
            }
            i += 1;
        }
        proof {
            assert(fields@ =~= self.fields@);
        }
        McTypeDef { name: self.name.clone(), size: self.size, fields }
    }
}

impl McTypeDef {
    /// Create an empty typedef with its total byte size.
    pub fn new(name: &str, size: usize) -> (r: Self)
        ensures
            r.name@ == name@,
            r.size == size,
            r.fields@.len() == 0,
    {
        McTypeDef { name: McIdentifier::new(name), size, fields: Vec::new() }
    }

    /// Find the first field with the given name.
    pub fn find_field(&self, name: &str) -> (r: Option<&McTypeDefField>)
        ensures
            match r {
                Option::Some(f) => exists|i: int|
                    0 <= i < self.fields@.len() && *f == self.fields@[i] && (
                    #[trigger] self.fields@[i]).name@ == name@,
                Option::None => forall|i: int|
                    0 <= i < self.fields@.len() ==> (#[trigger] self.fields@[i]).name@ != name@,
            },
    {
        let n = self.fields.len();
        let mut i: usize = 0;
        while i < n
            invariant
                n == self.fields@.len(),
                i <= n,
                forall|j: int| 0 <= j < i ==> (#[trigger] self.fields@[j]).name@ != name@,
            decreases n - i,
        {
            if str_eq(self.fields[i].name.as_str(), name) {
                return Some(&self.fields[i]);
            }
            i += 1;
        }
        None
    }

    /// Append a field, refusing a duplicate field name.
    pub fn add_field(
        &mut self,
        field_name: &str,
        dim_type: McDimType,
        support_data: McSupportData,
        offset: u16,
    ) -> (r: Result<(), RegistryError>)
        ensures
            r is Ok ==> {
                &&& final(self).name == old(self).name
                &&& final(self).size == old(self).size
                &&& final(self).fields@ == old(self).fields@.push(final(self).fields@.last())
                &&& final(self).fields@.last().name@ == field_name@
                &&& final(self).fields@.last().dim_type == dim_type
                &&& final(self).fields@.last().support_data == support_data
                &&& final(self).fields@.last().offset == offset
                &&& forall|i: int|
                    0 <= i < old(self).fields@.len() ==> (#[trigger] old(self).fields@[i]).name@
                        != field_name@
            },
            r is Err ==> {
                &&& *final(self) == *old(self)
                &&& r->Err_0 is Duplicate
                &&& exists|i: int|
                    0 <= i < old(self).fields@.len() && (#[trigger] old(self).fields@[i]).name@
                        == field_name@
            },
    {
        if self.find_field(field_name).is_some() {
            return Err(RegistryError::Duplicate(field_name.to_owned()));
        }
        let field = McTypeDefField {
            name: McIdentifier::new(field_name),
            dim_type,
            support_data,
            offset,
        };
        self.fields.push(field);
        Ok(())
    }
}

/// The typedef list of a registry.
#[derive(Debug)]
pub struct McTypeDefList {
    typedefs: Vec<McTypeDef>,
}

impl View for McTypeDefList {
    type V = Seq<McTypeDef>;

    closed spec fn view(&self) -> Seq<McTypeDef> {
        self.typedefs@
    }
}

impl McTypeDefList {
    /// An empty typedef list.
    pub fn new() -> (r: Self)
        ensures
            r@.len() == 0,
    {
        McTypeDefList { typedefs: Vec::new() }
    }

    /// Number of typedefs.
    pub fn len(&self) -> (r: usize)
        ensures
            r == self@.len(),
    {
        self.typedefs.len()
    }

    /// True when the list holds no typedef.
    pub fn is_empty(&self) -> (r: bool)
        ensures
            r == (self@.len() == 0),
    {
        self.typedefs.is_empty()
    }

    /// The typedef at a position.
    pub fn get(&self, i: usize) -> (r: &McTypeDef)
        requires
            i < self@.len(),
        ensures
            *r == self@[i as int],
    {
        &self.typedefs[i]
    }

    /// Append a typedef without any duplicate check.
    pub fn push(&mut self, typedef: McTypeDef)
        ensures
            final(self)@ == old(self)@.push(typedef),
    {
        self.typedefs.push(typedef);
    }

    /// Position of the first typedef with the given name.
    pub fn find_position(&self, name: &str) -> (r: Option<usize>)
        ensures
            match r {
                Option::Some(i) => 0 <= i < self@.len() && (#[trigger] self@[i as int]).name@
                    == name@ && (forall|j: int|
                    0 <= j < i ==> (#[trigger] self@[j]).name@ != name@),
                Option::None => forall|j: int| 0 <= j < self@.len() ==> (#[trigger] self@[j]).name@ != name@,
            },
    {
        let n = self.typedefs.len();
        let mut i: usize = 0;
        while i < n
            invariant
                n == self@.len(),
                i <= n,
                forall|j: int| 0 <= j < i ==> (#[trigger] self@[j]).name@ != name@,
            decreases n - i,
        {
            if str_eq(self.typedefs[i].name.as_str(), name) {
                return Some(i);
            }
            i += 1;
        }
        None
    }

    /// Find the first typedef with the given name.
    pub fn find_typedef(&self, name: &str) -> (r: Option<&McTypeDef>)
        ensures
            match r {
                Option::Some(t) => exists|i: int|
                    0 <= i < self@.len() && *t == self@[i] && (#[trigger] self@[i]).name@ == name@,
                Option::None => forall|i: int| 0 <= i < self@.len() ==> (#[trigger] self@[i]).name@ != name@,
            },
    {
        match self.find_position(name) {
            Some(i) => Some(&self.typedefs[i]),
            None => None,
        }
    }

    /// Append a field to the typedef at the given position.
    pub fn add_field_at(
        &mut self,
        i: usize,
        field_name: &str,
        dim_type: McDimType,
        support_data: McSupportData,
        offset: u16,
    ) -> (r: Result<(), RegistryError>)
        requires
            i < old(self)@.len(),
        ensures
            r is Ok ==> {
                &&& final(self)@.len() == old(self)@.len()
                &&& (forall|j: int|
                    0 <= j < old(self)@.len() && j != i ==> final(self)@[j] == old(self)@[j])
                &&& final(self)@[i as int].name == old(self)@[i as int].name
                &&& final(self)@[i as int].size == old(self)@[i as int].size
                &&& final(self)@[i as int].fields@ == old(self)@[i as int].fields@.push(
                    final(self)@[i as int].fields@.last(),
                )
                &&& final(self)@[i as int].fields@.last().name@ == field_name@
                &&& final(self)@[i as int].fields@.last().dim_type == dim_type
                &&& final(self)@[i as int].fields@.last().support_data == support_data
                &&& final(self)@[i as int].fields@.last().offset == offset
                &&& forall|j: int|
                    0 <= j < old(self)@[i as int].fields@.len()
                        ==> (#[trigger] old(self)@[i as int].fields@[j]).name@ != field_name@
            },
            r is Err ==> {
                &&& final(self)@ == old(self)@
                &&& r->Err_0 is Duplicate
                &&& exists|j: int|
                    0 <= j < old(self)@[i as int].fields@.len()
                        && (#[trigger] old(self)@[i as int].fields@[j]).name@ == field_name@
            },
    {
        let mut t = self.typedefs.remove(i);
        let res = t.add_field(field_name, dim_type, support_data, offset);
        let ghost gt = t;
        self.typedefs.insert(i, t);
        proof {
            if res is Err {
                assert(self@ =~= old(self)@);
            } else {
                assert(self@ == old(self)@.remove(i as int).insert(i as int, gt));
                assert forall|j: int|
                    0 <= j < old(self)@.len() && j != i implies self@[j] == old(self)@[j] by {}
            }
        }
        res
    }
}

} // verus!
