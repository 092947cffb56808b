//! Measurement and calibration instances: addressable MC objects.
//!
//! An instance binds a name to a dimensional type, an address and tool
//! metadata. Instances reference events by id and segments by name, never
//! by owning pointer.

use vstd::prelude::*;

use crate::error::RegistryError;
use crate::ident::str_eq;
use crate::ident::McIdentifier;
use crate::ident::McText;
use crate::mc_address::McAddress;
use crate::mc_type::McDimType;

verus! {

/// What kind of MC object an instance is.
#[derive(Debug, Copy, Clone, PartialEq, Eq, Structural)]
pub enum McObjectType {
    /// A sampled signal.
    Measurement,
    /// A tunable parameter.
    Characteristic,
    /// An axis of a characteristic map.
    Axis,
    /// Not yet classified.
    Unspecified,
}

/// Tool metadata of an instance or typedef field: object kind, descriptive
/// comment, physical unit and an optional annotation body.
#[derive(Debug, PartialEq)]
pub struct McSupportData {
    /// Object kind of the described instance.
    pub object_type: McObjectType,
    /// Descriptive comment, if any.
    pub comment: Option<McText>,
    /// Physical unit, if any.
    pub unit: Option<McText>,
    /// Annotation body (IDL text), if any.
    pub annotation: Option<McText>,
}

impl Clone for McSupportData {
    fn clone(&self) -> (r: Self)
        ensures
            r == *self,
    {
        McSupportData {
            object_type: self.object_type,
            comment: match &self.comment {
                Some(t) => Some(t.clone()),
                None => None,
            },
            unit: match &self.unit {
                Some(t) => Some(t.clone()),
                None => None,
            },
            annotation: match &self.annotation {
                Some(t) => Some(t.clone()),
                None => None,
            },
        }
    }
}

impl McSupportData {
    /// Metadata with only the object kind set.
    pub fn new(object_type: McObjectType) -> (r: Self)
        ensures
            r.object_type == object_type,
            r.comment is None,
            r.unit is None,
            r.annotation is None,
    {
        McSupportData { object_type, comment: None, unit: None, annotation: None }
    }

    /// Set the descriptive comment.
    pub fn set_comment(&mut self, comment: &str)
        ensures
            final(self).object_type == old(self).object_type,
            final(self).comment is Some && final(self).comment->0@ == comment@,
            final(self).unit == old(self).unit,
            final(self).annotation == old(self).annotation,
    {
        self.comment = Some(McText::new(comment));
    }

    /// Set the physical unit.
    pub fn set_unit(&mut self, unit: &str)
        ensures
            final(self).object_type == old(self).object_type,
            final(self).comment == old(self).comment,
            final(self).unit is Some && final(self).unit->0@ == unit@,
            final(self).annotation == old(self).annotation,
    {
        self.unit = Some(McText::new(unit));
    }

    /// Set the annotation body.
    pub fn set_annotation(&mut self, annotation: &str)
        ensures
            final(self).object_type == old(self).object_type,
            final(self).comment == old(self).comment,
            final(self).unit == old(self).unit,
            final(self).annotation is Some && final(self).annotation->0@ == annotation@,
    {
        self.annotation = Some(McText::new(annotation));
    }
}

/// One addressable measurement or calibration object.
#[derive(Debug)]
pub struct McInstance {
    /// Instance name, unique in the instance list.
    pub name: McIdentifier,
    /// Type and dimensions of the object.
    pub dim_type: McDimType,
    /// Location of the object.
    pub address: McAddress,
    /// Tool metadata.
    pub support_data: McSupportData,
}

impl Clone for McInstance {
    fn clone(&self) -> (r: Self)
        ensures
            r == *self,
    {
        McInstance {
            name: self.name.clone(),
            dim_type: self.dim_type.clone(),
            address: self.address.clone(),
            support_data: self.support_data.clone(),
        }
    }
}

impl McInstance {
    /// Create an instance.
    pub fn new(
        name: &str,
        dim_type: McDimType,
        support_data: McSupportData,
        address: McAddress,
    ) -> (r: Self)
        ensures
            r.name@ == name@,
            r.dim_type == dim_type,
            r.address == address,
            r.support_data == support_data,
    {
        McInstance { name: McIdentifier::new(name), dim_type, address, support_data }
    }

    /// The instance name.
    pub fn get_name(&self) -> (r: &str)
        ensures
            r@ == self.name@,
    {
        self.name.as_str()
    }

    /// The instance address.
    pub fn get_address(&self) -> (r: &McAddress)
        ensures
            *r == self.address,
    {
        &self.address
    }

    /// Event id of the event the instance is sampled by, if any.
    pub fn event_id(&self) -> (r: Option<u16>)
        ensures
            r == self.address@.event_id,
    {
        self.address.get_event_id()
    }
}

/// The instance list of a registry.
#[derive(Debug)]
pub struct McInstanceList {
    instances: Vec<McInstance>,
}

impl View for McInstanceList {
    type V = Seq<McInstance>;

    closed spec fn view(&self) -> Seq<McInstance> {
        self.instances@
    }
}

impl McInstanceList {
    /// An empty instance list.
    pub fn new() -> (r: Self)
        ensures
            r@.len() == 0,
    {
        McInstanceList { instances: Vec::new() }
    }

    /// Number of instances.
    pub fn len(&self) -> (r: usize)
        ensures
            r == self@.len(),
    {
        self.instances.len()
    }

    /// True when the list holds no instance.
    pub fn is_empty(&self) -> (r: bool)
        ensures
            r == (self@.len() == 0),
    {
        self.instances.is_empty()
    }

    /// The instance at a position.
    pub fn get(&self, i: usize) -> (r: &McInstance)
        requires
            i < self@.len(),
        ensures
            *r == self@[i as int],
    {
        &self.instances[i]
    }

    /// Replace the instance at a position.
    pub fn set(&mut self, i: usize, instance: McInstance)
        requires
            i < old(self)@.len(),
        ensures
            final(self)@ == old(self)@.update(i as int, instance),
    {
        let ghost gi = instance;
        self.instances.remove(i);
        self.instances.insert(i, instance);
        proof {
            assert(self@ =~= old(self)@.update(i as int, gi));
        }
    }

    /// Append an instance without any duplicate check.
    pub fn push(&mut self, instance: McInstance)
        ensures
            final(self)@ == old(self)@.push(instance),
    {
        self.instances.push(instance);
    }

    /// Find the first instance with the given name.
    pub fn get_instance(&self, name: &str) -> (r: Option<&McInstance>)
        ensures
            match r {
                Option::Some(inst) => exists|i: int|
                    0 <= i < self@.len() && *inst == self@[i] && (#[trigger] self@[i]).name@
                        == name@,
                Option::None => forall|i: int| 0 <= i < self@.len() ==> (#[trigger] self@[i]).name@ != name@,
            },
    {
        let n = self.instances.len();
        let mut i: usize = 0;
        while i < n
            invariant
                n == self@.len(),
                i <= n,
                forall|j: int| 0 <= j < i ==> (#[trigger] self@[j]).name@ != name@,
            decreases n - i,
        {
            if str_eq(self.instances[i].name.as_str(), name) {
                return Some(&self.instances[i]);
            }
            i += 1;
        }
        None
    }

    /// Add an instance, refusing a duplicate name.
    pub fn add_instance(&mut self, instance: McInstance) -> (r: Result<(), RegistryError>)
        ensures
            r is Ok ==> {
                &&& final(self)@ == old(self)@.push(instance)
                &&& forall|i: int|
                    0 <= i < old(self)@.len() ==> (#[trigger] old(self)@[i]).name@
                        != instance.name@
            },
            r is Err ==> {
                &&& final(self)@ == old(self)@
                &&& r->Err_0 is Duplicate
                &&& exists|i: int|
                    0 <= i < old(self)@.len() && (#[trigger] old(self)@[i]).name@ == instance.name@
            },
    {
        if self.get_instance(instance.name.as_str()).is_some() {
            return Err(RegistryError::Duplicate(instance.name.as_str().to_owned()));
        }
        self.instances.push(instance);
        Ok(())
    }
}

} // verus!
