//! Events and the event list of the registry.
//!
//! An event is a named synchronization point at which measurements may be
//! sampled. Its `id` is the unique number used on the wire; the name is not
//! unique, because several thread instances of one task may create events of
//! the same name, distinguished by `index`.

use vstd::prelude::*;

use crate::error::RegistryError;
use crate::fmt_num::spec_dec;
use crate::fmt_num::dec_string;
use crate::ident::lemma_lex_total;
use crate::ident::lemma_lex_trans;
use crate::ident::lex_le;
use crate::ident::str_eq;
use crate::ident::str_le;
use crate::ident::McIdentifier;
use crate::ident::McText;
use crate::mc_registry::Registry;

verus! {

/// An event which may trigger consistent data acquisition.
#[derive(Debug)]
pub struct McEvent {
    /// Event name; not unique across instances of one task.
    pub name: McIdentifier,
    /// Instance index 1..n, or 0 for a single-instance event.
    pub index: u16,
    /// Unique event id used in the description and on the wire.
    pub id: u16,
    /// Target cycle time in nanoseconds, 0 for a sporadic event.
    pub target_cycle_time_ns: u32,
    /// Function in which the event is defined, used to locate stack variables.
    pub function: Option<McText>,
    /// Compilation unit in which the event is defined.
    pub unit: Option<usize>,
    /// Canonical stack frame address offset at the event.
    pub cfa: i32,
}

impl Clone for McEvent {
    fn clone(&self) -> (r: Self)
        ensures
            r == *self,
    {
        McEvent {
            name: self.name.clone(),
            index: self.index,
            id: self.id,
            target_cycle_time_ns: self.target_cycle_time_ns,
            function: match &self.function {
                Some(f) => Some(f.clone()),
                None => None,
            },
            unit: self.unit,
            cfa: self.cfa,
        }
    }
}

impl McEvent {
    /// Create an event with name, instance index, id and cycle time.
    pub fn new(name: &str, index: u16, id: u16, target_cycle_time_ns: u32) -> (r: Self)
        ensures
            r.name@ == name@,
            r.index == index,
            r.id == id,
            r.target_cycle_time_ns == target_cycle_time_ns,
            r.function is None,
            r.unit is None,
            r.cfa == 0,
    {
        McEvent {
            name: McIdentifier::new(name),
            index,
            id,
            target_cycle_time_ns,
            function: None,
            unit: None,
            cfa: 0,
        }
    }

    /// The event name.
    pub fn get_name(&self) -> (r: &str)
        ensures
            r@ == self.name@,
    {
        self.name.as_str()
    }

    /// The unique event id.
    pub fn get_id(&self) -> (r: u16)
        ensures
            r == self.id,
    {
        self.id
    }

    /// Overwrite the event id. The caller is responsible for keeping ids
    /// unique across the list.
    pub fn set_id(&mut self, id: u16)
        ensures
            final(self).id == id,
            final(self).name == old(self).name,
            final(self).index == old(self).index,
            final(self).target_cycle_time_ns == old(self).target_cycle_time_ns,
            final(self).function == old(self).function,
            final(self).unit == old(self).unit,
            final(self).cfa == old(self).cfa,
    {
        self.id = id;
    }

    /// The name under which a multi-instance event appears in the
    /// description.
    pub open spec fn spec_unique_name(&self, app_name: Seq<char>, prefix_names: bool) -> Seq<
        char,
    > {
        if self.index > 0 {
            if prefix_names {
                app_name + "."@ + self.name@ + "_"@ + spec_dec(self.index as int)
            } else {
                self.name@ + "_"@ + spec_dec(self.index as int)
            }
        } else {
            if prefix_names {
                self.name@ + "_"@ + spec_dec(self.index as int)
            } else {
                self.name@
            }
        }
    }

    /// The full indexed name of the event: instance index appended where
    /// the event is one of several instances, application name prefixed
    /// where the registry asks for prefixed names.
    pub fn get_unique_name(&self, registry: &Registry) -> (r: String)
        ensures
            r@ == self.spec_unique_name(registry.application.spec_name(), registry.prefix_names),
    {
        let mut s = String::new();
        if self.index > 0 && registry.prefix_names {
            s.append(registry.application.get_name());
            s.append(".");
            s.append(self.name.as_str());
            s.append("_");
            let d = dec_string(self.index as u64);
            s.append(d.as_str());
        } else if self.index > 0 || registry.prefix_names {
            s.append(self.name.as_str());
            s.append("_");
            let d = dec_string(self.index as u64);
            s.append(d.as_str());
        } else {
            s.append(self.name.as_str());
        }
        proof {
            assert(s@ =~= self.spec_unique_name(
                registry.application.spec_name(),
                registry.prefix_names,
            ));
        }
        s
    }
}

/// True when the event has the given name and instance index.
pub open spec fn event_matches(e: McEvent, name: Seq<char>, index: u16) -> bool {
    e.index == index && e.name@ == name
}

/// True when the event is located in the given unit and function.
pub open spec fn event_location_matches(e: McEvent, unit_idx: usize, function: Seq<char>) -> bool {
    e.unit == Option::Some(unit_idx) && e.function is Some && e.function->0@ == function
}

/// The list of all events of a registry.
#[derive(Debug)]
pub struct McEventList {
    events: Vec<McEvent>,
}

impl View for McEventList {
    type V = Seq<McEvent>;

    closed spec fn view(&self) -> Seq<McEvent> {
        self.events@
    }
}

impl McEventList {
    /// No two events of the list share an id.
    ///
    /// This is the event id uniqueness law: seen as a multiset, the ids of
    /// the events contain no duplicates. `add_event` preserves it.
    pub open spec fn unique_ids(&self) -> bool {
        forall|i: int, j: int|
            0 <= i < j < self@.len() ==> #[trigger] self@[i].id != #[trigger] self@[j].id
    }

    /// An empty event list.
    pub fn new() -> (r: Self)
        ensures
            r@.len() == 0,
            r.unique_ids(),
    {
        McEventList { events: Vec::new() }
    }

    /// Number of events.
    pub fn len(&self) -> (r: usize)
        ensures
            r == self@.len(),
    {
        self.events.len()
    }

    /// True when the list holds no event.
    pub fn is_empty(&self) -> (r: bool)
        ensures
            r == (self@.len() == 0),
    {
        self.events.is_empty()
    }

    /// The event at a position.
    pub fn get(&self, i: usize) -> (r: &McEvent)
        requires
            i < self@.len(),
        ensures
            *r == self@[i as int],
    {
        &self.events[i]
    }

    /// Replace the event at a position.
    pub fn set(&mut self, i: usize, event: McEvent)
        requires
            i < old(self)@.len(),
        ensures
            final(self)@ == old(self)@.update(i as int, event),
    {
        let ghost ge = event;
        self.events.remove(i);
        self.events.insert(i, event);
        proof {
            assert(self@ =~= old(self)@.update(i as int, ge));
        }
    }

    /// Append an event without any duplicate check.
    pub fn push(&mut self, object: McEvent)
        ensures
            final(self)@ == old(self)@.push(object),
    {
        self.events.push(object);
    }

    /// Add an event, refusing a duplicate name plus instance index and a
    /// duplicate id.
    ///
    /// When the list had pairwise distinct ids before the call, it has
    /// pairwise distinct ids after it, whichever way the call ends.
    pub fn add_event(&mut self, event: McEvent) -> (r: Result<(), RegistryError>)
        ensures
            r is Ok ==> {
                &&& final(self)@ == old(self)@.push(event)
                &&& forall|i: int|
                    0 <= i < old(self)@.len() ==> !event_matches(
                        #[trigger] old(self)@[i],
                        event.name@,
                        event.index,
                    ) && old(self)@[i].id != event.id
            },
            r is Err ==> {
                &&& final(self)@ == old(self)@
                &&& r->Err_0 is Duplicate
                &&& exists|i: int|
                    0 <= i < old(self)@.len() && (event_matches(
                        #[trigger] old(self)@[i],
                        event.name@,
                        event.index,
                    ) || old(self)@[i].id == event.id)
            },
            old(self).unique_ids() ==> final(self).unique_ids(),
    {
        if self.find_event(event.name.as_str(), event.index).is_some() {
            return Err(RegistryError::Duplicate(event.name.as_str().to_owned()));
        }
        if self.find_event_id(event.id).is_some() {
            return Err(RegistryError::Duplicate(event.name.as_str().to_owned()));
        }
        self.events.push(event);
        proof {
            if old(self).unique_ids() {
                assert forall|i: int, j: int| 0 <= i < j < self@.len() implies #[trigger] self@[i].id
                    != #[trigger] self@[j].id by {
                    if j < self@.len() - 1 {
                        assert(old(self)@[i].id != old(self)@[j].id);
                    } else {
                        assert(self@[i] == old(self)@[i]);
                    }
                }
            }
        }
        Ok(())
    }

    /// Find the first event with the given name and instance index.
    pub fn find_event(&self, name: &str, index: u16) -> (r: Option<&McEvent>)
        ensures
            match r {
                Option::Some(e) => exists|i: int|
                    0 <= i < self@.len() && *e == self@[i] && event_matches(
                        #[trigger] self@[i],
                        name@,
                        index,
                    ) && (forall|j: int|
                        0 <= j < i ==> !event_matches(#[trigger] self@[j], name@, index)),
                Option::None => forall|i: int|
                    0 <= i < self@.len() ==> !event_matches(#[trigger] self@[i], name@, index),
            },
    {
        let n = self.events.len();
        let mut i: usize = 0;
        while i < n
            invariant
                n == self@.len(),
                i <= n,
                forall|j: int| 0 <= j < i ==> !event_matches(#[trigger] self@[j], name@, index),
            decreases n - i,
        {
            let e = &self.events[i];
            if e.index == index && str_eq(e.name.as_str(), name) {
                return Some(e);
            }
            i += 1;
        }
        None
    }

    /// Find the first event with the given id.
    pub fn find_event_id(&self, id: u16) -> (r: Option<&McEvent>)
        ensures
            match r {
                Option::Some(e) => exists|i: int|
                    0 <= i < self@.len() && *e == self@[i] && #[trigger] self@[i].id == id,
                Option::None => forall|i: int| 0 <= i < self@.len() ==> #[trigger] self@[i].id != id,
            },
    {
        let n = self.events.len();
        let mut i: usize = 0;
        while i < n
            invariant
                n == self@.len(),
                i <= n,
                forall|j: int| 0 <= j < i ==> #[trigger] self@[j].id != id,
            decreases n - i,
        {
            let e = &self.events[i];
            if e.id == id {
                return Some(e);
            }
            i += 1;
        }
        None
    }

    /// Find the first event defined in the given compilation unit and
    /// function; used to bind stack variables to their event.
    pub fn find_event_by_location(&self, unit_idx: usize, function: &str) -> (r: Option<&McEvent>)
        ensures
            match r {
                Option::Some(e) => exists|i: int|
                    0 <= i < self@.len() && *e == self@[i] && event_location_matches(
                        #[trigger] self@[i],
                        unit_idx,
                        function@,
                    ),
                Option::None => forall|i: int|
                    0 <= i < self@.len() ==> !event_location_matches(
                        #[trigger] self@[i],
                        unit_idx,
                        function@,
                    ),
            },
    {
        let n = self.events.len();
        let mut i: usize = 0;
        while i < n
            invariant
                n == self@.len(),
                i <= n,
                forall|j: int|
                    0 <= j < i ==> !event_location_matches(#[trigger] self@[j], unit_idx, function@),
            decreases n - i,
        {
            let e = &self.events[i];
            let unit_hit = match e.unit {
                Some(u) => u == unit_idx,
                None => false,
            };
            if unit_hit {
                let fun_hit = match &e.function {
                    Some(f) => str_eq(f.as_str(), function),
                    None => false,
                };
                if fun_hit {
                    return Some(&self.events[i]);
                }
            }
            i += 1;
        }
        None
    }

    /// Store the location (unit, function, frame offset) on the first
    /// event with the given name.
    pub fn set_event_location(
        &mut self,
        name: &str,
        unit_idx: usize,
        function: &str,
        cfa: i32,
    ) -> (r: Result<(), RegistryError>)
        ensures
            r is Err ==> {
                &&& final(self)@ == old(self)@
                &&& r->Err_0 is NotFound
                &&& forall|i: int| 0 <= i < old(self)@.len() ==> (#[trigger] old(self)@[i]).name@ != name@
            },
            r is Ok ==> exists|i: int|
                {
                    &&& 0 <= i < old(self)@.len()
                    &&& (#[trigger] old(self)@[i]).name@ == name@
                    &&& (forall|j: int| 0 <= j < i ==> (#[trigger] old(self)@[j]).name@ != name@)
                    &&& final(self)@.len() == old(self)@.len()
                    &&& (forall|j: int|
                        0 <= j < old(self)@.len() && j != i ==> final(self)@[j] == old(self)@[j])
                    &&& final(self)@[i].name == old(self)@[i].name
                    &&& final(self)@[i].index == old(self)@[i].index
                    &&& final(self)@[i].id == old(self)@[i].id
                    &&& final(self)@[i].target_cycle_time_ns == old(self)@[i].target_cycle_time_ns
                    &&& final(self)@[i].unit == Option::Some(unit_idx)
                    &&& final(self)@[i].function is Some
                    &&& final(self)@[i].function->0@ == function@
                    &&& final(self)@[i].cfa == cfa
                },
            old(self).unique_ids() ==> final(self).unique_ids(),
    {
        let n = self.events.len();
        let mut i: usize = 0;
        while i < n
            invariant
                n == self@.len(),
                i <= n,
                self@ == old(self)@,
                forall|j: int| 0 <= j < i ==> (#[trigger] self@[j]).name@ != name@,
            decreases n - i,
        {
            if str_eq(self.events[i].name.as_str(), name) {
                let mut e = self.events.remove(i);
                e.unit = Some(unit_idx);
                e.function = Some(McText::new(function));
                e.cfa = cfa;
                let ghost ge = e;
                self.events.insert(i, e);
                proof {
                    assert(self@ =~= old(self)@.update(i as int, ge));
                    if old(self).unique_ids() {
                        assert forall|p: int, q: int|
                            0 <= p < q < self@.len() implies #[trigger] self@[p].id
                            != #[trigger] self@[q].id by {
                            assert(self@[p].id == old(self)@[p].id);
                            assert(self@[q].id == old(self)@[q].id);
                        }
                    }
                }
                return Ok(());
            }
            i += 1;
        }
        Err(RegistryError::NotFound(name.to_owned()))
    }

    /// Sort the events by name in the lexicographic order, keeping the
    /// same multiset of events.
    pub fn sort_by_name(&mut self)
        ensures
            final(self)@.to_multiset() == old(self)@.to_multiset(),
            forall|p: int, q: int|
                0 <= p < q < final(self)@.len() ==> lex_le(
                    (#[trigger] final(self)@[p]).name@,
                    (#[trigger] final(self)@[q]).name@,
                ),
    {
        broadcast use vstd::seq_lib::group_to_multiset_ensures;

        let n = self.events.len();
        if n == 0 {
            return ;
        }
        let mut i: usize = 1;
        while i < n
            invariant
                n == self@.len(),
                1 <= i <= n,
                self@.to_multiset() == old(self)@.to_multiset(),
                forall|p: int, q: int|
                    0 <= p < q < i ==> lex_le(
                        (#[trigger] self@[p]).name@,
                        (#[trigger] self@[q]).name@,
                    ),
            decreases n - i,
        {
            let key = self.events[i].name.clone();
            let mut j: usize = i;
            while j > 0 && !str_le(self.events[j - 1].name.as_str(), key.as_str())
                invariant
                    j <= i < n,
                    n == self@.len(),
                    key == self@[i as int].name,
                    forall|q: int| j <= q < i ==> !lex_le((#[trigger] self@[q]).name@, key@),
                decreases j,
            {
                j -= 1;
            }
            let ghost s0 = self@;
            let x = self.events.remove(i);
            self.events.insert(j, x);
            proof {
                broadcast use vstd::multiset::group_multiset_axioms;

                let ii = i as int;
                let jj = j as int;
                let xg = s0[ii];
                assert(self@ =~= s0.remove(ii).insert(jj, xg));
                vstd::seq_lib::to_multiset_remove(s0, ii);
                vstd::seq_lib::to_multiset_insert(s0.remove(ii), jj, xg);
                vstd::seq_lib::to_multiset_contains(s0, xg);
                assert(s0.contains(xg));
                assert(s0.to_multiset().count(xg) > 0);
                assert(self@.to_multiset() =~= s0.to_multiset().remove(xg).insert(xg));
                assert(self@.to_multiset() =~= s0.to_multiset());
                assert(self@.to_multiset() == old(self)@.to_multiset());
                assert forall|p: int, q: int| 0 <= p < q < i + 1 implies lex_le(
                    (#[trigger] self@[p]).name@,
                    (#[trigger] self@[q]).name@,
                ) by {
                    if q < jj {
                        assert(self@[p] == s0[p] && self@[q] == s0[q]);
                    } else if q == jj {
                        assert(self@[q].name@ == key@);
                        assert(self@[p] == s0[p]);
                        assert(jj > 0 ==> lex_le(s0[jj - 1].name@, key@));
                        if p < jj - 1 {
                            lemma_lex_trans(s0[p].name@, s0[jj - 1].name@, key@);
                        }
                    } else {
                        assert(self@[q] == s0[q - 1]);
                        if p < jj {
                            assert(self@[p] == s0[p]);
                            if q - 1 < ii {
                                if jj <= q - 1 {
                                    lemma_lex_total(s0[q - 1].name@, key@);
                                    assert(lex_le(key@, s0[q - 1].name@));
                                    assert(jj > 0 ==> lex_le(s0[jj - 1].name@, key@));
                                    if p < jj - 1 {
                                        lemma_lex_trans(s0[p].name@, s0[jj - 1].name@, key@);
                                    }
                                    lemma_lex_trans(s0[p].name@, key@, s0[q - 1].name@);
                                }
                            } else {
                                assert(s0[q - 1].name@ == key@);
                                assert(jj > 0 ==> lex_le(s0[jj - 1].name@, key@));
                                if p < jj - 1 {
                                    lemma_lex_trans(s0[p].name@, s0[jj - 1].name@, key@);
                                }
                            }
                        } else if p == jj {
                            assert(self@[p].name@ == key@);
                            if q - 1 < ii {
                                lemma_lex_total(s0[q - 1].name@, key@);
                            }
                        } else {
                            assert(self@[p] == s0[p - 1]);
                            if q - 1 < ii {
                                assert(lex_le(s0[p - 1].name@, s0[q - 1].name@));
                            }
                        }
                    }
                }
            }
            i += 1;
        }
    }

    /// Sort the events by id, keeping the same multiset of events.
    pub fn sort_by_id(&mut self)
        ensures
            final(self)@.to_multiset() == old(self)@.to_multiset(),
            forall|p: int, q: int|
                0 <= p < q < final(self)@.len() ==> #[trigger] final(self)@[p].id
                    <= #[trigger] final(self)@[q].id,
    {
        broadcast use vstd::seq_lib::group_to_multiset_ensures;

        let n = self.events.len();
        if n == 0 {
            return ;
        }
        let mut i: usize = 1;
        while i < n
            invariant
                n == self@.len(),
                1 <= i <= n,
                self@.to_multiset() == old(self)@.to_multiset(),
                forall|p: int, q: int|
                    0 <= p < q < i ==> #[trigger] self@[p].id <= #[trigger] self@[q].id,
            decreases n - i,
        {
            let key = self.events[i].id;
            let mut j: usize = i;
            while j > 0 && self.events[j - 1].id > key
                invariant
                    j <= i < n,
                    n == self@.len(),
                    forall|q: int| j <= q < i ==> key < #[trigger] self@[q].id,
                decreases j,
            {
                j -= 1;
            }
            let ghost s0 = self@;
            let x = self.events.remove(i);
            self.events.insert(j, x);
            proof {
                broadcast use vstd::multiset::group_multiset_axioms;

                let ii = i as int;
                let jj = j as int;
                let xg = s0[ii];
                assert(self@ =~= s0.remove(ii).insert(jj, xg));
                vstd::seq_lib::to_multiset_remove(s0, ii);
                vstd::seq_lib::to_multiset_insert(s0.remove(ii), jj, xg);
                vstd::seq_lib::to_multiset_contains(s0, xg);
                assert(s0.contains(xg));
                assert(s0.to_multiset().count(xg) > 0);
                assert(self@.to_multiset() =~= s0.to_multiset().remove(xg).insert(xg));
                assert(self@.to_multiset() =~= s0.to_multiset());
                assert(self@.to_multiset() == old(self)@.to_multiset());
                assert forall|p: int, q: int|
                    0 <= p < q < i + 1 implies #[trigger] self@[p].id <= #[trigger] self@[q].id by {
                    let jj = j as int;
                    let ii = i as int;
                    if q < jj {
                        assert(self@[p] == s0[p] && self@[q] == s0[q]);
                    } else if q == jj {
                        assert(self@[q].id == key);
                        assert(self@[p] == s0[p]);
                        assert(jj > 0 ==> s0[jj - 1].id <= key);
                        assert(s0[p].id <= s0[jj - 1].id);
                    } else {
                        assert(self@[q] == s0[q - 1]);
                        if p < jj {
                            assert(self@[p] == s0[p]);
                            if q - 1 < ii {
                                assert(s0[p].id <= s0[q - 1].id);
                            } else {
                                assert(s0[q - 1].id == key);
                                assert(jj > 0 ==> s0[jj - 1].id <= key);
                                assert(s0[p].id <= s0[jj - 1].id);
                            }
                        } else if p == jj {
                            assert(self@[p].id == key);
                            if q - 1 < ii {
                                assert(key < s0[q - 1].id);
                            }
                        } else {
                            assert(self@[p] == s0[p - 1]);
                            if q - 1 < ii {
                                assert(s0[p - 1].id <= s0[q - 1].id);
                            } else {
                                assert(s0[q - 1].id == key);
                                assert(key < s0[p - 1].id || s0[p - 1].id <= key);
                                assert(jj <= p - 1 < ii ==> key < s0[p - 1].id);
                                assert(p - 1 < ii);
                                assert(key < s0[p - 1].id);
                                assert(false);
                            }
                        }
                    }
                }
            }
            i += 1;
        }
    }
}

/// Event id uniqueness stated over the multiset of ids: in a list with
/// pairwise distinct ids, no id occurs more than once.
pub proof fn lemma_unique_ids_multiset(list: &McEventList, id: u16)
    requires
        list.unique_ids(),
    ensures
        list@.map(|i: int, e: McEvent| e.id).to_multiset().count(id) <= 1,
{
    broadcast use vstd::seq_lib::group_to_multiset_ensures;

    let ids = list@.map(|i: int, e: McEvent| e.id);
    if ids.to_multiset().count(id) > 1 {
        assert(ids.to_multiset().count(id) > 0);
        assert(ids.contains(id));
        let i = choose|i: int| 0 <= i < ids.len() && ids[i] == id;
        let removed = ids.remove(i);
        assert(removed.to_multiset() == ids.to_multiset().remove(id));
        assert(removed.to_multiset().count(id) >= 1);
        assert(removed.contains(id));
        let j = choose|j: int| 0 <= j < removed.len() && removed[j] == id;
        if j < i {
            assert(ids[j] == id);
            assert(list@[j].id == id && list@[i].id == id);
            assert(false);
        } else {
            assert(ids[j + 1] == id);
            assert(list@[j + 1].id == id && list@[i].id == id);
            assert(false);
        }
    }
}

} // verus!
