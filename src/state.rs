//! The club's records: its members and its shared minibuses.
use vstd::prelude::*;
use vstd::string::StringExecFns;

use crate::models::{Minibus, Person};
use crate::plan::first_from;

verus! {

/// Everyone on the club's books and every shared minibus.
#[derive(Debug)]
pub struct SystemState {
    pub people: Vec<Person>,
    pub minibuses: Vec<Minibus>,
}

impl Default for SystemState {
    fn default() -> (r: SystemState)
        ensures
            r.people@.len() == 0,
            r.minibuses@.len() == 0,
    {
        SystemState { people: Vec::new(), minibuses: Vec::new() }
    }
}

/// Whether a person has the given id.
pub open spec fn has_id(id: Seq<char>) -> spec_fn(Person) -> bool {
    |p: Person| p.student_id@ == id
}

impl SystemState {
    /// The first member whose id is `id`, if any.
    pub fn get_person(&self, id: &str) -> (r: Option<&Person>)
        ensures
            match first_from(self.people@, has_id(id@), 0) {
                Some(i) => r == Some(&self.people@[i]),
                None => r is None,
            },
    {
        let key = String::from_str(id);
        let ghost pred = has_id(id@);
        let mut i: usize = 0;
        while i < self.people.len()
            invariant
                i <= self.people.len(),
                key@ == id@,
                pred == has_id(id@),
                first_from(self.people@, pred, 0) == first_from(self.people@, pred, i as int),
            decreases self.people.len() - i,
        {
            let found = self.people[i].student_id == key;
            assert(found == pred(self.people@[i as int]));
            if found {
                return Some(&self.people[i]);
            }
            i += 1;
        }
        None
    }
}

} // verus!
