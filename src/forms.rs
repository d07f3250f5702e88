//! The text fields an operator fills in to add or edit a member or a
//! minibus, and how they become records.
use vstd::prelude::*;
use vstd::string::StringExecFns;

use crate::models::{Car, Gender, Minibus, Person};
use crate::state::SystemState;
use crate::text::{lemma_parsed_in_range, comma_fields, parse_u16, parse_u8, parsed_unsigned, split_commas, texts, trim_of, trimmed};

verus! {

/// The add-member form as typed; locations are comma separated.
pub struct AddPersonForm {
    pub name: String,
    pub gender: Option<Gender>,
    pub student_id: String,
    pub year_of_entry: String,
    pub pickup_locations: String,
    pub can_drive_minibus: bool,
    pub has_car: bool,
    pub car_type: String,
    pub car_registration: String,
    pub car_seats: String,
}

impl Default for AddPersonForm {
    fn default() -> (r: AddPersonForm)
        ensures
            r.name@.len() == 0,
            r.gender is None,
            r.student_id@.len() == 0,
            r.year_of_entry@.len() == 0,
            r.pickup_locations@.len() == 0,
            !r.can_drive_minibus,
            !r.has_car,
            r.car_type@.len() == 0,
            r.car_registration@.len() == 0,
            r.car_seats@.len() == 0,
    {
        AddPersonForm {
            name: String::new(),
            gender: None,
            student_id: String::new(),
            year_of_entry: String::new(),
            pickup_locations: String::new(),
            can_drive_minibus: false,
            has_car: false,
            car_type: String::new(),
            car_registration: String::new(),
            car_seats: String::new(),
        }
    }
}

/// The edit-member form, for the record at `index`.
pub struct EditPersonForm {
    pub index: usize,
    pub name: String,
    pub gender: Option<Gender>,
    pub student_id: String,
    pub year_of_entry: String,
    pub pickup_locations: String,
    pub can_drive_minibus: bool,
    pub has_car: bool,
    pub wants_to_drive: bool,
    pub car_type: String,
    pub car_registration: String,
    pub car_seats: String,
}

/// The edit-minibus form, for the minibus at `index`.
pub struct EditMinibusForm {
    pub index: usize,
    pub registration: String,
    pub seats: String,
}

/// The trimmed, non-blank pieces of a list of fields, in order.
pub open spec fn kept(fields: Seq<Seq<char>>) -> Seq<Seq<char>>
    decreases fields.len(),
{
    if fields.len() == 0 {
        seq![]
    } else {
        let k = kept(fields.drop_last());
        let t = trim_of(fields.last());
        if t.len() > 0 {
            k.push(t)
        } else {
            k
        }
    }
}

/// The pickup locations that a comma-separated entry names.
pub open spec fn pickup_list(s: Seq<char>) -> Seq<Seq<char>> {
    kept(comma_fields(s))
}

/// A number field read leniently: its value, or zero when unreadable.
pub open spec fn number_or_zero(s: Seq<char>, max: int) -> int {
    match parsed_unsigned(trim_of(s), max) {
        Some(v) => v,
        None => 0,
    }
}

/// Whether `car` is the car that the form's car fields describe.
pub open spec fn car_from_form(car: Option<Car>, vehicle_type: Seq<char>, registration: Seq<char>, seats: Seq<char>) -> bool {
    match car {
        Some(c) => c.vehicle_type@ == trim_of(vehicle_type) && c.registration@ == trim_of(registration)
            && c.seats as int == number_or_zero(seats, 0xff),
        None => false,
    }
}

/// Whether the add-member form can make a record: a gender, a name, an id
/// and a year, and seats when a car is declared.
pub open spec fn add_form_complete(f: AddPersonForm) -> bool {
    &&& f.gender is Some
    &&& trim_of(f.name@).len() > 0
    &&& trim_of(f.student_id@).len() > 0
    &&& parsed_unsigned(trim_of(f.year_of_entry@), 0xffff) is Some
    &&& f.has_car ==> parsed_unsigned(trim_of(f.car_seats@), 0xff) is Some
}

/// Whether `p` is the record that a complete add-member form describes.
pub open spec fn made_from_add_form(p: Person, f: AddPersonForm) -> bool {
    &&& p.name@ == trim_of(f.name@)
    &&& p.student_id@ == trim_of(f.student_id@)
    &&& Some(p.gender) == f.gender
    &&& p.year_of_entry as int == number_or_zero(f.year_of_entry@, 0xffff)
    &&& texts(p.pickup_locations@) == pickup_list(f.pickup_locations@)
    &&& p.can_drive_minibus == f.can_drive_minibus
    &&& if f.has_car {
        car_from_form(p.car, f.car_type@, f.car_registration@, f.car_seats@)
    } else {
        p.car is None
    }
}

/// Whether `p` is the record that an edit-member form with a gender describes.
pub open spec fn made_from_edit_form(p: Person, f: EditPersonForm) -> bool {
    &&& p.name@ == trim_of(f.name@)
    &&& p.student_id@ == trim_of(f.student_id@)
    &&& Some(p.gender) == f.gender
    &&& p.year_of_entry as int == number_or_zero(f.year_of_entry@, 0xffff)
    &&& texts(p.pickup_locations@) == pickup_list(f.pickup_locations@)
    &&& p.can_drive_minibus == f.can_drive_minibus
    &&& if f.has_car {
        car_from_form(p.car, f.car_type@, f.car_registration@, f.car_seats@)
    } else {
        p.car is None
    }
}

/// A trimmed copy of a field.
fn trimmed_string(s: &String) -> (r: String)
    ensures
        r@ == trim_of(s@),
{
    String::from_str(trimmed(s.as_str()))
}

/// The pickup locations of a comma-separated entry, trimmed, blanks dropped.
fn parse_locations(s: &String) -> (r: Vec<String>)
    ensures
        texts(r@) == pickup_list(s@),
{
    let fields = split_commas(s.as_str());
    let mut out: Vec<String> = Vec::new();
    let mut k: usize = 0;
    while k < fields.len()
        invariant
            k <= fields.len(),
            texts(out@) == kept(texts(fields@).take(k as int)),
        decreases fields.len() - k,
    {
        proof {
            assert(texts(fields@).take(k + 1).drop_last() =~= texts(fields@).take(k as int));
        }
        let t = trimmed(fields[k].as_str());
        if !t.is_empty() {
            let ghost before = out@;
            out.push(String::from_str(t));
            proof {
                assert(texts(out@) =~= texts(before).push(t@));
            }
        }
        k += 1;
    }
    proof {
        assert(texts(fields@).take(k as int) =~= texts(fields@));
    }
    out
}

/// A car from its form fields, the seats read leniently.
fn car_from_fields(vehicle_type: &String, registration: &String, seats: &String) -> (r: Car)
    ensures
        r.vehicle_type@ == trim_of(vehicle_type@),
        r.registration@ == trim_of(registration@),
        r.seats as int == number_or_zero(seats@, 0xff),
{
    proof {
        lemma_parsed_in_range(trim_of(seats@), 0xff);
    }
    let n = match parse_u8(trimmed(seats.as_str())) {
        Some(v) => v,
        None => 0,
    };
    Car { vehicle_type: trimmed_string(vehicle_type), registration: trimmed_string(registration), seats: n }
}

/// The record that a filled-in add-member form describes, or `None` when it
/// lacks a gender, a name, an id or a readable year, or declares a car with
/// unreadable seats.
pub fn build_person_from_add_form(form: &AddPersonForm) -> (r: Option<Person>)
    ensures
        r is Some <==> add_form_complete(*form),
        r matches Some(p) ==> made_from_add_form(p, *form),
{
    let name = trimmed_string(&form.name);
    let student_id = trimmed_string(&form.student_id);
    let gender = match form.gender {
        Some(g) => g,
        None => return None,
    };
    if name.as_str().is_empty() || student_id.as_str().is_empty() {
        return None;
    }
    proof {
        lemma_parsed_in_range(trim_of(form.year_of_entry@), 0xffff);
    }
    let year_of_entry = match parse_u16(trimmed(form.year_of_entry.as_str())) {
        Some(y) => y,
        None => return None,
    };
    let pickup_locations = parse_locations(&form.pickup_locations);
    let car = if form.has_car {
        if parse_u8(trimmed(form.car_seats.as_str())).is_none() {
            return None;
        }
        Some(car_from_fields(&form.car_type, &form.car_registration, &form.car_seats))
    } else {
        None
    };
    Some(Person { name, gender, student_id, year_of_entry, pickup_locations, car, can_drive_minibus: form.can_drive_minibus })
}

impl EditPersonForm {
    /// The edited record, or `None` when no gender is chosen; unreadable
    /// numbers read as zero.
    pub fn edited_person(&self) -> (r: Option<Person>)
        ensures
            r is Some <==> self.gender is Some,
            r matches Some(p) ==> made_from_edit_form(p, *self),
    {
        let gender = match self.gender {
            Some(g) => g,
            None => return None,
        };
        proof {
            lemma_parsed_in_range(trim_of(self.year_of_entry@), 0xffff);
        }
        let year_of_entry = match parse_u16(trimmed(self.year_of_entry.as_str())) {
            Some(y) => y,
            None => 0,
        };
        let car = if self.has_car {
            Some(car_from_fields(&self.car_type, &self.car_registration, &self.car_seats))
        } else {
            None
        };
        Some(Person {
            name: trimmed_string(&self.name),
            gender,
            student_id: trimmed_string(&self.student_id),
            year_of_entry,
            pickup_locations: parse_locations(&self.pickup_locations),
            car,
            can_drive_minibus: self.can_drive_minibus,
        })
    }

    /// Whether the member stays opted in to drive: only with a car.
    pub fn keeps_opt_in(&self) -> (r: bool)
        ensures
            r == (self.wants_to_drive && self.has_car),
    {
        self.wants_to_drive && self.has_car
    }
}

impl SystemState {
    /// Writes an edited member over the record at the form's index; does
    /// nothing when no gender is chosen or the index is out of range.
    pub fn apply_person_edit(&mut self, form: &EditPersonForm) -> (applied: bool)
        ensures
            applied == (form.gender is Some && form.index < old(self).people.len()),
            final(self).minibuses@ == old(self).minibuses@,
            final(self).people@.len() == old(self).people@.len(),
            forall|j: int| 0 <= j < old(self).people@.len() && (!applied || j != form.index) ==> final(self).people@[j] == old(self).people@[j],
            applied ==> made_from_edit_form(final(self).people@[form.index as int], *form),
    {
        if let Some(p) = form.edited_person() {
            if form.index < self.people.len() {
                self.people[form.index] = p;
                return true;
            }
        }
        false
    }

    /// Writes an edited minibus over the one at the form's index, unreadable
    /// seats reading as zero; does nothing when the index is out of range.
    pub fn apply_minibus_edit(&mut self, form: &EditMinibusForm) -> (applied: bool)
        ensures
            applied == (form.index < old(self).minibuses.len()),
            final(self).people@ == old(self).people@,
            final(self).minibuses@.len() == old(self).minibuses@.len(),
            forall|j: int| 0 <= j < old(self).minibuses@.len() && j != form.index ==> final(self).minibuses@[j] == old(self).minibuses@[j],
            applied ==> final(self).minibuses@[form.index as int].registration@ == trim_of(form.registration@)
                && final(self).minibuses@[form.index as int].seats as int == number_or_zero(form.seats@, 0xff),
    {
        proof {
            lemma_parsed_in_range(trim_of(form.seats@), 0xff);
        }
        let seats = match parse_u8(trimmed(form.seats.as_str())) {
            Some(v) => v,
            None => 0,
        };
        if form.index < self.minibuses.len() {
            self.minibuses[form.index] = Minibus { registration: trimmed_string(&form.registration), seats };
            return true;
        }
        false
    }
}

} // verus!
