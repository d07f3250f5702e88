//! Domain records: people, their cars, the shared minibuses and the venues.
use vstd::prelude::*;

verus! {

/// Gender as recorded for a club member.
#[derive(Clone, Copy, Debug, PartialEq, Eq, Structural)]
pub enum Gender {
    Male,
    Female,
}

/// A car owned by one member; `seats` counts the driver's seat too.
#[derive(Clone, Debug, PartialEq, Eq)]
pub struct Car {
    pub vehicle_type: String,
    pub registration: String,
    pub seats: u8,
}

/// A shared minibus; `seats` counts the driver's seat too.
#[derive(Clone, Debug)]
pub struct Minibus {
    pub registration: String,
    pub seats: u8,
}

/// A club member who may ride, drive a minibus, or drive their own car.
#[derive(Clone, Debug, PartialEq, Eq)]
pub struct Person {
    pub name: String,
    pub gender: Gender,
    pub student_id: String,
    pub year_of_entry: u16,
    pub pickup_locations: Vec<String>,
    pub car: Option<Car>,
    pub can_drive_minibus: bool,
}

/// The venues that trips go to.
#[derive(Clone, Copy, Debug, PartialEq, Eq, Hash, Structural)]
pub enum Destination {
    StrathclydePark,
    Auchenstarry,
}

impl Destination {
    /// The venue's name as printed on a transport sheet.
    pub open spec fn spec_label(self) -> Seq<char> {
        match self {
            Destination::StrathclydePark => "Strathclyde Park"@,
            Destination::Auchenstarry => "Auchenstarry"@,
        }
    }

    /// The venue's display name.
    pub fn label(&self) -> (r: &'static str)
        ensures
            r@ == self.spec_label(),
    {
        match self {
            Destination::StrathclydePark => "Strathclyde Park",
            Destination::Auchenstarry => "Auchenstarry",
        }
    }
}

impl Minibus {
    /// A field-by-field copy.
    pub fn duplicate(&self) -> (r: Minibus)
        ensures
            r == *self,
    {
        Minibus { registration: self.registration.clone(), seats: self.seats }
    }
}

impl Car {
    /// A field-by-field copy.
    pub fn duplicate(&self) -> (r: Car)
        ensures
            r == *self,
    {
        Car { vehicle_type: self.vehicle_type.clone(), registration: self.registration.clone(), seats: self.seats }
    }
}

impl Person {
    /// Whether two records agree on every field (the pickup list by its contents).
    pub open spec fn same_as(self, other: Person) -> bool {
        &&& self.name == other.name
        &&& self.gender == other.gender
        &&& self.student_id == other.student_id
        &&& self.year_of_entry == other.year_of_entry
        &&& self.pickup_locations@ == other.pickup_locations@
        &&& self.car == other.car
        &&& self.can_drive_minibus == other.can_drive_minibus
    }

    /// A field-by-field copy.
    pub fn duplicate(&self) -> (r: Person)
        ensures
            r.same_as(*self),
    {
        let mut locations: Vec<String> = Vec::new();
        let mut k: usize = 0;
        while k < self.pickup_locations.len()
            invariant
                k <= self.pickup_locations.len(),
                locations@ == self.pickup_locations@.take(k as int),
            decreases self.pickup_locations.len() - k,
        {
            locations.push(self.pickup_locations[k].clone());
            proof {
                assert(locations@ =~= self.pickup_locations@.take(k + 1));
            }
            k += 1;
        }
        proof {
            assert(locations@ =~= self.pickup_locations@);
        }
        let car = match &self.car {
            Some(c) => Some(c.duplicate()),
            None => None,
        };
        Person {
            name: self.name.clone(),
            gender: self.gender,
            student_id: self.student_id.clone(),
            year_of_entry: self.year_of_entry,
            pickup_locations: locations,
            car,
            can_drive_minibus: self.can_drive_minibus,
        }
    }
}

} // verus!
