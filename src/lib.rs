//! Transport allocation for a rowing club: riders grouped by destination and
//! departure time are seated in shared minibuses and members' own cars.
use vstd::prelude::*;

pub mod allocation;
pub mod boat;
pub mod forms;
pub mod laws;
pub mod models;
pub mod plan;
pub mod state;
mod text;

pub use allocation::{Allocation, TransportGroup};
pub use forms::{build_person_from_add_form, AddPersonForm, EditMinibusForm, EditPersonForm};
pub use boat::{requests_from_boats, validate_boats, Boat, BoatType, PlanProblem};
pub use models::{Car, Destination, Gender, Minibus, Person};
pub use state::SystemState;

verus! {

} // verus!
