use vstd::prelude::*;

// Data access for a list of todo records: how a stored row maps to a record
// (`record`), what each store operation returns from what the storage engine
// gave back (`store`), and a table held in memory on which the store's laws
// are proved (`table`).
pub mod record;
pub mod store;
pub mod table;

verus! {

} // verus!
