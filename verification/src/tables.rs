//! Column metadata of the scanned table.

use vstd::prelude::*;
use vstd::std_specs::cmp::PartialEqSpecImpl;

verus! {

/// One column of the scanned table: its name and the type name that the
/// schema catalog reports for it.
#[derive(Debug, Eq, Clone)]
pub struct OracleColumn {
    pub name: String,
    pub data_type: String,
}

impl OracleColumn {
    pub fn new(name: String, data_type: String) -> (column: Self)
        ensures
            column.name == name,
            column.data_type == data_type,
    {
        Self { name, data_type }
    }
}

impl PartialEq for OracleColumn {
    fn eq(&self, other: &Self) -> (same: bool) {
        self.name == other.name && self.data_type == other.data_type
    }
}

impl PartialEqSpecImpl for OracleColumn {
    open spec fn obeys_eq_spec() -> bool {
        true
    }

    open spec fn eq_spec(&self, other: &Self) -> bool {
        self.name@ == other.name@ && self.data_type@ == other.data_type@
    }
}

} // verus!
