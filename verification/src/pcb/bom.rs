//! Who makes a part and who sells it.

use vstd::prelude::*;

verus! {

/// What a maker or seller of a part stands for.
pub struct SourceModel {
    pub name: Seq<char>,
    pub part_number: Seq<char>,
}

/// The maker of a part, and what the maker calls it.
#[derive(Debug)]
pub struct Manufacturer {
    pub name: String,
    pub part_number: String,
}

impl View for Manufacturer {
    type V = SourceModel;

    open spec fn view(&self) -> SourceModel {
        SourceModel { name: self.name@, part_number: self.part_number@ }
    }
}

/// A seller of a part, and what the seller calls it.
#[derive(Debug)]
pub struct Supplier {
    pub name: String,
    pub part_number: String,
}

impl View for Supplier {
    type V = SourceModel;

    open spec fn view(&self) -> SourceModel {
        SourceModel { name: self.name@, part_number: self.part_number@ }
    }
}

/// The sellers as values.
pub open spec fn suppliers_view(suppliers: Seq<Supplier>) -> Seq<SourceModel> {
    Seq::new(suppliers.len(), |i: int| suppliers[i]@)
}

} // verus!
