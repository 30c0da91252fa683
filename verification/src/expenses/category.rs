//! Expense categories.
use vstd::prelude::*;

verus! {

pub struct Category {
    pub id: i64,
    pub name: String,
}

pub struct CategoryList {
    pub categories: Vec<Category>,
}

pub open spec fn predefined_names() -> Seq<Seq<char>> {
    seq![
        "Food"@,
        "Transport"@,
        "Utilities"@,
        "Entertainment"@,
        "Shopping"@,
        "Health"@,
        "Trading Deposit"@,
        "Other"@,
    ]
}

/// Categories created on first start, in order.
pub fn predefined_categories() -> (r: Vec<&'static str>)
    ensures
        r@.len() == predefined_names().len(),
        forall|i: int| 0 <= i < r@.len() ==> (#[trigger] r@[i])@ == predefined_names()[i],
{
    let r = vec![
        "Food",
        "Transport",
        "Utilities",
        "Entertainment",
        "Shopping",
        "Health",
        "Trading Deposit",
        "Other",
    ];
    r
}

} // verus!
