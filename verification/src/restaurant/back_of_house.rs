//! Back of house: the kitchen's menu items.

use vstd::prelude::*;

verus! {

#[allow(dead_code)]
fn fix_incorrect_order() {
    cook_order();
    crate::restaurant::deliver_order();
}

fn cook_order() {
}

/// A breakfast order; the customer picks the toast, the kitchen picks the
/// seasonal fruit.
pub struct Breakfast {
    pub toast: String,
    seasonal_fruit: String,
}

impl Breakfast {
    pub closed spec fn spec_toast(&self) -> Seq<char> {
        self.toast@
    }

    pub closed spec fn spec_fruit(&self) -> Seq<char> {
        self.seasonal_fruit@
    }

    /// Replaces the toast choice.
    pub fn set_toast(&mut self, toast: String)
        ensures
            final(self).spec_toast() == toast@,
            final(self).spec_fruit() == old(self).spec_fruit(),
    {
        self.toast = toast;
    }

    /// The summer breakfast: your toast, with peaches.
    pub fn summer(toast: &str) -> (b: Breakfast)
        ensures
            b.spec_toast() == toast@,
            b.spec_fruit() == "Peaches"@,
    {
        Breakfast { toast: toast.to_owned(), seasonal_fruit: "Peaches".to_owned() }
    }
}

pub enum Appetizer {
    Soup,
    Salad,
}

} // verus!
