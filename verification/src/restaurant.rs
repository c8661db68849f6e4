//! What the kitchen serves.

use vstd::prelude::*;

verus! {

/// A breakfast. The guest chooses the toast; the fruit is the cook's choice.
#[derive(Debug)]
pub struct Breakfast {
    pub toast: String,
    seasonal_fruit: String,
}

/// What comes before the meal.
pub enum Appetizer {
    Soup,
    Salad,
}

impl Breakfast {
    /// The toast of the breakfast.
    pub closed spec fn bread(self) -> Seq<char> {
        self.toast@
    }

    /// The fruit that comes with the breakfast.
    pub closed spec fn fruit(self) -> Seq<char> {
        self.seasonal_fruit@
    }

    /// The breakfast of the summer: rye toast, and peaches.
    pub fn summer() -> (meal: Breakfast)
        ensures
            meal.bread() == "rye"@,
            meal.fruit() == "peaches"@,
    {
        Breakfast { toast: "rye".to_owned(), seasonal_fruit: "peaches".to_owned() }
    }

    /// The fruit that comes with the breakfast.
    pub fn seasonal_fruit(&self) -> (fruit: &str)
        ensures
            fruit@ == self.fruit(),
    {
        self.seasonal_fruit.as_str()
    }
}

} // verus!
