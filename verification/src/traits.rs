//! A trait, a type that has it, and a function that hands out some type
//! that has it.

use vstd::prelude::*;
use vstd::string::StringExecFns;

verus! {

/// What can be summed up in a line.
pub trait Summary {
    /// The line that sums it up, as contracts see it. A type says here what
    /// its `summarize` returns; of a type that does not, nothing is known.
    open spec fn summary(&self) -> Seq<char> {
        arbitrary()
    }

    /// The line that sums it up.
    fn summarize(&self) -> (line: String)
        ensures
            line@ == self.summary(),
    ;
}

/// A piece of news.
pub struct NewsArticle {
    pub headline: String,
    pub author: String,
}

impl Summary for NewsArticle {
    /// The headline, ` by `, the author.
    open spec fn summary(&self) -> Seq<char> {
        self.headline@ + " by "@ + self.author@
    }

    fn summarize(&self) -> (line: String) {
        let mut line = self.headline.clone();
        line.append(" by ");
        line.append(self.author.as_str());
        line
    }
}

/// Something that can be summed up: the news of the lost balloon.
pub fn returns_summary() -> (news: impl Summary)
    ensures
        news.summary() == "Lost Balloon Found"@ + " by "@ + "Eggman"@,
{
    NewsArticle { headline: "Lost Balloon Found".to_owned(), author: "Eggman".to_owned() }
}

} // verus!
