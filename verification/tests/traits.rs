use primer::traits::{returns_summary, NewsArticle, Summary};

struct Shout(String);

impl Summary for Shout {
    fn summarize(&self) -> String {
        self.0.to_uppercase()
    }
}

#[test]
fn article_is_summed_up_by_headline_and_author() {
    let article = NewsArticle {
        headline: String::from("Hamster Shortage Reported!"),
        author: String::from("edgeworth"),
    };
    assert_eq!(article.summarize(), "Hamster Shortage Reported! by edgeworth");
}

#[test]
fn returned_summary_is_the_lost_balloon() {
    assert_eq!(returns_summary().summarize(), "Lost Balloon Found by Eggman");
}

#[test]
fn a_type_of_the_caller_can_be_summed_up() {
    assert_eq!(Shout(String::from("quiet")).summarize(), "QUIET");
}
