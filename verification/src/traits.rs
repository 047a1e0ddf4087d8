//! Summaries of articles and tweets.

use vstd::prelude::*;

verus! {

/// Something that can describe itself in one line.
pub trait Summary {
    fn summarize_author(&self) -> String;

    fn summarize(&self) -> String;
}

pub struct NewsArticle {
    pub headline: String,
    pub location: String,
    pub author: String,
    pub content: String,
}

impl Summary for NewsArticle {
    fn summarize_author(&self) -> (r: String)
        ensures
            r@ == self.author@,
    {
        self.author.clone()
    }

    fn summarize(&self) -> (r: String)
        ensures
            r@ == self.headline@ + ", by "@ + self.author@ + " ("@ + self.location@ + ")"@,
    {
        let mut r = self.headline.clone();
        r.append(", by ");
        r.append(self.author.as_str());
        r.append(" (");
        r.append(self.location.as_str());
        r.append(")");
        r
    }
}

pub struct Tweet {
    pub username: String,
    pub content: String,
    pub reply: bool,
    pub retweet: bool,
}

impl Summary for Tweet {
    fn summarize_author(&self) -> (r: String)
        ensures
            r@ == "@"@ + self.username@,
    {
        let mut r = String::new();
        r.append("@");
        r.append(self.username.as_str());
        r
    }

    fn summarize(&self) -> (r: String)
        ensures
            r@ == self.username@ + ": "@ + self.content@,
    {
        let mut r = self.username.clone();
        r.append(": ");
        r.append(self.content.as_str());
        r
    }
}

impl Summary for i32 {
    fn summarize_author(&self) -> (r: String)
        ensures
            r@ == "Bruh, I'm just an i32"@,
    {
        "Bruh, I'm just an i32".to_owned()
    }

    /// The generic summary: a pointer at the author.
    fn summarize(&self) -> (r: String)
        ensures
            r@ == "(Read more from Bruh, I'm just an i32...)"@,
    {
        proof {
            reveal_strlit("(Read more from Bruh, I'm just an i32...)");
            reveal_strlit("(Read more from ");
            reveal_strlit("Bruh, I'm just an i32");
            reveal_strlit("...)");
        }
        let mut r = String::new();
        r.append("(Read more from ");
        let author = self.summarize_author();
        r.append(author.as_str());
        r.append("...)");
        proof {
            assert(r@ =~= "(Read more from Bruh, I'm just an i32...)"@);
        }
        r
    }
}

#[allow(dead_code)]
fn get_next_summarizable() -> impl Summary {
    Tweet {
        username: "Socrates".to_owned(),
        content: "Alexander fuck off pls you're coverign my sun".to_owned(),
        reply: false,
        retweet: false,
    }
}

pub struct Pair<T> {
    x: T,
    y: T,
}

impl<T> Pair<T> {
    pub closed spec fn spec_x(&self) -> T {
        self.x
    }

    pub closed spec fn spec_y(&self) -> T {
        self.y
    }

    pub fn new(x: T, y: T) -> (p: Self)
        ensures
            p.spec_x() == x,
            p.spec_y() == y,
    {
        Self { x, y }
    }
}

} // verus!
