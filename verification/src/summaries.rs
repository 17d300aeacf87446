//! A trait for summarizable items, two implementations, and functions that
//! take their arguments through trait bounds.

use vstd::prelude::*;
use vstd::string::*;

verus! {

/// Behavior shared by summarizable items; `spec_summary` pins down what
/// `summarize` must produce.
pub trait Summary {
    /// The summary an implementation promises to produce.
    spec fn spec_summary(&self) -> Seq<char>;

    /// Produces the summary.
    fn summarize(&self) -> (r: String)
        ensures
            r@ == self.spec_summary(),
    ;
}

/// A news story.
pub struct NewsArticle {
    pub headline: String,
    pub location: String,
    pub author: String,
    pub content: String,
}

impl Summary for NewsArticle {
    open spec fn spec_summary(&self) -> Seq<char> {
        self.headline@ + ", by "@ + self.author@ + " ("@ + self.location@ + ")"@
    }

    fn summarize(&self) -> (r: String) {
        let mut s = self.headline.clone();
        s.append(", by ");
        s.append(self.author.as_str());
        s.append(" (");
        s.append(self.location.as_str());
        s.append(")");
        proof {
            assert(s@ =~= self.spec_summary());
        }
        s
    }
}

/// A short post.
pub struct Tweet {
    pub username: String,
    pub content: String,
    pub reply: bool,
    pub retweet: bool,
}

impl Summary for Tweet {
    open spec fn spec_summary(&self) -> Seq<char> {
        self.username@ + ": "@ + self.content@
    }

    fn summarize(&self) -> (r: String) {
        let mut s = self.username.clone();
        s.append(": ");
        s.append(self.content.as_str());
        proof {
            assert(s@ =~= self.spec_summary());
        }
        s
    }
}

/// A summary trait whose one method has a default implementation.
pub trait DSummary {
    /// The default summary points the reader elsewhere.
    fn summarize(&self) -> (r: String)
        ensures
            r@ == "(Read more...)"@,
    {
        String::from_str("(Read more...)")
    }
}

/// Two items taken by `impl Trait` parameters.
#[allow(unused_variables)]
pub fn itnotify(item1: &impl Summary, item2: &impl Summary) {
}

/// Two items of one type taken by a trait bound.
#[allow(unused_variables)]
pub fn tbenotify<T: Summary>(item1: &T, item2: &T) {
}

/// An item that is both summarizable and printable.
#[allow(unused_variables)]
pub fn mnotify(item: &(impl Summary + core::fmt::Display)) {
}

/// The same, written with a trait bound.
#[allow(unused_variables)]
pub fn mtbnotify<T: Summary + core::fmt::Display>(item: &T) {
}

/// Hands back some summarizable value without naming its type.
pub fn returns_summarizable() -> (r: impl Summary)
    ensures
        r.spec_summary() == "horse_ebooks"@ + ": "@ + "of course, as you probably already know, people"@,
{
    let t = Tweet {
        username: String::from_str("horse_ebooks"),
        content: String::from_str("of course, as you probably already know, people"),
        reply: false,
        retweet: false,
    };
    t
}

/// A signature with several trait bounds, written with a `where` clause.
#[allow(unused_variables)]
pub fn some_function<T, U>(t: &T, u: &U) -> (r: i32)
    where
        T: core::fmt::Display + Clone,
        U: Clone + core::fmt::Debug,
    ensures
        r == 0,
{
    0
}

} // verus!
