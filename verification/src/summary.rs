//! Summaries of pieces of content.

use vstd::prelude::*;
use vstd::string::StringExecFns;

verus! {

/// Anything that can describe itself in one line.
pub trait Summary {
    /// What the one-line description says.
    spec fn spec_summary(&self) -> Seq<char>;

    /// Produce the one-line description.
    fn summary(&self) -> (r: String)
        ensures
            r@ == self.spec_summary(),
    ;
}

/// A written article.
pub struct Article {
    pub title: String,
    pub author: String,
    pub content: String,
}

impl Summary for Article {
    open spec fn spec_summary(&self) -> Seq<char> {
        self.content@ + " into "@ + self.title@ + " by "@ + self.author@
    }

    fn summary(&self) -> (r: String) {
        let mut r = self.content.clone();
        r.append(" into ");
        r.append(self.title.as_str());
        r.append(" by ");
        r.append(self.author.as_str());
        r
    }
}

} // verus!
