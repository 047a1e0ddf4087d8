//! A blog post that moves through draft, review, and published phases.
//!
//! Text can only be added while drafting; the content is only visible once
//! published; publication takes two approvals, and a rejection sends the
//! post back to drafting.

use vstd::prelude::*;

verus! {

enum State {
    Draft,
    PendingReview { total_approves: u32 },
    Published,
}

pub struct Post {
    state: State,
    content: String,
}

impl Post {
    pub closed spec fn in_draft(&self) -> bool {
        self.state is Draft
    }

    pub closed spec fn in_review(&self) -> bool {
        self.state is PendingReview
    }

    pub closed spec fn published(&self) -> bool {
        self.state is Published
    }

    /// Approvals collected so far; zero outside review.
    pub closed spec fn approvals(&self) -> nat {
        match self.state {
            State::PendingReview { total_approves } => total_approves as nat,
            _ => 0,
        }
    }

    /// The text accumulated so far, visible or not.
    pub closed spec fn text(&self) -> Seq<char> {
        self.content@
    }

    /// A post under review never holds the two approvals that would have
    /// already published it.
    pub closed spec fn wf(&self) -> bool {
        self.in_review() ==> self.approvals() < 2
    }

    pub fn new() -> (p: Post)
        ensures
            p.wf(),
            p.in_draft(),
            p.text() == Seq::<char>::empty(),
    {
        let p = Post { state: State::Draft, content: String::new() };
        p
    }

    /// Appends text; only a draft accepts it.
    pub fn add_text(&mut self, text: &str)
        requires
            old(self).wf(),
        ensures
            final(self).wf(),
            old(self).in_draft() ==> final(self).text() == old(self).text() + text@,
            !old(self).in_draft() ==> final(self).text() == old(self).text(),
            final(self).in_draft() == old(self).in_draft(),
            final(self).in_review() == old(self).in_review(),
            final(self).published() == old(self).published(),
            final(self).approvals() == old(self).approvals(),
    {
        match self.state {
            State::Draft => self.content.append(text),
            _ => {},
        }
    }

    /// The visible content: the text once published, nothing before.
    pub fn content(&self) -> (r: &str)
        ensures
            self.published() ==> r@ == self.text(),
            !self.published() ==> r@ == Seq::<char>::empty(),
    {
        proof {
            reveal_strlit("");
            assert(""@ =~= Seq::<char>::empty());
        }
        match self.state {
            State::Published => self.content.as_str(),
            _ => "",
        }
    }

    /// Sends a draft to review with no approvals yet; has no effect in any
    /// other phase.
    pub fn request_review(&mut self)
        requires
            old(self).wf(),
        ensures
            final(self).wf(),
            final(self).text() == old(self).text(),
            old(self).in_draft() ==> final(self).in_review() && final(self).approvals() == 0,
            !old(self).in_draft() ==> {
                &&& final(self).in_draft() == old(self).in_draft()
                &&& final(self).in_review() == old(self).in_review()
                &&& final(self).published() == old(self).published()
                &&& final(self).approvals() == old(self).approvals()
            },
    {
        match self.state {
            State::Draft => self.state = State::PendingReview { total_approves: 0 },
            _ => {},
        }
    }

    /// Records one approval; the second approval publishes the post.
    pub fn approve(&mut self)
        requires
            old(self).wf(),
        ensures
            final(self).wf(),
            final(self).text() == old(self).text(),
            old(self).in_review() && old(self).approvals() + 1 < 2 ==> final(self).in_review()
                && final(self).approvals() == old(self).approvals() + 1,
            old(self).in_review() && old(self).approvals() + 1 >= 2
                ==> final(self).published(),
            !old(self).in_review() ==> {
                &&& final(self).in_draft() == old(self).in_draft()
                &&& final(self).in_review() == old(self).in_review()
                &&& final(self).published() == old(self).published()
                &&& final(self).approvals() == old(self).approvals()
            },
    {
        match self.state {
            State::PendingReview { total_approves } => {
                let total = total_approves + 1;
                if total < 2 {
                    self.state = State::PendingReview { total_approves: total };
                } else {
                    self.state = State::Published;
                }
            },
            _ => {},
        }
    }

    /// Sends a post under review back to drafting; has no effect in any
    /// other phase.
    pub fn reject(&mut self)
        requires
            old(self).wf(),
        ensures
            final(self).wf(),
            final(self).text() == old(self).text(),
            old(self).in_review() ==> final(self).in_draft(),
            !old(self).in_review() ==> {
                &&& final(self).in_draft() == old(self).in_draft()
                &&& final(self).in_review() == old(self).in_review()
                &&& final(self).published() == old(self).published()
                &&& final(self).approvals() == old(self).approvals()
            },
    {
        match self.state {
            State::PendingReview { .. } => self.state = State::Draft,
            _ => {},
        }
    }
}

} // verus!
