//! The broadcast: deliver one message to every configured admin, in list
//! order, aborting on the first failed send (fail-fast). The state machine
//! here decides who is sent what and in which order; performing each send is
//! the caller's outbound work.

use vstd::prelude::*;

verus! {

/// Characters the messaging platform's Markdown dialect requires escaping.
pub open spec fn is_md_special(c: char) -> bool {
    c == '_' || c == '*' || c == '[' || c == ']' || c == '(' || c == ')' || c == '~' || c == '`'
        || c == '>' || c == '#' || c == '+' || c == '-' || c == '=' || c == '|' || c == '{'
        || c == '}' || c == '.' || c == '!'
}

/// The platform's Markdown escaping: every character kept in order, with a
/// backslash before each special one.
pub open spec fn escaped_md(s: Seq<char>) -> Seq<char>
    decreases s.len(),
{
    if s.len() == 0 {
        Seq::<char>::empty()
    } else {
        (if is_md_special(s[0]) {
            seq!['\\', s[0]]
        } else {
            seq![s[0]]
        }) + escaped_md(s.drop_first())
    }
}

/// Relies on mobot::api::escape_md: it keeps every character in order and
/// puts a backslash before each Markdown-special one.
#[verifier::external_body]
pub(crate) fn escape_text(s: &str) -> (r: String)
    ensures
        r@ == escaped_md(s@),
{
    mobot::api::escape_md(s)
}

/// One broadcast in progress: the admins still to notify are exactly those
/// from `next` on; a failure aborts the rest.
pub struct Broadcast {
    admins: Vec<i64>,
    text: String,
    next: usize,
    failed: bool,
}

impl Broadcast {
    /// The configured admin list, in delivery order.
    pub closed spec fn spec_admins(self) -> Seq<i64> {
        self.admins@
    }

    /// The (already escaped) text every admin is sent.
    pub closed spec fn spec_text(self) -> Seq<char> {
        self.text@
    }

    /// How many admins have been notified.
    pub closed spec fn spec_next(self) -> int {
        self.next as int
    }

    /// Whether a send has failed.
    pub closed spec fn spec_failed(self) -> bool {
        self.failed
    }

    /// Well-formed: the notified prefix lies within the admin list, and a
    /// recorded failure points at the admin whose send failed.
    pub open spec fn wf(self) -> bool {
        self.spec_next() <= self.spec_admins().len() && (self.spec_failed()
            ==> self.spec_next() < self.spec_admins().len())
    }

    /// The admins notified so far: the list's prefix before `next`, in order.
    pub open spec fn delivered(self) -> Seq<i64> {
        self.spec_admins().take(self.spec_next())
    }

    /// Whether every admin has been notified.
    pub open spec fn is_complete(self) -> bool {
        !self.spec_failed() && self.spec_next() == self.spec_admins().len()
    }

    pub fn new(admins: Vec<i64>, text: String) -> (b: Self)
        ensures
            b.wf(),
            b.spec_admins() == admins@,
            b.spec_text() == text@,
            b.spec_next() == 0,
            !b.spec_failed(),
    {
        Broadcast { admins: admins, text: text, next: 0, failed: false }
    }

    /// The next admin to notify, in list order: `None` once the broadcast is
    /// complete or has failed — after a failure no further admin is ever
    /// handed out.
    pub fn next_recipient(&self) -> (r: Option<i64>)
        requires
            self.wf(),
        ensures
            match r {
                Some(a) => !self.spec_failed() && self.spec_next() < self.spec_admins().len() && a
                    == self.spec_admins()[self.spec_next()],
                None => self.spec_failed() || self.spec_next() == self.spec_admins().len(),
            },
    {
        if !self.failed && self.next < self.admins.len() {
            Some(self.admins[self.next])
        } else {
            None
        }
    }

    /// Whether a send has failed.
    pub fn has_failed(&self) -> (b: bool)
        ensures
            b == self.spec_failed(),
    {
        self.failed
    }

    /// The text each admin is sent.
    pub fn message(&self) -> (t: &String)
        ensures
            t@ == self.spec_text(),
    {
        &self.text
    }

    /// Record that the pending admin was notified: exactly that admin is
    /// appended to the delivered prefix.
    pub fn record_success(&mut self)
        requires
            old(self).wf(),
            !old(self).spec_failed(),
            old(self).spec_next() < old(self).spec_admins().len(),
        ensures
            final(self).wf(),
            final(self).spec_admins() == old(self).spec_admins(),
            final(self).spec_text() == old(self).spec_text(),
            !final(self).spec_failed(),
            final(self).spec_next() == old(self).spec_next() + 1,
            final(self).delivered() == old(self).delivered().push(
                old(self).spec_admins()[old(self).spec_next()],
            ),
    {
        let n = self.admins.len();
        assert(self.next < n);
        self.next = self.next + 1;
        proof {
            assert(self.admins@.take(self.next as int) =~= old(self).admins@.take(
                old(self).next as int,
            ).push(self.admins@[old(self).next as int]));
        }
    }

    /// Record that sending to the pending admin failed: the broadcast aborts;
    /// nobody else is notified (fail-fast).
    pub fn record_failure(&mut self)
        requires
            old(self).wf(),
            !old(self).spec_failed(),
            old(self).spec_next() < old(self).spec_admins().len(),
        ensures
            final(self).wf(),
            final(self).spec_admins() == old(self).spec_admins(),
            final(self).spec_text() == old(self).spec_text(),
            final(self).spec_failed(),
            final(self).spec_next() == old(self).spec_next(),
            final(self).delivered() == old(self).delivered(),
    {
        self.failed = true;
    }
}

/// A broadcast that ran to completion has notified every configured admin
/// exactly once, in the exact order of the admin list.
pub proof fn lemma_complete_notifies_all(b: Broadcast)
    requires
        b.wf(),
        b.is_complete(),
    ensures
        b.delivered() == b.spec_admins(),
{
    assert(b.delivered() =~= b.spec_admins());
}

/// Fail-fast: when the send to the `k`-th admin (1-indexed) fails, admins
/// `1..k-1` have each been notified exactly once, in list order, and admins
/// `k..` never are — the delivered prefix is frozen at `k - 1` admins.
pub proof fn lemma_fail_fast(b: Broadcast, k: int)
    requires
        b.wf(),
        b.spec_failed(),
        k == b.spec_next() + 1,
    ensures
        b.delivered() == b.spec_admins().take(k - 1),
        b.delivered().len() == k - 1,
        forall|j: int| 0 <= j < k - 1 ==> b.delivered()[j] == b.spec_admins()[j],
{
}

} // verus!
