//! Sets of received messages, and the votes that they hold.
//!
//! A replica keeps every message that takes part in a vote. A threshold is met
//! by distinct senders: a sender who repeats itself, or who sends several
//! messages of one vote, counts once.

use vstd::prelude::*;

use crate::message::{same_hash, Message, MessageView, NodeId};

verus! {

/// The votes that a replica counts.
pub enum Ballot {
    /// SYNCs at a log index, whatever their hash.
    Syncs { round: u64, log_idx: u64 },
    /// SYNCs at a log index that carry the given hash.
    MatchingSyncs { round: u64, log_idx: u64, log_hash: crate::message::Hash },
    /// CHECKPOINTs at a log index that conflict with the hash that is held for it;
    /// where none is held, every one conflicts.
    ConflictingCheckpoints { round: u64, log_idx: u64, held: Option<crate::message::Hash> },
    /// TIMEOUTs at a log index.
    Timeouts { round: u64, log_idx: u64 },
    /// LOGs of a repair view.
    Logs { view: u64, round: u64 },
    /// Prepare votes for a history.
    Prepares { view: u64, round: u64, history_hash: u64 },
    /// Commit votes for a history.
    Commits { view: u64, round: u64, history_hash: u64 },
    /// REPAIR-DONEs of a repair view.
    Dones { view: u64, round: u64 },
}

/// The value of a [`Ballot`].
pub enum BallotView {
    Syncs { round: u64, log_idx: u64 },
    MatchingSyncs { round: u64, log_idx: u64, log_hash: Seq<u8> },
    ConflictingCheckpoints { round: u64, log_idx: u64, held: Option<Seq<u8>> },
    Timeouts { round: u64, log_idx: u64 },
    Logs { view: u64, round: u64 },
    Prepares { view: u64, round: u64, history_hash: u64 },
    Commits { view: u64, round: u64, history_hash: u64 },
    Dones { view: u64, round: u64 },
}

impl View for Ballot {
    type V = BallotView;

    open spec fn view(&self) -> BallotView {
        match *self {
            Ballot::Syncs { round, log_idx } => BallotView::Syncs { round, log_idx },
            Ballot::MatchingSyncs { round, log_idx, log_hash } => BallotView::MatchingSyncs {
                round,
                log_idx,
                log_hash: log_hash@,
            },
            Ballot::ConflictingCheckpoints { round, log_idx, held } =>
                BallotView::ConflictingCheckpoints {
                round,
                log_idx,
                held: match held {
                    Some(h) => Some(h@),
                    None => None,
                },
            },
            Ballot::Timeouts { round, log_idx } => BallotView::Timeouts { round, log_idx },
            Ballot::Logs { view, round } => BallotView::Logs { view, round },
            Ballot::Prepares { view, round, history_hash } => BallotView::Prepares {
                view,
                round,
                history_hash,
            },
            Ballot::Commits { view, round, history_hash } => BallotView::Commits {
                view,
                round,
                history_hash,
            },
            Ballot::Dones { view, round } => BallotView::Dones { view, round },
        }
    }
}

impl BallotView {
    /// Who votes by sending `m`, if `m` is a vote of this ballot.
    pub open spec fn voter(self, m: MessageView) -> Option<Seq<char>> {
        match (self, m) {
            (
                BallotView::Syncs { round, log_idx },
                MessageView::Sync { from, round: r, log_idx: li, .. },
            ) => if r == round && li == log_idx {
                Some(from)
            } else {
                None
            },
            (
                BallotView::MatchingSyncs { round, log_idx, log_hash },
                MessageView::Sync { from, round: r, log_idx: li, log_hash: lh, .. },
            ) => if r == round && li == log_idx && lh == log_hash {
                Some(from)
            } else {
                None
            },
            (
                BallotView::ConflictingCheckpoints { round, log_idx, held },
                MessageView::Checkpoint { from, round: r, log_idx: li, log_hash },
            ) => if r == round && li == log_idx && held != Some(log_hash) {
                Some(from)
            } else {
                None
            },
            (
                BallotView::Timeouts { round, log_idx },
                MessageView::TimeoutMsg { from, round: r, log_idx: li },
            ) => if r == round && li == log_idx {
                Some(from)
            } else {
                None
            },
            (
                BallotView::Logs { view, round },
                MessageView::LogMsg { from, view: v, round: r, .. },
            ) => if v == view && r == round {
                Some(from)
            } else {
                None
            },
            (
                BallotView::Prepares { view, round, history_hash },
                MessageView::RepairPrepare { from, view: v, round: r, history_hash: h },
            ) => if v == view && r == round && h == history_hash {
                Some(from)
            } else {
                None
            },
            (
                BallotView::Commits { view, round, history_hash },
                MessageView::RepairCommit { from, view: v, round: r, history_hash: h },
            ) => if v == view && r == round && h == history_hash {
                Some(from)
            } else {
                None
            },
            (
                BallotView::Dones { view, round },
                MessageView::RepairDone { from, view: v, round: r, .. },
            ) => if v == view && r == round {
                Some(from)
            } else {
                None
            },
            _ => None,
        }
    }
}

/// Whether `hash` is the one that is held.
fn holds_hash(held: &Option<crate::message::Hash>, hash: &crate::message::Hash) -> (r: bool)
    ensures
        r == (held matches Some(h) && h@ == hash@),
{
    match held {
        Some(h) => same_hash(h, hash),
        None => false,
    }
}

impl Ballot {
    /// Who votes by sending `m`, if `m` is a vote of this ballot.
    pub fn voter_of<'a>(&self, m: &'a Message) -> (r: Option<&'a NodeId>)
        ensures
            match r {
                Some(who) => self@.voter(m@) == Some(who@),
                None => self@.voter(m@) is None,
            },
    {
        match (self, m) {
            (
                Ballot::Syncs { round, log_idx },
                Message::Sync { from, round: r, log_idx: li, .. },
            ) if *r == *round && *li == *log_idx => Some(from),
            (
                Ballot::MatchingSyncs { round, log_idx, log_hash },
                Message::Sync { from, round: r, log_idx: li, log_hash: lh, .. },
            ) if *r == *round && *li == *log_idx && same_hash(lh, log_hash) => Some(from),
            (
                Ballot::ConflictingCheckpoints { round, log_idx, held },
                Message::Checkpoint { from, round: r, log_idx: li, log_hash },
            ) if *r == *round && *li == *log_idx && !holds_hash(held, log_hash) => Some(from),
            (
                Ballot::Timeouts { round, log_idx },
                Message::TimeoutMsg { from, round: r, log_idx: li },
            ) if *r == *round && *li == *log_idx => Some(from),
            (Ballot::Logs { view, round }, Message::LogMsg { from, view: v, round: r, .. }) if *v
                == *view && *r == *round => Some(from),
            (
                Ballot::Prepares { view, round, history_hash },
                Message::RepairPrepare { from, view: v, round: r, history_hash: h },
            ) if *v == *view && *r == *round && *h == *history_hash => Some(from),
            (
                Ballot::Commits { view, round, history_hash },
                Message::RepairCommit { from, view: v, round: r, history_hash: h },
            ) if *v == *view && *r == *round && *h == *history_hash => Some(from),
            (Ballot::Dones { view, round }, Message::RepairDone { from, view: v, round: r, .. }) if *v
                == *view && *r == *round => Some(from),
            _ => None,
        }
    }
}

/// The distinct senders whose messages are votes of `ballot`.
pub open spec fn supporters(msgs: Seq<MessageView>, ballot: BallotView) -> Set<Seq<char>> {
    Set::new(
        |who: Seq<char>|
            exists|i: int| 0 <= i < msgs.len() && ballot.voter(#[trigger] msgs[i]) == Some(who),
    )
}

/// The history that `m` proposes, if it is a proposal of the leader for the given
/// view and round.
pub open spec fn proposal(
    m: MessageView,
    view: u64,
    round: u64,
    leader: Option<Seq<char>>,
) -> Option<u64> {
    match m {
        MessageView::RepairHistory { from, view: v, round: r, history_hash } => if Some(from)
            == leader && v == view && r == round {
            Some(history_hash)
        } else {
            None
        },
        _ => None,
    }
}

/// The history of the leader's earliest proposal for the given view and round.
pub open spec fn first_proposal(
    msgs: Seq<MessageView>,
    view: u64,
    round: u64,
    leader: Option<Seq<char>>,
) -> Option<u64>
    decreases msgs.len(),
{
    if msgs.len() == 0 {
        None
    } else if proposal(msgs[0], view, round, leader) is Some {
        proposal(msgs[0], view, round, leader)
    } else {
        first_proposal(msgs.drop_first(), view, round, leader)
    }
}

/// The value of a name that may be missing.
pub open spec fn name_of(name: Option<&NodeId>) -> Option<Seq<char>> {
    match name {
        Some(n) => Some(n@),
        None => None,
    }
}

/// Without a leader there is no proposal.
proof fn lemma_no_leader(msgs: Seq<MessageView>, view: u64, round: u64)
    ensures
        first_proposal(msgs, view, round, None) is None,
    decreases msgs.len(),
{
    if msgs.len() > 0 {
        lemma_no_leader(msgs.drop_first(), view, round);
    }
}

/// Adding `m` to a set of messages: a message that is there already changes
/// nothing, a new one comes last.
pub open spec fn with_message(msgs: Seq<MessageView>, m: MessageView) -> Seq<MessageView> {
    if msgs.contains(m) {
        msgs
    } else {
        msgs.push(m)
    }
}

/// The senders of finitely many messages are finitely many.
pub proof fn lemma_supporters_finite(msgs: Seq<MessageView>, ballot: BallotView)
    ensures
        supporters(msgs, ballot).finite(),
        supporters(msgs, ballot).len() <= msgs.len(),
    decreases msgs.len(),
{
    if msgs.len() == 0 {
        assert(supporters(msgs, ballot) =~= Set::empty());
    } else {
        let rest = msgs.drop_last();
        lemma_supporters_finite(rest, ballot);
        lemma_supporters_push(rest, msgs.last(), ballot);
        assert(rest.push(msgs.last()) =~= msgs);
    }
}

/// One more message adds at most its sender.
pub proof fn lemma_supporters_push(msgs: Seq<MessageView>, m: MessageView, ballot: BallotView)
    ensures
        supporters(msgs.push(m), ballot) == (match ballot.voter(m) {
            Some(who) => supporters(msgs, ballot).insert(who),
            None => supporters(msgs, ballot),
        }),
{
    let all = msgs.push(m);
    let before = supporters(msgs, ballot);
    let after = supporters(all, ballot);
    assert forall|who: Seq<char>| before.contains(who) implies after.contains(who) by {
        let i = choose|i: int|
            0 <= i < msgs.len() && ballot.voter(#[trigger] msgs[i]) == Some(who);
        assert(all[i] == msgs[i]);
    }
    assert forall|who: Seq<char>| after.contains(who) && !before.contains(who) implies ballot.voter(
        m,
    ) == Some(who) by {
        let i = choose|i: int| 0 <= i < all.len() && ballot.voter(#[trigger] all[i]) == Some(who);
        if i < msgs.len() {
            assert(all[i] == msgs[i]);
        }
    }
    assert(all[msgs.len() as int] == m);
    match ballot.voter(m) {
        Some(who) => {
            assert(after =~= before.insert(who));
        },
        None => {
            assert(after =~= before);
        },
    }
}

/// The received messages of one category, in the order in which they came.
/// No message is held twice.
#[derive(Debug)]
pub struct MessageSet {
    msgs: Vec<Message>,
}

impl View for MessageSet {
    type V = Seq<MessageView>;

    closed spec fn view(&self) -> Seq<MessageView> {
        self.msgs@.map_values(|m: Message| m@)
    }
}

impl MessageSet {
    #[verifier::type_invariant]
    spec fn distinct(self) -> bool {
        self.msgs@.map_values(|m: Message| m@).no_duplicates()
    }

    /// A set of no messages.
    pub fn new() -> (r: Self)
        ensures
            r@ == Seq::<MessageView>::empty(),
    {
        let r = MessageSet { msgs: Vec::new() };
        assert(r@ =~= Seq::<MessageView>::empty());
        r
    }

    /// The number of messages held.
    pub fn len(&self) -> (r: usize)
        ensures
            r == self@.len(),
            self@.no_duplicates(),
    {
        proof {
            use_type_invariant(self);
        }
        self.msgs.len()
    }

    /// Whether `m` is held.
    pub fn contains(&self, m: &Message) -> (r: bool)
        ensures
            r == self@.contains(m@),
    {
        let mut i: usize = 0;
        while i < self.msgs.len()
            invariant
                i <= self.msgs@.len(),
                self@.len() == self.msgs@.len(),
                forall|j: int| 0 <= j < i ==> self@[j] != m@,
            decreases self.msgs@.len() - i,
        {
            if self.msgs[i].same(m) {
                assert(self@[i as int] == m@);
                return true;
            }
            i = i + 1;
        }
        false
    }

    /// Adds `m`; returns whether it was new.
    pub fn insert(&mut self, m: Message) -> (r: bool)
        ensures
            r == !old(self)@.contains(m@),
            final(self)@ == with_message(old(self)@, m@),
    {
        proof {
            use_type_invariant(&*self);
        }
        if self.contains(&m) {
            return false;
        }
        let ghost before = self@;
        let ghost value = m@;
        let mut msgs: Vec<Message> = Vec::new();
        std::mem::swap(&mut msgs, &mut self.msgs);
        msgs.push(m);
        assert(msgs@.map_values(|x: Message| x@) =~= before.push(value));
        self.msgs = msgs;
        assert(self@ =~= before.push(value));
        true
    }

    /// The number of distinct senders whose messages are votes of `ballot`.
    pub fn count(&self, ballot: &Ballot) -> (r: usize)
        ensures
            r == supporters(self@, ballot@).len(),
    {
        let mut total: usize = 0;
        let mut i: usize = 0;
        assert(self@.take(0) =~= Seq::empty());
        proof {
            lemma_supporters_finite(self@.take(0), ballot@);
        }
        while i < self.msgs.len()
            invariant
                i <= self.msgs@.len(),
                self@.len() == self.msgs@.len(),
                total <= i,
                total == supporters(self@.take(i as int), ballot@).len(),
            decreases self.msgs@.len() - i,
        {
            let ghost seen = self@.take(i as int);
            proof {
                lemma_supporters_finite(seen, ballot@);
                lemma_supporters_push(seen, self@[i as int], ballot@);
                assert(self@.take(i + 1) =~= seen.push(self@[i as int]));
            }
            if let Some(who) = ballot.voter_of(&self.msgs[i]) {
                let known = self.voted_before(ballot, who, i);
                if !known {
                    total = total + 1;
                } else {
                    assert(supporters(seen, ballot@).insert(who@) =~= supporters(seen, ballot@));
                }
            }
            i = i + 1;
        }
        assert(self@.take(i as int) =~= self@);
        total
    }

    /// Whether `who` has a vote among the first `end` messages.
    fn voted_before(&self, ballot: &Ballot, who: &NodeId, end: usize) -> (r: bool)
        requires
            end <= self@.len(),
        ensures
            r == supporters(self@.take(end as int), ballot@).contains(who@),
    {
        let ghost seen = self@.take(end as int);
        let mut j: usize = 0;
        while j < end
            invariant
                j <= end <= self.msgs@.len(),
                self@.len() == self.msgs@.len(),
                seen == self@.take(end as int),
                forall|k: int| 0 <= k < j ==> ballot@.voter(#[trigger] seen[k]) != Some(who@),
            decreases end - j,
        {
            if let Some(other) = ballot.voter_of(&self.msgs[j]) {
                if *other == *who {
                    assert(ballot@.voter(seen[j as int]) == Some(who@));
                    return true;
                }
            }
            assert(seen[j as int] == self@[j as int]);
            j = j + 1;
        }
        false
    }

    /// The history of the leader's earliest proposal for the given view and round.
    pub fn find_proposal(&self, view: u64, round: u64, leader: Option<&NodeId>) -> (r: Option<u64>)
        ensures
            r == first_proposal(self@, view, round, name_of(leader)),
    {
        let who = match leader {
            Some(who) => who,
            None => {
                proof {
                    lemma_no_leader(self@, view, round);
                }
                return None;
            },
        };
        let mut i: usize = 0;
        assert(self@.skip(0) =~= self@);
        while i < self.msgs.len()
            invariant
                i <= self.msgs@.len(),
                self@.len() == self.msgs@.len(),
                name_of(leader) == Some(who@),
                first_proposal(self@, view, round, Some(who@)) == first_proposal(
                    self@.skip(i as int),
                    view,
                    round,
                    Some(who@),
                ),
            decreases self.msgs@.len() - i,
        {
            assert(self@.skip(i as int)[0] == self@[i as int]);
            assert(self@.skip(i as int).drop_first() =~= self@.skip(i + 1));
            match &self.msgs[i] {
                Message::RepairHistory { from, view: v, round: r, history_hash } => {
                    if *from == *who && *v == view && *r == round {
                        return Some(*history_hash);
                    }
                },
                _ => {},
            }
            i = i + 1;
        }
        None
    }
}

} // verus!
