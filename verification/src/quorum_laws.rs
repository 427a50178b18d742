//! What the quorum sizes are good for, and who leads.

use vstd::prelude::*;
use vstd::set_lib::*;

use crate::config::{decimal, digit, ConfigView};
use crate::message::MessageView;
use crate::quorum::{
    first_proposal, lemma_supporters_push, supporters, with_message, BallotView,
};
use crate::replica::leads;
use crate::state::StateView;

verus! {

/// Who has voted: the sender of a received message of the ballot's kind that names
/// the ballot's round or view, and what it is about.
pub proof fn law_who_has_voted(msgs: Seq<MessageView>, who: Seq<char>, a: u64, b: u64, h: u64)
    ensures
        supporters(msgs, BallotView::Timeouts { round: a, log_idx: b }).contains(who)
            <==> msgs.contains(MessageView::TimeoutMsg { from: who, round: a, log_idx: b }),
        supporters(msgs, BallotView::Prepares { view: a, round: b, history_hash: h }).contains(who)
            <==> msgs.contains(
            MessageView::RepairPrepare { from: who, view: a, round: b, history_hash: h },
        ),
        supporters(msgs, BallotView::Commits { view: a, round: b, history_hash: h }).contains(who)
            <==> msgs.contains(
            MessageView::RepairCommit { from: who, view: a, round: b, history_hash: h },
        ),
        supporters(msgs, BallotView::Dones { view: a, round: b }).contains(who) <==> exists|x: u64|
            #[trigger]
            msgs.contains(
                MessageView::RepairDone { from: who, view: a, round: b, history_hash: x },
            ),
        supporters(msgs, BallotView::Logs { view: a, round: b }).contains(who) <==> exists|
            x: Seq<u8>,
        | #[trigger]
            msgs.contains(MessageView::LogMsg { from: who, view: a, round: b, log_hash: x }),
        supporters(msgs, BallotView::Syncs { round: a, log_idx: b }).contains(who) <==> exists|
            x: Seq<u8>,
            eta: u64,
        | #[trigger]
            msgs.contains(
                MessageView::Sync { from: who, round: a, log_idx: b, log_hash: x, eta_star: eta },
            ),
{
    lemma_voted(msgs, who, BallotView::Timeouts { round: a, log_idx: b });
    lemma_voted(msgs, who, BallotView::Prepares { view: a, round: b, history_hash: h });
    lemma_voted(msgs, who, BallotView::Commits { view: a, round: b, history_hash: h });
    lemma_voted(msgs, who, BallotView::Dones { view: a, round: b });
    lemma_voted(msgs, who, BallotView::Logs { view: a, round: b });
    lemma_voted(msgs, who, BallotView::Syncs { round: a, log_idx: b });
    if supporters(msgs, BallotView::Dones { view: a, round: b }).contains(who) {
        let m = choose|m: MessageView| #[trigger]
            msgs.contains(m) && BallotView::Dones { view: a, round: b }.voter(m) == Some(who);
        if let MessageView::RepairDone { history_hash: x, .. } = m {
            assert(msgs.contains(MessageView::RepairDone { from: who, view: a, round: b, history_hash: x }));
        }
    }
    if supporters(msgs, BallotView::Logs { view: a, round: b }).contains(who) {
        let m = choose|m: MessageView| #[trigger]
            msgs.contains(m) && BallotView::Logs { view: a, round: b }.voter(m) == Some(who);
        if let MessageView::LogMsg { log_hash: x, .. } = m {
            assert(msgs.contains(MessageView::LogMsg { from: who, view: a, round: b, log_hash: x }));
        }
    }
    if supporters(msgs, BallotView::Syncs { round: a, log_idx: b }).contains(who) {
        let m = choose|m: MessageView| #[trigger]
            msgs.contains(m) && BallotView::Syncs { round: a, log_idx: b }.voter(m) == Some(who);
        if let MessageView::Sync { log_hash: x, eta_star: eta, .. } = m {
            assert(msgs.contains(MessageView::Sync { from: who, round: a, log_idx: b, log_hash: x, eta_star: eta }));
        }
    }
}

/// Who has voted on a hash: the sender of a received SYNC for the index that
/// carries the hash, and of a received CHECKPOINT for the index that carries
/// another one than is held.
pub proof fn law_who_has_voted_on_a_hash(
    msgs: Seq<MessageView>,
    who: Seq<char>,
    round: u64,
    log_idx: u64,
    log_hash: Seq<u8>,
    held: Option<Seq<u8>>,
)
    ensures
        supporters(msgs, BallotView::MatchingSyncs { round, log_idx, log_hash }).contains(who)
            <==> exists|eta_star: u64| #[trigger]
            msgs.contains(MessageView::Sync { from: who, round, log_idx, log_hash, eta_star }),
        supporters(msgs, BallotView::ConflictingCheckpoints { round, log_idx, held }).contains(who)
            <==> exists|x: Seq<u8>| #[trigger]
            msgs.contains(MessageView::Checkpoint { from: who, round, log_idx, log_hash: x })
                && held != Some(x),
{
    lemma_voted(msgs, who, BallotView::MatchingSyncs { round, log_idx, log_hash });
    lemma_voted(msgs, who, BallotView::ConflictingCheckpoints { round, log_idx, held });
    if supporters(msgs, BallotView::MatchingSyncs { round, log_idx, log_hash }).contains(who) {
        let m = choose|m: MessageView| #[trigger]
            msgs.contains(m) && BallotView::MatchingSyncs { round, log_idx, log_hash }.voter(m) == Some(who);
        if let MessageView::Sync { eta_star, .. } = m {
            assert(msgs.contains(MessageView::Sync { from: who, round, log_idx, log_hash, eta_star }));
        }
    }
    if supporters(msgs, BallotView::ConflictingCheckpoints { round, log_idx, held }).contains(who) {
        let m = choose|m: MessageView| #[trigger]
            msgs.contains(m) && BallotView::ConflictingCheckpoints { round, log_idx, held }.voter(m) == Some(who);
        if let MessageView::Checkpoint { log_hash: x, .. } = m {
            assert(msgs.contains(MessageView::Checkpoint { from: who, round, log_idx, log_hash: x }));
        }
    }
}

/// A supporter has sent a vote.
proof fn lemma_voted(msgs: Seq<MessageView>, who: Seq<char>, ballot: BallotView)
    ensures
        supporters(msgs, ballot).contains(who) <==> exists|m: MessageView| #[trigger]
            msgs.contains(m) && ballot.voter(m) == Some(who),
{
    if supporters(msgs, ballot).contains(who) {
        let i = choose|i: int|
            0 <= i < msgs.len() && ballot.voter(#[trigger] msgs[i]) == Some(who);
        assert(msgs.contains(msgs[i]));
    }
    if exists|m: MessageView| #[trigger] msgs.contains(m) && ballot.voter(m) == Some(who) {
        let m = choose|m: MessageView| #[trigger]
            msgs.contains(m) && ballot.voter(m) == Some(who);
        let i = choose|i: int| 0 <= i < msgs.len() && msgs[i] == m;
        assert(ballot.voter(msgs[i]) == Some(who));
    }
}

/// A received message is kept, once, after those that came before it.
pub proof fn law_message_is_kept(msgs: Seq<MessageView>, m: MessageView)
    ensures
        with_message(msgs, m).contains(m),
        msgs.is_prefix_of(with_message(msgs, m)),
        msgs.contains(m) ==> with_message(msgs, m) == msgs,
        !msgs.contains(m) ==> with_message(msgs, m).len() == msgs.len() + 1,
        msgs.no_duplicates() ==> with_message(msgs, m).no_duplicates(),
{
    if !msgs.contains(m) {
        assert(msgs.push(m)[msgs.len() as int] == m);
    }
    assert(msgs =~= with_message(msgs, m).take(msgs.len() as int));
}

/// The proposal that counts is the first that the leader has sent for the view and
/// round, whatever others have sent before.
pub proof fn law_first_proposal_counts(
    msgs: Seq<MessageView>,
    view: u64,
    round: u64,
    leader: Seq<char>,
    i: int,
    history_hash: u64,
)
    requires
        0 <= i < msgs.len(),
        msgs[i] == (MessageView::RepairHistory { from: leader, view, round, history_hash }),
        forall|j: int|
            0 <= j < i ==> !(#[trigger] msgs[j] matches MessageView::RepairHistory {
                from,
                view: v,
                round: r,
                ..
            } && from == leader && v == view && r == round),
    ensures
        first_proposal(msgs, view, round, Some(leader)) == Some(history_hash),
    decreases i,
{
    if i > 0 {
        let rest = msgs.drop_first();
        assert(forall|j: int| 0 <= j < rest.len() ==> #[trigger] rest[j] == msgs[j + 1]);
        law_first_proposal_counts(rest, view, round, leader, i - 1, history_hash);
    }
}

/// The leader of a view is at the position that the view has modulo the number of
/// replicas.
pub proof fn law_leader_of_a_view(c: ConfigView, v: u64)
    requires
        c.nodes_ordered.len() > 0,
    ensures
        c.leader(v) == Some(c.nodes_ordered[v as int % c.nodes_ordered.len() as int]),
{
}

/// What the quorum sizes are made of.
pub proof fn law_quorum_sizes(n: nat, f: nat, p: nat)
    requires
        f <= n,
        p <= n,
    ensures
        ({
            let c = ConfigView::with_parameters(n, f, p);
            &&& c.n == n && c.f == f && c.p == p && c.nodes_ordered.len() == n
            &&& c.fast_quorum + p == n
            &&& c.byz_quorum + f == n
            &&& c.f_plus_1 == f + 1
        }),
{
}

/// Receiving a message again changes nothing.
pub proof fn law_repeat_changes_nothing(msgs: Seq<MessageView>, m: MessageView)
    ensures
        with_message(with_message(msgs, m), m) == with_message(msgs, m),
{
    if !msgs.contains(m) {
        assert(msgs.push(m)[msgs.len() as int] == m);
    }
}

/// A vote is never lost: receiving a message adds its sender to those who have
/// voted, and nobody else, and removes nobody.
pub proof fn law_votes_grow(msgs: Seq<MessageView>, m: MessageView, ballot: BallotView)
    ensures
        supporters(with_message(msgs, m), ballot) == (match ballot.voter(m) {
            Some(who) => supporters(msgs, ballot).insert(who),
            None => supporters(msgs, ballot),
        }),
{
    lemma_supporters_push(msgs, m, ballot);
    if msgs.contains(m) {
        let i = choose|i: int| 0 <= i < msgs.len() && msgs[i] == m;
        if let Some(who) = ballot.voter(m) {
            assert(ballot.voter(msgs[i]) == Some(who));
            assert(supporters(msgs, ballot).contains(who));
            assert(supporters(msgs, ballot).insert(who) =~= supporters(msgs, ballot));
        }
    }
}

/// A sender counts once: further votes of one who has voted do not change the
/// count.
pub proof fn law_sender_counts_once(msgs: Seq<MessageView>, m: MessageView, ballot: BallotView)
    requires
        ballot.voter(m) matches Some(who) && supporters(msgs, ballot).contains(who),
    ensures
        supporters(with_message(msgs, m), ballot) == supporters(msgs, ballot),
{
    law_votes_grow(msgs, m, ballot);
    let who = ballot.voter(m)->0;
    assert(supporters(msgs, ballot).insert(who) =~= supporters(msgs, ballot));
}

/// Among `f + 1` replicas one is correct, where at most `f` are faulty.
pub proof fn law_one_is_correct(voters: Set<Seq<char>>, faulty: Set<Seq<char>>, f: nat)
    requires
        faulty.finite(),
        faulty.len() <= f,
        voters.finite(),
        voters.len() >= f + 1,
    ensures
        exists|who: Seq<char>| voters.contains(who) && !faulty.contains(who),
{
    if forall|who: Seq<char>| voters.contains(who) ==> faulty.contains(who) {
        lemma_len_subset(voters, faulty);
    }
}

/// Two quorums share a correct replica, where together they are larger than all
/// replicas and the faulty ones, of whom there are at most `f`.
pub proof fn law_quorums_intersect(
    nodes: Set<Seq<char>>,
    a: Set<Seq<char>>,
    b: Set<Seq<char>>,
    faulty: Set<Seq<char>>,
    f: nat,
)
    requires
        nodes.finite(),
        a.subset_of(nodes),
        b.subset_of(nodes),
        a.len() + b.len() > nodes.len() + f,
        faulty.finite(),
        faulty.len() <= f,
    ensures
        exists|who: Seq<char>| a.contains(who) && b.contains(who) && !faulty.contains(who),
{
    let both = a.intersect(b);
    lemma_len_subset(a, nodes);
    lemma_len_subset(b, nodes);
    lemma_set_union_plus_intersection(a, b);
    lemma_len_subset(a.union(b), nodes);
    law_one_is_correct(both, faulty, f);
    let who = choose|who: Seq<char>| both.contains(who) && !faulty.contains(who);
    assert(a.contains(who) && b.contains(who));
}

/// The size of a union and the size of the intersection add up.
proof fn lemma_set_union_plus_intersection(a: Set<Seq<char>>, b: Set<Seq<char>>)
    requires
        a.finite(),
        b.finite(),
    ensures
        a.union(b).finite(),
        a.intersect(b).finite(),
        a.union(b).len() + a.intersect(b).len() == a.len() + b.len(),
    decreases a.len(),
{
    if a.len() == 0 {
        assert(a =~= Set::empty());
        assert(a.union(b) =~= b);
        assert(a.intersect(b) =~= Set::empty());
    } else {
        let x = a.choose();
        let rest = a.remove(x);
        lemma_set_union_plus_intersection(rest, b);
        if b.contains(x) {
            assert(a.union(b) =~= rest.union(b));
            assert(a.intersect(b) =~= rest.intersect(b).insert(x));
        } else {
            assert(a.union(b) =~= rest.union(b).insert(x));
            assert(a.intersect(b) =~= rest.intersect(b));
        }
    }
}

/// No two histories are committed in one view and round: a quorum of commit
/// votes for each of two histories shares a correct replica that has voted for
/// both, so they are one where correct replicas vote for one at most, and `n` is
/// more than `3f`.
pub proof fn law_one_history_commits(
    nodes: Set<Seq<char>>,
    faulty: Set<Seq<char>>,
    f: nat,
    first: Seq<MessageView>,
    second: Seq<MessageView>,
    view: u64,
    round: u64,
    h1: u64,
    h2: u64,
)
    requires
        nodes.finite(),
        nodes.len() > 3 * f,
        faulty.finite(),
        faulty.len() <= f,
        supporters(first, BallotView::Commits { view, round, history_hash: h1 }).subset_of(nodes),
        supporters(second, BallotView::Commits { view, round, history_hash: h2 }).subset_of(nodes),
        supporters(first, BallotView::Commits { view, round, history_hash: h1 }).len()
            >= nodes.len() - f,
        supporters(second, BallotView::Commits { view, round, history_hash: h2 }).len()
            >= nodes.len() - f,
        forall|who: Seq<char>|
            !faulty.contains(who) && #[trigger] supporters(
                first,
                BallotView::Commits { view, round, history_hash: h1 },
            ).contains(who) && supporters(
                second,
                BallotView::Commits { view, round, history_hash: h2 },
            ).contains(who) ==> h1 == h2,
    ensures
        h1 == h2,
{
    let a = supporters(first, BallotView::Commits { view, round, history_hash: h1 });
    let b = supporters(second, BallotView::Commits { view, round, history_hash: h2 });
    law_quorums_intersect(nodes, a, b, faulty, f);
    let who = choose|who: Seq<char>| a.contains(who) && b.contains(who) && !faulty.contains(who);
    assert(a.contains(who));
}

/// No two checkpoints are formed at one index in one round: a fast quorum of
/// SYNCs for each of two hashes shares a correct replica that has sent both, so
/// they are one where correct replicas send one hash for an index, and `n` is
/// more than `2p + f`.
pub proof fn law_one_checkpoint_forms(
    nodes: Set<Seq<char>>,
    faulty: Set<Seq<char>>,
    f: nat,
    p: nat,
    first: Seq<MessageView>,
    second: Seq<MessageView>,
    round: u64,
    log_idx: u64,
    h1: Seq<u8>,
    h2: Seq<u8>,
)
    requires
        nodes.finite(),
        nodes.len() > 2 * p + f,
        faulty.finite(),
        faulty.len() <= f,
        supporters(first, BallotView::MatchingSyncs { round, log_idx, log_hash: h1 }).subset_of(
            nodes,
        ),
        supporters(second, BallotView::MatchingSyncs { round, log_idx, log_hash: h2 }).subset_of(
            nodes,
        ),
        supporters(first, BallotView::MatchingSyncs { round, log_idx, log_hash: h1 }).len()
            >= nodes.len() - p,
        supporters(second, BallotView::MatchingSyncs { round, log_idx, log_hash: h2 }).len()
            >= nodes.len() - p,
        forall|who: Seq<char>|
            !faulty.contains(who) && #[trigger] supporters(
                first,
                BallotView::MatchingSyncs { round, log_idx, log_hash: h1 },
            ).contains(who) && supporters(
                second,
                BallotView::MatchingSyncs { round, log_idx, log_hash: h2 },
            ).contains(who) ==> h1 == h2,
    ensures
        h1 == h2,
{
    let a = supporters(first, BallotView::MatchingSyncs { round, log_idx, log_hash: h1 });
    let b = supporters(second, BallotView::MatchingSyncs { round, log_idx, log_hash: h2 });
    law_quorums_intersect(nodes, a, b, faulty, f);
    let who = choose|who: Seq<char>| a.contains(who) && b.contains(who) && !faulty.contains(who);
    assert(a.contains(who));
}

/// A checkpoint is out of reach once more than `p` of the `n` replicas have sent
/// a SYNC for the index that does not match, provided that none of them sends a
/// matching one later: a fast quorum of matching SYNCs does not come together.
pub proof fn law_checkpoint_out_of_reach(
    nodes: Set<Seq<char>>,
    p: nat,
    now: Seq<MessageView>,
    later: Seq<MessageView>,
    round: u64,
    log_idx: u64,
    log_hash: Seq<u8>,
)
    requires
        nodes.finite(),
        supporters(now, BallotView::Syncs { round, log_idx }).subset_of(nodes),
        supporters(later, BallotView::MatchingSyncs { round, log_idx, log_hash }).subset_of(nodes),
        supporters(now, BallotView::Syncs { round, log_idx }).difference(
            supporters(now, BallotView::MatchingSyncs { round, log_idx, log_hash }),
        ).len() > p,
        supporters(now, BallotView::Syncs { round, log_idx }).difference(
            supporters(now, BallotView::MatchingSyncs { round, log_idx, log_hash }),
        ).disjoint(supporters(later, BallotView::MatchingSyncs { round, log_idx, log_hash })),
    ensures
        supporters(later, BallotView::MatchingSyncs { round, log_idx, log_hash }).len()
            < nodes.len() - p,
{
    let dissent = supporters(now, BallotView::Syncs { round, log_idx }).difference(
        supporters(now, BallotView::MatchingSyncs { round, log_idx, log_hash }),
    );
    let matching = supporters(later, BallotView::MatchingSyncs { round, log_idx, log_hash });
    lemma_len_subset(dissent, nodes);
    lemma_len_subset(matching, nodes);
    lemma_set_disjoint_lens(dissent, matching);
    lemma_len_subset(dissent + matching, nodes);
}

/// A view has one leader: two replicas that lead the same view are the same.
pub proof fn law_one_leader(c: ConfigView, a: StateView, b: StateView)
    requires
        a.view == b.view,
        leads(c, a),
        leads(c, b),
    ensures
        a.node_id == b.node_id,
{
}

/// The replicas lead in turn: a replica leads the views that are its position
/// in the order, modulo the number of replicas, so each leads once in as many
/// views as there are replicas.
pub proof fn law_leaders_take_turns(c: ConfigView, i: int, v: u64)
    requires
        0 <= i < c.nodes_ordered.len(),
        c.nodes_ordered.no_duplicates(),
    ensures
        c.leader(v) == Some(c.nodes_ordered[i]) <==> v as int % c.nodes_ordered.len() as int == i,
{
    let n = c.nodes_ordered.len() as int;
    let j = v as int % n;
    assert(0 <= j < n) by (nonlinear_arith)
        requires
            j == v as int % n,
            n > 0,
    ;
}

/// In any run of as many views as there are replicas, every replica leads.
pub proof fn law_everyone_leads(c: ConfigView, start: u64, i: int) -> (v: u64)
    requires
        0 <= i < c.nodes_ordered.len(),
        start + c.nodes_ordered.len() <= u64::MAX + 1,
    ensures
        start <= v < start + c.nodes_ordered.len(),
        c.leader(v) == Some(c.nodes_ordered[i]),
{
    let n = c.nodes_ordered.len() as int;
    let offset = (i - start as int) % n;
    let v = start + offset;
    assert(0 <= offset < n && v % n == i) by {
        vstd::arithmetic::div_mod::lemma_mod_bound(i - start as int, n);
        vstd::arithmetic::div_mod::lemma_add_mod_noop_right(start as int, i - start as int, n);
        vstd::arithmetic::div_mod::lemma_small_mod(i as nat, n as nat);
        assert(start as int + (i - start as int) == i);
    }
    v as u64
}

/// The replicas of a configuration made from its parameters have different
/// names.
pub proof fn law_names_differ(n: nat, f: nat, p: nat)
    ensures
        ConfigView::with_parameters(n, f, p).nodes_ordered.no_duplicates(),
{
    let names = ConfigView::with_parameters(n, f, p).nodes_ordered;
    assert forall|i: int, j: int| 0 <= i < j < names.len() implies names[i] != names[j] by {
        if names[i] == names[j] {
            let a = decimal(i as nat);
            let b = decimal(j as nat);
            assert(names[i].skip(1) =~= a);
            assert(names[j].skip(1) =~= b);
            lemma_decimal_injective(i as nat, j as nat);
        }
    }
}

proof fn lemma_digit_injective(a: nat, b: nat)
    requires
        a < 10,
        b < 10,
        digit(a) == digit(b),
    ensures
        a == b,
{
}

proof fn lemma_decimal_injective(a: nat, b: nat)
    requires
        decimal(a) == decimal(b),
    ensures
        a == b,
    decreases a,
{
    assert(decimal(a).last() == digit(a % 10));
    assert(decimal(b).last() == digit(b % 10));
    lemma_digit_injective(a % 10, b % 10);
    lemma_decimal_len(a);
    lemma_decimal_len(b);
    if a >= 10 && b >= 10 {
        assert(decimal(a).drop_last() =~= decimal(a / 10));
        assert(decimal(b).drop_last() =~= decimal(b / 10));
        lemma_decimal_injective(a / 10, b / 10);
    }
}

proof fn lemma_decimal_len(a: nat)
    ensures
        decimal(a).len() >= 1,
        decimal(a).len() == 1 <==> a < 10,
    decreases a,
{
    if a >= 10 {
        lemma_decimal_len(a / 10);
    }
}

} // verus!
