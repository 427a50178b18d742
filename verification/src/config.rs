//! Static protocol configuration and the quorum sizes derived from it.

use vstd::prelude::*;
use vstd::string::*;

use crate::message::NodeId;

verus! {

/// Static protocol configuration.
#[derive(Debug)]
pub struct Config {
    /// Total number of replicas.
    pub n: usize,
    /// Largest number of Byzantine faults tolerated.
    pub f: usize,
    /// Largest number of diverged replicas tolerated on the fast path.
    pub p: usize,
    /// `n - p`: matching replies that commit a request speculatively.
    pub fast_quorum: usize,
    /// `n - f`: agreeing replicas that a BFT decision takes.
    pub byz_quorum: usize,
    /// `f + 1`: enough replicas that one of them is correct.
    pub f_plus_1: usize,
    /// The replicas in leader order: the leader of view `v` is
    /// `nodes_ordered[v mod n]`.
    pub nodes_ordered: Vec<NodeId>,
}

/// The value of a [`Config`].
#[verifier::ext_equal]
pub struct ConfigView {
    pub n: nat,
    pub f: nat,
    pub p: nat,
    pub fast_quorum: nat,
    pub byz_quorum: nat,
    pub f_plus_1: nat,
    pub nodes_ordered: Seq<Seq<char>>,
}

impl View for Config {
    type V = ConfigView;

    open spec fn view(&self) -> ConfigView {
        ConfigView {
            n: self.n as nat,
            f: self.f as nat,
            p: self.p as nat,
            fast_quorum: self.fast_quorum as nat,
            byz_quorum: self.byz_quorum as nat,
            f_plus_1: self.f_plus_1 as nat,
            nodes_ordered: self.nodes_ordered@.map_values(|s: String| s@),
        }
    }
}

impl ConfigView {
    /// The configuration of `n` replicas named `r0`, `r1` and so on, with the
    /// quorum sizes that `f` and `p` give.
    pub open spec fn with_parameters(n: nat, f: nat, p: nat) -> ConfigView {
        ConfigView {
            n,
            f,
            p,
            fast_quorum: (n - p) as nat,
            byz_quorum: (n - f) as nat,
            f_plus_1: f + 1,
            nodes_ordered: Seq::new(n, |i: int| node_name(i as nat)),
        }
    }

    /// The leader of view `v`, where there are any replicas.
    pub open spec fn leader(self, v: u64) -> Option<Seq<char>> {
        if self.nodes_ordered.len() == 0 {
            None
        } else {
            Some(self.nodes_ordered[v as int % self.nodes_ordered.len() as int])
        }
    }
}

/// The character of a decimal digit.
pub open spec fn digit(d: nat) -> char {
    if d == 0 {
        '0'
    } else if d == 1 {
        '1'
    } else if d == 2 {
        '2'
    } else if d == 3 {
        '3'
    } else if d == 4 {
        '4'
    } else if d == 5 {
        '5'
    } else if d == 6 {
        '6'
    } else if d == 7 {
        '7'
    } else if d == 8 {
        '8'
    } else {
        '9'
    }
}

/// The decimal numeral of `n`.
pub open spec fn decimal(n: nat) -> Seq<char>
    decreases n,
{
    if n < 10 {
        seq![digit(n)]
    } else {
        decimal(n / 10).push(digit(n % 10))
    }
}

/// The name of replica `i`: the letter r and its number.
pub open spec fn node_name(i: nat) -> Seq<char> {
    seq!['r'] + decimal(i)
}

/// Appends the digit `d` to `s`.
fn append_digit(s: &mut String, d: usize)
    requires
        d < 10,
    ensures
        final(s)@ == old(s)@.push(digit(d as nat)),
{
    let t: &str = if d == 0 {
        "0"
    } else if d == 1 {
        "1"
    } else if d == 2 {
        "2"
    } else if d == 3 {
        "3"
    } else if d == 4 {
        "4"
    } else if d == 5 {
        "5"
    } else if d == 6 {
        "6"
    } else if d == 7 {
        "7"
    } else if d == 8 {
        "8"
    } else {
        "9"
    };
    proof {
        reveal_strlit("0");
        reveal_strlit("1");
        reveal_strlit("2");
        reveal_strlit("3");
        reveal_strlit("4");
        reveal_strlit("5");
        reveal_strlit("6");
        reveal_strlit("7");
        reveal_strlit("8");
        reveal_strlit("9");
    }
    assert(t@ =~= seq![digit(d as nat)]);
    s.append(t);
    assert(s@ =~= old(s)@.push(digit(d as nat)));
}

/// Appends the decimal numeral of `n` to `s`.
fn append_decimal(s: &mut String, n: usize)
    ensures
        final(s)@ == old(s)@ + decimal(n as nat),
    decreases n,
{
    if n >= 10 {
        append_decimal(s, n / 10);
    }
    append_digit(s, n % 10);
    assert(s@ =~= old(s)@ + decimal(n as nat));
}

impl Config {
    /// The configuration of `n` replicas of which `f` may be Byzantine and `p`
    /// may have diverged. The replicas are named `r0` to `r{n-1}`.
    pub fn for_test(n: usize, f: usize, p: usize) -> (r: Self)
        requires
            p <= n,
            f <= n,
            f < usize::MAX,
        ensures
            r@ == ConfigView::with_parameters(n as nat, f as nat, p as nat),
    {
        let mut nodes_ordered: Vec<NodeId> = Vec::new();
        let mut i: usize = 0;
        while i < n
            invariant
                i <= n,
                nodes_ordered@.len() == i,
                forall|j: int| 0 <= j < i ==> (#[trigger] nodes_ordered@[j])@ == node_name(j as nat),
            decreases n - i,
        {
            let mut name: String = String::new();
            name.append("r");
            proof {
                reveal_strlit("r");
            }
            assert(name@ =~= seq!['r']);
            append_decimal(&mut name, i);
            nodes_ordered.push(name);
            i = i + 1;
        }
        let r = Config {
            n,
            f,
            p,
            fast_quorum: n - p,
            byz_quorum: n - f,
            f_plus_1: f + 1,
            nodes_ordered,
        };
        assert(r@ =~= ConfigView::with_parameters(n as nat, f as nat, p as nat));
        r
    }

    /// The canonical configuration: six replicas, one Byzantine, one diverged.
    pub fn spec_default() -> (r: Self)
        ensures
            r@ == ConfigView::with_parameters(6, 1, 1),
    {
        Config::for_test(6, 1, 1)
    }
}

impl Clone for Config {
    /// A copy with the same value.
    fn clone(&self) -> (r: Self)
        ensures
            r@ == self@,
    {
        let mut nodes_ordered: Vec<NodeId> = Vec::new();
        let mut i: usize = 0;
        while i < self.nodes_ordered.len()
            invariant
                i <= self.nodes_ordered@.len(),
                nodes_ordered@ == self.nodes_ordered@.take(i as int),
            decreases self.nodes_ordered@.len() - i,
        {
            nodes_ordered.push(self.nodes_ordered[i].clone());
            i = i + 1;
        }
        Config {
            n: self.n,
            f: self.f,
            p: self.p,
            fast_quorum: self.fast_quorum,
            byz_quorum: self.byz_quorum,
            f_plus_1: self.f_plus_1,
            nodes_ordered,
        }
    }
}

impl Default for Config {
    /// The canonical configuration.
    fn default() -> (r: Self)
        ensures
            r@ == ConfigView::with_parameters(6, 1, 1),
    {
        Config::spec_default()
    }
}

} // verus!
