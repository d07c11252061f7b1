//! The account tree: accounts named by colon-delimited paths, each with the balance of
//! its own postings, and balances rolled up over an account and the accounts below it.

use vstd::prelude::*;

use crate::amount::{add_all, add_to, AAmount, CounterInventory, Decimal};
use crate::keyed::{index_of_key, lemma_index_of_key, lemma_index_of_key_bounds};
use crate::text::str_eq;

verus! {

/// An account of the tree: its name and its balance.
#[derive(Debug)]
pub struct TreeNode(pub String, pub CounterInventory);

impl TreeNode {
    /// A node of the account `account_name` with an empty balance.
    pub fn new(account_name: String) -> (r: TreeNode)
        ensures
            r.0@ == account_name@,
            r.1@.len() == 0,
            r.1.wf(),
    {
        TreeNode(account_name, CounterInventory::new())
    }

    /// The full name of the account.
    pub fn get_name(&self) -> (r: String)
        ensures
            r@ == self.0@,
    {
        self.0.clone()
    }

    /// The balance of the account: a number per currency.
    pub fn get_balance(&self) -> (r: &CounterInventory)
        ensures
            r@ == self.1@,
    {
        &self.1
    }
}

/// Whether `name` is `account` or the name of an account below it; every account lies
/// below the root, whose name is empty.
pub open spec fn is_within(name: Seq<char>, account: Seq<char>) -> bool {
    account.len() == 0 || name == account || (name.len() > account.len() && name.take(account.len() as int) == account
        && name[account.len() as int] == ':')
}

/// Whether the account `name` is `account` or lies below it.
pub fn within(name: &str, account: &str) -> (r: bool)
    ensures
        r == is_within(name@, account@),
{
    let n = name.unicode_len();
    let a = account.unicode_len();
    if a == 0 {
        return true;
    }
    if n < a {
        return false;
    }
    let mut i: usize = 0;
    while i < a
        invariant
            n == name@.len(),
            a == account@.len(),
            a <= n,
            i <= a,
            forall|j: int| 0 <= j < i ==> name@[j] == account@[j],
        decreases a - i,
    {
        if name.get_char(i) != account.get_char(i) {
            assert(name@.take(a as int)[i as int] != account@[i as int]);
            return false;
        }
        i = i + 1;
    }
    assert(name@.take(a as int) =~= account@);
    if n == a {
        assert(name@ =~= account@);
        true
    } else {
        name.get_char(a) == ':'
    }
}

/// The balance of `account` rolled up: the balances of the nodes at or below it, added
/// in node order; `None` where a sum does not fit.
pub open spec fn rolled_up(nodes: Seq<(Seq<char>, Seq<(Seq<char>, Decimal)>)>, account: Seq<char>) -> Option<
    Seq<(Seq<char>, Decimal)>,
>
    decreases nodes.len(),
{
    if nodes.len() == 0 {
        Some(Seq::empty())
    } else {
        match rolled_up(nodes.drop_last(), account) {
            Some(acc) => if is_within(nodes.last().0, account) {
                add_all(acc, nodes.last().1)
            } else {
                Some(acc)
            },
            None => None,
        }
    }
}

proof fn lemma_rolled_up_none_extends(
    nodes: Seq<(Seq<char>, Seq<(Seq<char>, Decimal)>)>,
    account: Seq<char>,
    k: int,
)
    requires
        0 <= k <= nodes.len(),
        rolled_up(nodes.take(k), account) is None,
    ensures
        rolled_up(nodes, account) is None,
    decreases nodes.len() - k,
{
    if k < nodes.len() {
        assert(nodes.take(k + 1).drop_last() =~= nodes.take(k));
        lemma_rolled_up_none_extends(nodes, account, k + 1);
    } else {
        assert(nodes.take(k) =~= nodes);
    }
}

/// `nodes` with a node for `name`: unchanged where it has one, else with an empty one
/// at the end.
pub open spec fn with_node(nodes: Seq<(Seq<char>, Seq<(Seq<char>, Decimal)>)>, name: Seq<char>) -> Seq<
    (Seq<char>, Seq<(Seq<char>, Decimal)>),
> {
    if index_of_key(nodes, name) >= 0 {
        nodes
    } else {
        nodes.push((name, Seq::empty()))
    }
}

/// `nodes` with a node for each account above `account` whose name ends before
/// position `k`, taken from the shortest.
pub open spec fn with_parents(
    nodes: Seq<(Seq<char>, Seq<(Seq<char>, Decimal)>)>,
    account: Seq<char>,
    k: nat,
) -> Seq<(Seq<char>, Seq<(Seq<char>, Decimal)>)>
    decreases k,
{
    if k == 0 {
        nodes
    } else {
        let prev = with_parents(nodes, account, (k - 1) as nat);
        if account[k - 1] == ':' {
            with_node(prev, account.take(k - 1))
        } else {
            prev
        }
    }
}

/// The account tree: a node per account that has postings, in the order of their first
/// posting.
#[derive(Debug)]
pub struct Tree {
    nodes: Vec<TreeNode>,
}

impl View for Tree {
    type V = Seq<(Seq<char>, Seq<(Seq<char>, Decimal)>)>;

    closed spec fn view(&self) -> Seq<(Seq<char>, Seq<(Seq<char>, Decimal)>)> {
        self.nodes@.map_values(|n: TreeNode| (n.0@, n.1@))
    }
}

impl Tree {
    /// Each account has one node, and each balance one entry per currency.
    pub closed spec fn wf(&self) -> bool {
        &&& forall|i: int, j: int|
            0 <= i < j < self.nodes@.len() ==> self.nodes@[i].0@ != self.nodes@[j].0@
        &&& forall|i: int| 0 <= i < self.nodes@.len() ==> (#[trigger] self.nodes@[i]).1.wf()
    }

    /// A tree without accounts.
    pub fn new() -> (r: Tree)
        ensures
            r.wf(),
            r@.len() == 0,
    {
        let r = Tree { nodes: Vec::new() };
        assert(r@ =~= Seq::<(Seq<char>, Seq<(Seq<char>, Decimal)>)>::empty());
        r
    }

    fn find(&self, account: &str) -> (r: Option<usize>)
        ensures
            index_of_key(self@, account@) == (match r {
                Some(i) => i as int,
                None => -1,
            }),
            r matches Some(i) ==> i < self@.len(),
    {
        let mut i: usize = 0;
        while i < self.nodes.len()
            invariant
                i <= self@.len(),
                self@.len() == self.nodes@.len(),
                forall|j: int| 0 <= j < i ==> self@[j].0 != account@,
            decreases self.nodes.len() - i,
        {
            if str_eq(self.nodes[i].0.as_str(), account) {
                proof {
                    lemma_index_of_key(self@, account@, i as int);
                }
                return Some(i);
            }
            i = i + 1;
        }
        proof {
            lemma_index_of_key(self@, account@, i as int);
        }
        None
    }

    /// Makes sure that `name` has a node: a missing one comes at the end, with an empty
    /// balance.
    fn ensure_node(&mut self, name: &str) -> (r: usize)
        requires
            old(self).wf(),
        ensures
            final(self).wf(),
            final(self)@ == with_node(old(self)@, name@),
            r < final(self)@.len(),
            r as int == index_of_key(final(self)@, name@),
    {
        let ghost nodes = old(self)@;
        proof {
            lemma_index_of_key_bounds(nodes, name@);
        }
        match self.find(name) {
            Some(i) => i,
            None => {
                let at = self.nodes.len();
                let node = TreeNode::new(name.to_owned());
                assert(node.1@ =~= Seq::<(Seq<char>, Decimal)>::empty());
                self.nodes.push(node);
                assert(self@ =~= nodes.push((name@, Seq::<(Seq<char>, Decimal)>::empty())));
                assert forall|a: int, b: int| 0 <= a < b < self.nodes@.len() implies self.nodes@[a].0@
                    != self.nodes@[b].0@ by {
                    assert(self@[a].0 == self.nodes@[a].0@ && self@[b].0 == self.nodes@[b].0@);
                    if b < nodes.len() {
                        assert(nodes[a].0 != nodes[b].0);
                    }
                }
                proof {
                    lemma_index_of_key(self@, name@, nodes.len() as int);
                }
                at
            },
        }
    }

    /// Adds a posting of `amount` to `account`. The account and each account above it
    /// get a node first where they have none, parents before children, each at the end.
    /// Where the sum does not fit, returns false and leaves the balances as they were.
    pub fn add_position(&mut self, account: &str, amount: &AAmount) -> (r: bool)
        requires
            old(self).wf(),
        ensures
            final(self).wf(),
            ({
                let nodes = with_node(with_parents(old(self)@, account@, account@.len()), account@);
                let i = index_of_key(nodes, account@);
                match add_to(nodes[i].1, amount.1@, amount.0) {
                    Some(v) => r && final(self)@ == nodes.update(i, (account@, v)),
                    None => !r && final(self)@ == nodes,
                }
            }),
    {
        let n = account.unicode_len();
        let mut k: usize = 0;
        while k < n
            invariant
                n == account@.len(),
                k <= n,
                self.wf(),
                self@ == with_parents(old(self)@, account@, k as nat),
            decreases n - k,
        {
            if account.get_char(k) == ':' {
                self.ensure_node(account.substring_char(0, k));
            }
            k = k + 1;
        }
        let i = self.ensure_node(account);
        let ghost nodes = self@;
        proof {
            lemma_index_of_key_bounds(nodes, account@);
        }
        let ok = self.nodes[i].1.add(amount.1.as_str(), amount.0);
        assert(self@ =~= (if ok { nodes.update(i as int, (account@, self.nodes@[i as int].1@)) } else { nodes }));
        assert forall|a: int, b: int| 0 <= a < b < self.nodes@.len() implies self.nodes@[a].0@
            != self.nodes@[b].0@ by {
            assert(self@[a].0 == nodes[a].0 && self@[b].0 == nodes[b].0);
        }
        ok
    }

    /// The balance of `account` rolled up over it and the accounts below it; `None` where
    /// a sum does not fit.
    pub fn balance(&self, account: &str) -> (r: Option<CounterInventory>)
        requires
            self.wf(),
        ensures
            r is Some <==> rolled_up(self@, account@) is Some,
            r matches Some(inv) ==> inv.wf() && Some(inv@) == rolled_up(self@, account@),
    {
        let mut acc = CounterInventory::new();
        let mut i: usize = 0;
        assert(self@.take(0) =~= Seq::<(Seq<char>, Seq<(Seq<char>, Decimal)>)>::empty());
        while i < self.nodes.len()
            invariant
                self.wf(),
                i <= self@.len(),
                self@.len() == self.nodes@.len(),
                acc.wf(),
                rolled_up(self@.take(i as int), account@) == Some(acc@),
            decreases self.nodes.len() - i,
        {
            assert(self@.take(i + 1).drop_last() =~= self@.take(i as int));
            assert(self@[i as int] == (self.nodes@[i as int].0@, self.nodes@[i as int].1@));
            if within(self.nodes[i].0.as_str(), account) {
                if !acc.add_inventory(&self.nodes[i].1) {
                    proof {
                        lemma_rolled_up_none_extends(self@, account@, i + 1);
                    }
                    return None;
                }
            }
            i = i + 1;
        }
        assert(self@.take(i as int) =~= self@);
        Some(acc)
    }

    /// Each account's node with its balance rolled up, in node order, computed once for
    /// all queries of a load; `None` where a sum does not fit.
    pub fn roll_up(&self) -> (r: Option<Vec<TreeNode>>)
        requires
            self.wf(),
        ensures
            r is Some <==> forall|i: int| 0 <= i < self@.len() ==> (#[trigger] rolled_up(self@, self@[i].0)) is Some,
            r matches Some(v) ==> v@.len() == self@.len() && forall|i: int| 0 <= i < self@.len() ==> (
            #[trigger] v@[i]).0@ == self@[i].0 && v@[i].1.wf() && Some(v@[i].1@) == rolled_up(self@, self@[i].0),
    {
        let mut out: Vec<TreeNode> = Vec::new();
        let mut i: usize = 0;
        while i < self.nodes.len()
            invariant
                self.wf(),
                i <= self@.len(),
                self@.len() == self.nodes@.len(),
                out@.len() == i,
                forall|j: int| 0 <= j < i ==> (#[trigger] out@[j]).0@ == self@[j].0 && out@[j].1.wf() && Some(
                    out@[j].1@,
                ) == rolled_up(self@, self@[j].0),
            decreases self.nodes.len() - i,
        {
            let name = self.nodes[i].0.as_str();
            assert(name@ == self@[i as int].0);
            match self.balance(name) {
                Some(inv) => {
                    out.push(TreeNode(name.to_owned(), inv));
                },
                None => {
                    return None;
                },
            }
            i = i + 1;
        }
        assert forall|j: int| 0 <= j < self@.len() implies (#[trigger] rolled_up(self@, self@[j].0)) is Some by {
            assert(out@[j].0@ == self@[j].0);
        }
        Some(out)
    }
}

} // verus!
