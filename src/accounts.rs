//! Account status: last entry, up-to-date status and balance directives.

use vstd::prelude::*;

use crate::amount::Decimal;
use crate::date::{date_text, Date};
use crate::directive::Directive;
use crate::flags::Flags;
use crate::keyed::{entries_view, find_key, index_of_key, keys_unique, lemma_set_key_unique, set_key};
use crate::text::{pad_left, pad_right, push_padded_left, push_padded_right};
use crate::tree::TreeNode;

verus! {

/// Whether a directive counts as an entry of its account: any directive but an
/// unrealized transaction.
pub open spec fn is_relevant(d: Directive) -> bool {
    match d {
        Directive::Transactions(_, t) => t.0 != Flags::Unrealized,
        _ => true,
    }
}

/// The position of the last relevant directive of `s`, scanning from the end.
pub open spec fn last_relevant_index(s: Seq<Directive>) -> Option<int>
    decreases s.len(),
{
    if s.len() == 0 {
        None
    } else if is_relevant(s.last()) {
        Some(s.len() - 1)
    } else {
        last_relevant_index(s.drop_last())
    }
}

/// A found position lies in the sequence and holds a relevant directive.
pub proof fn lemma_last_relevant_index_bounds(s: Seq<Directive>)
    ensures
        last_relevant_index(s) matches Some(i) ==> 0 <= i < s.len() && is_relevant(s[i]),
    decreases s.len(),
{
    if s.len() > 0 && !is_relevant(s.last()) {
        lemma_last_relevant_index_bounds(s.drop_last());
    }
}

/// The position of the last entry of the postings.
fn last_entry_index(postings: &Vec<Directive>) -> (r: Option<usize>)
    ensures
        match r {
            Some(i) => last_relevant_index(postings@) == Some(i as int),
            None => last_relevant_index(postings@) is None,
        },
        r matches Some(i) ==> i < postings@.len(),
{
    proof {
        lemma_last_relevant_index_bounds(postings@);
    }
    let mut i: usize = postings.len();
    assert(postings@.take(i as int) =~= postings@);
    while i > 0
        invariant
            i <= postings@.len(),
            last_relevant_index(postings@) == last_relevant_index(postings@.take(i as int)),
        decreases i,
    {
        let relevant = match &postings[i - 1] {
            Directive::Transactions(_, t) => !t.is_unrealized(),
            _ => true,
        };
        assert(postings@.take(i as int).drop_last() =~= postings@.take(i - 1));
        if relevant {
            return Some(i - 1);
        }
        i = i - 1;
    }
    assert(postings@.take(0) =~= Seq::<Directive>::empty());
    None
}

/// The last entry of the postings: the last directive that is not an unrealized
/// transaction.
pub fn get_last_entry(postings: &Vec<Directive>) -> (r: Option<&Directive>)
    ensures
        match last_relevant_index(postings@) {
            Some(i) => r matches Some(d) && *d == postings@[i],
            None => r is None,
        },
{
    proof {
        lemma_last_relevant_index_bounds(postings@);
    }
    match last_entry_index(postings) {
        Some(i) => Some(&postings[i]),
        None => None,
    }
}

/// The status of an account's last balance check.
#[derive(Debug, Clone, Copy, PartialEq, Eq, Structural)]
pub enum Status {
    /// 'green':  A balance check that passed
    Pass,
    /// 'red':    A balance check that failed.
    Fail,
    /// 'yellow': Not a balance check.
    NotApplicable,
}

impl Status {
    /// The colour name of the status.
    pub fn as_str(&self) -> (r: &'static str)
        ensures
            r@ == (match *self {
                Status::Pass => "green"@,
                Status::Fail => "red"@,
                Status::NotApplicable => "yellow"@,
            }),
    {
        match self {
            Self::Pass => "green",
            Self::Fail => "red",
            Self::NotApplicable => "yellow",
        }
    }
}

/// The up-to-date status of postings, scanning from the end: the first balance check
/// decides (Fail when it found a difference, else Pass); a realized transaction before
/// any balance check gives NotApplicable; other directives are passed over.
pub open spec fn status_of(s: Seq<Directive>) -> Option<Status>
    decreases s.len(),
{
    if s.len() == 0 {
        None
    } else {
        match s.last() {
            Directive::Balance(_, _, diff) => Some(
                if diff is Some {
                    Status::Fail
                } else {
                    Status::Pass
                },
            ),
            Directive::Transactions(_, t) => if t.0 != Flags::Unrealized {
                Some(Status::NotApplicable)
            } else {
                status_of(s.drop_last())
            },
            _ => status_of(s.drop_last()),
        }
    }
}

/// Status of the last balance or transaction.
pub fn uptodate_status(postings: &Vec<Directive>) -> (r: Option<Status>)
    ensures
        r == status_of(postings@),
{
    let mut i: usize = postings.len();
    assert(postings@.take(i as int) =~= postings@);
    while i > 0
        invariant
            i <= postings@.len(),
            status_of(postings@) == status_of(postings@.take(i as int)),
        decreases i,
    {
        assert(postings@.take(i as int).drop_last() =~= postings@.take(i - 1));
        match &postings[i - 1] {
            Directive::Balance(_, _, balance) => {
                if balance.is_some() {
                    return Some(Status::Fail);
                }
                return Some(Status::Pass);
            },
            Directive::Transactions(_, transaction) => {
                if !transaction.is_unrealized() {
                    return Some(Status::NotApplicable);
                }
            },
            _ => {},
        }
        i = i - 1;
    }
    assert(postings@.take(0) =~= Seq::<Directive>::empty());
    None
}

/// Without postings there is neither a last entry nor a status.
pub proof fn lemma_empty_postings()
    ensures
        last_relevant_index(Seq::<Directive>::empty()) is None,
        status_of(Seq::<Directive>::empty()) is None,
{
}

/// Postings that hold only unrealized transactions have no status, and no last entry.
pub proof fn lemma_only_unrealized_no_status(s: Seq<Directive>)
    requires
        forall|i: int| 0 <= i < s.len() ==> (#[trigger] s[i] matches Directive::Transactions(_, t) && t.0
            == Flags::Unrealized),
    ensures
        status_of(s) is None,
        last_relevant_index(s) is None,
    decreases s.len(),
{
    if s.len() > 0 {
        assert(s.last() == s[s.len() - 1]);
        lemma_only_unrealized_no_status(s.drop_last());
    }
}

/// One balance directive: date, `balance`, the account padded to 28 columns, the number
/// right-aligned in 15 columns, the currency and a newline.
pub open spec fn balance_line(date: Date, account: Seq<char>, currency: Seq<char>, number: Decimal) -> Seq<char> {
    date_text(date) + " balance "@ + pad_right(account, 28) + " "@ + pad_left(number.text(), 15)
        + " "@ + currency + "\n"@
}

/// The balance directives of an account, one per entry of its balance, in order.
pub open spec fn balance_lines(date: Date, account: Seq<char>, balance: Seq<(Seq<char>, Decimal)>) -> Seq<char>
    decreases balance.len(),
{
    if balance.len() == 0 {
        Seq::empty()
    } else {
        balance_lines(date, account, balance.drop_last()) + balance_line(
            date,
            account,
            balance.last().0,
            balance.last().1,
        )
    }
}

fn push_balance_line(out: &mut String, date: &str, today: Date, account: &str, currency: &str, number: Decimal)
    requires
        date@ == date_text(today),
    ensures
        final(out)@ == old(out)@ + balance_line(today, account@, currency@, number),
{
    proof {
        reveal_strlit(" balance ");
        reveal_strlit(" ");
        reveal_strlit("\n");
    }
    out.append(date);
    out.append(" balance ");
    push_padded_right(out, account, 28);
    out.append(" ");
    let mut amount = String::new();
    number.push_text(&mut amount);
    push_padded_left(out, amount.as_str(), 15);
    out.append(" ");
    out.append(currency);
    out.append("\n");
    assert(final(out)@ =~= old(out)@ + balance_line(today, account@, currency@, number));
}

/// Balance directives for the given account on the given date, one per currency of its
/// balance.
pub fn balance_string(tree_node: &TreeNode, today: Date) -> (r: String)
    requires
        today.wf(),
    ensures
        r@ == balance_lines(today, tree_node.0@, tree_node.1@),
{
    let date = today.to_text();
    let account = tree_node.0.as_str();
    let balance = tree_node.get_balance();
    let mut res = String::new();
    let n = balance.len();
    let mut i: usize = 0;
    while i < n
        invariant
            n == tree_node.1@.len(),
            balance@ == tree_node.1@,
            account@ == tree_node.0@,
            date@ == date_text(today),
            i <= n,
            res@ == balance_lines(today, tree_node.0@, tree_node.1@.take(i as int)),
        decreases n - i,
    {
        let (currency, number) = balance.entry(i);
        let ghost before = res@;
        push_balance_line(&mut res, date.as_str(), today, account, currency, number);
        assert(tree_node.1@.take(i + 1).drop_last() =~= tree_node.1@.take(i as int));
        assert(res@ =~= before + balance_line(today, account@, currency@, number));
        i = i + 1;
    }
    assert(tree_node.1@.take(n as int) =~= tree_node.1@);
    res
}

/// Date and identifier of the last entry of an account.
#[derive(Debug, PartialEq)]
pub struct LastEntry(pub Date, pub String);

/// Holds information about an account.
#[derive(Debug, PartialEq)]
pub struct AccountData {
    /// The date on which this account is closed.
    pub close_date: Option<Date>,
    /// Uptodate status. Is only computed if the account asks for the indication.
    pub uptodate_status: Option<Status>,
    /// Balance directive if this account has an uptodate status.
    pub balance_string: Option<String>,
    /// The last entry of the account (unless it is a Close entry).
    pub last_entry: Option<LastEntry>,
}

impl AccountData {
    /// Information about an account that the ledger knows nothing of.
    pub fn empty() -> (r: AccountData)
        ensures
            r.close_date is None,
            r.uptodate_status is None,
            r.balance_string is None,
            r.last_entry is None,
    {
        AccountData { close_date: None, uptodate_status: None, balance_string: None, last_entry: None }
    }

    /// A copy of this information.
    pub fn duplicate(&self) -> (r: AccountData)
        ensures
            r == *self,
    {
        let balance_string = match &self.balance_string {
            Some(b) => Some(b.clone()),
            None => None,
        };
        let last_entry = match &self.last_entry {
            Some(e) => Some(LastEntry(e.0, e.1.clone())),
            None => None,
        };
        AccountData {
            close_date: self.close_date,
            uptodate_status: self.uptodate_status,
            balance_string,
            last_entry,
        }
    }
}

/// The balance directives of the accounts, in order.
pub open spec fn balance_directives(s: Seq<(Seq<char>, AccountData)>) -> Seq<char>
    decreases s.len(),
{
    if s.len() == 0 {
        Seq::empty()
    } else {
        balance_directives(s.drop_last()) + match s.last().1.balance_string {
            Some(b) => b@,
            None => Seq::empty(),
        }
    }
}

/// Account info dictionary: the information of each account, under its name.
#[derive(Debug)]
pub struct AccountDict {
    accounts: Vec<(String, AccountData)>,
}

impl View for AccountDict {
    type V = Seq<(Seq<char>, AccountData)>;

    closed spec fn view(&self) -> Seq<(Seq<char>, AccountData)> {
        entries_view(self.accounts@)
    }
}

impl AccountDict {
    /// Each account holds one entry.
    pub open spec fn wf(&self) -> bool {
        keys_unique(self@)
    }

    /// A dictionary without accounts.
    pub fn new() -> (r: AccountDict)
        ensures
            r.wf(),
            r@.len() == 0,
    {
        let r = AccountDict { accounts: Vec::new() };
        assert(r@ =~= Seq::<(Seq<char>, AccountData)>::empty());
        r
    }

    /// Forgets every account, before the dictionary is built again.
    pub fn clear(&mut self)
        ensures
            final(self).wf(),
            final(self)@.len() == 0,
    {
        self.accounts.clear();
        assert(self@ =~= Seq::<(Seq<char>, AccountData)>::empty());
    }

    /// The information of account `key`, or empty information for an unknown account.
    pub fn get_or_empty(&self, key: &str) -> (r: AccountData)
        ensures
            index_of_key(self@, key@) >= 0 ==> r == self@[index_of_key(self@, key@)].1,
            index_of_key(self@, key@) < 0 ==> r == (AccountData {
                close_date: None,
                uptodate_status: None,
                balance_string: None,
                last_entry: None,
            }),
    {
        match find_key(&self.accounts, key) {
            Some(i) => self.accounts[i].1.duplicate(),
            None => AccountData::empty(),
        }
    }

    /// Sets the information of account `key`: a known account keeps its place, a new one
    /// comes last.
    pub fn insert(&mut self, key: String, data: AccountData)
        requires
            old(self).wf(),
        ensures
            final(self).wf(),
            final(self)@ == set_key(old(self)@, key@, data),
    {
        let ghost k = key@;
        let ghost d = data;
        let found = find_key(&self.accounts, key.as_str());
        match found {
            Some(i) => {
                self.accounts.set(i, (key, data));
            },
            None => {
                self.accounts.push((key, data));
            },
        }
        proof {
            lemma_set_key_unique(old(self)@, k, d);
        }
        assert(self@ =~= set_key(old(self)@, k, d));
    }

    /// The balance directives of all accounts that have one, one after the other.
    pub fn all_balance_directives(&self) -> (r: String)
        ensures
            r@ == balance_directives(self@),
    {
        let mut result = String::new();
        let mut i: usize = 0;
        while i < self.accounts.len()
            invariant
                i <= self@.len(),
                self@.len() == self.accounts@.len(),
                result@ == balance_directives(self@.take(i as int)),
            decreases self.accounts.len() - i,
        {
            if let Some(balance_string) = &self.accounts[i].1.balance_string {
                result.append(balance_string.as_str());
            }
            assert(self@.take(i + 1).drop_last() =~= self@.take(i as int));
            assert(self@[i as int].1 == self.accounts@[i as int].1);
            assert(result@ =~= balance_directives(self@.take(i + 1)));
            i = i + 1;
        }
        assert(self@.take(i as int) =~= self@);
        result
    }
}

/// The date of the last Close directive of `account` in `entries`, if there is one.
pub open spec fn close_date_of(entries: Seq<Directive>, account: Seq<char>) -> Option<Date>
    decreases entries.len(),
{
    if entries.len() == 0 {
        None
    } else {
        match entries.last() {
            Directive::Close(date, a) => if a@ == account {
                Some(date)
            } else {
                close_date_of(entries.drop_last(), account)
            },
            _ => close_date_of(entries.drop_last(), account),
        }
    }
}

/// The date on which `account` is closed by a directive of `entries`: that of the last
/// Close directive of the account.
pub fn close_date(entries: &Vec<Directive>, account: &str) -> (r: Option<Date>)
    ensures
        r == close_date_of(entries@, account@),
{
    let mut i: usize = entries.len();
    assert(entries@.take(i as int) =~= entries@);
    while i > 0
        invariant
            i <= entries@.len(),
            close_date_of(entries@, account@) == close_date_of(entries@.take(i as int), account@),
        decreases i,
    {
        assert(entries@.take(i as int).drop_last() =~= entries@.take(i - 1));
        if let Directive::Close(date, a) = &entries[i - 1] {
            if crate::text::str_eq(a.as_str(), account) {
                return Some(*date);
            }
        }
        i = i - 1;
    }
    assert(entries@.take(0) =~= Seq::<Directive>::empty());
    None
}

/// What the ledger holds of one opened account.
#[derive(Debug)]
pub struct AccountEntries {
    /// The name of the account.
    pub account: String,
    /// The directives of the account, in file order.
    pub postings: Vec<Directive>,
    /// The identifier of each directive of `postings`, at the same position.
    pub entry_hashes: Vec<String>,
    /// Whether the account asks for an up-to-date indication.
    pub uptodate_indication: bool,
    /// The account's node of the tree, with its balance.
    pub node: TreeNode,
}

/// The date and identifier of the last entry of an account, unless that entry is a
/// Close directive.
pub open spec fn last_entry_of(a: AccountEntries) -> Option<(Date, Seq<char>)> {
    match last_relevant_index(a.postings@) {
        Some(i) => if a.postings@[i] is Close {
            None
        } else {
            Some((crate::directive::directive_date(a.postings@[i]), a.entry_hashes@[i]@))
        },
        None => None,
    }
}

/// The up-to-date status of an account: only for one that asks for the indication.
pub open spec fn account_status(a: AccountEntries) -> Option<Status> {
    if a.uptodate_indication {
        status_of(a.postings@)
    } else {
        None
    }
}

/// Whether `d` is the information derived for the account `a` closed on `close`, on
/// the date `today`: its close date, its status, the balance directives of its node when
/// it has a status other than Pass, and its last entry.
pub open spec fn describes(d: AccountData, a: AccountEntries, close: Option<Date>, today: Date) -> bool {
    &&& d.close_date == close
    &&& d.uptodate_status == account_status(a)
    &&& match d.balance_string {
        Some(b) => a.uptodate_indication && account_status(a) != Some(Status::Pass) && b@
            == balance_lines(today, a.node.0@, a.node.1@),
        None => !(a.uptodate_indication && account_status(a) != Some(Status::Pass)),
    }
    &&& match d.last_entry {
        Some(e) => last_entry_of(a) == Some((e.0, e.1@)),
        None => last_entry_of(a) is None,
    }
}

/// The information of one account, derived from its entries.
pub fn account_data(a: &AccountEntries, close: Option<Date>, today: Date) -> (r: AccountData)
    requires
        today.wf(),
        a.entry_hashes@.len() == a.postings@.len(),
    ensures
        describes(r, *a, close, today),
{
    let last_entry = match last_entry_index(&a.postings) {
        Some(i) => match &a.postings[i] {
            Directive::Close(_, _) => None,
            entry => Some(LastEntry(entry.get_date(), a.entry_hashes[i].clone())),
        },
        None => None,
    };
    assert(match last_entry {
        Some(e) => last_entry_of(*a) == Some((e.0, e.1@)),
        None => last_entry_of(*a) is None,
    });
    let mut data = AccountData { close_date: close, uptodate_status: None, balance_string: None, last_entry };
    if a.uptodate_indication {
        let status = uptodate_status(&a.postings);
        data.uptodate_status = status;
        let passed = match status {
            Some(Status::Pass) => true,
            _ => false,
        };
        if !passed {
            data.balance_string = Some(balance_string(&a.node, today));
        }
    }
    data
}

/// No two accounts share a name.
pub open spec fn names_unique(accounts: Seq<AccountEntries>) -> bool {
    forall|i: int, j: int| 0 <= i < j < accounts.len() ==> accounts[i].account@ != accounts[j].account@
}

impl AccountDict {
    /// Rebuilds the dictionary from scratch: one entry per opened account, in order, each
    /// with the information derived from its entries, closed as the ledger's `entries`
    /// say.
    pub fn load_file(&mut self, accounts: &Vec<AccountEntries>, entries: &Vec<Directive>, today: Date)
        requires
            today.wf(),
            names_unique(accounts@),
            forall|i: int| 0 <= i < accounts@.len() ==> (#[trigger] accounts@[i]).entry_hashes@.len()
                == accounts@[i].postings@.len(),
        ensures
            final(self).wf(),
            final(self)@.len() == accounts@.len(),
            forall|i: int| 0 <= i < accounts@.len() ==> #[trigger] final(self)@[i].0 == accounts@[i].account@
                && describes(
                final(self)@[i].1,
                accounts@[i],
                close_date_of(entries@, accounts@[i].account@),
                today,
            ),
    {
        self.accounts.clear();
        let mut i: usize = 0;
        while i < accounts.len()
            invariant
                today.wf(),
                names_unique(accounts@),
                forall|j: int| 0 <= j < accounts@.len() ==> (#[trigger] accounts@[j]).entry_hashes@.len()
                    == accounts@[j].postings@.len(),
                i <= accounts@.len(),
                self@.len() == i,
                self.wf(),
                forall|j: int| 0 <= j < i ==> #[trigger] self@[j].0 == accounts@[j].account@ && describes(
                    self@[j].1,
                    accounts@[j],
                    close_date_of(entries@, accounts@[j].account@),
                    today,
                ),
            decreases accounts.len() - i,
        {
            let a = &accounts[i];
            let close = close_date(entries, a.account.as_str());
            let data = account_data(a, close, today);
            let ghost before = self@;
            self.accounts.push((a.account.clone(), data));
            assert(self@ =~= before.push((a.account@, data)));
            assert forall|x: int, y: int| 0 <= x < y < self@.len() implies self@[x].0 != self@[y].0 by {
                if y < i {
                    assert(before[x].0 != before[y].0);
                } else {
                    assert(self@[x].0 == accounts@[x].account@);
                }
            }
            i = i + 1;
        }
    }
}

} // verus!
