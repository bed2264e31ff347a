use crate::amount::{u256_wrapping_add, u256_wrapping_sub, Amount};
use crate::identity::Identity;
use vstd::prelude::*;
use vstd::set::fold::{is_fun_commutative, lemma_fold_empty, lemma_fold_insert};

verus! {

/// What `who` has in `books`: zero for an employer that the books do not name.
pub open spec fn balance_in(books: Map<Identity, nat>, who: Identity) -> nat {
    if books.dom().contains(who) {
        books[who]
    } else {
        0
    }
}

/// Books are well formed where they name finitely many employers, each with a
/// balance above zero: an employer with nothing is simply not named.
pub open spec fn well_formed(books: Map<Identity, nat>) -> bool {
    &&& books.dom().finite()
    &&& forall|who: Identity| books.dom().contains(who) ==> #[trigger] books[who] > 0
}

/// `books` with `who`'s balance set to `value`.
pub open spec fn with_balance(books: Map<Identity, nat>, who: Identity, value: nat) -> Map<
    Identity,
    nat,
> {
    if value == 0 {
        books.remove(who)
    } else {
        books.insert(who, value)
    }
}

/// `books` after `amount` was added to what `who` has.
pub open spec fn credited(books: Map<Identity, nat>, who: Identity, amount: nat) -> Map<
    Identity,
    nat,
> {
    with_balance(books, who, balance_in(books, who) + amount)
}

/// `books` after `amount` was taken from what `who` has.
pub open spec fn debited(books: Map<Identity, nat>, who: Identity, amount: nat) -> Map<
    Identity,
    nat,
> {
    with_balance(books, who, (balance_in(books, who) - amount) as nat)
}

/// The step of the sum over `books`: the sum so far, plus what `who` has.
pub open spec fn adding(books: Map<Identity, nat>) -> spec_fn(nat, Identity) -> nat {
    |sum: nat, who: Identity| sum + books[who]
}

/// The sum of all balances in `books`.
pub open spec fn total_of(books: Map<Identity, nat>) -> nat {
    books.dom().fold(0nat, adding(books))
}

/// Two books that agree on every employer of a finite set have the same sum
/// over that set.
proof fn lemma_sums_agree(among: Set<Identity>, a: Map<Identity, nat>, b: Map<Identity, nat>)
    requires
        among.finite(),
        forall|who: Identity| among.contains(who) ==> a[who] == b[who],
    ensures
        among.fold(0nat, adding(a)) == among.fold(0nat, adding(b)),
    decreases among.len(),
{
    assert(is_fun_commutative(adding(a)));
    assert(is_fun_commutative(adding(b)));
    if among.is_empty() {
        assert(among =~= Set::<Identity>::empty());
        lemma_fold_empty::<Identity, nat>(0nat, adding(a));
        lemma_fold_empty::<Identity, nat>(0nat, adding(b));
    } else {
        let who = among.choose();
        let rest = among.remove(who);
        lemma_sums_agree(rest, a, b);
        lemma_fold_insert(rest, 0nat, adding(a), who);
        lemma_fold_insert(rest, 0nat, adding(b), who);
        assert(rest.insert(who) =~= among);
    }
}

/// The total is what `who` has, plus the sum over everyone else.
proof fn lemma_total_split(books: Map<Identity, nat>, who: Identity)
    requires
        books.dom().finite(),
    ensures
        total_of(books) == books.dom().remove(who).fold(0nat, adding(books)) + balance_in(
            books,
            who,
        ),
{
    let rest = books.dom().remove(who);
    assert(is_fun_commutative(adding(books)));
    if books.dom().contains(who) {
        lemma_fold_insert(rest, 0nat, adding(books), who);
        assert(rest.insert(who) =~= books.dom());
    } else {
        assert(rest =~= books.dom());
    }
}

/// Books that name nobody are well formed, and their total is zero.
pub proof fn lemma_total_of_empty()
    ensures
        total_of(Map::<Identity, nat>::empty()) == 0,
        well_formed(Map::<Identity, nat>::empty()),
{
    assert(Map::<Identity, nat>::empty().dom() =~= Set::<Identity>::empty());
    lemma_fold_empty::<Identity, nat>(0nat, adding(Map::<Identity, nat>::empty()));
}

/// Setting a balance keeps the books well formed, gives `who` that balance,
/// leaves every other employer's balance as it was, and moves the total by
/// the difference.
pub proof fn lemma_with_balance(books: Map<Identity, nat>, who: Identity, value: nat)
    requires
        well_formed(books),
    ensures
        well_formed(with_balance(books, who, value)),
        balance_in(with_balance(books, who, value), who) == value,
        forall|other: Identity|
            other != who ==> #[trigger] balance_in(with_balance(books, who, value), other)
                == balance_in(books, other),
        total_of(with_balance(books, who, value)) + balance_in(books, who) == total_of(books)
            + value,
{
    let after = with_balance(books, who, value);
    let rest = books.dom().remove(who);
    assert(after.dom().remove(who) =~= rest);
    lemma_total_split(books, who);
    lemma_total_split(after, who);
    lemma_sums_agree(rest, books, after);
}

/// What a credit does: it keeps the books well formed, adds the amount to
/// what `who` has and to the total, and leaves everyone else alone.
pub proof fn lemma_credited(books: Map<Identity, nat>, who: Identity, amount: nat)
    requires
        well_formed(books),
    ensures
        well_formed(credited(books, who, amount)),
        balance_in(credited(books, who, amount), who) == balance_in(books, who) + amount,
        forall|other: Identity|
            other != who ==> #[trigger] balance_in(credited(books, who, amount), other)
                == balance_in(books, other),
        total_of(credited(books, who, amount)) == total_of(books) + amount,
{
    lemma_with_balance(books, who, balance_in(books, who) + amount);
}

/// What a debit does: it keeps the books well formed, takes the amount from
/// what `who` has and from the total, and leaves everyone else alone.
pub proof fn lemma_debited(books: Map<Identity, nat>, who: Identity, amount: nat)
    requires
        well_formed(books),
        amount <= balance_in(books, who),
    ensures
        well_formed(debited(books, who, amount)),
        balance_in(debited(books, who, amount), who) == balance_in(books, who) - amount,
        forall|other: Identity|
            other != who ==> #[trigger] balance_in(debited(books, who, amount), other)
                == balance_in(books, other),
        total_of(debited(books, who, amount)) == total_of(books) - amount,
{
    lemma_with_balance(books, who, (balance_in(books, who) - amount) as nat);
}

/// Two debits in a row are one debit of the sum.
pub proof fn lemma_debited_twice(books: Map<Identity, nat>, who: Identity, first: nat, second: nat)
    requires
        first + second <= balance_in(books, who),
    ensures
        debited(debited(books, who, first), who, second) == debited(books, who, first + second),
{
    assert(debited(debited(books, who, first), who, second) =~= debited(
        books,
        who,
        first + second,
    ));
}

/// A credit undoes the debit of the same amount before it.
pub proof fn lemma_credited_debited(books: Map<Identity, nat>, who: Identity, amount: nat)
    requires
        well_formed(books),
        amount <= balance_in(books, who),
    ensures
        credited(debited(books, who, amount), who, amount) == books,
{
    assert(credited(debited(books, who, amount), who, amount) =~= books);
}

/// One employer's account.
#[derive(Clone, Copy, Debug)]
pub struct LedgerEntry {
    pub employer: Identity,
    pub balance: Amount,
}

/// Whether `entries` holds an entry for `who`.
spec fn names(entries: Seq<LedgerEntry>, who: Identity) -> bool {
    exists|i: int| 0 <= i < entries.len() && (#[trigger] entries[i]).employer == who
}

/// Where `who`'s entry stands in `entries`, if there is one.
spec fn place(entries: Seq<LedgerEntry>, who: Identity) -> int {
    choose|i: int| 0 <= i < entries.len() && (#[trigger] entries[i]).employer == who
}

/// No employer has two entries.
spec fn distinct(entries: Seq<LedgerEntry>) -> bool {
    forall|i: int, j: int|
        0 <= i < j < entries.len() ==> (#[trigger] entries[i]).employer != (
        #[trigger] entries[j]).employer
}

/// The books that a list of entries spells out: each employer with an entry
/// above zero, and what that entry holds.
spec fn books_of(entries: Seq<LedgerEntry>) -> Map<Identity, nat> {
    Map::new(
        |who: Identity| names(entries, who) && entries[place(entries, who)].balance@ > 0,
        |who: Identity| entries[place(entries, who)].balance@,
    )
}

/// In a list without double entries, the entry for `who` is the one at
/// `place`.
proof fn lemma_place(entries: Seq<LedgerEntry>, who: Identity, i: int)
    requires
        distinct(entries),
        0 <= i < entries.len(),
        entries[i].employer == who,
    ensures
        names(entries, who),
        place(entries, who) == i,
        balance_in(books_of(entries), who) == entries[i].balance@,
{
    let p: int = place(entries, who);
    if p < i {
        assert(entries[p].employer != entries[i].employer);
    } else if i < p {
        assert(entries[i].employer != entries[p].employer);
    }
}

/// The books of any list of entries are well formed.
proof fn lemma_books_well_formed(entries: Seq<LedgerEntry>)
    ensures
        well_formed(books_of(entries)),
{
    let employers = entries.map_values(|entry: LedgerEntry| entry.employer);
    vstd::seq_lib::seq_to_set_is_finite(employers);
    assert forall|who: Identity| books_of(entries).dom().contains(who) implies employers.to_set()
        .contains(who) by {
        let p: int = place(entries, who);
        assert(employers[p] == who);
    }
    vstd::set_lib::lemma_set_subset_finite(employers.to_set(), books_of(entries).dom());
}

/// The list of entries after `entry` was written at `at`: over the entry that
/// stands there, or behind the last one where `at` is the number of entries.
spec fn written(entries: Seq<LedgerEntry>, at: int, entry: LedgerEntry) -> Seq<LedgerEntry> {
    if at < entries.len() {
        entries.update(at, entry)
    } else {
        entries.push(entry)
    }
}

/// Writing an entry for its own employer keeps the list free of double
/// entries.
proof fn lemma_written_distinct(entries: Seq<LedgerEntry>, at: int, entry: LedgerEntry)
    requires
        distinct(entries),
        0 <= at <= entries.len(),
        at < entries.len() ==> entries[at].employer == entry.employer,
        at == entries.len() ==> !names(entries, entry.employer),
    ensures
        distinct(written(entries, at, entry)),
{
    let after = written(entries, at, entry);
    assert forall|i: int, j: int| 0 <= i < j < after.len() implies (#[trigger] after[i]).employer
        != (#[trigger] after[j]).employer by {
        if j < entries.len() {
            assert(after[i].employer == entries[i].employer);
            assert(after[j].employer == entries[j].employer);
        } else {
            assert(after[i] == entries[i]);
        }
    }
}

/// What writing an entry does to what the books say of `who`.
proof fn lemma_written_entry(
    entries: Seq<LedgerEntry>,
    at: int,
    entry: LedgerEntry,
    who: Identity,
)
    requires
        distinct(entries),
        0 <= at <= entries.len(),
        at < entries.len() ==> entries[at].employer == entry.employer,
        at == entries.len() ==> !names(entries, entry.employer),
    ensures
        ({
            let after = books_of(written(entries, at, entry));
            let wanted = with_balance(books_of(entries), entry.employer, entry.balance@);
            &&& after.dom().contains(who) == wanted.dom().contains(who)
            &&& after.dom().contains(who) ==> after[who] == wanted[who]
        }),
{
    let after = written(entries, at, entry);
    lemma_written_distinct(entries, at, entry);
    assert(after[at] == entry);
    lemma_place(after, entry.employer, at);
    if who == entry.employer {
    } else if names(entries, who) {
        let p: int = place(entries, who);
        assert(after[p] == entries[p]);
        lemma_place(after, who, p);
    } else if names(after, who) {
        let p: int = place(after, who);
        assert(after[p].employer == who);
        assert(entries[p].employer == who);
    }
}

/// Writing a new balance over an employer's entry, or adding an entry for an
/// employer that had none, sets that employer's balance in the books.
proof fn lemma_put(entries: Seq<LedgerEntry>, at: int, entry: LedgerEntry)
    requires
        distinct(entries),
        0 <= at <= entries.len(),
        at < entries.len() ==> entries[at].employer == entry.employer,
        at == entries.len() ==> !names(entries, entry.employer),
    ensures
        distinct(written(entries, at, entry)),
        books_of(written(entries, at, entry)) == with_balance(
            books_of(entries),
            entry.employer,
            entry.balance@,
        ),
{
    let after = books_of(written(entries, at, entry));
    let wanted = with_balance(books_of(entries), entry.employer, entry.balance@);
    lemma_written_distinct(entries, at, entry);
    assert forall|who: Identity| after.dom().contains(who) == wanted.dom().contains(who) by {
        lemma_written_entry(entries, at, entry, who);
    }
    assert forall|who: Identity| after.dom().contains(who) implies after[who] == wanted[who] by {
        lemma_written_entry(entries, at, entry, who);
    }
    assert(after =~= wanted);
}

/// The escrow's books: for each employer, what it has available inside the
/// escrow. An employer that was never credited has nothing.
pub struct BalanceLedger {
    entries: Vec<LedgerEntry>,
}

impl View for BalanceLedger {
    type V = Map<Identity, nat>;

    closed spec fn view(&self) -> Map<Identity, nat> {
        books_of(self.entries@)
    }
}

impl BalanceLedger {
    #[verifier::type_invariant]
    spec fn inv(&self) -> bool {
        distinct(self.entries@)
    }

    /// What `who` has available: zero for an employer that was never credited.
    pub open spec fn balance(&self, who: Identity) -> nat {
        balance_in(self@, who)
    }

    /// The sum of all balances.
    pub open spec fn total(&self) -> nat {
        total_of(self@)
    }

    /// The books of every ledger are well formed, and no balance in them
    /// exceeds what an `Amount` can hold.
    pub proof fn lemma_well_formed(&self)
        ensures
            well_formed(self@),
            forall|who: Identity| #[trigger] self.balance(who) <= Amount::max_value(),
    {
        lemma_books_well_formed(self.entries@);
        assert forall|who: Identity| #[trigger] self.balance(who) <= Amount::max_value() by {
            if self@.dom().contains(who) {
                self.entries@[place(self.entries@, who)].balance.lemma_bounded();
            }
        }
    }

    /// A ledger in which nobody has anything.
    pub fn new() -> (ledger: BalanceLedger)
        ensures
            ledger@ == Map::<Identity, nat>::empty(),
    {
        let entries: Vec<LedgerEntry> = Vec::new();
        assert(books_of(entries@) =~= Map::<Identity, nat>::empty());
        BalanceLedger { entries }
    }

    fn find(&self, employer: &Identity) -> (found: Option<usize>)
        ensures
            match found {
                Some(i) => i < self.entries@.len() && self.entries@[i as int].employer == *employer
                    && self.entries@[i as int].balance@ == self.balance(*employer),
                None => !names(self.entries@, *employer) && self.balance(*employer) == 0,
            },
    {
        proof {
            use_type_invariant(self);
        }
        let mut i: usize = 0;
        while i < self.entries.len()
            invariant
                i <= self.entries@.len(),
                distinct(self.entries@),
                forall|k: int| 0 <= k < i ==> (#[trigger] self.entries@[k]).employer != *employer,
            decreases self.entries@.len() - i,
        {
            if self.entries[i].employer == *employer {
                proof {
                    lemma_place(self.entries@, *employer, i as int);
                }
                return Some(i);
            }
            i += 1;
        }
        None
    }

    /// Writes `entry` at `at`: over the entry that stands there, or behind the
    /// last one where `at` is the number of entries.
    fn put(&mut self, at: usize, entry: LedgerEntry)
        requires
            at <= old(self).entries@.len(),
            at < old(self).entries@.len() ==> old(self).entries@[at as int].employer
                == entry.employer,
            at == old(self).entries@.len() ==> !names(old(self).entries@, entry.employer),
        ensures
            final(self)@ == with_balance(old(self)@, entry.employer, entry.balance@),
    {
        let mut entries: Vec<LedgerEntry> = Vec::new();
        proof {
            use_type_invariant(&*self);
            lemma_put(self.entries@, at as int, entry);
        }
        std::mem::swap(&mut self.entries, &mut entries);
        if at < entries.len() {
            entries[at] = entry;
        } else {
            entries.push(entry);
        }
        std::mem::swap(&mut self.entries, &mut entries);
    }

    /// `get`: what `employer` has available, zero where it was never credited.
    pub fn get(&self, employer: &Identity) -> (balance: Amount)
        ensures
            balance@ == self.balance(*employer),
    {
        match self.find(employer) {
            Some(i) => self.entries[i].balance,
            None => Amount::zero(),
        }
    }

    /// Whether a credit of `amount` to `employer` fits: what `employer` has and
    /// `amount` together are no more than an `Amount` can hold.
    pub fn fits(&self, employer: &Identity, amount: &Amount) -> (fits: bool)
        ensures
            fits == (self.balance(*employer) + amount@ <= Amount::max_value()),
    {
        self.get(employer).checked_add(amount).is_some()
    }

    /// `credit`: adds `amount` to what `employer` has.
    pub fn credit(&mut self, employer: &Identity, amount: &Amount)
        requires
            old(self).balance(*employer) + amount@ <= Amount::max_value(),
        ensures
            final(self)@ == credited(old(self)@, *employer, amount@),
    {
        match self.find(employer) {
            Some(i) => {
                let balance = u256_wrapping_add(&self.entries[i].balance, amount);
                self.put(i, LedgerEntry { employer: *employer, balance });
            },
            None => {
                let end: usize = self.entries.len();
                self.put(end, LedgerEntry { employer: *employer, balance: *amount });
            },
        }
    }

    /// `debit`: takes `amount` from what `employer` has. The caller has made
    /// sure that `employer` has that much.
    pub fn debit(&mut self, employer: &Identity, amount: &Amount)
        requires
            amount@ <= old(self).balance(*employer),
        ensures
            final(self)@ == debited(old(self)@, *employer, amount@),
    {
        match self.find(employer) {
            Some(i) => {
                let balance = u256_wrapping_sub(&self.entries[i].balance, amount);
                self.put(i, LedgerEntry { employer: *employer, balance });
            },
            None => {
                assert(self@ =~= debited(self@, *employer, amount@));
            },
        }
    }
}

} // verus!
