use vstd::prelude::*;

use crate::models::{Item, Transaction, TransactionMethod, TransactionRecord};

verus! {

/// The item registered under `uuid`, if any.
pub open spec fn lookup(items: Seq<Item>, uuid: Seq<char>) -> Option<Item>
    decreases items.len(),
{
    if items.len() == 0 {
        None
    } else if items.last().uuid@ == uuid {
        Some(items.last())
    } else {
        lookup(items.drop_last(), uuid)
    }
}

/// No two registered items share an identifier.
pub open spec fn uuids_unique(items: Seq<Item>) -> bool {
    forall|i: int, j: int|
        0 <= i < items.len() && 0 <= j < items.len() && i != j ==> items[i].uuid@
            != items[j].uuid@
}

/// The records of `records` that affect the item `uuid`, in append order.
pub open spec fn history_of(records: Seq<TransactionRecord>, uuid: Seq<char>) -> Seq<
    TransactionRecord,
>
    decreases records.len(),
{
    if records.len() == 0 {
        Seq::empty()
    } else if records.last().item_uuid@ == uuid {
        history_of(records.drop_last(), uuid).push(records.last())
    } else {
        history_of(records.drop_last(), uuid)
    }
}

/// The quantity that a history leaves: a fold from zero, adding each record's delta.
pub open spec fn resolve(history: Seq<TransactionRecord>) -> int
    decreases history.len(),
{
    if history.len() == 0 {
        0
    } else {
        resolve(history.drop_last()) + history.last().delta()
    }
}

/// The sum of the quantities of the records of `history` made with `method`.
pub open spec fn total_of(history: Seq<TransactionRecord>, method: TransactionMethod) -> int
    decreases history.len(),
{
    if history.len() == 0 {
        0
    } else if history.last().method == method {
        total_of(history.drop_last(), method) + history.last().quantity
    } else {
        total_of(history.drop_last(), method)
    }
}

/// A history in its presentation form, every record embedding `item`.
pub open spec fn joined_history(history: Seq<TransactionRecord>, item: Item) -> Seq<Transaction> {
    history.map_values(|r: TransactionRecord| r.joined(item))
}

/// Appending a record extends the history of its own item by exactly that
/// record, at the end, and leaves every other item's history as it was.
pub proof fn lemma_history_append_only(
    records: Seq<TransactionRecord>,
    rec: TransactionRecord,
    uuid: Seq<char>,
)
    ensures
        history_of(records.push(rec), uuid) == (if rec.item_uuid@ == uuid {
            history_of(records, uuid).push(rec)
        } else {
            history_of(records, uuid)
        }),
{
    assert(records.push(rec).drop_last() =~= records);
}

/// Resolving a history extended by one record adds that record's delta.
pub proof fn lemma_resolve_push(history: Seq<TransactionRecord>, rec: TransactionRecord)
    ensures
        resolve(history.push(rec)) == resolve(history) + rec.delta(),
{
    assert(history.push(rec).drop_last() =~= history);
}

/// The resolved quantity is the total added minus the totals lost and borrowed.
pub proof fn lemma_resolve_is_net_total(history: Seq<TransactionRecord>)
    ensures
        resolve(history) == total_of(history, TransactionMethod::ADD) - total_of(
            history,
            TransactionMethod::LOST,
        ) - total_of(history, TransactionMethod::BORROW),
    decreases history.len(),
{
    if history.len() > 0 {
        lemma_resolve_is_net_total(history.drop_last());
    }
}

/// A history made only of additions of one unit resolves to its length: no
/// addition is lost, whatever the number of them.
pub proof fn lemma_unit_additions_count(history: Seq<TransactionRecord>)
    requires
        forall|k: int|
            0 <= k < history.len() ==> history[k].method == TransactionMethod::ADD
                && history[k].quantity == 1,
    ensures
        resolve(history) == history.len(),
    decreases history.len(),
{
    if history.len() > 0 {
        lemma_unit_additions_count(history.drop_last());
    }
}

/// A quantity read depends on the transaction log alone: two reads of one
/// item with no append between them give the same value.
pub proof fn lemma_quantity_read_stable(a: &Ledger, b: &Ledger, uuid: Seq<char>)
    requires
        a.records() == b.records(),
    ensures
        a.quantity_of(uuid) == b.quantity_of(uuid),
{
}

/// An item absent from the registry has no record of its own.
proof fn lemma_history_empty(records: Seq<TransactionRecord>, uuid: Seq<char>)
    requires
        forall|k: int| 0 <= k < records.len() ==> records[k].item_uuid@ != uuid,
    ensures
        history_of(records, uuid).len() == 0,
    decreases records.len(),
{
    if records.len() > 0 {
        lemma_history_empty(records.drop_last(), uuid);
    }
}

/// `lookup` finds an item exactly when some registered item has the identifier.
proof fn lemma_lookup(items: Seq<Item>, uuid: Seq<char>)
    ensures
        lookup(items, uuid) is None <==> forall|i: int|
            0 <= i < items.len() ==> items[i].uuid@ != uuid,
        lookup(items, uuid) matches Some(it) ==> it.uuid@ == uuid,
    decreases items.len(),
{
    if items.len() > 0 {
        lemma_lookup(items.drop_last(), uuid);
        if lookup(items, uuid) is None {
            assert forall|i: int| 0 <= i < items.len() implies items[i].uuid@ != uuid by {
                if i < items.len() - 1 {
                    assert(items.drop_last()[i] == items[i]);
                }
            }
        } else if items.last().uuid@ != uuid {
            let i = choose|i: int| 0 <= i < items.drop_last().len() && items.drop_last()[i].uuid@ == uuid;
            assert(items[i] == items.drop_last()[i]);
        }
    }
}

/// Sums the deltas of the records of `records` that affect `uuid`, in order.
pub fn resolve_quantity(records: &Vec<TransactionRecord>, uuid: &String) -> (r: i128)
    ensures
        r == resolve(history_of(records@, uuid@)),
{
    let mut acc: i128 = 0;
    let mut i: usize = 0;
    while i < records.len()
        invariant
            i <= records@.len(),
            acc == resolve(history_of(records@.subrange(0, i as int), uuid@)),
            -(i as int) * 0x8000_0000_0000_0000 <= acc <= (i as int) * 0x8000_0000_0000_0000,
        decreases records.len() - i,
    {
        let rec = &records[i];
        let ghost done = records@.subrange(0, i as int);
        proof {
            assert(records@.subrange(0, i + 1) =~= done.push(*rec));
            lemma_history_append_only(done, *rec, uuid@);
            lemma_resolve_push(history_of(done, uuid@), *rec);
            let n = i as int;
            assert(n + 1 <= 0xffff_ffff_ffff_ffff);
            assert((n + 1) * 0x8000_0000_0000_0000 <= 0x7fff_ffff_ffff_ffff_ffff_ffff_ffff_ffff)
                by (nonlinear_arith)
                requires
                    n + 1 <= 0xffff_ffff_ffff_ffff,
            ;
            assert((n + 1) * 0x8000_0000_0000_0000 == n * 0x8000_0000_0000_0000
                + 0x8000_0000_0000_0000) by (nonlinear_arith);
        }
        if rec.item_uuid == *uuid {
            let q = rec.quantity as i128;
            match rec.method {
                TransactionMethod::ADD => acc = acc + q,
                TransactionMethod::LOST => acc = acc - q,
                TransactionMethod::BORROW => acc = acc - q,
            }
        }
        i = i + 1;
    }
    assert(records@.subrange(0, i as int) =~= records@);
    acc
}


/// The ways a ledger operation can fail.
#[derive(Clone, Copy, Debug, PartialEq, Eq, Structural)]
pub enum LedgerError {
    /// The requested item is not registered.
    NotFound,
    /// A transaction names an item that is not registered.
    UnknownItem,
    /// A transaction carries a negative quantity.
    InvalidQuantity,
    /// An item is registered under an identifier that is already taken.
    DuplicateIdentifier,
    /// The durable store could not be reached or aborted the operation.
    StorageUnavailable,
}

/// The composite read of one item: its metadata, its current quantity and
/// its history.
#[derive(Clone, Debug)]
pub struct ItemDetail {
    pub item: Item,
    pub quantity: i128,
    pub history: Vec<Transaction>,
}

/// An item registry together with an append-only transaction log. Quantities
/// are never stored: they are resolved from the log on each read.
pub struct Ledger {
    items: Vec<Item>,
    records: Vec<TransactionRecord>,
}

impl Ledger {
    /// The registered items, in registration order.
    pub closed spec fn items(&self) -> Seq<Item> {
        self.items@
    }

    /// The transaction log, in append order.
    pub closed spec fn records(&self) -> Seq<TransactionRecord> {
        self.records@
    }

    /// Identifiers are unique, names are non-empty, and every record refers
    /// to a registered item and carries a non-negative quantity.
    pub open spec fn wf(&self) -> bool {
        &&& uuids_unique(self.items())
        &&& forall|i: int| 0 <= i < self.items().len() ==> (#[trigger] self.items()[i]).name@.len() > 0
        &&& forall|k: int|
            0 <= k < self.records().len() ==> {
                &&& lookup(self.items(), #[trigger] self.records()[k].item_uuid@) is Some
                &&& self.records()[k].quantity >= 0
            }
    }

    /// The current quantity of the item `uuid`.
    pub open spec fn quantity_of(&self, uuid: Seq<char>) -> int {
        resolve(history_of(self.records(), uuid))
    }

    /// An empty ledger.
    pub fn new() -> (r: Ledger)
        ensures
            r.wf(),
            r.items() == Seq::<Item>::empty(),
            r.records() == Seq::<TransactionRecord>::empty(),
    {
        Ledger { items: Vec::new(), records: Vec::new() }
    }

    /// The position of the item registered under `uuid`, if any.
    fn find(&self, uuid: &String) -> (r: Option<usize>)
        ensures
            r is None <==> lookup(self.items(), uuid@) is None,
            r matches Some(i) ==> i < self.items().len() && lookup(self.items(), uuid@) == Some(
                self.items()[i as int],
            ),
    {
        let mut i: usize = self.items.len();
        assert(self.items@.subrange(0, i as int) =~= self.items@);
        while i > 0
            invariant
                i <= self.items@.len(),
                lookup(self.items@, uuid@) == lookup(self.items@.subrange(0, i as int), uuid@),
            decreases i,
        {
            assert(self.items@.subrange(0, i as int).drop_last() =~= self.items@.subrange(
                0,
                i - 1,
            ));
            if self.items[i - 1].uuid == *uuid {
                return Some(i - 1);
            }
            i = i - 1;
        }
        None
    }

    /// Registers a new item under `uuid`, which the caller draws fresh.
    pub fn register_item(&mut self, uuid: String, name: String, description: String) -> (r: Result<
        Item,
        LedgerError,
    >)
        requires
            old(self).wf(),
            name@.len() > 0,
        ensures
            final(self).wf(),
            final(self).records() == old(self).records(),
            match r {
                Ok(item) => {
                    &&& lookup(old(self).items(), uuid@) is None
                    &&& item == (Item { uuid, name, description })
                    &&& final(self).items() == old(self).items().push(item)
                },
                Err(e) => {
                    &&& lookup(old(self).items(), uuid@) is Some
                    &&& e == LedgerError::DuplicateIdentifier
                    &&& final(self).items() == old(self).items()
                },
            },
    {
        if self.find(&uuid).is_some() {
            return Err(LedgerError::DuplicateIdentifier);
        }
        let item = Item::new(uuid, name, description);
        let r = item.duplicate();
        let ghost before = self.items@;
        self.items.push(item);
        proof {
            lemma_lookup(before, uuid@);
            assert forall|k: int| 0 <= k < self.records@.len() implies lookup(
                self.items@,
                #[trigger] self.records@[k].item_uuid@,
            ) is Some by {
                assert(self.items@.drop_last() =~= before);
            }
        }
        Ok(r)
    }

    /// The item registered under `uuid`.
    pub fn get_item(&self, uuid: &String) -> (r: Result<Item, LedgerError>)
        ensures
            match lookup(self.items(), uuid@) {
                Some(item) => r == Ok::<Item, LedgerError>(item),
                None => r == Err::<Item, LedgerError>(LedgerError::NotFound),
            },
    {
        match self.find(uuid) {
            Some(i) => Ok(self.items[i].duplicate()),
            None => Err(LedgerError::NotFound),
        }
    }

    /// Appends a transaction on the item `item_uuid`. A negative quantity is
    /// rejected first, then an unregistered item; a rejected call changes
    /// nothing.
    pub fn record_transaction(
        &mut self,
        item_uuid: &String,
        method: TransactionMethod,
        quantity: i64,
        comments: String,
    ) -> (r: Result<Transaction, LedgerError>)
        requires
            old(self).wf(),
        ensures
            final(self).wf(),
            final(self).items() == old(self).items(),
            quantity < 0 ==> r == Err::<Transaction, LedgerError>(LedgerError::InvalidQuantity)
                && final(self).records() == old(self).records(),
            quantity >= 0 && lookup(old(self).items(), item_uuid@) is None ==> r == Err::<
                Transaction,
                LedgerError,
            >(LedgerError::UnknownItem) && final(self).records() == old(self).records(),
            quantity >= 0 ==> (lookup(old(self).items(), item_uuid@) matches Some(item) ==> {
                let rec = TransactionRecord { item_uuid: *item_uuid, method, quantity, comments };
                &&& final(self).records() == old(self).records().push(rec)
                &&& r == Ok::<Transaction, LedgerError>(rec.joined(item))
            }),
    {
        if quantity < 0 {
            return Err(LedgerError::InvalidQuantity);
        }
        match self.find(item_uuid) {
            None => Err(LedgerError::UnknownItem),
            Some(i) => {
                let rec = TransactionRecord {
                    item_uuid: item_uuid.clone(),
                    method,
                    quantity,
                    comments,
                };
                let t = rec.join(&self.items[i]);
                let ghost before = self.records@;
                self.records.push(rec);
                assert forall|k: int| 0 <= k < self.records@.len() implies {
                    &&& lookup(self.items@, #[trigger] self.records@[k].item_uuid@) is Some
                    &&& self.records@[k].quantity >= 0
                } by {
                    if k < before.len() {
                        assert(self.records@[k] == before[k]);
                    }
                }
                Ok(t)
            },
        }
    }

    /// The current quantity of the item `uuid`, resolved from its history.
    pub fn current_quantity(&self, uuid: &String) -> (r: Result<i128, LedgerError>)
        ensures
            match r {
                Ok(q) => lookup(self.items(), uuid@) is Some && q == self.quantity_of(uuid@),
                Err(e) => lookup(self.items(), uuid@) is None && e == LedgerError::NotFound,
            },
    {
        match self.find(uuid) {
            None => Err(LedgerError::NotFound),
            Some(_) => Ok(resolve_quantity(&self.records, uuid)),
        }
    }

    /// The transactions on the item `uuid`, in append order, each embedding
    /// the item. An unregistered item has none.
    pub fn history(&self, uuid: &String) -> (r: Vec<Transaction>)
        requires
            self.wf(),
        ensures
            match lookup(self.items(), uuid@) {
                Some(item) => r@ == joined_history(history_of(self.records(), uuid@), item),
                None => r@.len() == 0 && history_of(self.records(), uuid@).len() == 0,
            },
    {
        match self.find(uuid) {
            None => {
                proof {
                    assert forall|k: int| 0 <= k < self.records@.len() implies self.records@[k].item_uuid@
                        != uuid@ by {
                        assert(lookup(self.items@, self.records@[k].item_uuid@) is Some);
                    }
                    lemma_history_empty(self.records@, uuid@);
                }
                Vec::new()
            },
            Some(idx) => {
                let item = &self.items[idx];
                let mut out: Vec<Transaction> = Vec::new();
                let mut i: usize = 0;
                while i < self.records.len()
                    invariant
                        i <= self.records@.len(),
                        out@ == joined_history(
                            history_of(self.records@.subrange(0, i as int), uuid@),
                            *item,
                        ),
                    decreases self.records.len() - i,
                {
                    let rec = &self.records[i];
                    let ghost done = self.records@.subrange(0, i as int);
                    proof {
                        assert(self.records@.subrange(0, i + 1) =~= done.push(*rec));
                        lemma_history_append_only(done, *rec, uuid@);
                    }
                    if rec.item_uuid == *uuid {
                        out.push(rec.join(item));
                        assert(out@ =~= joined_history(history_of(done, uuid@).push(*rec), *item));
                    }
                    i = i + 1;
                }
                assert(self.records@.subrange(0, i as int) =~= self.records@);
                out
            },
        }
    }

    /// The item `uuid` with its current quantity and its history.
    pub fn item_detail(&self, uuid: &String) -> (r: Result<ItemDetail, LedgerError>)
        requires
            self.wf(),
        ensures
            match r {
                Ok(d) => lookup(self.items(), uuid@) == Some(d.item) && d.quantity == self.quantity_of(
                    uuid@,
                ) && d.history@ == joined_history(history_of(self.records(), uuid@), d.item),
                Err(e) => lookup(self.items(), uuid@) is None && e == LedgerError::NotFound,
            },
    {
        let item = match self.get_item(uuid) {
            Ok(item) => item,
            Err(e) => return Err(e),
        };
        let quantity = resolve_quantity(&self.records, uuid);
        let history = self.history(uuid);
        Ok(ItemDetail { item, quantity, history })
    }
}

} // verus!
