use vstd::prelude::*;

verus! {

/// An inventory object: a stable identity and descriptive metadata. An item
/// carries no quantity of its own; its quantity is derived from its history.
#[derive(Clone, Debug)]
pub struct Item {
    pub uuid: String,
    pub name: String,
    pub description: String,
}

impl Item {
    pub fn new(uuid: String, name: String, description: String) -> (r: Item)
        ensures
            r.uuid == uuid,
            r.name == name,
            r.description == description,
    {
        Item { uuid, name, description }
    }

    /// A field-by-field copy of the item.
    pub fn duplicate(&self) -> (r: Item)
        ensures
            r == *self,
    {
        Item {
            uuid: self.uuid.clone(),
            name: self.name.clone(),
            description: self.description.clone(),
        }
    }
}

/// The kinds of quantity-affecting events.
#[derive(Clone, Copy, Debug, PartialEq, Eq, Structural)]
pub enum TransactionMethod {
    /// Increases the quantity.
    ADD,
    /// Decreases the quantity for good.
    LOST,
    /// Decreases the available quantity.
    BORROW,
}

/// A recorded event in its presentation form: the affected item is embedded
/// by value.
#[derive(Clone, Debug)]
pub struct Transaction {
    pub method: TransactionMethod,
    pub component: Item,
    pub quantity: i64,
    pub comments: String,
}

/// A recorded event in its storage form: the affected item is referenced by
/// its identifier.
#[derive(Clone, Debug)]
pub struct TransactionRecord {
    pub item_uuid: String,
    pub method: TransactionMethod,
    pub quantity: i64,
    pub comments: String,
}

impl TransactionRecord {
    /// The signed change in quantity that this record stands for.
    pub open spec fn delta(self) -> int {
        match self.method {
            TransactionMethod::ADD => self.quantity as int,
            TransactionMethod::LOST => -(self.quantity as int),
            TransactionMethod::BORROW => -(self.quantity as int),
        }
    }

    /// The presentation form of this record, with `item` embedded.
    pub open spec fn joined(self, item: Item) -> Transaction {
        Transaction {
            method: self.method,
            component: item,
            quantity: self.quantity,
            comments: self.comments,
        }
    }

    /// Builds the presentation form of this record around `item`.
    pub fn join(&self, item: &Item) -> (r: Transaction)
        ensures
            r == self.joined(*item),
    {
        Transaction {
            method: self.method,
            component: item.duplicate(),
            quantity: self.quantity,
            comments: self.comments.clone(),
        }
    }
}

} // verus!
