use vstd::prelude::*;
use crate::address::Address;

verus! {

/// Account space allocated when a metadata record is created.
pub const DEFAULT_SPACE: usize = 1000;

/// Space added by each resize.
pub const INCREASE_IN_SPACE: usize = 500;

/// Largest space a metadata record may grow to.
pub const MAX_SPACE: usize = 4000;

#[derive(Clone, Copy, Debug, PartialEq, Eq, Structural)]
pub enum ErrorCode {
    /// The provided metadata key already exists.
    DuplicateKey,
    /// Operation cannot be performed on an item updated in the current slot.
    InvalidOperationInCurrentSlot,
    /// The specified key was not found.
    KeyNotFound,
    /// The signer is not the authority the operation asks for.
    Unauthorized,
}

#[derive(Clone, Debug)]
pub struct MetadataItem {
    pub last_updated_slot: u64,
    pub key: String,
    pub value: Vec<u8>,
}

/// Key/value metadata of a DAO, written by its delegate.
#[derive(Clone, Debug)]
pub struct Metadata {
    pub dao: Address,
    pub treasury: Address,
    pub delegate: Address,
    pub creation_slot: u64,
    pub last_updated_slot: u64,
    pub items: Vec<MetadataItem>,
}

pub open spec fn has_key(items: Seq<MetadataItem>, key: Seq<char>) -> bool {
    exists|i: int| 0 <= i < items.len() && (#[trigger] items[i]).key@ == key
}

/// `i` is the first item whose key is `key`.
pub open spec fn first_match(items: Seq<MetadataItem>, key: Seq<char>, i: int) -> bool {
    &&& 0 <= i < items.len()
    &&& items[i].key@ == key
    &&& forall|j: int| 0 <= j < i ==> (#[trigger] items[j]).key@ != key
}

/// No two items share a key.
pub open spec fn keys_unique(items: Seq<MetadataItem>) -> bool {
    forall|i: int, j: int| 0 <= i < j < items.len() ==> items[i].key@ != items[j].key@
}

/// `after` is `before` with item `i` given `value` and stamped with `slot`.
pub open spec fn item_rewritten(
    before: Seq<MetadataItem>,
    after: Seq<MetadataItem>,
    i: int,
    value: Seq<u8>,
    slot: u64,
) -> bool {
    &&& after.len() == before.len()
    &&& forall|j: int| 0 <= j < before.len() && j != i ==> after[j] == before[j]
    &&& after[i].key == before[i].key
    &&& after[i].value@ == value
    &&& after[i].last_updated_slot == slot
}

impl Metadata {
    /// The fields an item operation leaves alone.
    pub open spec fn same_owners(self, other: Metadata) -> bool {
        &&& self.dao == other.dao
        &&& self.treasury == other.treasury
        &&& self.delegate == other.delegate
        &&& self.creation_slot == other.creation_slot
    }
}

/// Outcome of an operation on the existing item `key` by `signer` at `slot`:
/// the index of the item, or the error that refuses it.
pub open spec fn item_update_target(
    metadata: Metadata,
    signer: Address,
    key: Seq<char>,
    slot: u64,
    i: int,
) -> bool {
    &&& signer == metadata.delegate
    &&& first_match(metadata.items@, key, i)
    &&& metadata.items@[i].last_updated_slot < slot
}

pub open spec fn item_update_error(
    metadata: Metadata,
    signer: Address,
    key: Seq<char>,
    slot: u64,
) -> Option<ErrorCode> {
    if signer != metadata.delegate {
        Some(ErrorCode::Unauthorized)
    } else if !has_key(metadata.items@, key) {
        Some(ErrorCode::KeyNotFound)
    } else if exists|i: int|
        first_match(metadata.items@, key, i) && metadata.items@[i].last_updated_slot >= slot {
        Some(ErrorCode::InvalidOperationInCurrentSlot)
    } else {
        None
    }
}

fn find_item(items: &Vec<MetadataItem>, key: &String) -> (r: Option<usize>)
    ensures
        match r {
            Some(i) => first_match(items@, key@, i as int),
            None => !has_key(items@, key@),
        },
{
    let mut i: usize = 0;
    while i < items.len()
        invariant
            0 <= i <= items@.len(),
            forall|j: int| 0 <= j < i ==> (#[trigger] items@[j]).key@ != key@,
        decreases items@.len() - i,
    {
        if items[i].key == *key {
            return Some(i);
        }
        i = i + 1;
    }
    None
}

proof fn lemma_first_match_unique(items: Seq<MetadataItem>, key: Seq<char>, i: int, j: int)
    requires
        first_match(items, key, i),
        first_match(items, key, j),
    ensures
        i == j,
{
    if i < j {
        assert(items[i].key@ != key);
    } else if j < i {
        assert(items[j].key@ != key);
    }
}

/// Creates the metadata record of `dao`, with no items.
pub fn initialize_metadata(dao: Address, treasury: Address, delegate: Address, current_slot: u64) -> (r:
    Metadata)
    ensures
        r.dao == dao,
        r.treasury == treasury,
        r.delegate == delegate,
        r.creation_slot == current_slot,
        r.last_updated_slot == current_slot,
        r.items@.len() == 0,
{
    Metadata {
        dao,
        treasury,
        delegate,
        creation_slot: current_slot,
        last_updated_slot: current_slot,
        items: Vec::new(),
    }
}

/// The space that the delegate resizes a record of `current_size` bytes to:
/// one increment more, but never past `MAX_SPACE`.
pub fn increase_metadata_account_size(
    metadata: &Metadata,
    delegate: Address,
    current_size: usize,
) -> (r: Result<usize, ErrorCode>)
    ensures
        delegate != metadata.delegate ==> r == Err::<usize, ErrorCode>(ErrorCode::Unauthorized),
        delegate == metadata.delegate ==> r is Ok && r->Ok_0 as int == if current_size
            + INCREASE_IN_SPACE <= MAX_SPACE {
            current_size + INCREASE_IN_SPACE
        } else {
            MAX_SPACE as int
        },
{
    if delegate != metadata.delegate {
        return Err(ErrorCode::Unauthorized);
    }
    if current_size >= MAX_SPACE - INCREASE_IN_SPACE {
        Ok(MAX_SPACE)
    } else {
        Ok(current_size + INCREASE_IN_SPACE)
    }
}

/// The treasury hands the delegate role to `new_delegate`.
pub fn dao_set_delegate(
    metadata: &mut Metadata,
    treasury: Address,
    new_delegate: Address,
    current_slot: u64,
) -> (r: Result<(), ErrorCode>)
    ensures
        treasury != old(metadata).treasury ==> r == Err::<(), ErrorCode>(ErrorCode::Unauthorized)
            && *final(metadata) == *old(metadata),
        treasury == old(metadata).treasury ==> r == Ok::<(), ErrorCode>(()) && *final(metadata) == (
        Metadata { delegate: new_delegate, last_updated_slot: current_slot, ..*old(metadata) }),
{
    if treasury != metadata.treasury {
        return Err(ErrorCode::Unauthorized);
    }
    metadata.delegate = new_delegate;
    metadata.last_updated_slot = current_slot;
    Ok(())
}

/// The current delegate hands its role to `new_delegate`.
pub fn delegate_set_delegate(
    metadata: &mut Metadata,
    delegate: Address,
    new_delegate: Address,
    current_slot: u64,
) -> (r: Result<(), ErrorCode>)
    ensures
        delegate != old(metadata).delegate ==> r == Err::<(), ErrorCode>(ErrorCode::Unauthorized)
            && *final(metadata) == *old(metadata),
        delegate == old(metadata).delegate ==> r == Ok::<(), ErrorCode>(()) && *final(metadata) == (
        Metadata { delegate: new_delegate, last_updated_slot: current_slot, ..*old(metadata) }),
{
    if delegate != metadata.delegate {
        return Err(ErrorCode::Unauthorized);
    }
    metadata.delegate = new_delegate;
    metadata.last_updated_slot = current_slot;
    Ok(())
}

/// Adds the item `key` with `value`, unless an item with that key exists.
pub fn initialize_metadata_item(
    metadata: &mut Metadata,
    delegate: Address,
    key: String,
    value: Vec<u8>,
    current_slot: u64,
) -> (r: Result<(), ErrorCode>)
    ensures
        delegate != old(metadata).delegate ==> r == Err::<(), ErrorCode>(ErrorCode::Unauthorized),
        delegate == old(metadata).delegate && has_key(old(metadata).items@, key@) ==> r == Err::<
            (),
            ErrorCode,
        >(ErrorCode::DuplicateKey),
        r is Err ==> *final(metadata) == *old(metadata),
        r is Ok <==> delegate == old(metadata).delegate && !has_key(old(metadata).items@, key@),
        r is Ok ==> {
            &&& final(metadata).same_owners(*old(metadata))
            &&& final(metadata).last_updated_slot == current_slot
            &&& final(metadata).items@.len() == old(metadata).items@.len() + 1
            &&& final(metadata).items@.drop_last() == old(metadata).items@
            &&& final(metadata).items@.last().key@ == key@
            &&& final(metadata).items@.last().value@ == value@
            &&& final(metadata).items@.last().last_updated_slot == current_slot
        },
        keys_unique(old(metadata).items@) ==> keys_unique(final(metadata).items@),
{
    if delegate != metadata.delegate {
        return Err(ErrorCode::Unauthorized);
    }
    if find_item(&metadata.items, &key).is_some() {
        return Err(ErrorCode::DuplicateKey);
    }
    let ghost before = metadata.items@;
    let item = MetadataItem { last_updated_slot: current_slot, key, value };
    metadata.items.push(item);
    metadata.last_updated_slot = current_slot;
    assert(metadata.items@.drop_last() =~= before);
    Ok(())
}

/// The items that do not carry `key`, in their order.
pub open spec fn without_key(items: Seq<MetadataItem>, key: Seq<char>) -> Seq<MetadataItem> {
    items.filter(|it: MetadataItem| it.key@ != key)
}

/// Takes every item with key `key` out of `items`, keeping the order of the rest.
fn remove_key(items: &mut Vec<MetadataItem>, key: &String)
    ensures
        final(items)@ == without_key(old(items)@, key@),
{
    let ghost orig = old(items)@;
    let ghost pred = |it: MetadataItem| it.key@ != key@;
    let mut i: usize = 0;
    let ghost mut j: int = 0;
    assert(items@.subrange(0, 0) =~= orig.subrange(0, 0).filter(pred)) by {
        reveal_with_fuel(Seq::filter, 1);
    }
    assert(items@.subrange(0, items@.len() as int) =~= orig.subrange(0, orig.len() as int));
    while i < items.len()
        invariant
            0 <= i <= items@.len(),
            0 <= j <= orig.len(),
            items@.len() - i == orig.len() - j,
            pred == (|it: MetadataItem| it.key@ != key@),
            items@.subrange(0, i as int) == orig.subrange(0, j).filter(pred),
            items@.subrange(i as int, items@.len() as int) == orig.subrange(j, orig.len() as int),
        decreases items@.len() - i,
    {
        let ghost before = items@;
        assert(orig[j] == before[i as int]) by {
            assert(before.subrange(i as int, before.len() as int)[0] == before[i as int]);
        }
        assert(orig.subrange(0, j + 1) =~= orig.subrange(0, j).push(orig[j]));
        proof {
            orig.subrange(0, j).lemma_filter_push(orig[j], pred);
        }
        let ghost rest = orig.subrange(j, orig.len() as int);
        assert(rest.subrange(1, rest.len() as int) =~= orig.subrange(j + 1, orig.len() as int));
        if items[i].key == *key {
            items.remove(i);
            assert(items@.subrange(0, i as int) =~= before.subrange(0, i as int));
            assert(items@.subrange(i as int, items@.len() as int) =~= before.subrange(
                i as int,
                before.len() as int,
            ).subrange(1, before.len() - i));
        } else {
            assert(items@.subrange(0, i + 1) =~= before.subrange(0, i as int).push(before[i as int]));
            assert(items@.subrange(i + 1, items@.len() as int) =~= before.subrange(
                i as int,
                before.len() as int,
            ).subrange(1, before.len() - i));
            i = i + 1;
        }
        proof {
            j = j + 1;
        }
    }
    assert(items@ =~= items@.subrange(0, i as int));
    assert(orig =~= orig.subrange(0, j));
}

/// Removes every item with key `key`, unless the first of them was written
/// in the current slot.
pub fn delete_metadata_item(
    metadata: &mut Metadata,
    delegate: Address,
    key: &String,
    current_slot: u64,
) -> (r: Result<(), ErrorCode>)
    ensures
        match item_update_error(*old(metadata), delegate, key@, current_slot) {
            Some(e) => r == Err::<(), ErrorCode>(e) && *final(metadata) == *old(metadata),
            None => {
                &&& r == Ok::<(), ErrorCode>(())
                &&& final(metadata).items@ == without_key(old(metadata).items@, key@)
                &&& final(metadata).same_owners(*old(metadata))
                &&& final(metadata).last_updated_slot == current_slot
            },
        },
{
    if delegate != metadata.delegate {
        return Err(ErrorCode::Unauthorized);
    }
    match find_item(&metadata.items, key) {
        None => Err(ErrorCode::KeyNotFound),
        Some(i) => {
            proof {
                assert forall|j: int| first_match(metadata.items@, key@, j) implies j == i by {
                    lemma_first_match_unique(metadata.items@, key@, i as int, j);
                }
            }
            if current_slot <= metadata.items[i].last_updated_slot {
                return Err(ErrorCode::InvalidOperationInCurrentSlot);
            }
            remove_key(&mut metadata.items, key);
            metadata.last_updated_slot = current_slot;
            Ok(())
        },
    }
}

/// Replaces the value of item `key`, unless it was written in the current slot.
pub fn write_metadata_item(
    metadata: &mut Metadata,
    delegate: Address,
    key: &String,
    new_value: Vec<u8>,
    current_slot: u64,
) -> (r: Result<(), ErrorCode>)
    ensures
        match item_update_error(*old(metadata), delegate, key@, current_slot) {
            Some(e) => r == Err::<(), ErrorCode>(e) && *final(metadata) == *old(metadata),
            None => {
                &&& r == Ok::<(), ErrorCode>(())
                &&& exists|i: int|
                    item_update_target(*old(metadata), delegate, key@, current_slot, i)
                        && item_rewritten(
                        old(metadata).items@,
                        final(metadata).items@,
                        i,
                        new_value@,
                        current_slot,
                    )
                &&& final(metadata).same_owners(*old(metadata))
                &&& final(metadata).last_updated_slot == current_slot
            },
        },
        keys_unique(old(metadata).items@) ==> keys_unique(final(metadata).items@),
{
    if delegate != metadata.delegate {
        return Err(ErrorCode::Unauthorized);
    }
    match find_item(&metadata.items, key) {
        None => Err(ErrorCode::KeyNotFound),
        Some(i) => {
            proof {
                assert forall|j: int| first_match(metadata.items@, key@, j) implies j == i by {
                    lemma_first_match_unique(metadata.items@, key@, i as int, j);
                }
            }
            if current_slot <= metadata.items[i].last_updated_slot {
                return Err(ErrorCode::InvalidOperationInCurrentSlot);
            }
            assert(item_update_target(*old(metadata), delegate, key@, current_slot, i as int));
            let ghost before = metadata.items@;
            let mut item = metadata.items.remove(i);
            item.value = new_value;
            item.last_updated_slot = current_slot;
            metadata.items.insert(i, item);
            metadata.last_updated_slot = current_slot;
            assert(metadata.items@ =~= before.update(i as int, metadata.items@[i as int]));
            Ok(())
        },
    }
}

/// Appends to the value of item `key`, unless it was written in the current slot.
pub fn append_metadata_item(
    metadata: &mut Metadata,
    delegate: Address,
    key: &String,
    additional_value: Vec<u8>,
    current_slot: u64,
) -> (r: Result<(), ErrorCode>)
    ensures
        match item_update_error(*old(metadata), delegate, key@, current_slot) {
            Some(e) => r == Err::<(), ErrorCode>(e) && *final(metadata) == *old(metadata),
            None => {
                &&& r == Ok::<(), ErrorCode>(())
                &&& exists|i: int|
                    item_update_target(*old(metadata), delegate, key@, current_slot, i)
                        && item_rewritten(
                        old(metadata).items@,
                        final(metadata).items@,
                        i,
                        old(metadata).items@[i].value@ + additional_value@,
                        current_slot,
                    )
                &&& final(metadata).same_owners(*old(metadata))
                &&& final(metadata).last_updated_slot == current_slot
            },
        },
        keys_unique(old(metadata).items@) ==> keys_unique(final(metadata).items@),
{
    if delegate != metadata.delegate {
        return Err(ErrorCode::Unauthorized);
    }
    match find_item(&metadata.items, key) {
        None => Err(ErrorCode::KeyNotFound),
        Some(i) => {
            proof {
                assert forall|j: int| first_match(metadata.items@, key@, j) implies j == i by {
                    lemma_first_match_unique(metadata.items@, key@, i as int, j);
                }
            }
            if current_slot <= metadata.items[i].last_updated_slot {
                return Err(ErrorCode::InvalidOperationInCurrentSlot);
            }
            assert(item_update_target(*old(metadata), delegate, key@, current_slot, i as int));
            let ghost before = metadata.items@;
            let mut item = metadata.items.remove(i);
            let mut additional = additional_value;
            item.value.append(&mut additional);
            item.last_updated_slot = current_slot;
            metadata.items.insert(i, item);
            metadata.last_updated_slot = current_slot;
            assert(metadata.items@ =~= before.update(i as int, metadata.items@[i as int]));
            Ok(())
        },
    }
}

} // verus!
