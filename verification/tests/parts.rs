use kitty_demo::allocator::IdAllocator;
use kitty_demo::error::Error;
use kitty_demo::event::Event;
use kitty_demo::gender::{gen_gender, Gender};
use kitty_demo::kitty::Kitties;
use kitty_demo::origin::{ensure_signed, Origin};
use kitty_demo::store::{remove_id, OwnershipIndex, RecordStore};

#[test]
fn gender_follows_the_parity_of_the_length() {
    assert_eq!(gen_gender(&[]), Gender::Male);
    assert_eq!(gen_gender(&[0x01]), Gender::Female);
    assert_eq!(gen_gender(&[0x01, 0x02]), Gender::Male);
    assert_eq!(gen_gender(&[0xff, 0xff, 0xff]), Gender::Female);
    assert_eq!(gen_gender(&[0u8; 1000]), Gender::Male);
    assert_eq!(gen_gender(&[0u8; 1001]), Gender::Female);
}

#[test]
fn gender_ignores_the_bytes() {
    for len in 0..20usize {
        let zeros = vec![0u8; len];
        let others: Vec<u8> = (0..len).map(|i| (i * 37 + 11) as u8).collect();
        let longer = vec![7u8; len + 2];
        assert_eq!(gen_gender(&zeros), gen_gender(&others));
        assert_eq!(gen_gender(&zeros), gen_gender(&longer));
        assert_ne!(gen_gender(&zeros), gen_gender(&vec![0u8; len + 1]));
    }
}

#[test]
fn the_default_gender_is_male() {
    assert_eq!(Gender::default(), Gender::Male);
}

#[test]
fn only_a_signed_origin_names_a_principal() {
    assert_eq!(ensure_signed(Origin::Signed(5)), Ok(5));
    assert_eq!(ensure_signed(Origin::Signed(0)), Ok(0));
    assert_eq!(ensure_signed(Origin::Signed(u64::MAX)), Ok(u64::MAX));
    assert_eq!(ensure_signed(Origin::Root), Err(Error::Unauthenticated));
    assert_eq!(ensure_signed(Origin::Unsigned), Err(Error::Unauthenticated));
}

#[test]
fn every_error_has_its_message() {
    assert_eq!(Error::Unauthenticated.message(), "The request is not signed");
    assert_eq!(Error::CapacityExceeded.message(), "The owner cannot hold more kitties");
    assert_eq!(Error::NotFound.message(), "This kitty does not exist");
    assert_eq!(Error::NotOwner.message(), "You do not own this kitty");
}

#[test]
fn the_allocator_counts_from_one() {
    let mut ids = IdAllocator::new();
    assert_eq!(ids.last(), 0);
    assert_eq!(ids.next(), 1);
    assert_eq!(ids.last(), 1);
    assert_eq!(ids.next(), 2);
    assert_eq!(ids.next(), 3);
    assert_eq!(ids.last(), 3);
    let mut copy = ids.clone();
    assert_eq!(copy.next(), 4);
    assert_eq!(ids.last(), 3);
}

fn kitty(id: u32, owner: u64) -> Kitties {
    Kitties { id, dna: vec![id as u8], owner, price: 1, gender: Gender::Female, create_date: 9 }
}

#[test]
fn the_record_store_keeps_what_was_put() {
    let mut store = RecordStore::new();
    assert_eq!(store.get(1), None);
    store.put(1, kitty(1, 10));
    store.put(2, kitty(2, 20));
    assert_eq!(store.get(1), Some(kitty(1, 10)));
    assert_eq!(store.get(2), Some(kitty(2, 20)));
    assert_eq!(store.get(3), None);
    store.put(1, kitty(1, 30));
    assert_eq!(store.get(1), Some(kitty(1, 30)));
    assert_eq!(store.get(2), Some(kitty(2, 20)));
    assert_eq!(store.clone(), store);
}

#[test]
fn the_index_replaces_whole_collections() {
    let mut index = OwnershipIndex::new();
    assert_eq!(index.get(1), Vec::<u32>::new());
    assert_eq!(index.count(1), 0);
    index.put(1, vec![3, 1, 2]);
    index.put(2, vec![]);
    assert_eq!(index.get(1), vec![3, 1, 2]);
    assert_eq!(index.count(1), 3);
    assert_eq!(index.get(2), Vec::<u32>::new());
    assert_eq!(index.count(2), 0);
    index.put(1, vec![2]);
    assert_eq!(index.get(1), vec![2]);
    assert_eq!(index.count(1), 1);
    assert_eq!(index.clone(), index);
}

#[test]
fn removal_is_a_filter() {
    assert_eq!(remove_id(&vec![], 1), Vec::<u32>::new());
    assert_eq!(remove_id(&vec![1], 1), Vec::<u32>::new());
    assert_eq!(remove_id(&vec![1, 2, 3], 2), vec![1, 3]);
    assert_eq!(remove_id(&vec![1, 2, 3], 1), vec![2, 3]);
    assert_eq!(remove_id(&vec![1, 2, 3], 3), vec![1, 2]);
    assert_eq!(remove_id(&vec![1, 2, 3], 4), vec![1, 2, 3]);
    assert_eq!(remove_id(&vec![5, 1, 5, 2, 5], 5), vec![1, 2]);
}

#[test]
fn copies_equal_what_they_copy() {
    let first = kitty(7, 70);
    assert_eq!(first.clone(), first);
    let event = Event::KittyStore(vec![1, 2, 3], 4);
    assert_eq!(event.clone(), event);
}
