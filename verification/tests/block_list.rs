use transfer_policy::address::Address;
use transfer_policy::block_list::{holds, BlockList, ListOwner};
use transfer_policy::constants::{MAX_ADDRESSES_PER_LIST, SEED};
use transfer_policy::error::ErrorCode;

fn numbered(n: u32) -> Address {
    let mut bytes = [0u8; 32];
    bytes[0] = (n % 256) as u8;
    bytes[1] = (n / 256) as u8;
    bytes[31] = 0xaa;
    Address::new(bytes)
}

#[test]
fn constants_are_as_documented() {
    assert_eq!(MAX_ADDRESSES_PER_LIST, 318);
    assert_eq!(SEED, "anchor");
    assert_eq!(BlockList::space(318), 10220);
    assert_eq!(BlockList::space(0), 44);
}

#[test]
fn block_list_add_is_a_union() {
    let mut list = BlockList::new(ListOwner::Number(4));
    assert!(!list.transfer_denied(numbered(1)));
    assert_eq!(list.add(vec![numbered(1), numbered(2), numbered(1)]), Ok(()));
    assert_eq!(list.denied_addresses.len(), 2);
    assert!(list.transfer_denied(numbered(1)));
    assert!(list.transfer_denied(numbered(2)));
    assert!(!list.transfer_denied(numbered(3)));
    // adding the same again changes nothing
    assert_eq!(list.add(vec![numbered(2), numbered(1)]), Ok(()));
    assert_eq!(list.denied_addresses.len(), 2);
    assert_eq!(list.denied_addresses[0], numbered(1));
    assert_eq!(list.denied_addresses[1], numbered(2));
}

#[test]
fn block_list_remove_is_a_difference() {
    let mut list = BlockList::new(ListOwner::Authority(numbered(900)));
    list.add(vec![numbered(1), numbered(2), numbered(3)]).unwrap();
    list.remove(vec![numbered(2), numbered(7)]);
    assert_eq!(list.denied_addresses.len(), 2);
    assert_eq!(list.denied_addresses[0], numbered(1));
    assert_eq!(list.denied_addresses[1], numbered(3));
    assert!(!list.transfer_denied(numbered(2)));
    // removing what is absent is no error and changes nothing
    list.remove(vec![numbered(2)]);
    assert_eq!(list.denied_addresses.len(), 2);
}

#[test]
fn block_list_add_then_remove_restores_the_others() {
    let mut list = BlockList::new(ListOwner::Number(0));
    list.add(vec![numbered(1), numbered(2)]).unwrap();
    list.add(vec![numbered(2), numbered(3), numbered(4)]).unwrap();
    list.remove(vec![numbered(2), numbered(3), numbered(4)]);
    assert!(list.transfer_denied(numbered(1)));
    assert!(!list.transfer_denied(numbered(2)));
    assert!(!list.transfer_denied(numbered(3)));
    assert!(!list.transfer_denied(numbered(5)));
}

#[test]
fn block_list_is_full_at_its_capacity() {
    let mut list = BlockList::new(ListOwner::Number(0));
    let all: Vec<Address> = (0..318).map(numbered).collect();
    assert_eq!(list.add(all.clone()), Ok(()));
    assert_eq!(list.denied_addresses.len(), 318);
    let before = list.denied_addresses.clone();
    assert_eq!(list.add(vec![numbered(318)]), Err(ErrorCode::BlockListFull));
    assert_eq!(list.denied_addresses, before);
    assert!(!list.transfer_denied(numbered(318)));
    for a in all.iter() {
        assert!(list.transfer_denied(*a));
    }
    // an address that is on the list already can still be added
    assert_eq!(list.add(vec![numbered(17)]), Ok(()));
    assert_eq!(list.denied_addresses, before);
}

#[test]
fn block_list_refuses_more_than_it_holds_at_once() {
    let mut list = BlockList::new(ListOwner::Number(0));
    list.add(vec![numbered(1000)]).unwrap();
    let many: Vec<Address> = (0..318).map(numbered).collect();
    assert_eq!(list.add(many), Err(ErrorCode::BlockListFull));
    assert_eq!(list.denied_addresses.len(), 1);
    assert_eq!(list.denied_addresses[0], numbered(1000));
}

#[test]
fn holds_finds_an_address() {
    let list = vec![numbered(1), numbered(2)];
    assert!(holds(&list, &numbered(2)));
    assert!(!holds(&list, &numbered(3)));
    assert!(!holds(&Vec::new(), &numbered(3)));
}
