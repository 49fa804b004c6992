use transfer_policy::address::Address;
use transfer_policy::authority_rate_limit::AuthorityRateLimit;
use transfer_policy::block_list::{BlockList, ListOwner};
use transfer_policy::codec::OwnerKind;
use transfer_policy::error::PolicyError;
use transfer_policy::hook::{check_account, evaluate, store, TransferHook};
use transfer_policy::mint_rate_limit::MintRateLimit;
use transfer_policy::policy::{Participants, PolicyAccount};
use transfer_policy::token_account::resolve_owner;

fn address(n: u8) -> Address {
    let mut bytes = [n; 32];
    bytes[31] = 0x77;
    Address::new(bytes)
}

/// The bytes of a token account without extensions that `owner` owns.
fn token_account(owner: Address) -> Vec<u8> {
    let mut data = vec![0u8; 165];
    data[0..32].copy_from_slice(&address(200).to_bytes());
    data[32..64].copy_from_slice(&owner.to_bytes());
    data[64..72].copy_from_slice(&1_000u64.to_le_bytes());
    data[108] = 1;
    data
}

fn mint_limiter(limit: u64, used: u64) -> Vec<u8> {
    let mut limiter = MintRateLimit::new(limit, 3600, 1000, address(200)).unwrap();
    limiter.value_transferred = used;
    limiter.encode()
}

fn block_list(denied: Vec<Address>) -> Vec<u8> {
    let mut list = BlockList::new(ListOwner::Number(1));
    list.add(denied).unwrap();
    list.encode().unwrap()
}

fn who() -> Participants {
    Participants { authority: address(1), source_owner: address(2), destination_owner: address(3) }
}

fn hook() -> TransferHook {
    TransferHook {
        source_token: token_account(address(2)),
        mint: address(200),
        destination_token: token_account(address(3)),
        owner: address(1),
        extra_account_meta_list_owner: address(100),
    }
}

#[test]
fn owner_is_read_from_the_token_account() {
    let data = token_account(address(42));
    assert_eq!(resolve_owner(&data), Ok(address(42)));
    assert_ne!(resolve_owner(&data), Ok(address(200)));
    assert_eq!(resolve_owner(&data[..164]), Err(PolicyError::InvalidTokenAccount));
    assert_eq!(resolve_owner(&[]), Err(PolicyError::InvalidTokenAccount));
    // an account that was never initialized
    let mut blank = token_account(address(42));
    blank[108] = 0;
    assert_eq!(resolve_owner(&blank), Err(PolicyError::InvalidTokenAccount));
}

#[test]
fn a_listed_destination_owner_is_denied_whatever_the_quota() {
    let mut accounts = vec![mint_limiter(100, 0), block_list(vec![address(3)])];
    let r = hook().handler(&address(100), OwnerKind::Number, &mut accounts, 10, 1001);
    assert_eq!(r, Err(PolicyError::Denied));
    // the limiter in front of the list has counted the transfer
    assert_eq!(MintRateLimit::decode(&accounts[0]).unwrap().value_transferred, 10);
    assert_eq!(accounts[1], block_list(vec![address(3)]));
}

#[test]
fn a_list_in_front_is_consulted_before_the_limiter() {
    let mut accounts = vec![block_list(vec![address(2)]), mint_limiter(100, 100)];
    let r = hook().handler(&address(100), OwnerKind::Number, &mut accounts, 10, 1001);
    assert_eq!(r, Err(PolicyError::Denied));
    assert_eq!(accounts[1], mint_limiter(100, 100));
    // with nobody listed the exhausted limiter refuses
    let mut accounts = vec![block_list(vec![address(9)]), mint_limiter(100, 100)];
    let r = hook().handler(&address(100), OwnerKind::Number, &mut accounts, 10, 1001);
    assert_eq!(r, Err(PolicyError::RateLimitExceeded));
}

#[test]
fn each_participant_is_looked_up() {
    for listed in [address(1), address(2), address(3)] {
        let mut accounts = vec![block_list(vec![address(50), listed])];
        assert_eq!(
            hook().handler(&address(100), OwnerKind::Number, &mut accounts, 10, 1001),
            Err(PolicyError::Denied)
        );
    }
    let mut accounts = vec![block_list(vec![address(50), address(200)])];
    assert_eq!(
        hook().handler(&address(100), OwnerKind::Number, &mut accounts, 10, 1001),
        Ok(())
    );
}

#[test]
fn a_transfer_that_passes_is_counted_everywhere() {
    let authority_limiter = AuthorityRateLimit::new(50, 3600, 1000, address(200))
        .unwrap()
        .encode()
        .unwrap();
    let mut accounts = vec![
        mint_limiter(100, 20),
        block_list(vec![address(9)]),
        authority_limiter,
    ];
    let r = hook().handler(&address(100), OwnerKind::Number, &mut accounts, 30, 1001);
    assert_eq!(r, Ok(()));
    assert_eq!(MintRateLimit::decode(&accounts[0]).unwrap().value_transferred, 50);
    let counted = AuthorityRateLimit::decode(&accounts[2]).unwrap();
    assert_eq!(counted.entries.len(), 1);
    assert_eq!(counted.transferred_by(&address(1)), 30);
    assert_eq!(counted.transferred_by(&address(2)), 0);
    // the account has grown by the entry
    assert_eq!(accounts[2].len(), 68 + 40);
    // a second transfer of the same authority exceeds its quota; the mint has counted it by then
    let r = hook().handler(&address(100), OwnerKind::Number, &mut accounts, 30, 1002);
    assert_eq!(r, Err(PolicyError::RateLimitExceeded));
    assert_eq!(MintRateLimit::decode(&accounts[0]).unwrap().value_transferred, 80);
    assert_eq!(
        AuthorityRateLimit::decode(&accounts[2]).unwrap().transferred_by(&address(1)),
        30
    );
}

#[test]
fn the_hook_refuses_what_it_cannot_read() {
    let mut accounts = vec![mint_limiter(100, 0)];
    let untouched = accounts.clone();
    // the list of accounts belongs to another program
    assert_eq!(
        hook().handler(&address(101), OwnerKind::Number, &mut accounts, 10, 1001),
        Err(PolicyError::InvalidExtraAccountMetasList)
    );
    assert_eq!(accounts, untouched);
    let mut broken = hook();
    broken.source_token.truncate(100);
    assert_eq!(
        broken.handler(&address(100), OwnerKind::Number, &mut accounts, 10, 1001),
        Err(PolicyError::InvalidTokenAccount)
    );
    let mut broken = hook();
    broken.destination_token[108] = 9;
    assert_eq!(
        broken.validations(&address(100), OwnerKind::Number, &mut accounts, 10, 1001),
        Err(PolicyError::InvalidTokenAccount)
    );
    assert_eq!(accounts, untouched);
    // an account with a tag that names nothing
    let mut accounts = vec![mint_limiter(100, 0), vec![1u8; 80], mint_limiter(100, 0)];
    assert_eq!(
        hook().handler(&address(100), OwnerKind::Number, &mut accounts, 10, 1001),
        Err(PolicyError::InvalidPolicyAccount)
    );
    assert_eq!(MintRateLimit::decode(&accounts[0]).unwrap().value_transferred, 10);
    assert_eq!(MintRateLimit::decode(&accounts[2]).unwrap().value_transferred, 0);
    // no accounts at all: nothing refuses
    let mut none: Vec<Vec<u8>> = Vec::new();
    assert_eq!(
        hook().handler(&address(100), OwnerKind::Number, &mut none, 10, 1001),
        Ok(())
    );
}

#[test]
fn evaluate_rolls_a_limiter_over() {
    let mut accounts = vec![mint_limiter(100, 100)];
    assert_eq!(
        evaluate(&who(), 1, 1001, OwnerKind::Number, &mut accounts),
        Err(PolicyError::RateLimitExceeded)
    );
    assert_eq!(accounts[0], mint_limiter(100, 100));
    assert_eq!(evaluate(&who(), 1, 4600 + 3600, OwnerKind::Number, &mut accounts), Ok(()));
    let after = MintRateLimit::decode(&accounts[0]).unwrap();
    assert_eq!(after.current_period_start, 8200);
    assert_eq!(after.value_transferred, 1);
}

#[test]
fn one_account_is_all_or_nothing() {
    let mut data = mint_limiter(100, 95);
    data.extend_from_slice(&[9, 9, 9]);
    let before = data.clone();
    assert_eq!(
        check_account(&mut data, &who(), 6, 1001, OwnerKind::Number),
        Err(PolicyError::RateLimitExceeded)
    );
    assert_eq!(data, before);
    assert_eq!(check_account(&mut data, &who(), 5, 1001, OwnerKind::Number), Ok(()));
    assert_eq!(MintRateLimit::decode(&data).unwrap().value_transferred, 100);
    // what lies behind the fields stays
    assert_eq!(&data[72..], &[9, 9, 9]);
    assert_eq!(data.len(), 75);
}

#[test]
fn store_writes_over_the_start() {
    let mut data = vec![1u8, 2, 3, 4, 5];
    store(&mut data, vec![9, 8]);
    assert_eq!(data, vec![9, 8, 3, 4, 5]);
    store(&mut data, vec![7, 7, 7, 7, 7, 7]);
    assert_eq!(data, vec![7, 7, 7, 7, 7, 7]);
    store(&mut data, vec![]);
    assert_eq!(data, vec![7, 7, 7, 7, 7, 7]);
}

#[test]
fn a_policy_is_checked_in_memory() {
    let mut list = BlockList::new(ListOwner::Number(1));
    list.add(vec![address(3)]).unwrap();
    let mut policy = PolicyAccount::BlockList(list);
    assert_eq!(policy.check(&who(), 1, 0), Err(PolicyError::Denied));
    let mut policy =
        PolicyAccount::MintRateLimit(MintRateLimit::new(10, 60, 0, address(200)).unwrap());
    assert_eq!(policy.check(&who(), 10, 5), Ok(()));
    assert_eq!(policy.check(&who(), 1, 6), Err(PolicyError::RateLimitExceeded));
    let mut policy = PolicyAccount::AuthorityRateLimit(
        AuthorityRateLimit::new(10, 60, 0, address(200)).unwrap(),
    );
    assert_eq!(policy.check(&who(), 10, 5), Ok(()));
    assert_eq!(policy.check(&who(), 1, 6), Err(PolicyError::RateLimitExceeded));
    match policy {
        PolicyAccount::AuthorityRateLimit(l) => assert_eq!(l.transferred_by(&address(1)), 10),
        _ => unreachable!(),
    }
}

#[test]
fn the_delegate_hook_looks_up_sender_receiver_and_delegate() {
    let hook = |denied: Vec<Address>| {
        let mut list = BlockList::new(ListOwner::Number(1));
        list.add(denied).unwrap();
        transfer_policy::sanctioned_transfer_hook::TransferHook {
            sender_token_account: token_account(address(2)),
            delegate_token_account: token_account(address(3)),
            delegate_owner: address(4),
            block_list_account: list,
        }
    };
    let handler = transfer_policy::sanctioned_transfer_hook::TransferHook::handler;
    assert_eq!(handler(&hook(vec![address(9)])), Ok(()));
    assert_eq!(handler(&hook(vec![address(2)])), Err(PolicyError::Denied));
    assert_eq!(handler(&hook(vec![address(3)])), Err(PolicyError::Denied));
    assert_eq!(handler(&hook(vec![address(4)])), Err(PolicyError::Denied));
    // a listed sender is denied before the receiver's account is read
    let mut broken = hook(vec![address(2)]);
    broken.delegate_token_account.truncate(10);
    assert_eq!(handler(&broken), Err(PolicyError::Denied));
    let mut broken = hook(vec![address(9)]);
    broken.delegate_token_account.truncate(10);
    assert_eq!(handler(&broken), Err(PolicyError::InvalidTokenAccount));
    let mut broken = hook(vec![address(3)]);
    broken.sender_token_account.truncate(10);
    assert_eq!(handler(&broken), Err(PolicyError::InvalidTokenAccount));
}
