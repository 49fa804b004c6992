use transfer_policy::address::Address;
use transfer_policy::authority_rate_limit::AuthorityRateLimit;
use transfer_policy::block_list::{BlockList, ListOwner};
use transfer_policy::codec::OwnerKind;
use transfer_policy::error::PolicyError;
use transfer_policy::limiters::RateLimitExt;
use transfer_policy::mint_rate_limit::MintRateLimit;
use transfer_policy::policy::{decode_policy, encode_policy, policy_kind, PolicyAccount, PolicyKind};
use transfer_policy::wire::{
    read_address, read_i64, read_tag, read_u32, read_u64, write_address, write_i64, write_u32,
    write_u64, AUTHORITY_RATE_LIMIT_TAG, BLOCK_LIST_TAG, MINT_RATE_LIMIT_TAG,
};

fn address(n: u8) -> Address {
    let mut bytes = [n; 32];
    bytes[31] = 0x5a;
    Address::new(bytes)
}

#[test]
fn tags_are_the_first_bytes_of_the_accounts() {
    assert_eq!(
        AUTHORITY_RATE_LIMIT_TAG.to_le_bytes(),
        [155, 36, 149, 133, 58, 70, 81, 19]
    );
    assert_eq!(
        MINT_RATE_LIMIT_TAG.to_le_bytes(),
        [65, 234, 135, 224, 236, 52, 129, 142]
    );
    assert_eq!(BLOCK_LIST_TAG.to_le_bytes(), [22, 89, 214, 247, 1, 150, 200, 178]);
}

#[test]
fn numbers_are_written_lowest_byte_first() {
    let mut out = vec![0xffu8];
    write_u64(&mut out, 0x0102030405060708);
    write_i64(&mut out, -2);
    write_u32(&mut out, 0x0a0b0c0d);
    write_address(&mut out, &address(3));
    assert_eq!(out.len(), 1 + 8 + 8 + 4 + 32);
    assert_eq!(&out[1..9], &[8, 7, 6, 5, 4, 3, 2, 1]);
    assert_eq!(&out[9..17], &[0xfe, 0xff, 0xff, 0xff, 0xff, 0xff, 0xff, 0xff]);
    assert_eq!(&out[17..21], &[0x0d, 0x0c, 0x0b, 0x0a]);
    assert_eq!(read_u64(&out, 1), 0x0102030405060708);
    assert_eq!(read_i64(&out, 9), -2);
    assert_eq!(read_u32(&out, 17), 0x0a0b0c0d);
    assert_eq!(read_address(&out, 21), address(3));
    assert_eq!(read_tag(&out[1..]), Some(0x0102030405060708));
    assert_eq!(read_tag(&out[..7]), None);
}

#[test]
fn mint_rate_limit_bytes() {
    let limiter = MintRateLimit {
        period_limit: 100,
        current_period_start: -5,
        period_duration: 3600,
        mint: address(7),
        value_transferred: 90,
    };
    let bytes = limiter.encode();
    assert_eq!(bytes.len(), 72);
    assert_eq!(&bytes[0..8], &[65, 234, 135, 224, 236, 52, 129, 142]);
    assert_eq!(&bytes[8..16], &[100, 0, 0, 0, 0, 0, 0, 0]);
    assert_eq!(&bytes[16..24], &[0xfb, 0xff, 0xff, 0xff, 0xff, 0xff, 0xff, 0xff]);
    assert_eq!(&bytes[24..32], &[0x10, 0x0e, 0, 0, 0, 0, 0, 0]);
    assert_eq!(&bytes[32..64], &address(7).to_bytes());
    assert_eq!(&bytes[64..72], &[90, 0, 0, 0, 0, 0, 0, 0]);
    let back = MintRateLimit::decode(&bytes).unwrap();
    assert_eq!(back.period_limit, 100);
    assert_eq!(back.current_period_start, -5);
    assert_eq!(back.period_duration, 3600);
    assert_eq!(back.mint, address(7));
    assert_eq!(back.value_transferred, 90);
    // bytes behind the last field are not read
    let mut longer = bytes.clone();
    longer.extend_from_slice(&[1, 2, 3]);
    assert_eq!(MintRateLimit::decode(&longer).unwrap().value_transferred, 90);
}

#[test]
fn mint_rate_limit_bytes_that_are_refused() {
    let limiter = MintRateLimit::new(100, 3600, 1000, address(7)).unwrap();
    let bytes = limiter.encode();
    assert!(matches!(
        MintRateLimit::decode(&bytes[..71]),
        Err(PolicyError::InvalidPolicyAccount)
    ));
    let mut wrong_tag = bytes.clone();
    wrong_tag[0] ^= 1;
    assert!(matches!(
        MintRateLimit::decode(&wrong_tag),
        Err(PolicyError::InvalidPolicyAccount)
    ));
    let mut no_period = bytes.clone();
    for b in no_period[24..32].iter_mut() {
        *b = 0;
    }
    assert!(matches!(
        MintRateLimit::decode(&no_period),
        Err(PolicyError::InvalidPolicyAccount)
    ));
    assert!(matches!(
        MintRateLimit::decode(&[]),
        Err(PolicyError::InvalidPolicyAccount)
    ));
}

#[test]
fn authority_rate_limit_bytes() {
    let mut limiter = AuthorityRateLimit::new(100, 3600, 1000, address(7)).unwrap();
    assert!(limiter.check_and_update(Some(address(1)), 30, 1001).is_ok());
    assert!(limiter.check_and_update(Some(address(2)), 40, 1001).is_ok());
    let bytes = limiter.encode().unwrap();
    assert_eq!(bytes.len(), 68 + 2 * 40);
    assert_eq!(&bytes[0..8], &[155, 36, 149, 133, 58, 70, 81, 19]);
    assert_eq!(&bytes[8..16], &[100, 0, 0, 0, 0, 0, 0, 0]);
    assert_eq!(&bytes[16..24], &[0xe8, 3, 0, 0, 0, 0, 0, 0]);
    assert_eq!(&bytes[32..64], &address(7).to_bytes());
    assert_eq!(&bytes[64..68], &[2, 0, 0, 0]);
    assert_eq!(&bytes[68..100], &address(1).to_bytes());
    assert_eq!(&bytes[100..108], &[30, 0, 0, 0, 0, 0, 0, 0]);
    assert_eq!(&bytes[108..140], &address(2).to_bytes());
    assert_eq!(&bytes[140..148], &[40, 0, 0, 0, 0, 0, 0, 0]);
    let back = AuthorityRateLimit::decode(&bytes).unwrap();
    assert_eq!(back.period_limit, 100);
    assert_eq!(back.current_period_start, 1000);
    assert_eq!(back.period_duration, 3600);
    assert_eq!(back.mint, address(7));
    assert_eq!(back.entries.len(), 2);
    assert_eq!(back.transferred_by(&address(1)), 30);
    assert_eq!(back.transferred_by(&address(2)), 40);
    // an entry that is counted but not there
    assert!(matches!(
        AuthorityRateLimit::decode(&bytes[..147]),
        Err(PolicyError::InvalidPolicyAccount)
    ));
    assert!(matches!(
        AuthorityRateLimit::decode(&bytes[..60]),
        Err(PolicyError::InvalidPolicyAccount)
    ));
    let empty = AuthorityRateLimit::new(1, 1, 0, address(7)).unwrap();
    assert_eq!(empty.encode().unwrap().len(), 68);
}

#[test]
fn block_list_bytes_of_both_kinds() {
    let mut owned = BlockList::new(ListOwner::Authority(address(8)));
    owned.add(vec![address(1), address(2)]).unwrap();
    let bytes = owned.encode().unwrap();
    assert_eq!(bytes.len(), 8 + 32 + 4 + 64);
    assert_eq!(&bytes[0..8], &[22, 89, 214, 247, 1, 150, 200, 178]);
    assert_eq!(&bytes[8..40], &address(8).to_bytes());
    assert_eq!(&bytes[40..44], &[2, 0, 0, 0]);
    assert_eq!(&bytes[44..76], &address(1).to_bytes());
    assert_eq!(&bytes[76..108], &address(2).to_bytes());
    let back = BlockList::decode(&bytes, OwnerKind::Authority).unwrap();
    assert!(matches!(back.owner, ListOwner::Authority(a) if a == address(8)));
    assert_eq!(back.denied_addresses, vec![address(1), address(2)]);

    let mut numbered = BlockList::new(ListOwner::Number(0x0102));
    numbered.add(vec![address(3)]).unwrap();
    let bytes = numbered.encode().unwrap();
    assert_eq!(bytes.len(), 8 + 8 + 4 + 32);
    assert_eq!(&bytes[8..16], &[2, 1, 0, 0, 0, 0, 0, 0]);
    assert_eq!(&bytes[16..20], &[1, 0, 0, 0]);
    let back = BlockList::decode(&bytes, OwnerKind::Number).unwrap();
    assert!(matches!(back.owner, ListOwner::Number(0x0102)));
    assert_eq!(back.denied_addresses, vec![address(3)]);
    // an account with room for more addresses
    let mut roomy = bytes.clone();
    roomy.resize(8 + 8 + 4 + 32 * 318, 0);
    let back = BlockList::decode(&roomy, OwnerKind::Number).unwrap();
    assert_eq!(back.denied_addresses, vec![address(3)]);
    assert!(matches!(
        BlockList::decode(&bytes[..51], OwnerKind::Number),
        Err(PolicyError::InvalidPolicyAccount)
    ));
}

#[test]
fn the_tag_tells_the_kind() {
    let mint = MintRateLimit::new(100, 3600, 1000, address(7)).unwrap().encode();
    let authority = AuthorityRateLimit::new(100, 3600, 1000, address(7))
        .unwrap()
        .encode()
        .unwrap();
    let list = BlockList::new(ListOwner::Number(1)).encode().unwrap();
    assert_eq!(policy_kind(&mint), PolicyKind::MintRateLimit);
    assert_eq!(policy_kind(&authority), PolicyKind::AuthorityRateLimit);
    assert_eq!(policy_kind(&list), PolicyKind::BlockList);
    assert_eq!(policy_kind(&[0u8; 100]), PolicyKind::Unknown);
    assert_eq!(policy_kind(&mint[..7]), PolicyKind::Unknown);
    assert!(matches!(
        decode_policy(&mint, OwnerKind::Number),
        Ok(PolicyAccount::MintRateLimit(_))
    ));
    assert!(matches!(
        decode_policy(&authority, OwnerKind::Number),
        Ok(PolicyAccount::AuthorityRateLimit(_))
    ));
    assert!(matches!(
        decode_policy(&list, OwnerKind::Number),
        Ok(PolicyAccount::BlockList(_))
    ));
    assert!(matches!(
        decode_policy(&[7u8; 100], OwnerKind::Number),
        Err(PolicyError::InvalidPolicyAccount)
    ));
    let again = encode_policy(&decode_policy(&authority, OwnerKind::Number).unwrap()).unwrap();
    assert_eq!(again, authority);
}
