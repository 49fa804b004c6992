use transfer_policy::address::Address;
use transfer_policy::block_list::{BlockList, ListOwner};
use transfer_policy::error::{ErrorCode, RateLimitError};
use transfer_policy::mint_rate_limit::MintRateLimit;
use transfer_policy::rate_limits::{CreateMintBasedRateLimit, Initialize, Management};
use transfer_policy::sanctioned_transfer_hook::{CreateBlockList, ManageBlockList};

fn address(n: u8) -> Address {
    let mut bytes = [n; 32];
    bytes[0] = 0xee;
    Address::new(bytes)
}

fn blank_limiter() -> MintRateLimit {
    MintRateLimit {
        period_limit: 0,
        current_period_start: 0,
        period_duration: 0,
        mint: Address::default(),
        value_transferred: 0,
    }
}

#[test]
fn the_signer_of_initialize_becomes_the_administrator() {
    let mut ctx = Initialize {
        authority: address(1),
        management: Management { authority: Address::default() },
    };
    assert_eq!(Initialize::handler(&mut ctx), Ok(()));
    assert_eq!(ctx.management.authority, address(1));
    assert!(ctx.management.is_authorized(address(1)));
    assert!(!ctx.management.is_authorized(address(2)));
    assert_eq!(Management::space(), 40);
}

#[test]
fn only_the_administrator_creates_a_rate_limiter() {
    let mut ctx = CreateMintBasedRateLimit {
        authority: address(2),
        management: Management { authority: address(1) },
        mint: address(9),
        rate_limit: blank_limiter(),
    };
    assert_eq!(
        CreateMintBasedRateLimit::handler(&mut ctx, 100, 3600, 1000),
        Err(RateLimitError::Unauthorized)
    );
    assert_eq!(ctx.rate_limit.period_duration, 0);
    ctx.authority = address(1);
    assert_eq!(
        CreateMintBasedRateLimit::handler(&mut ctx, 100, 0, 1000),
        Err(RateLimitError::InvalidPeriodConfig)
    );
    assert_eq!(ctx.rate_limit.period_limit, 0);
    assert_eq!(CreateMintBasedRateLimit::handler(&mut ctx, 100, 3600, 1000), Ok(()));
    assert_eq!(ctx.rate_limit.period_limit, 100);
    assert_eq!(ctx.rate_limit.period_duration, 3600);
    assert_eq!(ctx.rate_limit.current_period_start, 1000);
    assert_eq!(ctx.rate_limit.mint, address(9));
    assert_eq!(ctx.rate_limit.value_transferred, 0);
    assert_eq!(CreateMintBasedRateLimit::validations(&ctx), Ok(()));
}

#[test]
fn block_lists_are_numbered_as_they_are_created() {
    let management = transfer_policy::sanctioned_transfer_hook::Management {
        authority: address(1),
        num_block_lists: 4,
    };
    let mut ctx = CreateBlockList {
        authority: address(2),
        management,
        block_list: BlockList::new(ListOwner::Number(77)),
    };
    assert_eq!(CreateBlockList::handler(&mut ctx), Err(ErrorCode::Unauthorized));
    assert_eq!(ctx.management.num_block_lists, 4);
    ctx.authority = address(1);
    ctx.block_list.add(vec![address(5)]).unwrap();
    assert_eq!(CreateBlockList::handler(&mut ctx), Ok(()));
    assert_eq!(ctx.management.num_block_lists, 5);
    assert!(matches!(ctx.block_list.owner, ListOwner::Number(4)));
    assert!(ctx.block_list.denied_addresses.is_empty());
    let mut management = ctx.management;
    assert_eq!(management.increment_and_get_new_list_number(), 5);
    assert_eq!(management.increment_and_get_new_list_number(), 6);
    assert_eq!(management.num_block_lists, 7);
    assert_eq!(transfer_policy::sanctioned_transfer_hook::Management::space(), 72);
}

#[test]
fn the_first_block_list_belongs_to_its_signer() {
    let mut ctx = transfer_policy::sanctioned_transfer_hook::Initialize {
        authority: address(3),
        block_list: BlockList::new(ListOwner::Number(0)),
    };
    ctx.block_list.add(vec![address(5)]).unwrap();
    assert_eq!(
        transfer_policy::sanctioned_transfer_hook::Initialize::handler(&mut ctx),
        Ok(())
    );
    assert!(matches!(ctx.block_list.owner, ListOwner::Authority(a) if a == address(3)));
    assert!(ctx.block_list.denied_addresses.is_empty());
}

#[test]
fn only_who_administers_a_list_changes_it() {
    let management = transfer_policy::sanctioned_transfer_hook::Management {
        authority: address(1),
        num_block_lists: 1,
    };
    // a list with an owner: the owner changes it, the administrator does not
    let mut ctx = ManageBlockList {
        authority: address(1),
        management,
        block_list: BlockList::new(ListOwner::Authority(address(7))),
    };
    assert!(!ctx.authorized());
    assert_eq!(
        ManageBlockList::add_handler(&mut ctx, vec![address(5)]),
        Err(ErrorCode::Unauthorized)
    );
    assert_eq!(
        ManageBlockList::remove_handler(&mut ctx, vec![address(5)]),
        Err(ErrorCode::Unauthorized)
    );
    assert!(ctx.block_list.denied_addresses.is_empty());
    ctx.authority = address(7);
    assert_eq!(ManageBlockList::add_handler(&mut ctx, vec![address(5), address(6)]), Ok(()));
    assert!(ctx.block_list.transfer_denied(address(5)));
    assert_eq!(ManageBlockList::remove_handler(&mut ctx, vec![address(5)]), Ok(()));
    assert!(!ctx.block_list.transfer_denied(address(5)));
    assert!(ctx.block_list.transfer_denied(address(6)));
    // a numbered list: the administrator changes it
    let mut ctx = ManageBlockList {
        authority: address(1),
        management,
        block_list: BlockList::new(ListOwner::Number(0)),
    };
    assert!(ctx.authorized());
    assert_eq!(ManageBlockList::add_handler(&mut ctx, vec![address(5)]), Ok(()));
    ctx.authority = address(7);
    assert_eq!(
        ManageBlockList::add_handler(&mut ctx, vec![address(6)]),
        Err(ErrorCode::Unauthorized)
    );
    assert_eq!(ctx.block_list.denied_addresses.len(), 1);
}

#[test]
fn a_full_list_refuses_through_the_handler_too() {
    let management = transfer_policy::sanctioned_transfer_hook::Management {
        authority: address(1),
        num_block_lists: 1,
    };
    let mut ctx = ManageBlockList {
        authority: address(1),
        management,
        block_list: BlockList::new(ListOwner::Number(0)),
    };
    let many: Vec<Address> = (0..319u32)
        .map(|i| {
            let mut bytes = [0u8; 32];
            bytes[0] = (i % 256) as u8;
            bytes[1] = (i / 256) as u8;
            Address::new(bytes)
        })
        .collect();
    assert_eq!(
        ManageBlockList::add_handler(&mut ctx, many),
        Err(ErrorCode::BlockListFull)
    );
    assert!(ctx.block_list.denied_addresses.is_empty());
}
