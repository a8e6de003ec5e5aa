use council::allowances::{
    deduct_allowance, handle_decrease_allowance, handle_increase_allowance, query_allowance,
    AllowanceError, AllowanceResponse, AllowanceStore, BlockInfo, Expiration,
};

fn increase(
    store: &mut AllowanceStore,
    owner: &str,
    spender: &str,
    amount: u128,
    expires: Option<Expiration>,
) -> Result<(), AllowanceError> {
    handle_increase_allowance(store, String::from(owner), String::from(spender), amount, expires)
}

fn decrease(
    store: &mut AllowanceStore,
    owner: &str,
    spender: &str,
    amount: u128,
    expires: Option<Expiration>,
) -> Result<(), AllowanceError> {
    handle_decrease_allowance(store, String::from(owner), String::from(spender), amount, expires)
}

#[test]
fn increase_decrease_allowances() {
    let mut store = AllowanceStore::new();

    let owner = "addr0001";
    let spender = "addr0002";

    // no allowance to start
    let allowance = query_allowance(&store, owner, spender);
    assert_eq!(allowance, AllowanceResponse::default());

    // set allowance with height expiration
    let allow1: u128 = 7777;
    let expires = Expiration::AtHeight(5432);
    increase(&mut store, owner, spender, allow1, Some(expires)).unwrap();

    // ensure it looks good
    let allowance = query_allowance(&store, owner, spender);
    assert_eq!(allowance, AllowanceResponse { allowance: allow1, expires });

    // decrease it a bit with no expire set - stays the same
    let lower: u128 = 4444;
    let allow2 = allow1 - lower;
    decrease(&mut store, owner, spender, lower, None).unwrap();
    let allowance = query_allowance(&store, owner, spender);
    assert_eq!(allowance, AllowanceResponse { allowance: allow2, expires });

    // increase it some more and override the expires
    let raise: u128 = 87654;
    let allow3 = allow2 + raise;
    let new_expire = Expiration::AtTime(8888888888);
    increase(&mut store, owner, spender, raise, Some(new_expire)).unwrap();
    let allowance = query_allowance(&store, owner, spender);
    assert_eq!(allowance, AllowanceResponse { allowance: allow3, expires: new_expire });

    // decrease it below 0
    decrease(&mut store, owner, spender, 99988647623876347, None).unwrap();
    let allowance = query_allowance(&store, owner, spender);
    assert_eq!(allowance, AllowanceResponse::default());
}

#[test]
fn allowances_independent() {
    let mut store = AllowanceStore::new();

    let owner = "addr0001";
    let spender = "addr0002";
    let spender2 = "addr0003";

    // no allowance to start
    assert_eq!(query_allowance(&store, owner, spender), AllowanceResponse::default());
    assert_eq!(query_allowance(&store, owner, spender2), AllowanceResponse::default());
    assert_eq!(query_allowance(&store, spender, spender2), AllowanceResponse::default());

    // set allowance with height expiration
    let allow1: u128 = 7777;
    let expires = Expiration::AtHeight(5432);
    increase(&mut store, owner, spender, allow1, Some(expires)).unwrap();

    // set other allowance with no expiration
    let allow2: u128 = 87654;
    increase(&mut store, owner, spender2, allow2, None).unwrap();

    // check they are proper
    let expect_one = AllowanceResponse { allowance: allow1, expires };
    let expect_two = AllowanceResponse { allowance: allow2, expires: Expiration::Never };
    assert_eq!(query_allowance(&store, owner, spender), expect_one);
    assert_eq!(query_allowance(&store, owner, spender2), expect_two);
    assert_eq!(query_allowance(&store, spender, spender2), AllowanceResponse::default());

    // also allow spender -> spender2 with no interference
    let allow3: u128 = 1821;
    let expires3 = Expiration::AtTime(3767626296);
    increase(&mut store, spender, spender2, allow3, Some(expires3)).unwrap();
    let expect_three = AllowanceResponse { allowance: allow3, expires: expires3 };
    assert_eq!(query_allowance(&store, owner, spender), expect_one);
    assert_eq!(query_allowance(&store, owner, spender2), expect_two);
    assert_eq!(query_allowance(&store, spender, spender2), expect_three);
}

#[test]
fn no_self_allowance() {
    let mut store = AllowanceStore::new();

    let owner = "addr0001";

    // self-allowance
    let res = increase(&mut store, owner, owner, 7777, None);
    assert_eq!(res.unwrap_err(), AllowanceError::CannotSetToOwnAccount,
        "Cannot set allowance to own account");

    // decrease self-allowance
    let res = decrease(&mut store, owner, owner, 7777, None);
    assert_eq!(res.unwrap_err(), AllowanceError::CannotSetToOwnAccount,
        "Cannot set allowance to own account");
}

#[test]
fn deduct_respects_limits() {
    let mut store = AllowanceStore::new();

    let owner = "addr0001";
    let spender = "addr0002";
    let block = BlockInfo { height: 12_345, time: 1_571_797_419 };

    // provide an allowance
    let allow1: u128 = 77777;
    increase(&mut store, owner, spender, allow1, None).unwrap();

    // valid deduction of part of the allowance
    let transfer: u128 = 44444;
    let remaining = deduct_allowance(&mut store, owner, spender, &block, transfer).unwrap();
    assert_eq!(remaining, AllowanceResponse {
        allowance: allow1 - transfer,
        expires: Expiration::Never,
    });
    assert_eq!(query_allowance(&store, owner, spender), remaining);

    // cannot deduct more than the allowance
    let res = deduct_allowance(&mut store, owner, spender, &block, 33443 + 77777);
    assert_eq!(res.unwrap_err(), AllowanceError::Underflow);

    // raise the limit but set the expiration to the current height: the
    // allowance is now expired and unusable
    increase(&mut store, owner, spender, 1000, Some(Expiration::AtHeight(block.height)))
        .unwrap();
    let res = deduct_allowance(&mut store, owner, spender, &block, 33443);
    assert_eq!(res.unwrap_err(), AllowanceError::Expired, "Allowance is expired");

    // deducting from an account that granted nothing fails
    let res = deduct_allowance(&mut store, spender, owner, &block, 1);
    assert_eq!(res.unwrap_err(), AllowanceError::NoAllowanceGranted);
}

#[test]
fn increase_allowance_overflow() {
    let mut store = AllowanceStore::new();

    increase(&mut store, "addr0001", "addr0002", u128::MAX - 5, None).unwrap();
    let res = increase(&mut store, "addr0001", "addr0002", 6, None);
    assert_eq!(res.unwrap_err(), AllowanceError::Overflow);

    // the stored allowance is untouched by the failed increase
    assert_eq!(
        query_allowance(&store, "addr0001", "addr0002"),
        AllowanceResponse { allowance: u128::MAX - 5, expires: Expiration::Never }
    );
}

#[test]
fn decrease_absent_allowance() {
    let mut store = AllowanceStore::new();
    let res = decrease(&mut store, "addr0001", "addr0002", 1, None);
    assert_eq!(res.unwrap_err(), AllowanceError::NoAllowanceGranted);
}
