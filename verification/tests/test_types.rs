use single_rwa_vault::types::{
    ActionType, ActivityKind, Address, EarlyRedemptionFeePreview, EmergencyProposal, EpochActivity, EpochData,
    RedemptionRequest, Role, TimelockAction,
};

#[test]
fn test_epoch_activity_zero() {
    let z = EpochActivity::zero();
    assert_eq!(z.deposits_count, 0);
    assert_eq!(z.deposits_volume, 0);
    assert_eq!(z.withdrawals_count, 0);
    assert_eq!(z.withdrawals_volume, 0);
    assert_eq!(z.transfers_count, 0);
    assert_eq!(z.transfers_volume, 0);
    assert_eq!(z.redemptions_count, 0);
    assert_eq!(z.redemptions_volume, 0);
    assert_eq!(z.yield_claims_count, 0);
    assert_eq!(z.yield_claims_volume, 0);
    assert_eq!(z.new_investors, 0);
    assert_eq!(z.exiting_investors, 0);
}

#[test]
fn test_full_operator_passes_every_role_check() {
    let all = [
        Role::YieldOperator,
        Role::LifecycleManager,
        Role::ComplianceOfficer,
        Role::TreasuryManager,
        Role::FullOperator,
    ];
    for r in all.iter() {
        assert!(Role::FullOperator.grants(r));
        assert!(r.grants(r));
    }
    assert!(!Role::YieldOperator.grants(&Role::LifecycleManager));
    assert!(!Role::TreasuryManager.grants(&Role::FullOperator));
}

#[test]
fn test_fee_preview_split() {
    let p = EarlyRedemptionFeePreview::from_gross(10_000, 250);
    assert_eq!(p.fee_amount, 250);
    assert_eq!(p.net_assets, 9_750);
    let p = EarlyRedemptionFeePreview::from_gross(99, 1000);
    assert_eq!(p.fee_amount, 9);
    assert_eq!(p.net_assets, 90);
    let p = EarlyRedemptionFeePreview::from_gross(i128::MAX, 10_000);
    assert_eq!(p.fee_amount, i128::MAX);
    assert_eq!(p.net_assets, 0);
}

#[test]
fn test_epoch_data_yield_per_share() {
    let d = EpochData::new(3, 10, 4, 99).unwrap();
    assert_eq!(d.yield_per_share, 2_500_000_000_000_000_000);
    assert_eq!(d.epoch, 3);
    assert_eq!(d.timestamp, 99);
    let d = EpochData::new(1, 10, 0, 0).unwrap();
    assert_eq!(d.yield_per_share, 0);
    assert!(EpochData::new(1, i128::MAX, 1, 0).is_none());
}

#[test]
fn test_plain_records() {
    let r = RedemptionRequest { user: Address { id: 4 }, shares: 10, request_time: 5, processed: false };
    assert_eq!(r.shares, 10);
    let a = TimelockAction {
        action_type: ActionType::Upgrade,
        data: vec![1, 2],
        proposed_at: 1,
        executable_at: 2,
        executed: false,
        cancelled: false,
    };
    assert_eq!(a.action_type, ActionType::Upgrade);
    let e = EmergencyProposal { recipient: Address { id: 1 }, proposed_at: 3, executed: true };
    assert!(e.executed);
}

#[test]
fn test_timelock_delay() {
    let a = TimelockAction::propose(ActionType::TransferAdmin, vec![7], 100, 172_800).unwrap();
    assert_eq!(a.executable_at, 172_900);
    assert_eq!(a.data, vec![7]);
    assert!(!a.is_executable(172_899));
    assert!(a.is_executable(172_900));
    let mut done = a.clone();
    done.executed = true;
    assert!(!done.is_executable(200_000));
    assert!(TimelockAction::propose(ActionType::Upgrade, vec![], u64::MAX, 1).is_none());
}

#[test]
fn test_activity_record_counts_and_saturates() {
    let mut a = EpochActivity::zero();
    a.record(ActivityKind::Deposit, 50, true, false);
    a.record(ActivityKind::Deposit, 25, false, false);
    a.record(ActivityKind::Redemption, 10, false, true);
    assert_eq!(a.deposits_count, 2);
    assert_eq!(a.deposits_volume, 75);
    assert_eq!(a.redemptions_count, 1);
    assert_eq!(a.redemptions_volume, 10);
    assert_eq!(a.new_investors, 1);
    assert_eq!(a.exiting_investors, 1);
    assert_eq!(a.withdrawals_count, 0);
    a.transfers_count = u32::MAX;
    a.transfers_volume = i128::MAX - 1;
    a.record(ActivityKind::Transfer, 5, false, false);
    assert_eq!(a.transfers_count, u32::MAX);
    assert_eq!(a.transfers_volume, i128::MAX);
}
