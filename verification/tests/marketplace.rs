use lending_controller::marketplace::AccountCreated;
use lending_controller::marketplace::AccountType;
use lending_controller::marketplace::AuctionStatus;
use lending_controller::marketplace::BidPlaced;
use lending_controller::marketplace::CodeHashSet;
use lending_controller::marketplace::ListingStatus;
use lending_controller::marketplace::TimestampProvider;

struct FixedClock {
    now: u64,
}

impl TimestampProvider for FixedClock {
    fn timestamp(&self) -> u64 {
        self.now
    }
}

#[test]
fn timestamp_provider_reports_its_clock() {
    let clock = FixedClock { now: 1_700_000_000 };
    assert_eq!(clock.timestamp(), 1_700_000_000);
}

#[test]
fn records_carry_their_fields() {
    let created = AccountCreated { account_id: 3, contract_id: 9 };
    assert_eq!(created, AccountCreated { account_id: 3, contract_id: 9 });

    let hash_set = CodeHashSet { code_hash: 0xabcd, account_type: AccountType::Creator };
    assert_eq!(hash_set.account_type, AccountType::Creator);

    let bid = BidPlaced { bidder: 4, auction_id: 12, bid: 1_000 };
    assert_ne!(bid, BidPlaced { bidder: 4, auction_id: 12, bid: 1_001 });
}

#[test]
fn status_enumerations_distinguish_states() {
    assert_ne!(AuctionStatus::InAuction, AuctionStatus::Ended);
    assert_eq!(ListingStatus::OnSale, ListingStatus::OnSale);
    assert_ne!(ListingStatus::Sold, ListingStatus::Cancelled);
}
