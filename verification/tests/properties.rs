use bank_api::account::{AccountType, NewAccount, Repo as AccountRepo};
use bank_api::account_transaction::Repo as AccountTransactionRepo;
use bank_api::amount::Amount;
use bank_api::bank::{BankService, Calendar, NewBankService};
use bank_api::bank_transaction::{BankTransactionType, Repo as BankTransactionRepo};
use bank_api::db::Error as DbError;
use bank_api::error::{Error, ErrorKind};
use bank_api::loan::{Loan, LoanState, NewLoan, PaymentRepo, Repo as LoanRepo};
use bank_api::types::Date;
use bank_api::user::{NewUser, Repo as UserRepo};
use bank_api::vault::{NewVault, Repo as VaultRepo};

#[derive(Clone, Copy)]
struct FixedCalendar {
    today: Date,
}

impl Calendar for FixedCalendar {
    fn current_date(&self) -> Date {
        self.today
    }
}

fn service_at(date: Date) -> BankService<FixedCalendar> {
    BankService::new(NewBankService {
        user_repo: UserRepo::new(),
        vault_repo: VaultRepo::new(),
        account_repo: AccountRepo::new(),
        bank_transaction_repo: BankTransactionRepo::new(),
        account_transaction_repo: AccountTransactionRepo::new(),
        loan_repo: LoanRepo::new(),
        loan_payment_repo: PaymentRepo::new(),
        calendar: FixedCalendar { today: date },
    })
}

fn jan(day: u32) -> Date {
    Date::from_ymd(2020, 1, day)
}

fn funded_account(s: &mut BankService<FixedCalendar>, user_id: u128, whole: i64) -> u128 {
    let account = s
        .account_repo
        .create_account(NewAccount {
            user_id,
            account_type: AccountType::Checking,
            created_at: jan(1),
        })
        .unwrap();
    if whole > 0 {
        s.account_repo.increment(account.id, &Amount::from_whole(whole)).unwrap();
    }
    account.id
}

/// Over a sequence of deposits and withdrawals, the account's total
/// balance change equals the vault's total balance change.
#[test]
fn conservation_over_deposit_withdraw_sequence() {
    let mut s = service_at(jan(1));
    let account_id = funded_account(&mut s, 1, 0);
    s.vault_repo.create(NewVault { name: "main", initial_amount: Amount::from_whole(40) }).unwrap();

    let account_before = s.account_repo.find_by_id(account_id).unwrap().amount;
    let vault_before = s.vault_repo.find_by_name("main").unwrap().amount;

    s.deposit(account_id, "main", &Amount::from_whole(300)).unwrap();
    s.withdraw(account_id, "main", &Amount::from_whole(120)).unwrap();
    s.deposit(account_id, "main", &Amount::from_whole(5)).unwrap();
    s.withdraw(account_id, "main", &Amount::from_whole(60)).unwrap();

    let account_after = s.account_repo.find_by_id(account_id).unwrap().amount;
    let vault_after = s.vault_repo.find_by_name("main").unwrap().amount;

    let account_delta = account_after.sub(&account_before);
    let vault_delta = vault_after.sub(&vault_before);
    assert_eq!(account_delta, vault_delta);
    assert_eq!(account_delta, Amount::from_whole(125));
}

/// The sender's and receiver's balance deltas of a transfer cancel,
/// and the transferred amount is the magnitude of both.
#[test]
fn transfer_is_zero_sum() {
    let mut s = service_at(jan(1));
    let sender = funded_account(&mut s, 1, 500);
    let receiver = funded_account(&mut s, 2, 80);

    s.send_funds(sender, receiver, &Amount::from_whole(250)).unwrap();

    let sender_after = s.account_repo.find_by_id(sender).unwrap().amount;
    let receiver_after = s.account_repo.find_by_id(receiver).unwrap().amount;
    let sender_delta = sender_after.sub(&Amount::from_whole(500));
    let receiver_delta = receiver_after.sub(&Amount::from_whole(80));
    assert_eq!(sender_delta.add(&receiver_delta), Amount::from_whole(0));
    assert_eq!(sender_delta.neg(), Amount::from_whole(250));
    assert_eq!(receiver_delta, Amount::from_whole(250));
}

/// An overdraw attempt fails with `InadequateFunds` and leaves every
/// balance exactly as it was.
#[test]
fn overdraw_leaves_balances_unchanged() {
    let mut s = service_at(jan(1));
    let account_id = funded_account(&mut s, 1, 200);
    let other_id = funded_account(&mut s, 2, 0);
    s.vault_repo.create(NewVault { name: "main", initial_amount: Amount::from_whole(200) }).unwrap();

    let err = s.withdraw(account_id, "main", &Amount::from_whole(201)).unwrap_err();
    assert!(matches!(err.kind(), ErrorKind::InadequateFunds));

    let err = s.send_funds(account_id, other_id, &Amount::from_whole(201)).unwrap_err();
    assert!(matches!(err.kind(), ErrorKind::InadequateFunds));

    assert_eq!(s.account_repo.find_by_id(account_id).unwrap().amount, Amount::from_whole(200));
    assert_eq!(s.account_repo.find_by_id(other_id).unwrap().amount, Amount::from_whole(0));
    assert_eq!(s.vault_repo.find_by_name("main").unwrap().amount, Amount::from_whole(200));
}

fn six_month_loan(s: &mut BankService<FixedCalendar>, vault_name: &str) -> Loan {
    s.vault_repo
        .create(NewVault { name: vault_name, initial_amount: Amount::from_whole(1000) })
        .unwrap();
    let orig_principal = Amount::from_whole(1000);
    s.loan_repo
        .create(NewLoan {
            user_id: 1,
            vault_name: vault_name.to_string(),
            orig_principal,
            balance: orig_principal,
            interest_rate: 200,
            issue_date: jan(1),
            maturity_date: jan(1).increment_date_by_months(6),
            payment_frequency: 1,
            compound_frequency: 1,
            state: LoanState::Active,
        })
        .unwrap()
}

/// Accruing twice in a row with no intervening balance change yields
/// the same accrued interest.
#[test]
fn accrual_is_idempotent() {
    let mut s = service_at(jan(1));
    let loan = six_month_loan(&mut s, "main");

    let once = s.accrue(&loan).unwrap();
    let twice = s.accrue(&once).unwrap();
    assert_eq!(once.accrued_interest, twice.accrued_interest);
    assert_eq!(once.balance, twice.balance);
}

/// Exact accrual arithmetic: 1000.0000 at 200 basis points over
/// monthly periods is 20.0000 a year, 1.6667 a month (rounded to the
/// nearest minor unit, halves away from zero).
#[test]
fn accrue_exact_value() {
    let mut s = service_at(jan(1));
    let loan = six_month_loan(&mut s, "main");

    let accrued = s.accrue(&loan).unwrap();
    assert_eq!(accrued.accrued_interest, Amount::from_units(16_667));
}

/// Exact amortization arithmetic: 1000.0000 over six months is
/// 166.6667 a month (rounded to the nearest minor unit).
#[test]
fn principal_due_exact_value() {
    let mut s = service_at(jan(1));
    let loan = six_month_loan(&mut s, "main");

    let due = loan.principal_due(jan(1));
    assert_eq!(due, Amount::from_units(1_666_667));
}

/// A freshly issued loan settles to `Paid` with a zero balance after
/// exactly six monthly cycles, each payment stamped with both
/// transaction ids.
#[test]
fn six_month_loan_settles_in_six_payments() {
    let mut s = service_at(jan(1));
    let mut loan = six_month_loan(&mut s, "main");
    let account_id = funded_account(&mut s, 1, 0);
    s.disburse_loan(&loan, account_id).unwrap();

    let mut today = jan(1);
    let mut cycles: usize = 0;
    while loan.state != LoanState::Paid && cycles < 100 {
        loan = s.accrue(&loan).unwrap();
        let next_payment = s.get_next_loan_payment(&loan).unwrap();
        let paid = s.pay_loan_payment_due(next_payment.id, account_id).unwrap();
        assert!(paid.principle_transaction_id.is_some());
        assert!(paid.interest_transaction_id.is_some());
        assert!(!s.loan_repo.find_by_id(loan.id).unwrap().balance.is_negative());
        loan = s.loan_repo.find_by_id(loan.id).unwrap();
        today = today.increment_date_by_months(1);
        s.calendar = FixedCalendar { today };
        cycles += 1;
    }

    assert_eq!(loan.state, LoanState::Paid);
    assert!(loan.balance.is_zero());
    assert_eq!(cycles, 6);
    assert_eq!(s.loan_payments_repo.len(), 6);
    let mut i: usize = 0;
    while i < s.loan_payments_repo.len() {
        let p = s.loan_payments_repo.get(i).unwrap();
        assert!(p.principle_transaction_id.is_some());
        assert!(p.interest_transaction_id.is_some());
        i += 1;
    }
}

/// Scheduling a payment past the loan's maturity date fails with
/// `InvalidDate` and schedules nothing.
#[test]
fn due_date_past_maturity_is_invalid() {
    let mut s = service_at(jan(1));
    s.vault_repo.create(NewVault { name: "main", initial_amount: Amount::from_whole(10) }).unwrap();
    let orig_principal = Amount::from_whole(10);
    let loan = s
        .loan_repo
        .create(NewLoan {
            user_id: 1,
            vault_name: "main".to_string(),
            orig_principal,
            balance: orig_principal,
            interest_rate: 100,
            issue_date: jan(1),
            maturity_date: jan(1).increment_date_by_months(6),
            payment_frequency: 12,
            compound_frequency: 12,
            state: LoanState::Active,
        })
        .unwrap();

    let err = s.create_next_loan_payment(&loan).unwrap_err();
    assert!(matches!(err.kind(), ErrorKind::InvalidDate(_)));
    assert_eq!(s.loan_payments_repo.len(), 0);
}

/// Missing records come back as `RecordNotFound`; duplicate keys as
/// `RecordAlreadyExists`.
#[test]
fn store_error_variants() {
    let mut account_repo = AccountRepo::new();
    assert_eq!(account_repo.find_by_id(42).unwrap_err(), DbError::RecordNotFound);

    let mut vault_repo = VaultRepo::new();
    vault_repo.create(NewVault { name: "main", initial_amount: Amount::zero() }).unwrap();
    let err = vault_repo.create(NewVault { name: "main", initial_amount: Amount::zero() });
    assert_eq!(err.unwrap_err(), DbError::RecordAlreadyExists);
    assert_eq!(vault_repo.find_by_name("reserve").unwrap_err(), DbError::RecordNotFound);

    let mut user_repo = UserRepo::new();
    user_repo
        .create(NewUser {
            email: "a@b.c",
            first_name: "A",
            family_name: "B",
            phone_number: None,
        })
        .unwrap();
    let err = user_repo.create(NewUser {
        email: "a@b.c",
        first_name: "C",
        family_name: "D",
        phone_number: None,
    });
    assert_eq!(err.unwrap_err(), DbError::RecordAlreadyExists);

    let mut s = service_at(jan(1));
    let err = s.deposit(42, "main", &Amount::from_whole(5)).unwrap_err();
    assert!(matches!(err.kind(), ErrorKind::Database(DbError::RecordNotFound)));
    assert_eq!(err.message(), "db error: record does not exist");
    assert_eq!(
        Error::new(ErrorKind::InadequateFunds).message(),
        "not enough funds in account"
    );
}

/// Month arithmetic: rolling over a year end, and a day that does not
/// exist in the target month.
#[test]
fn date_month_arithmetic() {
    let d = Date::from_ymd(2020, 11, 30);
    let e = d.increment_date_by_months(2);
    assert_eq!(e, Date::from_ymd(2021, 1, 30));

    let jan31 = Date::from_ymd(2021, 1, 31);
    assert!(jan31.checked_add_months(1).is_none());
    assert_eq!(jan31.checked_add_months(2), Some(Date::from_ymd(2021, 3, 31)));

    let leap = Date::from_ymd(2020, 2, 29);
    assert!(leap.checked_add_months(12).is_none());
    assert_eq!(Date::from_ymd(2019, 12, 29).checked_add_months(2), Some(leap));
}

/// The canonical lowercase-snake names round-trip through the
/// persistence boundary, and unknown names are rejected.
#[test]
fn enum_keys_round_trip() {
    let states =
        [LoanState::PendingApproval, LoanState::Active, LoanState::Paid, LoanState::Default];
    for state in states {
        assert_eq!(LoanState::from_key(&state.to_key()), Some(state));
    }
    assert_eq!(LoanState::to_key(&LoanState::PendingApproval), "pending_approval");
    assert_eq!(LoanState::from_key("closed"), None);

    let kinds = [
        BankTransactionType::Deposit,
        BankTransactionType::Withdraw,
        BankTransactionType::LoanPrincipal,
        BankTransactionType::PrincipalRepayment,
        BankTransactionType::InterestRepayment,
    ];
    for kind in kinds {
        assert_eq!(BankTransactionType::from_key(&kind.to_key()), Some(kind));
    }
    assert_eq!(BankTransactionType::from_key("transfer"), None);

    assert_eq!(AccountType::from_key("checking"), Some(AccountType::Checking));
    assert_eq!(AccountType::from_key("savings"), Some(AccountType::Savings));
    assert_eq!(AccountType::to_key(&AccountType::Savings), "savings");
    assert_eq!(AccountType::from_key("current"), None);
}

/// Division rounds to the nearest minor unit, halves away from zero.
#[test]
fn amount_rounding_rule() {
    assert_eq!(Amount::from_units(5).div_int(2), Amount::from_units(3));
    assert_eq!(Amount::from_units(-5).div_int(2), Amount::from_units(-3));
    assert_eq!(Amount::from_units(7).div_int(3), Amount::from_units(2));
    assert_eq!(Amount::from_units(8).div_int(3), Amount::from_units(3));
    assert_eq!(Amount::from_whole(1000).times_bps(200), Amount::from_whole(20));
    assert_eq!(Amount::from_units(24_999).times_bps(1), Amount::from_units(2));
}
