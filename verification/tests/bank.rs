use bank_api::account::{AccountType, NewAccount, Repo as AccountRepo};
use bank_api::account_transaction::Repo as AccountTransactionRepo;
use bank_api::amount::Amount;
use bank_api::bank::{BankService, Calendar, NewBankService};
use bank_api::bank_transaction::Repo as BankTransactionRepo;
use bank_api::error::{Error, ErrorKind};
use bank_api::loan::{LoanState, NewLoan, PaymentRepo, Repo as LoanRepo};
use bank_api::types::Date;
use bank_api::user::Repo as UserRepo;
use bank_api::vault::{NewVault, Repo as VaultRepo};

#[derive(Clone, Copy)]
struct MockCalendar {
    curr_date: Date,
}

impl Calendar for MockCalendar {
    fn current_date(&self) -> Date {
        self.curr_date
    }
}

fn service_at(date: Date) -> BankService<MockCalendar> {
    BankService::new(NewBankService {
        user_repo: UserRepo::new(),
        vault_repo: VaultRepo::new(),
        account_repo: AccountRepo::new(),
        bank_transaction_repo: BankTransactionRepo::new(),
        account_transaction_repo: AccountTransactionRepo::new(),
        loan_repo: LoanRepo::new(),
        loan_payment_repo: PaymentRepo::new(),
        calendar: MockCalendar { curr_date: date },
    })
}

fn start_date() -> Date {
    Date::from_ymd(2020, 1, 1)
}

fn checking_account(s: &mut BankService<MockCalendar>, user_id: u128) -> bank_api::account::Account {
    s.account_repo
        .create_account(NewAccount {
            user_id,
            account_type: AccountType::Checking,
            created_at: start_date(),
        })
        .unwrap()
}

fn main_vault(s: &mut BankService<MockCalendar>, initial_amount: i64) -> bank_api::vault::Vault {
    s.vault_repo
        .create(NewVault { name: "main", initial_amount: Amount::from_whole(initial_amount) })
        .unwrap()
}

#[test]
fn deposit() {
    let mut s = service_at(start_date());
    let bob_account = checking_account(&mut s, 1);
    let vault = main_vault(&mut s, 0);

    let deposit_amount = Amount::from_whole(300);
    let bob_account = s.deposit(bob_account.id, &vault.name, &deposit_amount).unwrap();
    assert_eq!(bob_account.amount, deposit_amount);

    let vault = s.vault_repo.find_by_name(&vault.name).unwrap();
    assert_eq!(bob_account.amount, vault.amount);
}

#[test]
fn withdraw() {
    let mut s = service_at(start_date());
    let account = checking_account(&mut s, 1);
    let vault = main_vault(&mut s, 0);

    let deposit_amount = Amount::from_whole(500);
    s.account_repo.increment(account.id, &deposit_amount).unwrap();
    s.vault_repo.increment(&vault.name, &deposit_amount).unwrap();

    let withdraw_amount = Amount::from_whole(300);
    let account = s.withdraw(account.id, &vault.name, &withdraw_amount).unwrap();

    assert_eq!(account.amount, deposit_amount.sub(&withdraw_amount));

    let vault = s.vault_repo.find_by_name(&vault.name).unwrap();
    assert_eq!(account.amount, vault.amount);
}

#[test]
fn withdraw_invalid_funds_err() {
    let mut s = service_at(start_date());
    let bob_account = checking_account(&mut s, 1);
    let vault = main_vault(&mut s, 0);

    let withdraw_amount = Amount::from_whole(500);
    let got_err = s.withdraw(bob_account.id, &vault.name, &withdraw_amount).unwrap_err();

    assert_eq!(got_err, Error::new(ErrorKind::InadequateFunds));
}

#[test]
fn send_funds() {
    let mut s = service_at(start_date());
    let bob_account = checking_account(&mut s, 1);
    let sender_id = bob_account.id;

    let lucy_account = checking_account(&mut s, 2);
    let receiver_id = lucy_account.id;

    let bob_initial_amount = Amount::from_whole(500);
    s.account_repo.increment(sender_id, &bob_initial_amount).unwrap();

    let transfer_amount = Amount::from_whole(250);
    let transaction = s.send_funds(sender_id, receiver_id, &transfer_amount).unwrap();
    assert_eq!(transaction.amount, transfer_amount);

    let bob_account = s.account_repo.find_by_id(sender_id).unwrap();
    assert_eq!(bob_account.amount, bob_initial_amount.sub(&transfer_amount));

    let lucy_account = s.account_repo.find_by_id(receiver_id).unwrap();
    assert_eq!(lucy_account.amount, transfer_amount);

    /* expect error on overdrawn account */
    let transfer_amount = Amount::from_whole(1_000);
    let err = s.send_funds(sender_id, receiver_id, &transfer_amount).unwrap_err();
    assert_eq!(err, Error::new(ErrorKind::InadequateFunds));
}

#[test]
fn pay_loan_payment_due() {
    let mut s = service_at(start_date());
    let vault = main_vault(&mut s, 0);

    let orig_principal = Amount::from_whole(1000);
    let issue_date = start_date();
    let maturity_date = issue_date.increment_date_by_months(12);
    let loan = s
        .loan_repo
        .create(NewLoan {
            user_id: 1,
            vault_name: vault.name.clone(),
            orig_principal,
            balance: orig_principal,
            interest_rate: 200,
            issue_date,
            maturity_date,
            payment_frequency: 1,
            compound_frequency: 1,
            state: LoanState::default(),
        })
        .unwrap();
    let loan = s.loan_repo.find_by_id(loan.id).unwrap();
    assert_eq!(loan.state, LoanState::PendingApproval);

    // activate loan
    let loan = s.loan_repo.set_state(loan.id, LoanState::Active).unwrap();
    assert_eq!(loan.state, LoanState::Active);

    // disburse funds
    let bob_account = checking_account(&mut s, 1);
    s.disburse_loan(&loan, bob_account.id).unwrap();
    let bob_account = s.account_repo.find_by_id(bob_account.id).unwrap();
    assert_eq!(bob_account.amount, loan.orig_principal);

    // schedule and check the first loan payment due
    s.get_next_loan_payment(&loan).unwrap();
    let next_payment_due = s.loan_payments_repo.find_first_unpaid(loan.id).unwrap();

    let next_payment_due = s.pay_loan_payment_due(next_payment_due.id, bob_account.id).unwrap();
    assert!(next_payment_due.principle_transaction_id.is_some());
    assert!(next_payment_due.interest_transaction_id.is_some());

    let loan = s.loan_repo.find_by_id(loan.id).unwrap();
    s.get_next_loan_payment(&loan).unwrap();
    let next_payment_due = s.loan_payments_repo.find_first_unpaid(loan.id).unwrap();
    assert!(next_payment_due.principle_transaction_id.is_none());
    assert!(next_payment_due.interest_transaction_id.is_none());
}

#[test]
fn payback_loan_in_full() {
    let start = start_date();
    let mut s = service_at(start);
    let vault = main_vault(&mut s, 0);

    let orig_principal = Amount::from_whole(1000);
    let issue_date = start;
    let maturity_date = issue_date.increment_date_by_months(6);
    let mut loan = s
        .loan_repo
        .create(NewLoan {
            user_id: 1,
            vault_name: vault.name.clone(),
            orig_principal,
            balance: orig_principal,
            interest_rate: 200,
            issue_date,
            maturity_date,
            payment_frequency: 1,
            compound_frequency: 1,
            state: LoanState::default(),
        })
        .unwrap();

    let bob_account = checking_account(&mut s, 1);
    s.disburse_loan(&loan, bob_account.id).unwrap();

    let mut new_date = start;
    while loan.state != LoanState::Paid {
        loan = s.accrue(&loan).unwrap();
        let next_payment = s.get_next_loan_payment(&loan).unwrap();
        s.pay_loan_payment_due(next_payment.id, bob_account.id).unwrap();
        loan = s.loan_repo.find_by_id(loan.id).unwrap();
        new_date = new_date.increment_date_by_months(1);
        s.calendar = MockCalendar { curr_date: new_date };
    }

    assert_eq!(loan.state, LoanState::Paid);
    assert!(loan.balance.is_zero());
}
