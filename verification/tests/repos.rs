use bank_api::account::{Account, AccountType, NewAccount, Repo as AccountRepo};
use bank_api::account_transaction::{
    AccountTransaction, NewAccountTransaction, Repo as AccountTransactionRepo,
};
use bank_api::amount::Amount;
use bank_api::bank_transaction::{
    BankTransaction, BankTransactionType, NewBankTransaction, Repo as BankTransactionRepo,
};
use bank_api::loan::{LoanState, NewLoan, NewPayment, PaymentRepo, Repo as LoanRepo};
use bank_api::types::Date;
use bank_api::user::{FindKey, NewUser, Repo as UserRepo};
use bank_api::vault::{NewVault, Repo as VaultRepo};

fn some_date() -> Date {
    Date::from_ymd(2020, 1, 1)
}

fn new_checking_account(repo: &mut AccountRepo, user_id: u128) -> Account {
    repo.create_account(NewAccount {
        user_id,
        account_type: AccountType::Checking,
        created_at: some_date(),
    })
    .unwrap()
}

#[test]
fn create_account() {
    let mut repo = AccountRepo::new();

    let new_account =
        NewAccount { user_id: 7, account_type: AccountType::Checking, created_at: some_date() };

    let want = repo.create_account(new_account).unwrap();

    let got = repo.find_by_id(want.id).unwrap();
    assert_eq!(want, got);
}

#[test]
fn find_accounts_for_user() {
    let mut repo = AccountRepo::new();
    let user_id: u128 = 7;

    let mut want = Vec::new();
    let checking = new_checking_account(&mut repo, user_id);
    let savings = new_checking_account(&mut repo, user_id);
    want.push(checking);
    want.push(savings);

    let got = repo.find_accounts(user_id).unwrap();

    assert_eq!(want, got);
}

#[test]
fn account_deposit_and_withdrawal() {
    let mut repo = AccountRepo::new();
    let checking = new_checking_account(&mut repo, 7);

    // deposit
    let deposit_amount = Amount::from_whole(500);
    let got = repo.increment(checking.id, &deposit_amount).unwrap();

    let want_amount = checking.amount.add(&deposit_amount);
    assert_eq!(got.amount, want_amount, "account's amount should be equal to the deposit");

    let withdraw_amount = Amount::from_whole(250);
    let got = repo.decrement(checking.id, &withdraw_amount).unwrap();

    let want_amount = want_amount.sub(&withdraw_amount);
    assert_eq!(
        got.amount, want_amount,
        "account's amount should be equal to (deposit - withdrawal)"
    );
}

#[test]
fn create_account_transaction() {
    let mut account_repo = AccountRepo::new();
    let sender_account = new_checking_account(&mut account_repo, 1);
    let receiver_account = new_checking_account(&mut account_repo, 2);

    let amount = Amount::from_whole(100);

    let mut repo = AccountTransactionRepo::new();
    let got = repo
        .create(NewAccountTransaction {
            sender_id: sender_account.id,
            receiver_id: receiver_account.id,
            amount,
            created_at: some_date(),
        })
        .unwrap();

    let want = AccountTransaction {
        id: got.id,
        sender_id: sender_account.id,
        receiver_id: receiver_account.id,
        amount,
        created_at: got.created_at,
    };

    assert_eq!(got, want);
}

#[test]
fn create_bank_transaction() {
    let mut account_repo = AccountRepo::new();
    let checking = new_checking_account(&mut account_repo, 1);
    let mut vault_repo = VaultRepo::new();
    let vault =
        vault_repo.create(NewVault { name: "main", initial_amount: Amount::zero() }).unwrap();

    let amount = Amount::from_whole(250);

    let mut repo = BankTransactionRepo::new();
    let got = repo
        .create(NewBankTransaction {
            account_id: checking.id,
            vault_name: &vault.name,
            transaction_type: BankTransactionType::Deposit,
            amount,
            created_at: some_date(),
        })
        .unwrap();

    let want = BankTransaction {
        id: got.id,
        account_id: checking.id,
        vault_name: vault.name,
        transaction_type: BankTransactionType::Deposit,
        amount,
        created_at: got.created_at,
    };

    assert_eq!(got, want);
}

#[test]
fn create_loan() {
    let mut vault_repo = VaultRepo::new();
    let vault =
        vault_repo.create(NewVault { name: "main", initial_amount: Amount::zero() }).unwrap();

    let mut loan_repo = LoanRepo::new();
    let loan = loan_repo
        .create(NewLoan {
            user_id: 1,
            vault_name: vault.name,
            orig_principal: Amount::zero(),
            balance: Amount::zero(),
            interest_rate: 0,
            issue_date: Date::from_ymd(2020, 1, 1),
            maturity_date: Date::from_ymd(2020, 1, 1),
            payment_frequency: 0,
            compound_frequency: 0,
            state: LoanState::default(),
        })
        .unwrap();

    // create loan payment
    let mut loan_payment_repo = PaymentRepo::new();
    let _loan_payment = loan_payment_repo.create(NewPayment {
        loan_id: loan.id,
        principal_due: Amount::zero(),
        interest_due: Amount::zero(),
        due_date: Date::from_ymd(2020, 1, 1),
    });
}

#[test]
fn insert_user() {
    let mut repo = UserRepo::new();
    let user = repo
        .create(NewUser {
            email: "example@gmail.com",
            first_name: "Tom",
            family_name: "Riddle",
            phone_number: Some("555-5555"),
        })
        .unwrap();

    let got_user = repo.find_by_key(FindKey::ID(user.id)).unwrap();
    assert_eq!(got_user, user);
}

#[test]
fn find_user_with_key() {
    let mut repo = UserRepo::new();
    let user = repo
        .create(NewUser {
            email: "example@gmail.com",
            first_name: "Tom",
            family_name: "Riddle",
            phone_number: Some("555-5555"),
        })
        .unwrap();

    // test cases using various FindKeys
    let by_email = repo.find_by_key(FindKey::Email("example@gmail.com")).expect("found user");
    assert_eq!(user, by_email);

    let by_id = repo.find_by_key(FindKey::ID(user.id)).expect("found user");
    assert_eq!(user, by_id);
}
