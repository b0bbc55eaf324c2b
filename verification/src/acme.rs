//! The ACME account, and how long a certificate is still valid.

use instant_acme::AccountCredentials;
use vstd::prelude::*;
use vstd::string::*;

use crate::bindings::{
    certificate_end, credentials_from_json, credentials_to_json, parse_not_after, parse_pem,
    pem_contents, stored_credentials,
};
use crate::config::Config;
use crate::failure::Failure;
use crate::files::{plain_name, steps_view, write_file, write_steps, writes, FilePath, FileStep};
use crate::text::{cat2, cat3, cat4, is_alnum};

verus! {

// ---- the account ---------------------------------------------------------

/// The name of a directory with everything but ASCII letters and digits replaced.
pub open spec fn account_tag(directory: Seq<char>) -> Seq<char> {
    Seq::new(
        directory.len(),
        |i: int|
            if is_alnum(directory[i]) {
                directory[i]
            } else {
                '_'
            },
    )
}

/// The name of the file with the credentials for a directory.
pub open spec fn account_file(directory: Seq<char>) -> Seq<char> {
    "account-"@ + account_tag(directory) + ".json"@
}

/// The file with the account's credentials.
pub open spec fn account_place(cfg: Config) -> FilePath<Seq<char>> {
    FilePath { dir: cfg.state_dir@, file: account_file(cfg.acme.directory@) }
}

/// The file with the account's credentials.
pub fn account_path(cfg: &Config) -> (r: FilePath<String>)
    ensures
        r@ == account_place(*cfg),
{
    let directory = cfg.acme.directory.as_str();
    let n: usize = directory.unicode_len();
    let mut tag = String::new();
    let mut i: usize = 0;
    assert(tag@ =~= account_tag(directory@).take(0));
    while i < n
        invariant
            n == directory@.len(),
            i <= n,
            tag@ == account_tag(directory@).take(i as int),
        decreases n - i,
    {
        let c = directory.get_char(i);
        let plain = ('0' <= c && c <= '9') || ('a' <= c && c <= 'z') || ('A' <= c && c <= 'Z');
        tag.push(if plain {
            c
        } else {
            '_'
        });
        assert(tag@ =~= account_tag(directory@).take(i + 1));
        i = i + 1;
    }
    assert(account_tag(directory@).take(n as int) =~= account_tag(directory@));
    FilePath { dir: cfg.state_dir.clone(), file: cat3("account-", tag.as_str(), ".json") }
}

/// The name of the file with the credentials holds nothing but ASCII letters, digits,
/// dashes, dots and underscores, whatever the directory is called, so that it lies in
/// the state directory.
pub proof fn lemma_account_file(directory: Seq<char>)
    ensures
        forall|i: int|
            0 <= i < account_file(directory).len() ==> {
                let c = #[trigger] account_file(directory)[i];
                is_alnum(c) || c == '-' || c == '_' || c == '.'
            },
        plain_name(account_file(directory)),
{
    reveal_strlit("account-");
    reveal_strlit(".json");
    reveal_strlit(".");
    reveal_strlit("..");
    let file = account_file(directory);
    let tag = account_tag(directory);
    assert forall|i: int| 0 <= i < file.len() implies {
        let c = #[trigger] file[i];
        is_alnum(c) || c == '-' || c == '_' || c == '.'
    } by {
        if i < 8 {
            assert(file[i] == "account-"@[i]);
        } else if i < 8 + tag.len() {
            assert(file[i] == tag[i - 8]);
        } else {
            assert(file[i] == ".json"@[i - 8 - tag.len()]);
        }
    }
}

/// What came of reading the file with the credentials.
#[derive(Debug)]
pub enum AccountFile {
    /// There is no such file.
    Missing,
    /// The file could not be read, and why.
    Unreadable(String),
    /// What the file holds.
    Text(String),
}

/// A request for a new account. `S` stands for a text.
#[derive(Debug)]
pub struct AccountRequest<S> {
    pub contact: S,
    pub terms_of_service_agreed: bool,
    pub only_return_existing: bool,
    pub directory: S,
}

/// How the account is come by.
pub enum AccountPlan {
    /// The account is restored from these credentials.
    Restore(AccountCredentials),
    /// A new account is asked for.
    Create(AccountRequest<String>),
    /// There is no account.
    Failed(Failure),
}

/// How the account is come by, as the contracts speak of it.
pub enum AccountPlanView {
    Restore(AccountCredentials),
    Create(AccountRequest<Seq<char>>),
    Failed(Seq<Seq<char>>),
}

impl View for AccountPlan {
    type V = AccountPlanView;

    open spec fn view(&self) -> AccountPlanView {
        match *self {
            AccountPlan::Restore(c) => AccountPlanView::Restore(c),
            AccountPlan::Create(q) => AccountPlanView::Create(
                AccountRequest {
                    contact: q.contact@,
                    terms_of_service_agreed: q.terms_of_service_agreed,
                    only_return_existing: q.only_return_existing,
                    directory: q.directory@,
                },
            ),
            AccountPlan::Failed(f) => AccountPlanView::Failed(f@),
        }
    }
}

/// How the account is come by: from its file where there is one, else anew, with the
/// contact that the configuration gives. The file is shown as `shown`.
pub open spec fn account_plan(cfg: Config, shown: Seq<char>, file: AccountFile) -> AccountPlanView {
    match file {
        AccountFile::Missing => AccountPlanView::Create(
            AccountRequest {
                contact: "mailto:"@ + cfg.acme.email@,
                terms_of_service_agreed: true,
                only_return_existing: false,
                directory: cfg.acme.directory@,
            },
        ),
        AccountFile::Unreadable(cause) => AccountPlanView::Failed(
            seq!["cannot read "@ + shown, cause@],
        ),
        AccountFile::Text(json) => match stored_credentials(json@) {
            Ok(c) => AccountPlanView::Restore(c),
            Err(e) => AccountPlanView::Failed(seq!["bad "@ + shown, e]),
        },
    }
}

/// How the account is come by.
pub fn load_or_create_account(cfg: &Config, shown: &str, file: AccountFile) -> (r: AccountPlan)
    ensures
        r@ == account_plan(*cfg, shown@, file),
{
    match file {
        AccountFile::Missing => AccountPlan::Create(
            AccountRequest {
                contact: cat2("mailto:", cfg.acme.email.as_str()),
                terms_of_service_agreed: true,
                only_return_existing: false,
                directory: cfg.acme.directory.clone(),
            },
        ),
        AccountFile::Unreadable(cause) => AccountPlan::Failed(
            Failure::caused(cat2("cannot read ", shown), cause),
        ),
        AccountFile::Text(json) => read_credentials(shown, credentials_from_json(json.as_str())),
    }
}

/// How the account is come by, from what reading its credentials returned.
pub fn read_credentials(shown: &str, read: Result<AccountCredentials, String>) -> (r: AccountPlan)
    ensures
        r@ == (match read {
            Ok(c) => AccountPlanView::Restore(c),
            Err(e) => AccountPlanView::Failed(seq!["bad "@ + shown@, e@]),
        }),
{
    match read {
        Ok(c) => AccountPlan::Restore(c),
        Err(e) => AccountPlan::Failed(Failure::caused(cat2("bad ", shown), e)),
    }
}

/// Why there is no account although it was asked for.
#[derive(Debug)]
pub enum AccountFault {
    /// There is no client to ask with.
    NoClient(Failure),
    /// The certificate authority refused.
    Refused(Failure),
}

/// The failure to restore an account.
pub fn restore_failed(fault: AccountFault) -> (r: Failure)
    ensures
        r@ == (match fault {
            AccountFault::NoClient(f) => f@,
            AccountFault::Refused(f) => seq![
                "cannot restore ACME account from stored credentials"@,
            ] + f@,
        }),
{
    match fault {
        AccountFault::NoClient(f) => f,
        AccountFault::Refused(f) => f.context(
            "cannot restore ACME account from stored credentials".to_owned(),
        ),
    }
}

/// The failure to create an account.
pub fn create_failed(fault: AccountFault) -> (r: Failure)
    ensures
        r@ == (match fault {
            AccountFault::NoClient(f) => f@,
            AccountFault::Refused(f) => seq!["cannot create ACME account"@] + f@,
        }),
{
    match fault {
        AccountFault::NoClient(f) => f,
        AccountFault::Refused(f) => f.context("cannot create ACME account".to_owned()),
    }
}

/// One step of storing a new account.
#[derive(Debug)]
pub enum StoreStep {
    /// This directory is made, and those above it.
    MakeDir(String),
    /// A file is written.
    Write(Vec<FileStep<String>>),
    /// The reader is told this.
    Say(String),
    /// The account cannot be stored.
    Fail(Failure),
}

/// One step of storing a new account, as the contracts speak of it.
pub enum StoreStepView {
    MakeDir(Seq<char>),
    Write(Seq<FileStep<Seq<char>>>),
    Say(Seq<char>),
    Fail(Seq<Seq<char>>),
}

impl View for StoreStep {
    type V = StoreStepView;

    open spec fn view(&self) -> StoreStepView {
        match *self {
            StoreStep::MakeDir(dir) => StoreStepView::MakeDir(dir@),
            StoreStep::Write(steps) => StoreStepView::Write(steps_view(steps@)),
            StoreStep::Say(line) => StoreStepView::Say(line@),
            StoreStep::Fail(f) => StoreStepView::Fail(f@),
        }
    }
}

/// The steps in which a new account is stored: for its owner alone, in the state
/// directory.
pub open spec fn store_plan(
    cfg: Config,
    shown: Seq<char>,
    json: Result<Seq<char>, Seq<char>>,
) -> Seq<StoreStepView> {
    match json {
        Ok(text) => seq![
            StoreStepView::MakeDir(cfg.state_dir@),
            StoreStepView::Write(write_steps(account_place(cfg), text, 0o600)),
            StoreStepView::Say("created ACME account, credentials stored in "@ + shown),
        ],
        Err(e) => seq![StoreStepView::MakeDir(cfg.state_dir@), StoreStepView::Fail(seq![e])],
    }
}

/// The steps in which a new account is stored whose credentials were written out.
pub fn store_account(cfg: &Config, shown: &str, json: Result<String, String>) -> (r: Vec<StoreStep>)
    ensures
        r@.map_values(|s: StoreStep| s@) == store_plan(
            *cfg,
            shown@,
            match json {
                Ok(text) => Ok(text@),
                Err(e) => Err(e@),
            },
        ),
{
    let mut steps: Vec<StoreStep> = Vec::new();
    steps.push(StoreStep::MakeDir(cfg.state_dir.clone()));
    match json {
        Ok(text) => {
            let path = account_path(cfg);
            proof {
                lemma_account_file(cfg.acme.directory@);
            }
            steps.push(StoreStep::Write(write_file(path, text, 0o600)));
            steps.push(
                StoreStep::Say(cat2("created ACME account, credentials stored in ", shown)),
            );
            assert(steps@.map_values(|s: StoreStep| s@) =~= store_plan(
                *cfg,
                shown@,
                Ok(text@),
            ));
        },
        Err(e) => {
            steps.push(StoreStep::Fail(Failure::new(e)));
            assert(steps@.map_values(|s: StoreStep| s@) =~= store_plan(*cfg, shown@, Err(e@)));
        },
    }
    steps
}

/// The steps in which a new account is stored. What the file holds reads back as the
/// same credentials; its layout is left open.
pub fn account_created(cfg: &Config, shown: &str, credentials: &AccountCredentials) -> (r: Vec<
    StoreStep,
>)
    ensures
        exists|text: Seq<char>| #[trigger]
            store_plan(*cfg, shown@, Ok(text)) == r@.map_values(|s: StoreStep| s@)
                && stored_credentials(text) == Ok::<AccountCredentials, Seq<char>>(*credentials),
{
    store_account(cfg, shown, credentials_to_json(credentials))
}

/// The failure to make the state directory.
pub fn state_dir_failed(cfg: &Config, cause: Failure) -> (r: Failure)
    ensures
        r@ == seq!["cannot create state_dir "@ + cfg.state_dir@] + cause@,
{
    cause.context(cat2("cannot create state_dir ", cfg.state_dir.as_str()))
}

/// An account that was stored is restored from its file with the same credentials,
/// and no other account is asked for.
pub proof fn lemma_account_read_back(
    cfg: Config,
    shown: Seq<char>,
    file: AccountFile,
    credentials: AccountCredentials,
)
    requires
        file is Text,
        stored_credentials(file->Text_0@) == Ok::<AccountCredentials, Seq<char>>(credentials),
    ensures
        account_plan(cfg, shown, file) == AccountPlanView::Restore(credentials),
{
}

// ---- expiry --------------------------------------------------------------

/// What came of reading a certificate file.
#[derive(Debug)]
pub enum CertFile {
    /// There is no such file.
    Missing,
    /// The file could not be read, and why.
    Unreadable(String),
    /// What the file holds.
    Contents(Vec<u8>),
}

/// Whole days in a number of seconds, rounded toward zero.
pub open spec fn whole_days(secs: int) -> int {
    if secs >= 0 {
        secs / 86400
    } else {
        -((-secs) / 86400)
    }
}

/// The whole days from now to the end of a certificate.
pub fn days_left(not_after: i64, now: u64) -> (r: i64)
    ensures
        r == whole_days(not_after - now),
{
    let secs: i128 = not_after as i128 - now as i128;
    if secs >= 0 {
        ((secs as u128) / 86400) as i64
    } else {
        -((((-secs) as u128) / 86400) as i64)
    }
}

/// When the first certificate in a PEM file ends, or a message.
pub open spec fn chain_end(data: Seq<u8>) -> Result<i64, Seq<char>> {
    match pem_contents(data) {
        Ok(der) => certificate_end(der),
        Err(e) => Err(e),
    }
}

/// When the first certificate in a PEM file ends, or a message.
fn read_chain_end(data: &[u8]) -> (r: Result<i64, String>)
    ensures
        match r {
            Ok(t) => chain_end(data@) == Ok::<i64, Seq<char>>(t),
            Err(e) => chain_end(data@) == Err::<i64, Seq<char>>(e@),
        },
{
    let der = parse_pem(data)?;
    parse_not_after(der.as_slice())
}

/// The days until a certificate ends, from when it ends and the time, or why neither
/// is known. The certificate's file is shown as `shown`.
pub open spec fn days_result(
    shown: Seq<char>,
    end: Result<i64, Seq<char>>,
    now: Result<u64, Seq<char>>,
) -> Result<Option<int>, Seq<Seq<char>>> {
    match (end, now) {
        (Err(e), _) => Err(seq!["cannot parse "@ + shown + ": "@ + e]),
        (Ok(_), Err(e)) => Err(seq![e]),
        (Ok(t), Ok(s)) => Ok(Some(whole_days(t - s))),
    }
}

/// A number of days that was found, as the contracts speak of it.
pub open spec fn days_view(r: Result<Option<i64>, Failure>) -> Result<
    Option<int>,
    Seq<Seq<char>>,
> {
    match r {
        Ok(Some(days)) => Ok(Some(days as int)),
        Ok(None) => Ok(None),
        Err(f) => Err(f@),
    }
}

/// A time that was read, as the contracts speak of it.
pub open spec fn clock_view(now: Result<u64, String>) -> Result<u64, Seq<char>> {
    match now {
        Ok(s) => Ok(s),
        Err(e) => Err(e@),
    }
}

/// The days until a certificate ends, from when it ends and the time.
pub fn days_from(shown: &str, end: Result<i64, String>, now: Result<u64, String>) -> (r: Result<
    Option<i64>,
    Failure,
>)
    ensures
        days_view(r) == days_result(
            shown@,
            match end {
                Ok(t) => Ok(t),
                Err(e) => Err(e@),
            },
            clock_view(now),
        ),
{
    let not_after: i64 = match end {
        Ok(t) => t,
        Err(e) => return Err(Failure::new(cat4("cannot parse ", shown, ": ", e.as_str()))),
    };
    match now {
        Ok(s) => Ok(Some(days_left(not_after, s))),
        Err(e) => Err(Failure::new(e)),
    }
}

/// Days until the leaf certificate in `fullchain.pem` expires, from what its file
/// holds and the time. None when the file does not exist yet. The file is shown as
/// `shown`.
pub fn days_until_expiry(shown: &str, file: CertFile, now: Result<u64, String>) -> (r: Result<
    Option<i64>,
    Failure,
>)
    ensures
        days_view(r) == (match file {
            CertFile::Missing => Ok(None),
            CertFile::Unreadable(cause) => Err(seq![cause@]),
            CertFile::Contents(data) => days_result(shown@, chain_end(data@), clock_view(now)),
        }),
{
    match file {
        CertFile::Missing => Ok(None),
        CertFile::Unreadable(cause) => Err(Failure::new(cause)),
        CertFile::Contents(data) => days_from(shown, read_chain_end(data.as_slice()), now),
    }
}

/// A new account is asked of the configured directory, with the configured email address
/// as its contact and the terms agreed to; and only where no account is stored.
pub proof fn lemma_new_account(cfg: Config, shown: Seq<char>, file: AccountFile)
    ensures
        account_plan(cfg, shown, file) is Create <==> file is Missing,
        account_plan(cfg, shown, file) matches AccountPlanView::Create(q) ==> {
            &&& q.directory == cfg.acme.directory@
            &&& q.contact == "mailto:"@ + cfg.acme.email@
            &&& q.terms_of_service_agreed
            &&& !q.only_return_existing
        },
{
}

/// The credentials of an account are stored for its owner alone, in a file of the state
/// directory whose name keeps the letters and digits of the directory in their places.
pub proof fn lemma_account_stored(cfg: Config, shown: Seq<char>, text: Seq<char>, i: int)
    requires
        0 <= i < cfg.acme.directory@.len(),
    ensures
        ({
            let plan = store_plan(cfg, shown, Ok(text));
            let steps = plan[1]->Write_0;
            let tag = account_tag(cfg.acme.directory@);
            &&& plan[0] == StoreStepView::MakeDir(cfg.state_dir@)
            &&& plan[1] is Write
            &&& writes(steps, cfg.state_dir@, "account-"@ + tag + ".json"@, text, 0o600)
            &&& tag.len() == cfg.acme.directory@.len()
            &&& is_alnum(cfg.acme.directory@[i]) ==> tag[i] == cfg.acme.directory@[i]
            &&& !is_alnum(cfg.acme.directory@[i]) ==> tag[i] == '_'
        }),
{
}

/// The whole days until a certificate ends: no more than the time that is left, and less
/// than a day short of it; after its end the same holds of the time that has passed.
pub proof fn lemma_days(shown: Seq<char>, end: i64, now: u64)
    ensures
        days_result(shown, Ok(end), Ok(now)) is Ok,
        days_result(shown, Ok(end), Ok(now))->Ok_0 is Some,
        ({
            let days = days_result(shown, Ok(end), Ok(now))->Ok_0->0;
            &&& end >= now ==> 0 <= days * 86400 <= end - now < (days + 1) * 86400
            &&& end < now ==> 0 <= -days * 86400 <= now - end < (-days + 1) * 86400
        }),
{
}

} // verus!
