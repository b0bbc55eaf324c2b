//! The hooks that certbot calls to add a TXT record and to remove it again.

use vstd::prelude::*;
use vstd::string::*;

use crate::dns::{challenge_txt_name, txt_name, ChallengeDns};
use crate::dns_laws::lemma_challenge_name;
use crate::doctor::delegated;
use crate::failure::Failure;

verus! {

/// What certbot asks for.
#[derive(Clone, Copy, PartialEq, Eq, Structural, Debug)]
pub enum HookAction {
    /// --manual-auth-hook: add the validation TXT record.
    Auth,
    /// --manual-cleanup-hook: remove the validation TXT record.
    Cleanup,
}

/// One step of a hook. Where a step fails, the hook fails, and no later step is taken.
/// `S` stands for a text.
#[derive(Debug)]
pub enum HookStep<S> {
    /// Add a TXT record to the challenge zone.
    Add { name: S, value: S },
    /// Have the update server confirm a TXT record.
    Confirm { name: S, value: S },
    /// Let so many seconds pass.
    Sleep(u64),
    /// Remove the TXT records at a name in the challenge zone.
    Clear(S),
}

impl View for HookStep<String> {
    type V = HookStep<Seq<char>>;

    open spec fn view(&self) -> HookStep<Seq<char>> {
        match *self {
            HookStep::Add { name, value } => HookStep::Add { name: name@, value: value@ },
            HookStep::Confirm { name, value } => HookStep::Confirm { name: name@, value: value@ },
            HookStep::Sleep(secs) => HookStep::Sleep(secs),
            HookStep::Clear(name) => HookStep::Clear(name@),
        }
    }
}

/// The steps of a hook for a domain, with the value that is to be shown.
pub open spec fn hook_steps(
    action: HookAction,
    domain: Seq<char>,
    validation: Seq<char>,
    zone: Seq<char>,
    wait_secs: u64,
) -> Seq<HookStep<Seq<char>>> {
    let name = txt_name(domain, zone);
    match action {
        HookAction::Auth => seq![
            HookStep::Add { name, value: validation },
            HookStep::Confirm { name, value: validation },
            HookStep::Sleep(wait_secs),
        ],
        HookAction::Cleanup => seq![HookStep::Clear(name)],
    }
}

/// The domain for which a hook was called, from the value of CERTBOT_DOMAIN.
pub fn hook_domain(env: Result<String, String>) -> (r: Result<String, Failure>)
    ensures
        match (env, r) {
            (Ok(domain), Ok(d)) => d@ == domain@,
            (Err(e), Err(f)) => f@ == seq![
                "CERTBOT_DOMAIN not set — hook mode is for certbot --manual-auth-hook"@,
                e@,
            ],
            _ => false,
        },
{
    match env {
        Ok(domain) => Ok(domain),
        Err(e) => Err(
            Failure::caused(
                "CERTBOT_DOMAIN not set — hook mode is for certbot --manual-auth-hook".to_owned(),
                e,
            ),
        ),
    }
}

/// The steps of a hook for a domain, with the value of CERTBOT_VALIDATION, which only
/// the first of the two hooks needs.
pub fn run_hook(
    action: HookAction,
    domain: &str,
    validation: Result<String, String>,
    dns: &ChallengeDns,
) -> (r: Result<Vec<HookStep<String>>, Failure>)
    ensures
        match r {
            Ok(steps) => {
                &&& action is Auth ==> validation is Ok
                &&& steps@.map_values(|s: HookStep<String>| s@) == hook_steps(
                    action,
                    domain@,
                    validation->Ok_0@,
                    dns.zone@,
                    dns.propagation_wait_secs,
                )
            },
            Err(f) => {
                &&& action is Auth
                &&& validation is Err
                &&& f@ == seq!["CERTBOT_VALIDATION not set"@, validation->Err_0@]
            },
        },
{
    let name = challenge_txt_name(domain, dns.zone.as_str());
    let mut steps: Vec<HookStep<String>> = Vec::new();
    match action {
        HookAction::Auth => {
            let value = match validation {
                Ok(v) => v,
                Err(e) => return Err(
                    Failure::caused("CERTBOT_VALIDATION not set".to_owned(), e),
                ),
            };
            steps.push(HookStep::Add { name: name.clone(), value: value.clone() });
            steps.push(HookStep::Confirm { name, value });
            steps.push(HookStep::Sleep(dns.propagation_wait_secs));
        },
        HookAction::Cleanup => {
            steps.push(HookStep::Clear(name));
        },
    }
    assert(steps@.map_values(|s: HookStep<String>| s@) =~= hook_steps(
        action,
        domain@,
        validation->Ok_0@,
        dns.zone@,
        dns.propagation_wait_secs,
    ));
    Ok(steps)
}

/// The second hook removes the record that the first added for the same domain, and
/// nothing else.
pub proof fn lemma_cleanup_undoes_auth(
    domain: Seq<char>,
    validation: Seq<char>,
    unused: Seq<char>,
    zone: Seq<char>,
    wait_secs: u64,
)
    ensures
        ({
            let auth = hook_steps(HookAction::Auth, domain, validation, zone, wait_secs);
            let cleanup = hook_steps(HookAction::Cleanup, domain, unused, zone, wait_secs);
            &&& cleanup.len() == 1
            &&& cleanup[0] is Clear
            &&& auth[0] is Add
            &&& cleanup[0]->Clear_0 == auth[0]->Add_name
        }),
{
}

/// The first hook adds the value at the domain, a dot and the zone, without the wildcard
/// label where there is one, confirms the same and waits; the second clears that name.
pub proof fn lemma_hook_name(
    domain: Seq<char>,
    rest: Seq<char>,
    validation: Seq<char>,
    zone: Seq<char>,
    wait_secs: u64,
)
    ensures
        !(domain.len() >= 2 && domain[0] == '*' && domain[1] == '.') ==> hooks_at(
            domain,
            domain + seq!['.'] + zone,
            validation,
            zone,
            wait_secs,
        ),
        hooks_at(
            seq!['*', '.'] + rest,
            rest + seq!['.'] + zone,
            validation,
            zone,
            wait_secs,
        ),
{
    lemma_challenge_name(domain, rest, zone);
}

/// Whether the hooks for a domain write, confirm and clear at a name.
pub open spec fn hooks_at(
    domain: Seq<char>,
    name: Seq<char>,
    validation: Seq<char>,
    zone: Seq<char>,
    wait_secs: u64,
) -> bool {
    let auth = hook_steps(HookAction::Auth, domain, validation, zone, wait_secs);
    let cleanup = hook_steps(HookAction::Cleanup, domain, validation, zone, wait_secs);
    &&& auth.len() == 3
    &&& auth[0] == HookStep::Add { name, value: validation }
    &&& auth[1] == HookStep::Confirm { name, value: validation }
    &&& auth[2] == HookStep::<Seq<char>>::Sleep(wait_secs)
    &&& cleanup.len() == 1
    &&& cleanup[0] == HookStep::Clear(name)
}

/// The hooks write where the CNAME of the domain is expected to point.
pub proof fn lemma_hook_serves_delegation(
    domain: Seq<char>,
    validation: Seq<char>,
    zone: Seq<char>,
    wait_secs: u64,
)
    ensures
        ({
            let auth = hook_steps(HookAction::Auth, domain, validation, zone, wait_secs);
            auth[0] is Add && delegated(domain, zone, Ok(Some(auth[0]->Add_name)))
        }),
{
}

} // verus!
