//! The two state transitions. Creating a poll is split in two phases around
//! the host's rent quote: the first resolves accounts, verifies the derived
//! address, builds and validates the poll, and sizes the record; the second
//! checks funding and produces the record bytes. Casting a vote decodes the
//! stored record, re-verifies the derived address, and produces the updated
//! record bytes; every failure leaves the stored record untouched, since only
//! the returned bytes ever change state.
use vstd::prelude::*;

verus! {

use crate::codec::{
    lemma_decode_exact, lemma_encode_options_len_bound, lemma_encode_options_len_congruent,
    spec_decode_account, spec_encodable, spec_encode_account,
};
use crate::errors::VoteProgramError;
use crate::instruction;
use crate::instruction::{CreateVotingAccounts, VoteAccounts};
use crate::spec_derive;
use crate::state::{
    lemma_validate_ok_props, spec_new_account, spec_options_view, spec_validate, VotingAccount,
    VotingAccountV, VotingOption, VotingOptionV,
};

/// The instruction processor.
pub struct Processor;

/// Everything the first phase of poll creation determines: the validated
/// poll record, the derived storage address with its nonce, the exact record
/// size, and the owner's balance for the funding check.
pub struct CreateVotingPlan {
    /// The validated poll record, counters all zero.
    pub voting_account: VotingAccount,
    /// The derived storage address, equal to the supplied storage handle's.
    pub pda_key: Vec<u8>,
    /// The disambiguation nonce of the derived address.
    pub bump_seed: u8,
    /// The exact byte size of the record's encoding.
    pub size: usize,
    /// The owner's balance, checked against the exemption minimum.
    pub owner_lamports: u64,
}

/// The address check: `None` when the derivation for `(owner key, poll
/// identifier, program id)` yields exactly the supplied storage address;
/// `AddressMismatch` when it yields another address or none at all.
pub open spec fn spec_pda_error(
    program_id: Seq<u8>,
    owner_key: Seq<u8>,
    voting_uid: Seq<u8>,
    pda_key: Seq<u8>,
) -> Option<VoteProgramError> {
    match spec_derive(owner_key, voting_uid, program_id) {
        Some((k, bump)) => if k == pda_key {
            None
        } else {
            Some(VoteProgramError::AddressMismatch)
        },
        None => Some(VoteProgramError::AddressMismatch),
    }
}

/// The error with which the first phase of poll creation rejects its inputs,
/// or `None` when it succeeds: role checks first, then the address check,
/// then full validation of the candidate poll.
pub open spec fn spec_create_outcome(
    program_id: Seq<u8>,
    voting_uid: Seq<u8>,
    voting_name: Seq<u8>,
    options: Seq<instruction::VotingOptionV>,
    start_date: i64,
    end_date: i64,
    accounts: CreateVotingAccounts,
    now: i64,
) -> Option<VoteProgramError> {
    match accounts.spec_error() {
        Some(e) => Some(e),
        None => match spec_pda_error(program_id, accounts.owner.key@, voting_uid, accounts.pda.key@) {
            Some(e) => Some(e),
            None => match spec_validate(
                spec_new_account(voting_uid, voting_name, start_date, end_date, options),
                now,
            ) {
                Some(k) => Some(VoteProgramError::ValidationError(k)),
                None => None,
            },
        },
    }
}

/// The first index holding the option with the given id, searching from `i`.
pub open spec fn spec_find_option_from(opts: Seq<VotingOptionV>, id: u8, i: int) -> Option<int>
    decreases opts.len() - i,
{
    if i < 0 || i >= opts.len() {
        None
    } else if opts[i].option_id == id {
        Some(i)
    } else {
        spec_find_option_from(opts, id, i + 1)
    }
}

/// The first index holding the option with the given id, if any.
pub open spec fn spec_find_option(opts: Seq<VotingOptionV>, id: u8) -> Option<int> {
    spec_find_option_from(opts, id, 0)
}

/// A found index holds the id, and no earlier index does.
pub proof fn lemma_find_option_props(opts: Seq<VotingOptionV>, id: u8, i: int)
    requires
        0 <= i <= opts.len(),
        spec_find_option_from(opts, id, i) is Some,
    ensures
        ({
            let j = spec_find_option_from(opts, id, i).unwrap();
            &&& i <= j < opts.len()
            &&& opts[j].option_id == id
            &&& forall|k: int| i <= k < j ==> opts[k].option_id != id
        }),
    decreases opts.len() - i,
{
    if opts[i].option_id != id {
        lemma_find_option_props(opts, id, i + 1);
    }
}

/// A failed search means no index holds the id.
pub proof fn lemma_find_option_none(opts: Seq<VotingOptionV>, id: u8, i: int)
    requires
        0 <= i <= opts.len(),
        spec_find_option_from(opts, id, i) is None,
    ensures
        forall|k: int| i <= k < opts.len() ==> opts[k].option_id != id,
    decreases opts.len() - i,
{
    if i < opts.len() {
        lemma_find_option_none(opts, id, i + 1);
    }
}

/// The record after one vote for the option at index `j`: that option's
/// counter saturatingly incremented by one, everything else unchanged.
pub open spec fn spec_bump_counter(a: VotingAccountV, j: int) -> VotingAccountV {
    VotingAccountV {
        uid: a.uid,
        voting_name: a.voting_name,
        start_date: a.start_date,
        end_date: a.end_date,
        voting_options: a.voting_options.update(
            j,
            VotingOptionV {
                counter: if a.voting_options[j].counter == u32::MAX {
                    u32::MAX
                } else {
                    (a.voting_options[j].counter + 1) as u32
                },
                option_id: a.voting_options[j].option_id,
                option_description: a.voting_options[j].option_description,
            },
        ),
    }
}

/// The result of a cast-vote invocation: the updated record state, or the
/// error, with checks in order: account roles, record decode, address,
/// option lookup, voting window.
pub open spec fn spec_vote_outcome(
    program_id: Seq<u8>,
    voting_option_id: u8,
    accounts: VoteAccounts,
    now: i64,
) -> Result<VotingAccountV, VoteProgramError> {
    match accounts.spec_error() {
        Some(e) => Err(e),
        None => match spec_decode_account(accounts.voting_pda.data@) {
            None => Err(VoteProgramError::MalformedInput),
            Some(a) => match spec_pda_error(
                program_id,
                accounts.owner.key@,
                a.uid,
                accounts.voting_pda.key@,
            ) {
                Some(e) => Err(e),
                None => match spec_find_option(a.voting_options, voting_option_id) {
                    None => Err(VoteProgramError::UnknownOption),
                    Some(j) => if now < a.start_date {
                        Err(VoteProgramError::VotingNotStartedYet)
                    } else if now > a.end_date {
                        Err(VoteProgramError::VotingExpired)
                    } else {
                        Ok(spec_bump_counter(a, j))
                    },
                },
            },
        },
    }
}

/// Poll creation fails with `AddressMismatch` for any storage handle whose
/// address differs from the derivation result for `(owner key, poll
/// identifier, program id)` — also when no address can be derived at all —
/// whenever the account-role checks themselves pass.
pub proof fn lemma_create_fails_on_address_mismatch(
    program_id: Seq<u8>,
    voting_uid: Seq<u8>,
    voting_name: Seq<u8>,
    options: Seq<instruction::VotingOptionV>,
    start_date: i64,
    end_date: i64,
    accounts: CreateVotingAccounts,
    now: i64,
)
    requires
        accounts.spec_error() is None,
        match spec_derive(accounts.owner.key@, voting_uid, program_id) {
            Some(p) => p.0 != accounts.pda.key@,
            None => true,
        },
    ensures
        spec_create_outcome(
            program_id,
            voting_uid,
            voting_name,
            options,
            start_date,
            end_date,
            accounts,
            now,
        ) == Some(VoteProgramError::AddressMismatch),
{
}

/// Poll creation fails with a `ValidationError` whenever the poll would
/// start before `now`, start at or after its end, carry no options, or carry
/// two options sharing an id — given that the account and address checks
/// pass.
pub proof fn lemma_create_fails_on_invalid_poll(
    program_id: Seq<u8>,
    voting_uid: Seq<u8>,
    voting_name: Seq<u8>,
    options: Seq<instruction::VotingOptionV>,
    start_date: i64,
    end_date: i64,
    accounts: CreateVotingAccounts,
    now: i64,
)
    requires
        accounts.spec_error() is None,
        spec_pda_error(program_id, accounts.owner.key@, voting_uid, accounts.pda.key@) is None,
        start_date < now || start_date >= end_date || options.len() == 0 || (exists|i: int, j: int|
            0 <= i < j < options.len() && options[i].id == options[j].id),
    ensures
        spec_create_outcome(
            program_id,
            voting_uid,
            voting_name,
            options,
            start_date,
            end_date,
            accounts,
            now,
        ) matches Some(VoteProgramError::ValidationError(_)),
{
    let cand = spec_new_account(voting_uid, voting_name, start_date, end_date, options);
    if spec_validate(cand, now) is None {
        lemma_validate_ok_props(cand, now);
        assert(cand.voting_options.len() == options.len());
        if exists|i: int, j: int| 0 <= i < j < options.len() && options[i].id == options[j].id {
            let (i, j) = choose|i: int, j: int|
                0 <= i < j < options.len() && options[i].id == options[j].id;
            assert(cand.voting_options[i].option_id == options[i].id);
            assert(cand.voting_options[j].option_id == options[j].id);
            assert(false);
        } else {
            assert(false);
        }
    }
}

/// A successful vote increments exactly the chosen option's counter by one
/// (saturating at the counter's maximum) and leaves the identifier, name,
/// window bounds, every other option, and the chosen option's id and
/// description unchanged.
pub proof fn lemma_cast_vote_mutates_one_counter(
    program_id: Seq<u8>,
    voting_option_id: u8,
    accounts: VoteAccounts,
    now: i64,
    a2: VotingAccountV,
)
    requires
        spec_vote_outcome(program_id, voting_option_id, accounts, now) == Ok::<
            VotingAccountV,
            VoteProgramError,
        >(a2),
    ensures
        spec_decode_account(accounts.voting_pda.data@) is Some,
        ({
            let a = spec_decode_account(accounts.voting_pda.data@).unwrap();
            let found = spec_find_option(a.voting_options, voting_option_id);
            &&& found is Some
            &&& 0 <= found.unwrap() < a.voting_options.len()
            &&& a.voting_options[found.unwrap()].option_id == voting_option_id
            &&& a2.uid == a.uid
            &&& a2.voting_name == a.voting_name
            &&& a2.start_date == a.start_date
            &&& a2.end_date == a.end_date
            &&& a2.voting_options.len() == a.voting_options.len()
            &&& a2.voting_options[found.unwrap()].option_id == voting_option_id
            &&& a2.voting_options[found.unwrap()].option_description == a.voting_options[found.unwrap()].option_description
            &&& (a.voting_options[found.unwrap()].counter < u32::MAX ==> a2.voting_options[found.unwrap()].counter
                == a.voting_options[found.unwrap()].counter + 1)
            &&& (a.voting_options[found.unwrap()].counter == u32::MAX ==> a2.voting_options[found.unwrap()].counter
                == u32::MAX)
            &&& forall|k: int|
                0 <= k < a.voting_options.len() && k != found.unwrap()
                    ==> a2.voting_options[k] == a.voting_options[k]
        }),
{
    let a = spec_decode_account(accounts.voting_pda.data@).unwrap();
    lemma_find_option_props(a.voting_options, voting_option_id, 0);
}

/// A vote for an id that no option of the stored poll carries fails with
/// `UnknownOption` — given that the account, decode, and address checks pass
/// — and, like every failure, returns no bytes, so nothing is mutated.
pub proof fn lemma_cast_vote_unknown_option(
    program_id: Seq<u8>,
    voting_option_id: u8,
    accounts: VoteAccounts,
    now: i64,
)
    requires
        accounts.spec_error() is None,
        spec_decode_account(accounts.voting_pda.data@) is Some,
        spec_pda_error(
            program_id,
            accounts.owner.key@,
            spec_decode_account(accounts.voting_pda.data@).unwrap().uid,
            accounts.voting_pda.key@,
        ) is None,
        forall|k: int|
            0 <= k < spec_decode_account(accounts.voting_pda.data@).unwrap().voting_options.len()
                ==> spec_decode_account(
                accounts.voting_pda.data@,
            ).unwrap().voting_options[k].option_id != voting_option_id,
    ensures
        spec_vote_outcome(program_id, voting_option_id, accounts, now) == Err::<
            VotingAccountV,
            VoteProgramError,
        >(VoteProgramError::UnknownOption),
{
    let a = spec_decode_account(accounts.voting_pda.data@).unwrap();
    if spec_find_option(a.voting_options, voting_option_id) is Some {
        lemma_find_option_props(a.voting_options, voting_option_id, 0);
    }
}

/// A successful vote preserves every data-model invariant of the stored
/// poll, and no counter ever decreases.
pub proof fn lemma_vote_preserves_invariants(
    program_id: Seq<u8>,
    voting_option_id: u8,
    accounts: VoteAccounts,
    now: i64,
    a2: VotingAccountV,
)
    requires
        spec_vote_outcome(program_id, voting_option_id, accounts, now) == Ok::<
            VotingAccountV,
            VoteProgramError,
        >(a2),
        crate::state::spec_wf_poll(spec_decode_account(accounts.voting_pda.data@).unwrap()),
    ensures
        crate::state::spec_wf_poll(a2),
        ({
            let a = spec_decode_account(accounts.voting_pda.data@).unwrap();
            forall|k: int|
                0 <= k < a.voting_options.len() ==> a2.voting_options[k].counter
                    >= #[trigger] a.voting_options[k].counter
        }),
{
    let a = spec_decode_account(accounts.voting_pda.data@).unwrap();
    lemma_find_option_props(a.voting_options, voting_option_id, 0);
    let j = spec_find_option(a.voting_options, voting_option_id).unwrap();
    assert forall|k: int| 0 <= k < a2.voting_options.len() implies #[trigger] a2.voting_options[k]
        .option_id == a.voting_options[k].option_id && a2.voting_options[k].option_description
        == a.voting_options[k].option_description && a2.voting_options[k].counter
        >= a.voting_options[k].counter by {}
    assert forall|k: int| 0 <= k < a2.voting_options.len() implies
        #[trigger] crate::utils::spec_bytes_param_ok(
        a2.voting_options[k].option_description,
        1,
        crate::state::VOTING_OPT_DESCR_MAX_LEN as int,
    ) by {
        assert(crate::utils::spec_bytes_param_ok(
            a.voting_options[k].option_description,
            1,
            crate::state::VOTING_OPT_DESCR_MAX_LEN as int,
        ));
    }
}

/// Voting-window boundaries: with all earlier checks passed and a
/// well-ordered window, a vote succeeds exactly when `start <= now <= end` —
/// both boundaries included — fails with `VotingNotStartedYet` exactly when
/// `now < start`, and fails with `VotingExpired` exactly when `now > end`.
pub proof fn lemma_cast_vote_window(
    program_id: Seq<u8>,
    voting_option_id: u8,
    accounts: VoteAccounts,
    now: i64,
)
    requires
        accounts.spec_error() is None,
        spec_decode_account(accounts.voting_pda.data@) is Some,
        spec_pda_error(
            program_id,
            accounts.owner.key@,
            spec_decode_account(accounts.voting_pda.data@).unwrap().uid,
            accounts.voting_pda.key@,
        ) is None,
        spec_find_option(
            spec_decode_account(accounts.voting_pda.data@).unwrap().voting_options,
            voting_option_id,
        ) is Some,
    ensures
        ({
            let a = spec_decode_account(accounts.voting_pda.data@).unwrap();
            let r = spec_vote_outcome(program_id, voting_option_id, accounts, now);
            &&& (a.start_date <= now && now <= a.end_date) <==> r is Ok
            &&& (now < a.start_date) <==> r == Err::<VotingAccountV, VoteProgramError>(
                VoteProgramError::VotingNotStartedYet,
            )
            &&& (now > a.end_date && now >= a.start_date) <==> r == Err::<
                VotingAccountV,
                VoteProgramError,
            >(VoteProgramError::VotingExpired)
        }),
{
}

/// Derives the poll's storage address and compares it with the supplied
/// storage handle's address.
fn validate_pda(
    program_id: &Vec<u8>,
    owner_key: &Vec<u8>,
    pda_key: &Vec<u8>,
    voting_uid: &Vec<u8>,
) -> (r: Result<(Vec<u8>, u8), VoteProgramError>)
    requires
        program_id@.len() == 32,
    ensures
        match r {
            Ok(p) => spec_pda_error(program_id@, owner_key@, voting_uid@, pda_key@) is None
                && spec_derive(owner_key@, voting_uid@, program_id@) == Some((p.0@, p.1))
                && p.0@ == pda_key@ && voting_uid@.len() <= 32,
            Err(e) => spec_pda_error(program_id@, owner_key@, voting_uid@, pda_key@) == Some(e),
        },
{
    match crate::get_voting_pda_and_bump(owner_key, voting_uid, program_id) {
        None => Err(VoteProgramError::AddressMismatch),
        Some((k, bump)) => {
            if instruction::bytes_eq(&k, pda_key) {
                Ok((k, bump))
            } else {
                Err(VoteProgramError::AddressMismatch)
            }
        },
    }
}

/// Replaces the counter at index `j` with its saturating successor, moving
/// every option over unchanged.
fn bump_option_counter(opts: Vec<VotingOption>, j: usize) -> (r: Vec<VotingOption>)
    requires
        (j as int) < opts@.len(),
    ensures
        spec_options_view(r@) == spec_options_view(opts@).update(
            j as int,
            (VotingOptionV {
                counter: if opts@[j as int]@.counter == u32::MAX {
                    u32::MAX
                } else {
                    (opts@[j as int]@.counter + 1) as u32
                },
                option_id: opts@[j as int]@.option_id,
                option_description: opts@[j as int]@.option_description,
            }),
        ),
{
    let ghost orig = opts@;
    let mut rest = opts;
    let mut built: Vec<VotingOption> = Vec::new();
    let n = rest.len();
    let mut i: usize = 0;
    while i < n
        invariant
            0 <= i <= n,
            n == orig.len(),
            (j as int) < n,
            rest@ == orig.skip(i as int),
            built@.len() == i,
            forall|k: int| 0 <= k < i && k != j ==> #[trigger] built@[k]@ == orig[k]@,
            i > j ==> built@[j as int]@ == (VotingOptionV {
                counter: if orig[j as int]@.counter == u32::MAX {
                    u32::MAX
                } else {
                    (orig[j as int]@.counter + 1) as u32
                },
                option_id: orig[j as int]@.option_id,
                option_description: orig[j as int]@.option_description,
            }),
        decreases n - i,
    {
        let o = rest.remove(0);
        proof {
            assert(orig.skip(i as int)[0] == orig[i as int]);
            assert(orig.skip(i as int).subrange(1, orig.skip(i as int).len() as int) =~= orig.skip(
                i + 1 as int,
            ));
        }
        if i == j {
            let c = o.counter;
            let new_c: u32 = if c == u32::MAX {
                u32::MAX
            } else {
                c + 1
            };
            built.push(
                VotingOption {
                    counter: new_c,
                    option_id: o.option_id,
                    option_description: o.option_description,
                },
            );
        } else {
            built.push(o);
        }
        i += 1;
    }
    proof {
        assert(spec_options_view(built@) =~= spec_options_view(orig).update(
            j as int,
            (VotingOptionV {
                counter: if orig[j as int]@.counter == u32::MAX {
                    u32::MAX
                } else {
                    (orig[j as int]@.counter + 1) as u32
                },
                option_id: orig[j as int]@.option_id,
                option_description: orig[j as int]@.option_description,
            }),
        ));
    }
    built
}

/// Finds the option with the given id by linear search over the list.
fn find_option_index(opts: &Vec<VotingOption>, id: u8) -> (r: Option<usize>)
    ensures
        match r {
            Some(j) => spec_find_option(spec_options_view(opts@), id) == Some(j as int),
            None => spec_find_option(spec_options_view(opts@), id) is None,
        },
{
    let ghost ov = spec_options_view(opts@);
    let n = opts.len();
    let mut i: usize = 0;
    while i < n
        invariant
            0 <= i <= n,
            n == opts@.len(),
            ov == spec_options_view(opts@),
            spec_find_option(ov, id) == spec_find_option_from(ov, id, i as int),
        decreases n - i,
    {
        if opts[i].option_id == id {
            proof {
                assert(ov[i as int] == opts@[i as int]@);
            }
            return Some(i);
        }
        proof {
            assert(ov[i as int] == opts@[i as int]@);
        }
        i += 1;
    }
    None
}

impl Processor {
    /// First phase of poll creation: resolves and checks the accounts,
    /// verifies that the supplied storage handle sits at the derived address,
    /// builds the candidate poll with every counter at zero, validates it at
    /// wall-clock `now`, and computes the record's exact size. The two bounds
    /// required of the option count keep that size within the address space.
    pub fn process_create_voting(
        program_id: &Vec<u8>,
        voting_uid: &Vec<u8>,
        voting_name: Vec<u8>,
        voting_options: Vec<instruction::VotingOption>,
        start_date: i64,
        end_date: i64,
        create_voting_accounts: CreateVotingAccounts,
        now: i64,
    ) -> (r: Result<CreateVotingPlan, VoteProgramError>)
        requires
            program_id@.len() == 32,
            voting_options@.len() <= u32::MAX,
            328 + 509 * voting_options@.len() <= usize::MAX,
        ensures
            match r {
                Ok(plan) => {
                    let candidate = spec_new_account(
                        voting_uid@,
                        voting_name@,
                        start_date,
                        end_date,
                        instruction::spec_instr_options_view(voting_options@),
                    );
                    &&& spec_create_outcome(
                        program_id@,
                        voting_uid@,
                        voting_name@,
                        instruction::spec_instr_options_view(voting_options@),
                        start_date,
                        end_date,
                        create_voting_accounts,
                        now,
                    ) is None
                    &&& plan.voting_account@ == candidate
                    &&& spec_validate(candidate, now) is None
                    &&& spec_encodable(candidate)
                    &&& spec_derive(create_voting_accounts.owner.key@, voting_uid@, program_id@)
                        == Some((plan.pda_key@, plan.bump_seed))
                    &&& plan.pda_key@ == create_voting_accounts.pda.key@
                    &&& plan.size as int == spec_encode_account(candidate).len()
                    &&& plan.owner_lamports == create_voting_accounts.owner.lamports
                },
                Err(e) => spec_create_outcome(
                    program_id@,
                    voting_uid@,
                    voting_name@,
                    instruction::spec_instr_options_view(voting_options@),
                    start_date,
                    end_date,
                    create_voting_accounts,
                    now,
                ) == Some(e),
            },
    {
        match create_voting_accounts.validate() {
            Ok(()) => {},
            Err(e) => {
                return Err(e);
            },
        }
        let (pda_key, bump_seed) = match validate_pda(
            program_id,
            &create_voting_accounts.owner.key,
            &create_voting_accounts.pda.key,
            voting_uid,
        ) {
            Ok(x) => x,
            Err(e) => {
                return Err(e);
            },
        };
        let voting_account = VotingAccount::new(
            crate::utils::clone_bytes(voting_uid),
            voting_name,
            start_date,
            end_date,
            voting_options,
        );
        match voting_account.validate(now) {
            Ok(()) => {},
            Err(e) => {
                return Err(e);
            },
        }
        proof {
            let cand = voting_account@;
            assert(cand.uid.len() <= 32);
            lemma_validate_ok_props(cand, now);
            assert forall|i: int| 0 <= i < cand.voting_options.len() implies cand.voting_options[i]
                .option_description.len() <= 500 by {
                assert(crate::utils::spec_bytes_param_ok(
                    cand.voting_options[i].option_description,
                    1,
                    crate::state::VOTING_OPT_DESCR_MAX_LEN as int,
                ));
            }
            lemma_encode_options_len_bound(cand.voting_options, 500);
            vstd::bytes::lemma_auto_spec_u32_to_from_le_bytes();
            vstd::bytes::lemma_auto_spec_u64_to_from_le_bytes();
            assert(spec_encode_account(cand).len() == 28 + cand.uid.len() + cand.voting_name.len()
                + crate::codec::spec_encode_options(cand.voting_options).len());
        }
        let size = voting_account.exact_size();
        Ok(
            CreateVotingPlan {
                voting_account,
                pda_key,
                bump_seed,
                size,
                owner_lamports: create_voting_accounts.owner.lamports,
            },
        )
    }

    /// Second phase of poll creation, run after the host has quoted the
    /// exemption minimum for the planned record size: fails when the owner's
    /// balance cannot fund it, and otherwise produces the exact bytes to
    /// write into the newly created record.
    pub fn finish_create_voting(plan: &CreateVotingPlan, min_balance: u64) -> (r: Result<
        Vec<u8>,
        VoteProgramError,
    >)
        requires
            spec_encodable(plan.voting_account@),
        ensures
            match r {
                Ok(d) => plan.owner_lamports >= min_balance && d@ == spec_encode_account(
                    plan.voting_account@,
                ),
                Err(e) => plan.owner_lamports < min_balance && e
                    == VoteProgramError::ResourceError,
            },
    {
        if plan.owner_lamports < min_balance {
            return Err(VoteProgramError::ResourceError);
        }
        Ok(plan.voting_account.encode())
    }

    /// Casts one vote: resolves and checks the accounts, decodes the stored
    /// record, re-verifies that the storage handle sits at the address
    /// derived from the decoded identifier, looks the option up, checks the
    /// voting window (both boundaries vote), and returns the updated record
    /// bytes, exactly as long as the stored ones. On any error nothing is
    /// produced, so the stored record stays byte-identical.
    pub fn process_vote(
        program_id: &Vec<u8>,
        voting_option_id: u8,
        voting_accounts: VoteAccounts,
        now: i64,
    ) -> (r: Result<Vec<u8>, VoteProgramError>)
        requires
            program_id@.len() == 32,
        ensures
            match r {
                Ok(d) => spec_vote_outcome(program_id@, voting_option_id, voting_accounts, now)
                    matches Ok(a2) && d@ == spec_encode_account(a2) && d@.len()
                    == voting_accounts.voting_pda.data@.len(),
                Err(e) => spec_vote_outcome(program_id@, voting_option_id, voting_accounts, now)
                    == Err::<VotingAccountV, VoteProgramError>(e),
            },
    {
        match voting_accounts.validate() {
            Ok(()) => {},
            Err(e) => {
                return Err(e);
            },
        }
        let voting_account = match VotingAccount::decode(&voting_accounts.voting_pda.data) {
            Ok(a) => a,
            Err(e) => {
                return Err(e);
            },
        };
        match validate_pda(
            program_id,
            &voting_accounts.owner.key,
            &voting_accounts.voting_pda.key,
            &voting_account.uid,
        ) {
            Ok(x) => x,
            Err(e) => {
                return Err(e);
            },
        };
        let target_index = match find_option_index(&voting_account.voting_options, voting_option_id) {
            Some(j) => j,
            None => {
                return Err(VoteProgramError::UnknownOption);
            },
        };
        if now < voting_account.start_date {
            return Err(VoteProgramError::VotingNotStartedYet);
        }
        if now > voting_account.end_date {
            return Err(VoteProgramError::VotingExpired);
        }
        let ghost av = voting_account@;
        let ghost a2 = spec_bump_counter(av, target_index as int);
        proof {
            lemma_decode_exact(voting_accounts.voting_pda.data@);
            lemma_find_option_props(av.voting_options, voting_option_id, 0);
        }
        let VotingAccount { uid, voting_name, start_date, end_date, voting_options } =
            voting_account;
        let new_options = bump_option_counter(voting_options, target_index);
        let updated = VotingAccount {
            uid,
            voting_name,
            start_date,
            end_date,
            voting_options: new_options,
        };
        proof {
            assert(updated@ =~= a2);
            assert forall|i: int| 0 <= i < a2.voting_options.len() implies a2.voting_options[i]
                .option_description.len() == av.voting_options[i].option_description.len() by {}
            lemma_encode_options_len_congruent(a2.voting_options, av.voting_options);
            vstd::bytes::lemma_auto_spec_u32_to_from_le_bytes();
            vstd::bytes::lemma_auto_spec_u64_to_from_le_bytes();
            assert(spec_encode_account(a2).len() == spec_encode_account(av).len());
        }
        let out = updated.encode();
        Ok(out)
    }
}

} // verus!
