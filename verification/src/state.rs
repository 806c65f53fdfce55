//! The persisted poll record: its typed shape, its mathematical view, and the
//! validation rules that every newly created poll must satisfy.
use vstd::prelude::*;

verus! {

use crate::errors::{ValidationErrorKind, VoteProgramError};
use crate::instruction;
use crate::utils::{check_bytes_param, spec_bytes_param_ok};

/// Upper bound on a poll name, in bytes.
pub const VOTING_NAME_MAX_LEN: usize = 200;

/// Upper bound on a poll identifier's trimmed length, in bytes.
pub const VOTING_UID_MAX_LEN: usize = 100;

/// Upper bound on an option description, in bytes.
pub const VOTING_OPT_DESCR_MAX_LEN: usize = 500;

/// One selectable option of a persisted poll.
#[derive(Debug, PartialEq, Eq, Clone)]
pub struct VotingOption {
    /// How many votes this option has received.
    pub counter: u32,
    /// The option's id, unique within its poll.
    pub option_id: u8,
    /// Human-readable description, a non-empty byte string.
    pub option_description: Vec<u8>,
}

/// A persisted poll: identifier, name, voting window, and option list.
#[derive(Debug, PartialEq, Eq, Clone)]
pub struct VotingAccount {
    /// The poll identifier, a non-empty byte string.
    pub uid: Vec<u8>,
    /// The poll's display name, a non-empty byte string.
    pub voting_name: Vec<u8>,
    /// Unix timestamp at which voting opens.
    pub start_date: i64,
    /// Unix timestamp at which voting closes.
    pub end_date: i64,
    /// The ordered, non-empty option list.
    pub voting_options: Vec<VotingOption>,
}

/// Mathematical view of a [`VotingOption`].
#[verifier::ext_equal]
pub ghost struct VotingOptionV {
    pub counter: u32,
    pub option_id: u8,
    pub option_description: Seq<u8>,
}

/// Mathematical view of a [`VotingAccount`].
#[verifier::ext_equal]
pub ghost struct VotingAccountV {
    pub uid: Seq<u8>,
    pub voting_name: Seq<u8>,
    pub start_date: i64,
    pub end_date: i64,
    pub voting_options: Seq<VotingOptionV>,
}

impl View for VotingOption {
    type V = VotingOptionV;

    open spec fn view(&self) -> VotingOptionV {
        VotingOptionV {
            counter: self.counter,
            option_id: self.option_id,
            option_description: self.option_description@,
        }
    }
}

/// The view of each element of an option list.
pub open spec fn spec_options_view(opts: Seq<VotingOption>) -> Seq<VotingOptionV> {
    Seq::new(opts.len(), |i: int| opts[i]@)
}

impl View for VotingAccount {
    type V = VotingAccountV;

    open spec fn view(&self) -> VotingAccountV {
        VotingAccountV {
            uid: self.uid@,
            voting_name: self.voting_name@,
            start_date: self.start_date,
            end_date: self.end_date,
            voting_options: spec_options_view(self.voting_options@),
        }
    }
}

/// The poll record built from a create instruction: the wire options in
/// order, with every counter reset to zero.
pub open spec fn spec_new_account(
    uid: Seq<u8>,
    voting_name: Seq<u8>,
    start_date: i64,
    end_date: i64,
    options: Seq<instruction::VotingOptionV>,
) -> VotingAccountV {
    VotingAccountV {
        uid,
        voting_name,
        start_date,
        end_date,
        voting_options: Seq::new(
            options.len(),
            |i: int|
                (VotingOptionV {
                    counter: 0,
                    option_id: options[i].id,
                    option_description: options[i].description,
                }),
        ),
    }
}

impl VotingAccount {
    /// Builds the poll record for a create instruction, discarding any
    /// counter value supplied on the wire: every counter starts at zero.
    pub fn new(
        voting_uid: Vec<u8>,
        voting_name: Vec<u8>,
        start_date: i64,
        end_date: i64,
        voting_options: Vec<instruction::VotingOption>,
    ) -> (r: VotingAccount)
        ensures
            r@ == spec_new_account(
                voting_uid@,
                voting_name@,
                start_date,
                end_date,
                instruction::spec_instr_options_view(voting_options@),
            ),
    {
        let ghost opts_v = instruction::spec_instr_options_view(voting_options@);
        let mut built: Vec<VotingOption> = Vec::new();
        let mut rest = voting_options;
        let mut i: usize = 0;
        let n = rest.len();
        let ghost orig = rest@;
        while i < n
            invariant
                0 <= i <= n,
                n == orig.len(),
                rest@ == orig.skip(i as int),
                built@.len() == i,
                forall|k: int|
                    0 <= k < i ==> built@[k]@ == (VotingOptionV {
                        counter: 0,
                        option_id: orig[k]@.id,
                        option_description: orig[k]@.description,
                    }),
            decreases n - i,
        {
            let input_vo = rest.remove(0);
            proof {
                assert(orig.skip(i as int)[0] == orig[i as int]);
                assert(orig.skip(i as int).subrange(1, orig.skip(i as int).len() as int)
                    =~= orig.skip(i + 1 as int));
            }
            built.push(
                VotingOption {
                    option_id: input_vo.id,
                    option_description: input_vo.description,
                    counter: 0,
                },
            );
            i += 1;
        }
        let r = VotingAccount {
            uid: voting_uid,
            voting_name,
            voting_options: built,
            start_date,
            end_date,
        };
        proof {
            assert(r@.voting_options =~= spec_new_account(
                r.uid@,
                r.voting_name@,
                start_date,
                end_date,
                opts_v,
            ).voting_options);
            assert(r@ =~= spec_new_account(r.uid@, r.voting_name@, start_date, end_date, opts_v));
        }
        r
    }
}

/// The first invariant violation in the option list at or after index `i`,
/// walking in order: a duplicate of an earlier id is reported before the
/// option's own description bounds.
pub open spec fn spec_options_error_from(opts: Seq<VotingOptionV>, i: int) -> Option<
    ValidationErrorKind,
>
    decreases opts.len() - i,
{
    if i < 0 || i >= opts.len() {
        None
    } else if exists|j: int| 0 <= j < i && opts[j].option_id == opts[i].option_id {
        Some(ValidationErrorKind::DuplicateOptionId)
    } else if !(spec_bytes_param_ok(
        opts[i].option_description,
        1,
        VOTING_OPT_DESCR_MAX_LEN as int,
    )) {
        if crate::utils::spec_trimmed_len(opts[i].option_description) < 1 {
            Some(ValidationErrorKind::DescriptionEmpty)
        } else {
            Some(ValidationErrorKind::DescriptionTooLong)
        }
    } else {
        spec_options_error_from(opts, i + 1)
    }
}

/// The first validation error of a candidate poll at wall-clock `now`, or
/// `None` when the poll satisfies every creation invariant. Checks run in
/// order: identifier bounds, name bounds, non-empty option list, scheduling
/// window, then per-option uniqueness and description bounds. Emptiness is
/// judged after trimming ASCII whitespace, and the identifier's length bound
/// applies to its trimmed length; the name and description bounds apply to
/// the untrimmed byte length.
pub open spec fn spec_validate(a: VotingAccountV, now: i64) -> Option<ValidationErrorKind> {
    if crate::utils::spec_trimmed_len(a.uid) < 1 {
        Some(ValidationErrorKind::UidEmpty)
    } else if crate::utils::spec_trimmed_len(a.uid) > VOTING_UID_MAX_LEN {
        Some(ValidationErrorKind::UidTooLong)
    } else if crate::utils::spec_trimmed_len(a.voting_name) < 1 {
        Some(ValidationErrorKind::NameEmpty)
    } else if a.voting_name.len() > VOTING_NAME_MAX_LEN {
        Some(ValidationErrorKind::NameTooLong)
    } else if a.voting_options.len() == 0 {
        Some(ValidationErrorKind::OptionsEmpty)
    } else if a.start_date < now {
        Some(ValidationErrorKind::StartDateInPast)
    } else if a.start_date >= a.end_date {
        Some(ValidationErrorKind::StartDateAfterEndDate)
    } else {
        spec_options_error_from(a.voting_options, 0)
    }
}

/// Every option at or after `i` of a list that validates has its description
/// within bounds and an id distinct from every earlier option's.
proof fn lemma_options_ok_from(opts: Seq<VotingOptionV>, i: int)
    requires
        0 <= i <= opts.len(),
        spec_options_error_from(opts, i) is None,
    ensures
        forall|k: int|
            i <= k < opts.len() ==> #[trigger] spec_bytes_param_ok(
                opts[k].option_description,
                1,
                VOTING_OPT_DESCR_MAX_LEN as int,
            ),
        forall|j: int, k: int|
            0 <= j < k < opts.len() && i <= k ==> opts[j].option_id != opts[k].option_id,
    decreases opts.len() - i,
{
    if i < opts.len() {
        assert(!(exists|j: int| 0 <= j < i && opts[j].option_id == opts[i].option_id));
        lemma_options_ok_from(opts, i + 1);
    }
}

/// The data-model invariants that hold of every persisted poll: field
/// bounds, a non-empty option set with pairwise distinct ids, and a
/// well-ordered voting window.
pub open spec fn spec_wf_poll(a: VotingAccountV) -> bool {
    &&& crate::utils::spec_trimmed_len(a.uid) >= 1
    &&& crate::utils::spec_trimmed_len(a.uid) <= VOTING_UID_MAX_LEN
    &&& crate::utils::spec_trimmed_len(a.voting_name) >= 1
    &&& a.voting_name.len() <= VOTING_NAME_MAX_LEN
    &&& a.voting_options.len() >= 1
    &&& a.start_date < a.end_date
    &&& forall|k: int|
        0 <= k < a.voting_options.len() ==> #[trigger] spec_bytes_param_ok(
            a.voting_options[k].option_description,
            1,
            VOTING_OPT_DESCR_MAX_LEN as int,
        )
    &&& forall|j: int, k: int|
        0 <= j < k < a.voting_options.len() ==> a.voting_options[j].option_id
            != a.voting_options[k].option_id
}

/// A poll that validates at `now` satisfies every data-model invariant:
/// field bounds, a non-empty option set with pairwise distinct ids, and a
/// well-ordered voting window that has not yet started.
pub proof fn lemma_validate_ok_props(a: VotingAccountV, now: i64)
    requires
        spec_validate(a, now) is None,
    ensures
        spec_wf_poll(a),
        crate::utils::spec_trimmed_len(a.uid) >= 1,
        crate::utils::spec_trimmed_len(a.uid) <= VOTING_UID_MAX_LEN,
        crate::utils::spec_trimmed_len(a.voting_name) >= 1,
        a.voting_name.len() <= VOTING_NAME_MAX_LEN,
        a.voting_options.len() >= 1,
        now <= a.start_date,
        a.start_date < a.end_date,
        forall|k: int|
            0 <= k < a.voting_options.len() ==> #[trigger] spec_bytes_param_ok(
                a.voting_options[k].option_description,
                1,
                VOTING_OPT_DESCR_MAX_LEN as int,
            ),
        forall|j: int, k: int|
            0 <= j < k < a.voting_options.len() ==> a.voting_options[j].option_id
                != a.voting_options[k].option_id,
{
    lemma_options_ok_from(a.voting_options, 0);
}

impl VotingOption {
    /// Checks this option's description bounds.
    fn validate(&self) -> (r: Result<(), VoteProgramError>)
        ensures
            r == (if crate::utils::spec_trimmed_len(self@.option_description) < 1 {
                Err::<(), VoteProgramError>(
                    VoteProgramError::ValidationError(ValidationErrorKind::DescriptionEmpty),
                )
            } else if self@.option_description.len() > VOTING_OPT_DESCR_MAX_LEN {
                Err::<(), VoteProgramError>(
                    VoteProgramError::ValidationError(ValidationErrorKind::DescriptionTooLong),
                )
            } else {
                Ok::<(), VoteProgramError>(())
            }),
    {
        let t = crate::utils::trimmed_len(&self.option_description);
        if t < 1 {
            return Err(VoteProgramError::ValidationError(ValidationErrorKind::DescriptionEmpty));
        }
        if self.option_description.len() > VOTING_OPT_DESCR_MAX_LEN {
            return Err(VoteProgramError::ValidationError(ValidationErrorKind::DescriptionTooLong));
        }
        Ok(())
    }
}

/// Checks uniqueness of option ids and the description bounds of every
/// option, in list order.
fn validate_options(opts: &Vec<VotingOption>) -> (r: Result<(), VoteProgramError>)
    ensures
        r == (match spec_options_error_from(spec_options_view(opts@), 0) {
            None => Ok::<(), VoteProgramError>(()),
            Some(k) => Err::<(), VoteProgramError>(VoteProgramError::ValidationError(k)),
        }),
{
    let ghost ov = spec_options_view(opts@);
    let n = opts.len();
    let mut i: usize = 0;
    while i < n
        invariant
            0 <= i <= n,
            n == opts@.len(),
            ov == spec_options_view(opts@),
            spec_options_error_from(ov, 0) == spec_options_error_from(ov, i as int),
            forall|a: int, b: int|
                0 <= a < b < i ==> ov[a].option_id != ov[b].option_id,
        decreases n - i,
    {
        let mut j: usize = 0;
        let mut dup = false;
        while j < i
            invariant
                0 <= j <= i < n,
                n == opts@.len(),
                ov == spec_options_view(opts@),
                dup == exists|k: int| 0 <= k < j && ov[k].option_id == ov[i as int].option_id,
            decreases i - j,
        {
            let same = opts[j].option_id == opts[i].option_id;
            proof {
                assert(ov[j as int] == opts@[j as int]@);
                assert(ov[i as int] == opts@[i as int]@);
                if same {
                    let jj = j as int;
                    assert(0 <= jj < jj + 1 && ov[jj].option_id == ov[i as int].option_id);
                }
            }
            if same {
                dup = true;
            }
            j += 1;
        }
        if dup {
            return Err(VoteProgramError::ValidationError(ValidationErrorKind::DuplicateOptionId));
        }
        match opts[i].validate() {
            Ok(()) => {},
            Err(e) => {
                return Err(e);
            },
        }
        i += 1;
    }
    Ok(())
}

impl VotingAccount {
    /// Validates every creation invariant of this poll at wall-clock `now`,
    /// reporting the first violated one.
    pub fn validate(&self, now: i64) -> (r: Result<(), VoteProgramError>)
        ensures
            r == (match spec_validate(self@, now) {
                None => Ok::<(), VoteProgramError>(()),
                Some(k) => Err::<(), VoteProgramError>(VoteProgramError::ValidationError(k)),
            }),
    {
        let uid_t = crate::utils::trimmed_len(&self.uid);
        if uid_t < 1 {
            return Err(VoteProgramError::ValidationError(ValidationErrorKind::UidEmpty));
        }
        if uid_t > VOTING_UID_MAX_LEN {
            return Err(VoteProgramError::ValidationError(ValidationErrorKind::UidTooLong));
        }
        let name_t = crate::utils::trimmed_len(&self.voting_name);
        if name_t < 1 {
            return Err(VoteProgramError::ValidationError(ValidationErrorKind::NameEmpty));
        }
        if self.voting_name.len() > VOTING_NAME_MAX_LEN {
            return Err(VoteProgramError::ValidationError(ValidationErrorKind::NameTooLong));
        }
        if self.voting_options.len() == 0 {
            return Err(VoteProgramError::ValidationError(ValidationErrorKind::OptionsEmpty));
        }
        if self.start_date < now {
            return Err(VoteProgramError::ValidationError(ValidationErrorKind::StartDateInPast));
        }
        if self.start_date >= self.end_date {
            return Err(
                VoteProgramError::ValidationError(ValidationErrorKind::StartDateAfterEndDate),
            );
        }
        validate_options(&self.voting_options)
    }
}

} // verus!
