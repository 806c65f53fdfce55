//! Wire instructions and account-role resolution: the typed shape of the two
//! instructions, the model of an untrusted account handle, and the validating
//! constructors that assign fixed positional roles to a handle list.
use vstd::prelude::*;

verus! {

use crate::errors::{AccountStateKind, VoteProgramError};
use crate::utils::clone_bytes;

/// One selectable option as it appears on the wire in a create instruction.
/// Any counter value present is accepted and later discarded.
#[derive(Debug, PartialEq, Eq, Clone)]
pub struct VotingOption {
    /// Counter field of the wire shape; ignored at creation.
    pub counter: u32,
    /// The option's id.
    pub id: u8,
    /// Human-readable description.
    pub description: Vec<u8>,
}

/// Mathematical view of a wire [`VotingOption`].
#[verifier::ext_equal]
pub ghost struct VotingOptionV {
    pub counter: u32,
    pub id: u8,
    pub description: Seq<u8>,
}

impl View for VotingOption {
    type V = VotingOptionV;

    open spec fn view(&self) -> VotingOptionV {
        VotingOptionV { counter: self.counter, id: self.id, description: self.description@ }
    }
}

/// The view of each element of a wire option list.
pub open spec fn spec_instr_options_view(opts: Seq<VotingOption>) -> Seq<VotingOptionV> {
    Seq::new(opts.len(), |i: int| opts[i]@)
}

/// Mathematical view of a [`VotingProgramInstruction`].
#[verifier::ext_equal]
pub ghost enum VotingProgramInstructionV {
    CreateVoting {
        voting_uid: Seq<u8>,
        voting_name: Seq<u8>,
        start_date: i64,
        end_date: i64,
        voting_options: Seq<VotingOptionV>,
    },
    Vote { voting_option_id: u8 },
}

/// A decoded instruction: create a poll, or cast one vote.
#[derive(Debug, PartialEq, Eq, Clone)]
pub enum VotingProgramInstruction {
    /// Create a time-bounded poll with a fixed option set.
    CreateVoting {
        voting_uid: Vec<u8>,
        voting_name: Vec<u8>,
        start_date: i64,
        end_date: i64,
        voting_options: Vec<VotingOption>,
    },
    /// Cast one vote for the option with the given id.
    Vote { voting_option_id: u8 },
}

impl View for VotingProgramInstruction {
    type V = VotingProgramInstructionV;

    open spec fn view(&self) -> VotingProgramInstructionV {
        match self {
            VotingProgramInstruction::CreateVoting {
                voting_uid,
                voting_name,
                start_date,
                end_date,
                voting_options,
            } => VotingProgramInstructionV::CreateVoting {
                voting_uid: voting_uid@,
                voting_name: voting_name@,
                start_date: *start_date,
                end_date: *end_date,
                voting_options: spec_instr_options_view(voting_options@),
            },
            VotingProgramInstruction::Vote { voting_option_id } => VotingProgramInstructionV::Vote {
                voting_option_id: *voting_option_id,
            },
        }
    }
}

/// The wire view of an option that was read through the record codec's
/// option layout, which is byte-for-byte the same.
pub open spec fn spec_instr_option_of_state(o: crate::state::VotingOptionV) -> VotingOptionV {
    VotingOptionV { counter: o.counter, id: o.option_id, description: o.option_description }
}

/// The wire view of a whole option list read through the record codec.
pub open spec fn spec_instr_options_of_state(s: Seq<crate::state::VotingOptionV>) -> Seq<
    VotingOptionV,
> {
    Seq::new(s.len(), |i: int| spec_instr_option_of_state(s[i]))
}

/// The instruction held in `b`, or `None` when `b` is not exactly one
/// tag-discriminated instruction: tag 0 carries the create payload, whose
/// layout equals the record's field layout; tag 1 carries one option id. Any
/// truncation, unknown tag, or trailing garbage fails the whole decode.
pub open spec fn spec_decode_instruction(b: Seq<u8>) -> Option<VotingProgramInstructionV> {
    match crate::codec::spec_take_u8(b, 0) {
        Some((tag, p)) => if tag == 0 {
            match crate::codec::spec_take_account_fields(b, p) {
                Some((a, p2)) => if p2 == b.len() {
                    Some(
                        VotingProgramInstructionV::CreateVoting {
                            voting_uid: a.uid,
                            voting_name: a.voting_name,
                            start_date: a.start_date,
                            end_date: a.end_date,
                            voting_options: spec_instr_options_of_state(a.voting_options),
                        },
                    )
                } else {
                    None
                },
                None => None,
            }
        } else if tag == 1 {
            match crate::codec::spec_take_u8(b, p) {
                Some((id, p2)) => if p2 == b.len() {
                    Some(VotingProgramInstructionV::Vote { voting_option_id: id })
                } else {
                    None
                },
                None => None,
            }
        } else {
            None
        },
        None => None,
    }
}

/// Decodes a raw instruction buffer all-or-nothing: any truncation, unknown
/// tag, or field that does not fit its declared type fails with
/// `MalformedInput`, and no partial instruction is ever produced.
pub fn decode_instruction(data: &Vec<u8>) -> (r: Result<VotingProgramInstruction, VoteProgramError>)
    ensures
        match r {
            Ok(ins) => spec_decode_instruction(data@) == Some(ins@),
            Err(e) => spec_decode_instruction(data@) is None && e
                == VoteProgramError::MalformedInput,
        },
{
    if data.len() == 0 {
        return Err(VoteProgramError::MalformedInput);
    }
    let tag = data[0];
    if tag == 0 {
        let (acc, p2) = match crate::codec::take_account_fields_exec(data, 1) {
            Ok(x) => x,
            Err(e) => {
                return Err(e);
            },
        };
        if p2 != data.len() {
            return Err(VoteProgramError::MalformedInput);
        }
        let ghost accv = acc@;
        let crate::state::VotingAccount {
            uid,
            voting_name,
            start_date,
            end_date,
            voting_options,
        } = acc;
        let mut rest = voting_options;
        let ghost orig = rest@;
        let mut built: Vec<VotingOption> = Vec::new();
        let n = rest.len();
        let mut i: usize = 0;
        while i < n
            invariant
                0 <= i <= n,
                n == orig.len(),
                rest@ == orig.skip(i as int),
                built@.len() == i,
                forall|k: int|
                    0 <= k < i ==> built@[k]@ == spec_instr_option_of_state(orig[k]@),
            decreases n - i,
        {
            let o = rest.remove(0);
            proof {
                assert(orig.skip(i as int)[0] == orig[i as int]);
                assert(orig.skip(i as int).subrange(1, orig.skip(i as int).len() as int)
                    =~= orig.skip(i + 1 as int));
            }
            built.push(
                VotingOption { counter: o.counter, id: o.option_id, description: o.option_description },
            );
            i += 1;
        }
        let ins = VotingProgramInstruction::CreateVoting {
            voting_uid: uid,
            voting_name,
            start_date,
            end_date,
            voting_options: built,
        };
        proof {
            let (av, pv) = crate::codec::spec_take_account_fields(data@, 1).unwrap();
            assert(accv == av);
            assert(av.voting_options == crate::state::spec_options_view(orig));
            assert(spec_instr_options_view(built@) =~= spec_instr_options_of_state(
                av.voting_options,
            ));
            assert(spec_decode_instruction(data@) == Some(ins@));
        }
        Ok(ins)
    } else if tag == 1 {
        if data.len() != 2 {
            return Err(VoteProgramError::MalformedInput);
        }
        let id = data[1];
        Ok(VotingProgramInstruction::Vote { voting_option_id: id })
    } else {
        Err(VoteProgramError::MalformedInput)
    }
}

/// An untrusted caller-supplied account handle, reduced to the plain facts the
/// core reads: its address, whether it signed the invocation, its balance, and
/// its stored data.
#[derive(Debug, PartialEq, Eq, Clone)]
pub struct AccountHandle {
    /// The account's 32-byte address.
    pub key: Vec<u8>,
    /// Whether this account's credential backs the current invocation.
    pub is_signer: bool,
    /// The account's balance.
    pub lamports: u64,
    /// The account's stored data; empty when uninitialized.
    pub data: Vec<u8>,
}

/// Mathematical view of an [`AccountHandle`].
#[verifier::ext_equal]
pub ghost struct AccountHandleV {
    pub key: Seq<u8>,
    pub is_signer: bool,
    pub lamports: u64,
    pub data: Seq<u8>,
}

impl View for AccountHandle {
    type V = AccountHandleV;

    open spec fn view(&self) -> AccountHandleV {
        AccountHandleV {
            key: self.key@,
            is_signer: self.is_signer,
            lamports: self.lamports,
            data: self.data@,
        }
    }
}

impl AccountHandle {
    /// An account handle is well formed when its address is 32 bytes.
    pub open spec fn wf(&self) -> bool {
        self.key@.len() == 32
    }
}

/// The host's well-known system-program identity: the all-zero 32-byte
/// address (base58 `11111111111111111111111111111111`).
pub open spec fn spec_system_program_id() -> Seq<u8> {
    Seq::new(32, |i: int| 0u8)
}

/// The system program's 32-byte address.
pub fn system_program_id() -> (r: Vec<u8>)
    ensures
        r@ == spec_system_program_id(),
{
    let mut r: Vec<u8> = Vec::new();
    let mut i: usize = 0;
    while i < 32
        invariant
            0 <= i <= 32,
            r@ =~= Seq::new(i as nat, |k: int| 0u8),
        decreases 32 - i,
    {
        r.push(0u8);
        proof {
            assert(r@ =~= Seq::new((i + 1) as nat, |k: int| 0u8));
        }
        i += 1;
    }
    proof {
        assert(r@ =~= spec_system_program_id());
    }
    r
}

/// Whether two byte strings are equal.
pub fn bytes_eq(a: &Vec<u8>, b: &Vec<u8>) -> (r: bool)
    ensures
        r == (a@ == b@),
{
    if a.len() != b.len() {
        proof {
            assert(a@ != b@);
        }
        return false;
    }
    let n = a.len();
    let mut i: usize = 0;
    while i < n
        invariant
            0 <= i <= n,
            n == a@.len(),
            n == b@.len(),
            forall|k: int| 0 <= k < i ==> a@[k] == b@[k],
        decreases n - i,
    {
        if a[i] != b[i] {
            proof {
                assert(a@[i as int] != b@[i as int]);
            }
            return false;
        }
        i += 1;
    }
    proof {
        assert(a@ =~= b@);
    }
    true
}

/// The accounts of a create instruction, by role: the paying owner, the
/// storage account to be created, and the system program.
pub struct CreateVotingAccounts {
    /// The poll owner; must have signed.
    pub owner: AccountHandle,
    /// The storage account at the derived address; must hold no data yet.
    pub pda: AccountHandle,
    /// The system program handle; must be the system program itself.
    pub sys_program: AccountHandle,
}

/// The accounts of a vote instruction, by role: the voter, the poll owner,
/// and the poll's storage account.
pub struct VoteAccounts {
    /// The voter; must have signed.
    pub voter: AccountHandle,
    /// The poll owner whose key anchors the derived address.
    pub owner: AccountHandle,
    /// The poll's storage account; must already hold data.
    pub voting_pda: AccountHandle,
}

impl CreateVotingAccounts {
    pub open spec fn wf(&self) -> bool {
        self.owner.wf() && self.pda.wf() && self.sys_program.wf()
    }

    /// Assigns the fixed positional roles of a create instruction to the
    /// supplied handle list; fails when fewer than three handles are given.
    /// Handles beyond the third are ignored.
    pub fn new(accounts: Vec<AccountHandle>) -> (r: Result<CreateVotingAccounts, VoteProgramError>)
        ensures
            match r {
                Ok(c) => accounts@.len() >= 3 && c.owner@ == accounts@[0]@ && c.pda@
                    == accounts@[1]@ && c.sys_program@ == accounts@[2]@,
                Err(e) => accounts@.len() < 3 && e == VoteProgramError::NotEnoughAccounts,
            },
    {
        let mut accounts = accounts;
        if accounts.len() < 3 {
            return Err(VoteProgramError::NotEnoughAccounts);
        }
        let owner = accounts.remove(0);
        let pda = accounts.remove(0);
        let sys_program = accounts.remove(0);
        Ok(CreateVotingAccounts { owner, pda, sys_program })
    }

    /// The first role-precondition failure of a create instruction's
    /// accounts: the owner must have signed, the storage account must hold no
    /// data, and the system-program handle must be the system program.
    pub open spec fn spec_error(&self) -> Option<VoteProgramError> {
        if !self.owner.is_signer {
            Some(VoteProgramError::MissingSignature)
        } else if self.pda.data@.len() != 0 {
            Some(VoteProgramError::AccountStateError(AccountStateKind::AlreadyInitialized))
        } else if self.sys_program.key@ != spec_system_program_id() {
            Some(VoteProgramError::AccountStateError(AccountStateKind::WrongProgram))
        } else {
            None
        }
    }

    /// Checks the role preconditions of a create instruction's accounts.
    pub fn validate(&self) -> (r: Result<(), VoteProgramError>)
        ensures
            r == (match self.spec_error() {
                None => Ok::<(), VoteProgramError>(()),
                Some(e) => Err::<(), VoteProgramError>(e),
            }),
    {
        if !self.owner.is_signer {
            return Err(VoteProgramError::MissingSignature);
        }
        if self.pda.data.len() != 0 {
            return Err(VoteProgramError::AccountStateError(AccountStateKind::AlreadyInitialized));
        }
        let sys_id = system_program_id();
        if !bytes_eq(&self.sys_program.key, &sys_id) {
            return Err(VoteProgramError::AccountStateError(AccountStateKind::WrongProgram));
        }
        Ok(())
    }
}

impl VoteAccounts {
    pub open spec fn wf(&self) -> bool {
        self.voter.wf() && self.owner.wf() && self.voting_pda.wf()
    }

    /// Assigns the fixed positional roles of a vote instruction to the
    /// supplied handle list; fails when fewer than three handles are given.
    /// Handles beyond the third are ignored.
    pub fn new(accounts: Vec<AccountHandle>) -> (r: Result<VoteAccounts, VoteProgramError>)
        ensures
            match r {
                Ok(c) => accounts@.len() >= 3 && c.voter@ == accounts@[0]@ && c.owner@
                    == accounts@[1]@ && c.voting_pda@ == accounts@[2]@,
                Err(e) => accounts@.len() < 3 && e == VoteProgramError::NotEnoughAccounts,
            },
    {
        let mut accounts = accounts;
        if accounts.len() < 3 {
            return Err(VoteProgramError::NotEnoughAccounts);
        }
        let voter = accounts.remove(0);
        let owner = accounts.remove(0);
        let voting_pda = accounts.remove(0);
        Ok(VoteAccounts { voter, owner, voting_pda })
    }

    /// The first role-precondition failure of a vote instruction's accounts:
    /// the voter must have signed and the storage account must already hold
    /// data.
    pub open spec fn spec_error(&self) -> Option<VoteProgramError> {
        if !self.voter.is_signer {
            Some(VoteProgramError::MissingSignature)
        } else if self.voting_pda.data@.len() == 0 {
            Some(VoteProgramError::AccountStateError(AccountStateKind::Uninitialized))
        } else {
            None
        }
    }

    /// Checks the role preconditions of a vote instruction's accounts.
    pub fn validate(&self) -> (r: Result<(), VoteProgramError>)
        ensures
            r == (match self.spec_error() {
                None => Ok::<(), VoteProgramError>(()),
                Some(e) => Err::<(), VoteProgramError>(e),
            }),
    {
        if !self.voter.is_signer {
            return Err(VoteProgramError::MissingSignature);
        }
        if self.voting_pda.data.len() == 0 {
            return Err(VoteProgramError::AccountStateError(AccountStateKind::Uninitialized));
        }
        Ok(())
    }
}

} // verus!
