use vstd::prelude::*;

use crate::codec::{decode_spec, unframe_bytes, unframe_spec};
use crate::crypto::{sha256, sha256_of};
use crate::key::{AccountRef, Pubkey};
use crate::meta::{IAccountMeta, InterfaceError, MetaView, PreflightAccounts};
use crate::resolver::resolve_spec;
use vstd::string::StringSliceAdditionalSpecFns;

verus! {

/// The namespace of every operation name: the ASCII bytes of `global:`.
pub open spec fn namespace_prefix() -> Seq<u8> {
    seq![103u8, 108u8, 111u8, 98u8, 97u8, 108u8, 58u8]
}

/// What names the probe of an operation: the ASCII bytes of `preflight_`.
pub open spec fn preflight_prefix() -> Seq<u8> {
    seq![112u8, 114u8, 101u8, 102u8, 108u8, 105u8, 103u8, 104u8, 116u8, 95u8]
}

/// The string hashed for an operation: `global:<name>`, or
/// `global:preflight_<name>` for its probe.
pub open spec fn op_preimage(name: Seq<u8>, preflight: bool) -> Seq<u8> {
    if preflight {
        namespace_prefix() + preflight_prefix() + name
    } else {
        namespace_prefix() + name
    }
}

/// The opcode of an operation: the first 8 bytes of the hash of its preimage.
pub open spec fn opcode_spec(name: Seq<u8>, preflight: bool) -> Seq<u8> {
    sha256_of(op_preimage(name, preflight)).subrange(0, 8)
}

/// The metadata that a live account gets in a real invocation.
pub open spec fn live_meta(a: AccountRef) -> MetaView {
    (a.key@, a.is_signer, a.is_writable)
}

/// The metadata that a live account gets in a probe: never signing.
pub open spec fn probe_meta(a: AccountRef) -> MetaView {
    (a.key@, false, a.is_writable)
}

/// An instruction for the host: the program to run, the accounts' metadata
/// in order, and the payload.
#[derive(Clone, Debug)]
pub struct Instruction {
    pub program_id: Pubkey,
    pub accounts: Vec<IAccountMeta>,
    pub data: Vec<u8>,
}

impl Instruction {
    pub open spec fn metas(&self) -> Seq<MetaView> {
        self.accounts@.map_values(|m: IAccountMeta| m@)
    }
}

/// An instruction together with the live accounts handed to the host for it.
#[derive(Clone, Debug)]
pub struct Invocation {
    pub instruction: Instruction,
    pub account_infos: Vec<AccountRef>,
}

/// A program to call, the accounts of its schema in order, and the pool of
/// further accounts that resolution may draw on.
#[derive(Clone, Debug)]
pub struct CpiContext {
    pub program: AccountRef,
    pub accounts: Vec<AccountRef>,
    pub remaining_accounts: Vec<AccountRef>,
}

/// The most recent value of the host's return channel: who wrote it, and what.
#[derive(Clone, Debug)]
pub struct ReturnData {
    pub program_id: Pubkey,
    pub data: Vec<u8>,
}

impl View for ReturnData {
    type V = (Seq<u8>, Seq<u8>);

    open spec fn view(&self) -> (Seq<u8>, Seq<u8>) {
        (self.program_id@, self.data@)
    }
}

/// What the dispatcher asks its runner to do next.
#[derive(Clone, Debug)]
pub enum CallAction {
    /// Hand this invocation to the host.
    Invoke(Invocation),
    /// Report these resolved accounts instead of invoking anything.
    DryRun(Vec<AccountRef>),
}

/// What the runner reports back to the dispatcher.
#[derive(Clone, Debug)]
pub enum CallEvent {
    /// The operation begins.
    Start,
    /// The probe returned; this is the return channel as it stands.
    Returned(Option<ReturnData>),
}

/// The probe of operation `name` on `program`: its opcode, and each account
/// of the caller's schema as a non-signing request.
pub open spec fn is_probe(
    inv: Invocation,
    name: Seq<u8>,
    program: AccountRef,
    accounts: Seq<AccountRef>,
) -> bool {
    &&& inv.instruction.program_id == program.key
    &&& inv.instruction.metas() == accounts.map_values(|a: AccountRef| probe_meta(a))
    &&& inv.instruction.data@ == opcode_spec(name, true)
    &&& inv.account_infos@ == accounts
}

/// The real invocation of operation `name` on `program`: the schema's
/// accounts with their live flags, then the extra requests with their own
/// flags; the live accounts are the schema's followed by the resolved ones.
pub open spec fn is_execution(
    inv: Invocation,
    name: Seq<u8>,
    program: AccountRef,
    accounts: Seq<AccountRef>,
    extra: Seq<MetaView>,
    found: Seq<AccountRef>,
) -> bool {
    &&& inv.instruction.program_id == program.key
    &&& inv.instruction.metas() == accounts.map_values(|a: AccountRef| live_meta(a)) + extra
    &&& inv.instruction.data@ == opcode_spec(name, false)
    &&& inv.account_infos@ == accounts + found
}

/// The outcome of the second phase, once the extra requests are known.
pub open spec fn execution_outcome(
    r: Result<CallAction, InterfaceError>,
    name: Seq<u8>,
    program: AccountRef,
    accounts: Seq<AccountRef>,
    remaining: Seq<AccountRef>,
    extra: Seq<MetaView>,
    log_info: bool,
) -> bool {
    match resolve_spec(extra, remaining) {
        Err(k) => r matches Err(InterfaceError::ResourceNotFound(key)) && key@ == k,
        Ok(found) => if log_info {
            r matches Ok(CallAction::DryRun(v)) && v@ == accounts + found
        } else {
            r matches Ok(CallAction::Invoke(inv)) && is_execution(
                inv,
                name,
                program,
                accounts,
                extra,
                found,
            )
        },
    }
}

/// What a target's answer on the return channel means: the extra requests,
/// when `target` wrote it and it holds a framed, well-formed resource list.
pub open spec fn response_spec(target: Seq<u8>, rd: Option<(Seq<u8>, Seq<u8>)>) -> Result<
    Seq<MetaView>,
    InterfaceError,
> {
    match rd {
        None => Err(InterfaceError::UnexpectedResponder),
        Some((writer, data)) => if writer != target {
            Err(InterfaceError::UnexpectedResponder)
        } else {
            match unframe_spec(data) {
                None => Err(InterfaceError::DecodeError),
                Some(inner) => match decode_spec(inner) {
                    None => Err(InterfaceError::DecodeError),
                    Some(s) => Ok(s),
                },
            }
        },
    }
}

pub open spec fn option_view(rd: Option<ReturnData>) -> Option<(Seq<u8>, Seq<u8>)> {
    match rd {
        None => None,
        Some(d) => Some(d@),
    }
}

/// An answer written by any other program than the target is refused,
/// whatever it holds.
pub proof fn lemma_foreign_responder_rejected(target: Seq<u8>, writer: Seq<u8>, data: Seq<u8>)
    requires
        writer != target,
    ensures
        response_spec(target, Some((writer, data))) == Err::<Seq<MetaView>, InterfaceError>(
            InterfaceError::UnexpectedResponder,
        ),
{
}

fn push_all(out: &mut Vec<u8>, bytes: &[u8])
    ensures
        final(out)@ == old(out)@ + bytes@,
{
    let mut i: usize = 0;
    while i < bytes.len()
        invariant
            0 <= i <= bytes@.len(),
            out@ == old(out)@ + bytes@.subrange(0, i as int),
        decreases bytes@.len() - i,
    {
        out.push(bytes[i]);
        assert(bytes@.subrange(0, i + 1) =~= bytes@.subrange(0, i as int).push(bytes@[i as int]));
        i = i + 1;
    }
    assert(bytes@.subrange(0, bytes@.len() as int) =~= bytes@);
}

/// The opcode of operation `name`, or of its probe.
pub fn opcode(name: &[u8], preflight: bool) -> (r: Vec<u8>)
    ensures
        r@ == opcode_spec(name@, preflight),
{
    let mut preimage: Vec<u8> = vec![103u8, 108u8, 111u8, 98u8, 97u8, 108u8, 58u8];
    assert(preimage@ =~= namespace_prefix());
    if preflight {
        let p: Vec<u8> = vec![112u8, 114u8, 101u8, 102u8, 108u8, 105u8, 103u8, 104u8, 116u8, 95u8];
        assert(p@ =~= preflight_prefix());
        push_all(&mut preimage, p.as_slice());
    }
    push_all(&mut preimage, name);
    assert(preimage@ =~= op_preimage(name@, preflight));
    let digest = sha256(preimage.as_slice());
    let mut r: Vec<u8> = Vec::new();
    let mut i: usize = 0;
    while i < 8
        invariant
            0 <= i <= 8,
            digest@ == sha256_of(op_preimage(name@, preflight)),
            r@ == digest@.subrange(0, i as int),
        decreases 8 - i,
    {
        r.push(digest[i]);
        assert(digest@.subrange(0, i + 1) =~= digest@.subrange(0, i as int).push(digest@[i as int]));
        i = i + 1;
    }
    r
}

fn copy_refs(v: &Vec<AccountRef>) -> (r: Vec<AccountRef>)
    ensures
        r@ == v@,
{
    let mut r: Vec<AccountRef> = Vec::new();
    let mut i: usize = 0;
    while i < v.len()
        invariant
            0 <= i <= v@.len(),
            r@ == v@.subrange(0, i as int),
        decreases v@.len() - i,
    {
        r.push(v[i]);
        assert(v@.subrange(0, i + 1) =~= v@.subrange(0, i as int).push(v@[i as int]));
        i = i + 1;
    }
    assert(v@.subrange(0, v@.len() as int) =~= v@);
    r
}

fn metas_of(accounts: &Vec<AccountRef>, probe: bool) -> (r: Vec<IAccountMeta>)
    ensures
        r@.map_values(|m: IAccountMeta| m@) == if probe {
            accounts@.map_values(|a: AccountRef| probe_meta(a))
        } else {
            accounts@.map_values(|a: AccountRef| live_meta(a))
        },
{
    let ghost target = if probe {
        accounts@.map_values(|a: AccountRef| probe_meta(a))
    } else {
        accounts@.map_values(|a: AccountRef| live_meta(a))
    };
    let mut r: Vec<IAccountMeta> = Vec::new();
    let mut i: usize = 0;
    while i < accounts.len()
        invariant
            0 <= i <= accounts@.len(),
            target == if probe {
                accounts@.map_values(|a: AccountRef| probe_meta(a))
            } else {
                accounts@.map_values(|a: AccountRef| live_meta(a))
            },
            r@.map_values(|m: IAccountMeta| m@) =~= target.subrange(0, i as int),
        decreases accounts@.len() - i,
    {
        let a = accounts[i];
        let m = IAccountMeta { pubkey: a.key, signer: a.is_signer && !probe, writable: a.is_writable };
        let ghost prev = r@;
        r.push(m);
        proof {
            assert(target[i as int] == m@);
            assert(r@.map_values(|m: IAccountMeta| m@) =~= prev.map_values(|m: IAccountMeta| m@).push(
                m@,
            ));
            assert(target.subrange(0, i + 1) =~= target.subrange(0, i as int).push(target[i as int]));
        }
        i = i + 1;
    }
    assert(target.subrange(0, accounts@.len() as int) =~= target);
    r
}

/// Builds the probe of operation `function_name` for the accounts of `ctx`,
/// every one of them as a non-signing request.
pub fn call_preflight_interface_function(function_name: &str, ctx: &CpiContext) -> (r:
    Invocation)
    ensures
        is_probe(r, function_name.spec_bytes(), ctx.program, ctx.accounts@),
{
    let data = opcode(function_name.as_bytes(), true);
    let accounts = metas_of(&ctx.accounts, true);
    let infos = copy_refs(&ctx.accounts);
    let instruction = Instruction { program_id: ctx.program.key, accounts, data };
    Invocation { instruction, account_infos: infos }
}

/// Reads the target's answer from the return channel: fails with
/// `UnexpectedResponder` unless `program_key` wrote it, and with
/// `DecodeError` unless it holds a framed, well-formed resource list.
pub fn get_interface_accounts(program_key: &Pubkey, return_data: &Option<ReturnData>) -> (r:
    Result<PreflightAccounts, InterfaceError>)
    ensures
        match response_spec(program_key@, option_view(*return_data)) {
            Ok(s) => r matches Ok(p) && p@ == s,
            Err(e) => r == Err::<PreflightAccounts, InterfaceError>(e),
        },
{
    match return_data {
        None => Err(InterfaceError::UnexpectedResponder),
        Some(rd) => {
            if !rd.program_id.same_key(program_key) {
                return Err(InterfaceError::UnexpectedResponder);
            }
            let inner = unframe_bytes(rd.data.as_slice())?;
            PreflightAccounts::decode(inner.as_slice())
        },
    }
}

/// Builds the real invocation of operation `function_name`: the accounts of
/// `ctx` with their live flags, then the extra requests with their declared
/// flags, each resolved against `ctx.remaining_accounts`. With `log_info`
/// it reports the resolved accounts instead.
pub fn call_interface_function(
    function_name: &str,
    ctx: CpiContext,
    additional_interface_accounts: &PreflightAccounts,
    log_info: bool,
) -> (r: Result<CallAction, InterfaceError>)
    ensures
        execution_outcome(
            r,
            function_name.spec_bytes(),
            ctx.program,
            ctx.accounts@,
            ctx.remaining_accounts@,
            additional_interface_accounts@,
            log_info,
        ),
{
    let mut found = additional_interface_accounts.match_accounts(
        ctx.remaining_accounts.as_slice(),
    )?;
    let mut infos = copy_refs(&ctx.accounts);
    infos.append(&mut found);
    if log_info {
        return Ok(CallAction::DryRun(infos));
    }
    let data = opcode(function_name.as_bytes(), false);
    let mut accounts = metas_of(&ctx.accounts, false);
    let ghost schema = accounts@;
    let mut extra: Vec<IAccountMeta> = Vec::new();
    let mut i: usize = 0;
    while i < additional_interface_accounts.accounts.len()
        invariant
            0 <= i <= additional_interface_accounts.accounts@.len(),
            extra@ == additional_interface_accounts.accounts@.subrange(0, i as int),
        decreases additional_interface_accounts.accounts@.len() - i,
    {
        let m = additional_interface_accounts.accounts[i];
        extra.push(IAccountMeta { pubkey: m.pubkey, signer: m.signer, writable: m.writable });
        assert(additional_interface_accounts.accounts@.subrange(0, i + 1)
            =~= additional_interface_accounts.accounts@.subrange(0, i as int).push(m));
        i = i + 1;
    }
    assert(additional_interface_accounts.accounts@.subrange(
        0,
        additional_interface_accounts.accounts@.len() as int,
    ) =~= additional_interface_accounts.accounts@);
    let ghost extra_seq = extra@;
    accounts.append(&mut extra);
    assert(accounts@.map_values(|m: IAccountMeta| m@) =~= schema.map_values(|m: IAccountMeta| m@)
        + extra_seq.map_values(|m: IAccountMeta| m@));
    let instruction = Instruction { program_id: ctx.program.key, accounts, data };
    Ok(CallAction::Invoke(Invocation { instruction, account_infos: infos }))
}

/// A caller's account schema for an operation, with the fixed mapping onto
/// the target's schema.
pub trait ToTargetProgram {
    /// The caller's accounts, in schema order.
    spec fn source_accounts(&self) -> Seq<AccountRef>;

    /// The target program.
    spec fn target_program(&self) -> AccountRef;

    /// The target schema's accounts, in its order.
    spec fn target_accounts(&self) -> Seq<AccountRef>;

    fn to_account_infos(&self) -> (r: Vec<AccountRef>)
        ensures
            r@ == self.source_accounts(),
    ;

    fn to_target_program(&self) -> (r: Pubkey)
        ensures
            r == self.target_program().key,
    ;

    fn get_target_program(&self) -> (r: AccountRef)
        ensures
            r == self.target_program(),
    ;

    fn to_target_context(&self, remaining_accounts: Vec<AccountRef>) -> (r: CpiContext)
        ensures
            r.program == self.target_program(),
            r.accounts@ == self.target_accounts(),
            r.remaining_accounts@ == remaining_accounts@,
    ;
}

/// The target's schema of `lock`.
#[derive(Clone, Copy, Debug)]
pub struct ILock {
    pub token: AccountRef,
    pub mint: AccountRef,
    pub delegate: AccountRef,
    pub payer: AccountRef,
    pub token_program: AccountRef,
}

impl ILock {
    pub open spec fn accounts_spec(&self) -> Seq<AccountRef> {
        seq![self.token, self.mint, self.delegate, self.payer, self.token_program]
    }

    pub fn to_account_infos(&self) -> (r: Vec<AccountRef>)
        ensures
            r@ == self.accounts_spec(),
    {
        let r = vec![self.token, self.mint, self.delegate, self.payer, self.token_program];
        assert(r@ =~= self.accounts_spec());
        r
    }
}

/// The target's schema of `unlock`.
#[derive(Clone, Copy, Debug)]
pub struct IUnlock {
    pub token: AccountRef,
    pub mint: AccountRef,
    pub delegate: AccountRef,
    pub token_program: AccountRef,
}

impl IUnlock {
    pub open spec fn accounts_spec(&self) -> Seq<AccountRef> {
        seq![self.token, self.mint, self.delegate, self.token_program]
    }

    pub fn to_account_infos(&self) -> (r: Vec<AccountRef>)
        ensures
            r@ == self.accounts_spec(),
    {
        let r = vec![self.token, self.mint, self.delegate, self.token_program];
        assert(r@ =~= self.accounts_spec());
        r
    }
}

/// The caller's schema of `lock`: the target's accounts and the target
/// program itself.
#[derive(Clone, Copy, Debug)]
pub struct TILock {
    pub token: AccountRef,
    pub mint: AccountRef,
    pub delegate: AccountRef,
    pub payer: AccountRef,
    pub token_program: AccountRef,
    pub perm_program: AccountRef,
}

impl TILock {
    pub open spec fn target_schema(&self) -> ILock {
        ILock {
            token: self.token,
            mint: self.mint,
            delegate: self.delegate,
            payer: self.payer,
            token_program: self.token_program,
        }
    }
}

impl ToTargetProgram for TILock {
    open spec fn source_accounts(&self) -> Seq<AccountRef> {
        seq![
            self.token,
            self.mint,
            self.delegate,
            self.payer,
            self.token_program,
            self.perm_program,
        ]
    }

    open spec fn target_program(&self) -> AccountRef {
        self.perm_program
    }

    open spec fn target_accounts(&self) -> Seq<AccountRef> {
        self.target_schema().accounts_spec()
    }

    fn to_account_infos(&self) -> (r: Vec<AccountRef>) {
        let r = vec![
            self.token,
            self.mint,
            self.delegate,
            self.payer,
            self.token_program,
            self.perm_program,
        ];
        assert(r@ =~= self.source_accounts());
        r
    }

    fn to_target_program(&self) -> (r: Pubkey) {
        self.perm_program.key
    }

    fn get_target_program(&self) -> (r: AccountRef) {
        self.perm_program
    }

    fn to_target_context(&self, remaining_accounts: Vec<AccountRef>) -> (r: CpiContext) {
        let inner = ILock {
            token: self.token,
            mint: self.mint,
            delegate: self.delegate,
            payer: self.payer,
            token_program: self.token_program,
        };
        CpiContext {
            program: self.get_target_program(),
            accounts: inner.to_account_infos(),
            remaining_accounts,
        }
    }
}

/// The caller's schema of `unlock`: the target's accounts and the target
/// program itself.
#[derive(Clone, Copy, Debug)]
pub struct TIUnlock {
    pub token: AccountRef,
    pub mint: AccountRef,
    pub delegate: AccountRef,
    pub token_program: AccountRef,
    pub perm_program: AccountRef,
}

impl TIUnlock {
    pub open spec fn target_schema(&self) -> IUnlock {
        IUnlock {
            token: self.token,
            mint: self.mint,
            delegate: self.delegate,
            token_program: self.token_program,
        }
    }
}

impl ToTargetProgram for TIUnlock {
    open spec fn source_accounts(&self) -> Seq<AccountRef> {
        seq![self.token, self.mint, self.delegate, self.token_program, self.perm_program]
    }

    open spec fn target_program(&self) -> AccountRef {
        self.perm_program
    }

    open spec fn target_accounts(&self) -> Seq<AccountRef> {
        self.target_schema().accounts_spec()
    }

    fn to_account_infos(&self) -> (r: Vec<AccountRef>) {
        let r = vec![self.token, self.mint, self.delegate, self.token_program, self.perm_program];
        assert(r@ =~= self.source_accounts());
        r
    }

    fn to_target_program(&self) -> (r: Pubkey) {
        self.perm_program.key
    }

    fn get_target_program(&self) -> (r: AccountRef) {
        self.perm_program
    }

    fn to_target_context(&self, remaining_accounts: Vec<AccountRef>) -> (r: CpiContext) {
        let inner = IUnlock {
            token: self.token,
            mint: self.mint,
            delegate: self.delegate,
            token_program: self.token_program,
        };
        CpiContext {
            program: self.get_target_program(),
            accounts: inner.to_account_infos(),
            remaining_accounts,
        }
    }
}

/// One step of the two-phase invocation of operation `ix_name` through the
/// caller's schema `ctx`. On `Start` it asks for the probe of the operation
/// on the target. On `Returned` it reads the target's answer, resolves the
/// extra requests against `remaining_accounts`, and asks for the real
/// invocation (or, with `log_info`, reports the resolved accounts); any
/// failure on the way is returned and ends the operation.
pub fn call<C: ToTargetProgram>(
    ix_name: &str,
    ctx: &C,
    remaining_accounts: Vec<AccountRef>,
    log_info: bool,
    event: &CallEvent,
) -> (r: Result<CallAction, InterfaceError>)
    ensures
        match event {
            CallEvent::Start => r matches Ok(CallAction::Invoke(inv)) && is_probe(
                inv,
                ix_name.spec_bytes(),
                ctx.target_program(),
                ctx.source_accounts(),
            ),
            CallEvent::Returned(rd) => match response_spec(
                ctx.target_program().key@,
                option_view(*rd),
            ) {
                Err(e) => r == Err::<CallAction, InterfaceError>(e),
                Ok(extra) => execution_outcome(
                    r,
                    ix_name.spec_bytes(),
                    ctx.target_program(),
                    ctx.target_accounts(),
                    remaining_accounts@,
                    extra,
                    log_info,
                ),
            },
        },
{
    match event {
        CallEvent::Start => {
            let probe_ctx = CpiContext {
                program: ctx.get_target_program(),
                accounts: ctx.to_account_infos(),
                remaining_accounts,
            };
            Ok(CallAction::Invoke(call_preflight_interface_function(ix_name, &probe_ctx)))
        },
        CallEvent::Returned(rd) => {
            let additional_interface_accounts = get_interface_accounts(
                &ctx.to_target_program(),
                rd,
            )?;
            let cpi_ctx = ctx.to_target_context(remaining_accounts);
            call_interface_function(ix_name, cpi_ctx, &additional_interface_accounts, log_info)
        },
    }
}

} // verus!
