//! Laws that every successful instruction keeps, stated over the records
//! presented to it.
use vstd::prelude::*;

use crate::account_info::RecordView;
use crate::instruction::{decode_instruction, AuthorityType, InstructionView};
use crate::processor::approve::approve_outcome;
use crate::processor::burn::burn_outcome;
use crate::processor::close_account::{close_account_outcome, closed};
use crate::processor::freeze_account::set_state_outcome;
use crate::processor::initialize_account::{fresh_account, initialize_account_outcome};
use crate::processor::initialize_mint::initialize_mint_outcome;
use crate::processor::initialize_multisig::initialize_multisig_outcome;
use crate::processor::mint_to::mint_to_outcome;
use crate::processor::revoke::revoke_outcome;
use crate::processor::set_authority::set_authority_outcome;
use crate::processor::transfer::{credit, debit, transfer_outcome};
use crate::processor::{process_outcome, rent_for, trailing, with_data};
use crate::state::account::{
    account_bytes, account_view_wf, decode_account, lemma_account_round_trip, AccountState,
    AccountView, ACCOUNT_LEN,
};
use crate::state::mint::{decode_mint, lemma_mint_round_trip, mint_bytes, mint_view_wf, MintView, MINT_LEN};
use crate::state::multisig::{decode_multisig, MULTISIG_LEN};
use crate::utils::authority::owner_or_delegate_outcome;
use crate::state::zeros;

verus! {

/// Every record key is 32 bytes long, as every key of a real record is.
pub open spec fn keys_wf(recs: Seq<RecordView>) -> bool {
    forall|i: int| 0 <= i < recs.len() ==> (#[trigger] recs[i]).key.len() == 32
}

/// The token account a record holds, when it is an initialized token
/// account of this program.
pub open spec fn live_account(program_id: Seq<u8>, r: RecordView) -> Option<AccountView> {
    if r.owner == program_id && r.data.len() == ACCOUNT_LEN {
        match decode_account(r.data) {
            Ok(a) => if a.state != AccountState::Uninitialized {
                Some(a)
            } else {
                None
            },
            Err(_) => None,
        }
    } else {
        None
    }
}

/// The mint a record holds, when it is an initialized mint of this program.
pub open spec fn live_mint(program_id: Seq<u8>, r: RecordView) -> Option<MintView> {
    if r.owner == program_id && r.data.len() == MINT_LEN {
        match decode_mint(r.data) {
            Ok(m) => if m.is_initialized {
                Some(m)
            } else {
                None
            },
            Err(_) => None,
        }
    } else {
        None
    }
}

/// The supply that record `r` declares for the mint keyed `k`.
pub open spec fn issued(program_id: Seq<u8>, r: RecordView, k: Seq<u8>) -> int {
    match live_mint(program_id, r) {
        Some(m) => if r.key == k {
            m.supply as int
        } else {
            0
        },
        None => 0,
    }
}

/// The balance of mint `k` that record `r` holds.
pub open spec fn held(program_id: Seq<u8>, r: RecordView, k: Seq<u8>) -> int {
    match live_account(program_id, r) {
        Some(a) => if a.mint == k {
            a.amount as int
        } else {
            0
        },
        None => 0,
    }
}

/// Total supply declared for mint `k` among the records.
pub open spec fn supply_of(program_id: Seq<u8>, recs: Seq<RecordView>, k: Seq<u8>) -> int
    decreases recs.len(),
{
    if recs.len() == 0 {
        0
    } else {
        supply_of(program_id, recs.drop_last(), k) + issued(program_id, recs.last(), k)
    }
}

/// Total balance of mint `k` held among the records.
pub open spec fn held_of(program_id: Seq<u8>, recs: Seq<RecordView>, k: Seq<u8>) -> int
    decreases recs.len(),
{
    if recs.len() == 0 {
        0
    } else {
        held_of(program_id, recs.drop_last(), k) + held(program_id, recs.last(), k)
    }
}

proof fn lemma_totals_update(
    program_id: Seq<u8>,
    recs: Seq<RecordView>,
    i: int,
    x: RecordView,
    k: Seq<u8>,
)
    requires
        0 <= i < recs.len(),
    ensures
        supply_of(program_id, recs.update(i, x), k) == supply_of(program_id, recs, k) - issued(
            program_id,
            recs[i],
            k,
        ) + issued(program_id, x, k),
        held_of(program_id, recs.update(i, x), k) == held_of(program_id, recs, k) - held(
            program_id,
            recs[i],
            k,
        ) + held(program_id, x, k),
    decreases recs.len(),
{
    if i == recs.len() - 1 {
        assert(recs.update(i, x).drop_last() =~= recs.drop_last());
    } else {
        lemma_totals_update(program_id, recs.drop_last(), i, x, k);
        assert(recs.update(i, x).drop_last() =~= recs.drop_last().update(i, x));
    }
}

/// Net of mint `k`: declared supply minus held balance among the records.
pub open spec fn net_of(program_id: Seq<u8>, recs: Seq<RecordView>, k: Seq<u8>) -> int {
    supply_of(program_id, recs, k) - held_of(program_id, recs, k)
}

proof fn lemma_net_update(program_id: Seq<u8>, recs: Seq<RecordView>, i: int, data: Seq<u8>, k: Seq<u8>)
    requires
        0 <= i < recs.len(),
    ensures
        net_of(program_id, with_data(recs, i, data), k) == net_of(program_id, recs, k) - (issued(
            program_id,
            recs[i],
            k,
        ) - held(program_id, recs[i], k)) + (issued(program_id, with_data(recs, i, data)[i], k)
            - held(program_id, with_data(recs, i, data)[i], k)),
{
    lemma_totals_update(program_id, recs, i, with_data(recs, i, data)[i], k);
}

proof fn lemma_net_transfer(program_id: Seq<u8>, recs: Seq<RecordView>, amount: u64, k: Seq<u8>)
    requires
        transfer_outcome(program_id, recs, amount) is Ok,
    ensures
        net_of(program_id, transfer_outcome(program_id, recs, amount)->Ok_0, k) == net_of(
            program_id,
            recs,
            k,
        ),
{
    let src = decode_account(recs[0].data)->Ok_0;
    let dst = decode_account(recs[1].data)->Ok_0;
    let by_delegate = crate::utils::authority::owner_or_delegate_outcome(
        program_id,
        src.owner,
        src.delegate,
        recs[2],
        crate::processor::trailing(recs, 3),
    )->Ok_0;
    let s2 = debit(src, amount, by_delegate);
    let d2 = credit(dst, amount);
    lemma_account_round_trip(s2);
    lemma_account_round_trip(d2);
    let w1 = with_data(recs, 0, account_bytes(s2));
    lemma_net_update(program_id, recs, 0, account_bytes(s2), k);
    lemma_net_update(program_id, w1, 1, account_bytes(d2), k);
}

proof fn lemma_net_initialize_mint(
    program_id: Seq<u8>,
    recs: Seq<RecordView>,
    decimals: u8,
    mint_authority: Seq<u8>,
    freeze_authority: Option<Seq<u8>>,
    rent: Option<bool>,
    k: Seq<u8>,
)
    requires
        mint_authority.len() == 32,
        freeze_authority matches Some(f) ==> f.len() == 32,
        initialize_mint_outcome(program_id, recs, decimals, mint_authority, freeze_authority, rent) is Ok,
    ensures
        net_of(
            program_id,
            initialize_mint_outcome(program_id, recs, decimals, mint_authority, freeze_authority, rent)->Ok_0,
            k,
        ) == net_of(program_id, recs, k),
{
    let m2 = MintView {
        mint_authority: Some(mint_authority),
        supply: 0,
        decimals,
        is_initialized: true,
        freeze_authority,
    };
    lemma_mint_round_trip(m2);
    lemma_net_update(program_id, recs, 0, mint_bytes(m2), k);
}

proof fn lemma_net_initialize_account(
    program_id: Seq<u8>,
    recs: Seq<RecordView>,
    rent: Option<bool>,
    k: Seq<u8>,
)
    requires
        keys_wf(recs),
        initialize_account_outcome(program_id, recs, rent) is Ok,
    ensures
        net_of(program_id, initialize_account_outcome(program_id, recs, rent)->Ok_0, k) == net_of(
            program_id,
            recs,
            k,
        ),
{
    let a2 = fresh_account(recs[1].key, recs[2].key);
    assert(recs[1].key.len() == 32 && recs[2].key.len() == 32);
    lemma_account_round_trip(a2);
    lemma_net_update(program_id, recs, 0, account_bytes(a2), k);
}

proof fn lemma_net_initialize_multisig(
    program_id: Seq<u8>,
    recs: Seq<RecordView>,
    m: u8,
    rent: Option<bool>,
    k: Seq<u8>,
)
    requires
        initialize_multisig_outcome(program_id, recs, m, rent) is Ok,
    ensures
        net_of(program_id, initialize_multisig_outcome(program_id, recs, m, rent)->Ok_0, k)
            == net_of(program_id, recs, k),
{
    let after = initialize_multisig_outcome(program_id, recs, m, rent)->Ok_0;
    lemma_net_update(program_id, recs, 0, after[0].data, k);
    assert(with_data(recs, 0, after[0].data) == after);
}

proof fn lemma_net_approve(program_id: Seq<u8>, recs: Seq<RecordView>, amount: u64, k: Seq<u8>)
    requires
        keys_wf(recs),
        approve_outcome(program_id, recs, amount) is Ok,
    ensures
        net_of(program_id, approve_outcome(program_id, recs, amount)->Ok_0, k) == net_of(
            program_id,
            recs,
            k,
        ),
{
    let src = decode_account(recs[0].data)->Ok_0;
    let a2 = AccountView {
        delegate: if amount == 0 {
            None
        } else {
            Some(recs[1].key)
        },
        delegated_amount: amount,
        ..src
    };
    assert(recs[1].key.len() == 32);
    lemma_account_round_trip(a2);
    lemma_net_update(program_id, recs, 0, account_bytes(a2), k);
}

proof fn lemma_net_revoke(program_id: Seq<u8>, recs: Seq<RecordView>, k: Seq<u8>)
    requires
        revoke_outcome(program_id, recs) is Ok,
    ensures
        net_of(program_id, revoke_outcome(program_id, recs)->Ok_0, k) == net_of(program_id, recs, k),
{
    let src = decode_account(recs[0].data)->Ok_0;
    let a2 = AccountView { delegate: None, delegated_amount: 0, ..src };
    lemma_account_round_trip(a2);
    lemma_net_update(program_id, recs, 0, account_bytes(a2), k);
}

proof fn lemma_net_set_authority(
    program_id: Seq<u8>,
    recs: Seq<RecordView>,
    authority_type: crate::instruction::AuthorityType,
    new_authority: Option<Seq<u8>>,
    k: Seq<u8>,
)
    requires
        new_authority matches Some(a) ==> a.len() == 32,
        set_authority_outcome(program_id, recs, authority_type, new_authority) is Ok,
    ensures
        net_of(
            program_id,
            set_authority_outcome(program_id, recs, authority_type, new_authority)->Ok_0,
            k,
        ) == net_of(program_id, recs, k),
{
    let after = set_authority_outcome(program_id, recs, authority_type, new_authority)->Ok_0;
    if authority_type == crate::instruction::AuthorityType::MintTokens || authority_type
        == crate::instruction::AuthorityType::FreezeAccount {
        let m = decode_mint(recs[0].data)->Ok_0;
        let m2 = if authority_type == crate::instruction::AuthorityType::MintTokens {
            MintView { mint_authority: new_authority, ..m }
        } else {
            MintView { freeze_authority: new_authority, ..m }
        };
        lemma_mint_round_trip(m2);
        lemma_net_update(program_id, recs, 0, mint_bytes(m2), k);
    } else {
        let a = decode_account(recs[0].data)->Ok_0;
        let a2 = if authority_type == crate::instruction::AuthorityType::AccountOwner {
            AccountView { owner: new_authority->0, delegate: None, delegated_amount: 0, ..a }
        } else {
            AccountView { close_authority: new_authority, ..a }
        };
        lemma_account_round_trip(a2);
        lemma_net_update(program_id, recs, 0, account_bytes(a2), k);
    }
}

#[verifier::rlimit(40)]
proof fn lemma_net_mint_to(program_id: Seq<u8>, recs: Seq<RecordView>, amount: u64, k: Seq<u8>)
    requires
        mint_to_outcome(program_id, recs, amount) is Ok,
    ensures
        net_of(program_id, mint_to_outcome(program_id, recs, amount)->Ok_0, k) == net_of(
            program_id,
            recs,
            k,
        ),
{
    let m = decode_mint(recs[0].data)->Ok_0;
    let dst = decode_account(recs[1].data)->Ok_0;
    let m2 = MintView { supply: (m.supply + amount) as u64, ..m };
    let d2 = credit(dst, amount);
    lemma_mint_round_trip(m2);
    lemma_account_round_trip(d2);
    let w1 = with_data(recs, 0, mint_bytes(m2));
    lemma_net_update(program_id, recs, 0, mint_bytes(m2), k);
    lemma_net_update(program_id, w1, 1, account_bytes(d2), k);
}

proof fn lemma_net_burn(program_id: Seq<u8>, recs: Seq<RecordView>, amount: u64, k: Seq<u8>)
    requires
        burn_outcome(program_id, recs, amount) is Ok,
    ensures
        net_of(program_id, burn_outcome(program_id, recs, amount)->Ok_0, k) == net_of(
            program_id,
            recs,
            k,
        ),
{
    let acc = decode_account(recs[0].data)->Ok_0;
    let m = decode_mint(recs[1].data)->Ok_0;
    let by_delegate = crate::utils::authority::owner_or_delegate_outcome(
        program_id,
        acc.owner,
        acc.delegate,
        recs[2],
        crate::processor::trailing(recs, 3),
    )->Ok_0;
    let a2 = debit(acc, amount, by_delegate);
    let m2 = MintView { supply: (m.supply - amount) as u64, ..m };
    lemma_account_round_trip(a2);
    lemma_mint_round_trip(m2);
    let w1 = with_data(recs, 0, account_bytes(a2));
    lemma_net_update(program_id, recs, 0, account_bytes(a2), k);
    lemma_net_update(program_id, w1, 1, mint_bytes(m2), k);
}

proof fn lemma_net_close_account(program_id: Seq<u8>, recs: Seq<RecordView>, k: Seq<u8>)
    requires
        close_account_outcome(program_id, recs) is Ok,
    ensures
        net_of(program_id, close_account_outcome(program_id, recs)->Ok_0, k) == net_of(
            program_id,
            recs,
            k,
        ),
{
    let w1 = recs.update(
        1,
        RecordView { lamports: (recs[1].lamports + recs[0].lamports) as u64, ..recs[1] },
    );
    let x0 = RecordView { lamports: 0, data: zeros(ACCOUNT_LEN as nat), ..recs[0] };
    lemma_totals_update(program_id, recs, 1, w1[1], k);
    lemma_totals_update(program_id, w1, 0, x0, k);
    assert(w1.update(0, x0) == closed(recs));
    assert(x0.data[108] == 0u8);
}

proof fn lemma_net_set_state(
    program_id: Seq<u8>,
    recs: Seq<RecordView>,
    target: AccountState,
    k: Seq<u8>,
)
    requires
        target != AccountState::Uninitialized,
        set_state_outcome(program_id, recs, target) is Ok,
    ensures
        net_of(program_id, set_state_outcome(program_id, recs, target)->Ok_0, k) == net_of(
            program_id,
            recs,
            k,
        ),
{
    let a = decode_account(recs[0].data)->Ok_0;
    let a2 = AccountView { state: target, ..a };
    lemma_account_round_trip(a2);
    lemma_net_update(program_id, recs, 0, account_bytes(a2), k);
}

/// Supply conservation. A successful instruction leaves unchanged, for every
/// mint key `k`, the supply declared for `k` minus the balance of `k` held in
/// token accounts, among the records presented; so where a mint's supply
/// equals the total held in its accounts, it still does afterwards.
pub proof fn lemma_supply_conservation(
    program_id: Seq<u8>,
    recs: Seq<RecordView>,
    data: Seq<u8>,
    k: Seq<u8>,
)
    requires
        keys_wf(recs),
        process_outcome(program_id, recs, data) is Ok,
    ensures
        net_of(program_id, process_outcome(program_id, recs, data)->Ok_0, k) == net_of(
            program_id,
            recs,
            k,
        ),
        supply_of(program_id, recs, k) == held_of(program_id, recs, k) ==> ({
            let after = process_outcome(program_id, recs, data)->Ok_0;
            supply_of(program_id, after, k) == held_of(program_id, after, k)
        }),
{
    crate::instruction::lemma_decoded_instruction_wf(data);
    let ix = decode_instruction(data)->Ok_0;
    match ix {
        InstructionView::InitializeMint { decimals, mint_authority, freeze_authority } => {
            let rent = rent_for(recs, 1, MINT_LEN as nat);
            lemma_net_initialize_mint(
                program_id,
                recs,
                decimals,
                mint_authority,
                freeze_authority,
                rent,
                k,
            );
        },
        InstructionView::InitializeAccount => {
            let rent = rent_for(recs, 3, ACCOUNT_LEN as nat);
            lemma_net_initialize_account(program_id, recs, rent, k);
        },
        InstructionView::InitializeMultisig { m } => {
            let rent = rent_for(recs, 1, MULTISIG_LEN as nat);
            lemma_net_initialize_multisig(program_id, recs, m, rent, k);
        },
        InstructionView::Transfer { amount } => {
            lemma_net_transfer(program_id, recs, amount, k);
        },
        InstructionView::Approve { amount } => {
            lemma_net_approve(program_id, recs, amount, k);
        },
        InstructionView::Revoke => {
            lemma_net_revoke(program_id, recs, k);
        },
        InstructionView::SetAuthority { authority_type, new_authority } => {
            lemma_net_set_authority(program_id, recs, authority_type, new_authority, k);
        },
        InstructionView::MintTo { amount } => {
            lemma_net_mint_to(program_id, recs, amount, k);
        },
        InstructionView::Burn { amount } => {
            lemma_net_burn(program_id, recs, amount, k);
        },
        InstructionView::CloseAccount => {
            lemma_net_close_account(program_id, recs, k);
        },
        InstructionView::FreezeAccount => {
            lemma_net_set_state(program_id, recs, AccountState::Frozen, k);
        },
        InstructionView::ThawAccount => {
            lemma_net_set_state(program_id, recs, AccountState::Initialized, k);
        },
    }
}

/// The multisig a record holds, when it is an initialized multisig of this program.
pub open spec fn live_multisig(program_id: Seq<u8>, r: RecordView) -> bool {
    &&& r.owner == program_id
    &&& r.data.len() == MULTISIG_LEN
    &&& decode_multisig(r.data) is Ok
    &&& decode_multisig(r.data)->Ok_0.is_initialized
}

/// The record is an initialized mint, token account or multisig of this program.
pub open spec fn is_initialized_record(program_id: Seq<u8>, r: RecordView) -> bool {
    live_mint(program_id, r) is Some || live_account(program_id, r) is Some || live_multisig(
        program_id,
        r,
    )
}

/// A delegate is set exactly when the allowance is positive.
pub open spec fn coherent(a: AccountView) -> bool {
    (a.delegated_amount == 0) == (a.delegate is None)
}

/// The record, when it is a live token account, has a coherent delegation.
pub open spec fn delegate_coherent(program_id: Seq<u8>, r: RecordView) -> bool {
    live_account(program_id, r) matches Some(a) ==> coherent(a)
}

/// The record is a frozen token account of this program.
pub open spec fn is_frozen_account(program_id: Seq<u8>, r: RecordView) -> bool {
    &&& live_account(program_id, r) is Some
    &&& live_account(program_id, r)->0.state == AccountState::Frozen
}

/// A frozen token account comes out unchanged, or, when it is being thawed,
/// changed in its state alone.
pub open spec fn frozen_kept(program_id: Seq<u8>, r: RecordView, r2: RecordView, thawing: bool) -> bool {
    is_frozen_account(program_id, r) ==> live_account(program_id, r2) == live_account(program_id, r)
        || (thawing && live_account(program_id, r2) == Some(
        AccountView { state: AccountState::Initialized, ..live_account(program_id, r)->0 },
    ))
}

/// What one step keeps at one record: delegation coherence, frozen
/// accounts, and initialization (unless the step closes the record).
pub open spec fn record_kept(
    program_id: Seq<u8>,
    r: RecordView,
    r2: RecordView,
    thawing: bool,
    closing: bool,
) -> bool {
    &&& delegate_coherent(program_id, r) ==> delegate_coherent(program_id, r2)
    &&& frozen_kept(program_id, r, r2, thawing)
    &&& (!closing && is_initialized_record(program_id, r)) ==> is_initialized_record(program_id, r2)
}

/// `record_kept` at position `i`, where the flags concern position 0 alone.
pub open spec fn kept_at(
    program_id: Seq<u8>,
    r: RecordView,
    r2: RecordView,
    i: int,
    thawing: bool,
    closing: bool,
) -> bool {
    record_kept(program_id, r, r2, thawing && i == 0, closing && i == 0)
}

/// Every record of `after` keeps, against the record of `recs` at its
/// position, what `record_kept` asks; position 0 gets the given flags.
pub open spec fn step_kept(
    program_id: Seq<u8>,
    recs: Seq<RecordView>,
    after: Seq<RecordView>,
    thawing: bool,
    closing: bool,
) -> bool {
    &&& after.len() == recs.len()
    &&& forall|i: int|
        0 <= i < recs.len() ==> #[trigger] kept_at(
            program_id,
            recs[i],
            after[i],
            i,
            thawing,
            closing,
        )
}

proof fn lemma_account_rewrite_kept(
    program_id: Seq<u8>,
    r: RecordView,
    a2: AccountView,
    thawing: bool,
)
    requires
        account_view_wf(a2),
        r.data.len() == ACCOUNT_LEN,
        decode_account(r.data) is Ok,
        decode_account(r.data)->Ok_0.state != AccountState::Uninitialized ==> a2.state
            != AccountState::Uninitialized,
        decode_account(r.data)->Ok_0.state == AccountState::Frozen ==> a2 == decode_account(
            r.data,
        )->Ok_0 || (thawing && a2 == AccountView {
            state: AccountState::Initialized,
            ..decode_account(r.data)->Ok_0
        }),
        delegate_coherent(program_id, r) && a2.state
            != AccountState::Uninitialized ==> coherent(a2),
    ensures
        record_kept(
            program_id,
            r,
            RecordView { data: account_bytes(a2), ..r },
            thawing,
            false,
        ),
{
    lemma_account_round_trip(a2);
}

proof fn lemma_mint_rewrite_kept(program_id: Seq<u8>, r: RecordView, m2: MintView)
    requires
        mint_view_wf(m2),
        r.data.len() == MINT_LEN,
        decode_mint(r.data) is Ok,
        decode_mint(r.data)->Ok_0.is_initialized ==> m2.is_initialized,
    ensures
        record_kept(program_id, r, RecordView { data: mint_bytes(m2), ..r }, false, false),
{
    lemma_mint_round_trip(m2);
}

proof fn lemma_unchanged_kept(program_id: Seq<u8>, r: RecordView, r2: RecordView, b: bool, c: bool)
    requires
        r2.owner == r.owner,
        r2.data == r.data,
    ensures
        record_kept(program_id, r, r2, b, c),
{
}

proof fn lemma_kept_initialize_mint(
    program_id: Seq<u8>,
    recs: Seq<RecordView>,
    decimals: u8,
    mint_authority: Seq<u8>,
    freeze_authority: Option<Seq<u8>>,
    rent: Option<bool>,
)
    requires
        mint_authority.len() == 32,
        freeze_authority matches Some(f) ==> f.len() == 32,
        initialize_mint_outcome(program_id, recs, decimals, mint_authority, freeze_authority, rent) is Ok,
    ensures
        step_kept(
            program_id,
            recs,
            initialize_mint_outcome(program_id, recs, decimals, mint_authority, freeze_authority, rent)->Ok_0,
            false,
            false,
        ),
{
    let after = initialize_mint_outcome(program_id, recs, decimals, mint_authority, freeze_authority, rent)->Ok_0;
    let m2 = MintView {
        mint_authority: Some(mint_authority),
        supply: 0,
        decimals,
        is_initialized: true,
        freeze_authority,
    };
    lemma_mint_rewrite_kept(program_id, recs[0], m2);
    assert forall|i: int| 0 <= i < recs.len() implies #[trigger] kept_at(
        program_id,
        recs[i],
        after[i],
        i,
        false,
        false,
    ) by {
        if i != 0 {
            lemma_unchanged_kept(program_id, recs[i], after[i], false, false);
        }
    }
}

proof fn lemma_kept_initialize_account(program_id: Seq<u8>, recs: Seq<RecordView>, rent: Option<bool>)
    requires
        keys_wf(recs),
        initialize_account_outcome(program_id, recs, rent) is Ok,
    ensures
        step_kept(program_id, recs, initialize_account_outcome(program_id, recs, rent)->Ok_0,
        false,
        false,
    ),
{
    let after = initialize_account_outcome(program_id, recs, rent)->Ok_0;
    let a2 = fresh_account(recs[1].key, recs[2].key);
    assert(recs[1].key.len() == 32 && recs[2].key.len() == 32);
    lemma_account_rewrite_kept(program_id, recs[0], a2, false);
    assert forall|i: int| 0 <= i < recs.len() implies #[trigger] kept_at(
        program_id,
        recs[i],
        after[i],
        i,
        false,
        false,
    ) by {
        if i != 0 {
            lemma_unchanged_kept(program_id, recs[i], after[i], false, false);
        }
    }
}

proof fn lemma_kept_initialize_multisig(
    program_id: Seq<u8>,
    recs: Seq<RecordView>,
    m: u8,
    rent: Option<bool>,
)
    requires
        initialize_multisig_outcome(program_id, recs, m, rent) is Ok,
    ensures
        step_kept(program_id, recs, initialize_multisig_outcome(program_id, recs, m, rent)->Ok_0,
        false,
        false,
    ),
{
    let after = initialize_multisig_outcome(program_id, recs, m, rent)->Ok_0;
    assert forall|i: int| 0 <= i < recs.len() implies #[trigger] kept_at(
        program_id,
        recs[i],
        after[i],
        i,
        false,
        false,
    ) by {
        if i != 0 {
            lemma_unchanged_kept(program_id, recs[i], after[i], false, false);
        }
    }
}

proof fn lemma_kept_transfer(program_id: Seq<u8>, recs: Seq<RecordView>, amount: u64)
    requires
        transfer_outcome(program_id, recs, amount) is Ok,
    ensures
        step_kept(program_id, recs, transfer_outcome(program_id, recs, amount)->Ok_0,
        false,
        false,
    ),
{
    let after = transfer_outcome(program_id, recs, amount)->Ok_0;
    let src = decode_account(recs[0].data)->Ok_0;
    let dst = decode_account(recs[1].data)->Ok_0;
    let by_delegate = owner_or_delegate_outcome(
        program_id,
        src.owner,
        src.delegate,
        recs[2],
        trailing(recs, 3),
    )->Ok_0;
    lemma_account_rewrite_kept(program_id, recs[0], debit(src, amount, by_delegate), false);
    lemma_account_rewrite_kept(program_id, recs[1], credit(dst, amount), false);
    assert forall|i: int| 0 <= i < recs.len() implies #[trigger] kept_at(
        program_id,
        recs[i],
        after[i],
        i,
        false,
        false,
    ) by {
        if i > 1 {
            lemma_unchanged_kept(program_id, recs[i], after[i], false, false);
        }
    }
}

proof fn lemma_kept_approve(program_id: Seq<u8>, recs: Seq<RecordView>, amount: u64)
    requires
        keys_wf(recs),
        approve_outcome(program_id, recs, amount) is Ok,
    ensures
        step_kept(program_id, recs, approve_outcome(program_id, recs, amount)->Ok_0,
        false,
        false,
    ),
{
    let after = approve_outcome(program_id, recs, amount)->Ok_0;
    let src = decode_account(recs[0].data)->Ok_0;
    assert(recs[1].key.len() == 32);
    lemma_account_rewrite_kept(
        program_id,
        recs[0],
        AccountView {
            delegate: if amount == 0 {
                None
            } else {
                Some(recs[1].key)
            },
            delegated_amount: amount,
            ..src
        },
        false,
    );
    assert forall|i: int| 0 <= i < recs.len() implies #[trigger] kept_at(
        program_id,
        recs[i],
        after[i],
        i,
        false,
        false,
    ) by {
        if i != 0 {
            lemma_unchanged_kept(program_id, recs[i], after[i], false, false);
        }
    }
}

proof fn lemma_kept_revoke(program_id: Seq<u8>, recs: Seq<RecordView>)
    requires
        revoke_outcome(program_id, recs) is Ok,
    ensures
        step_kept(program_id, recs, revoke_outcome(program_id, recs)->Ok_0,
        false,
        false,
    ),
{
    let after = revoke_outcome(program_id, recs)->Ok_0;
    let src = decode_account(recs[0].data)->Ok_0;
    lemma_account_rewrite_kept(
        program_id,
        recs[0],
        AccountView { delegate: None, delegated_amount: 0, ..src },
        false,
    );
    assert forall|i: int| 0 <= i < recs.len() implies #[trigger] kept_at(
        program_id,
        recs[i],
        after[i],
        i,
        false,
        false,
    ) by {
        if i != 0 {
            lemma_unchanged_kept(program_id, recs[i], after[i], false, false);
        }
    }
}

proof fn lemma_kept_set_authority(
    program_id: Seq<u8>,
    recs: Seq<RecordView>,
    authority_type: AuthorityType,
    new_authority: Option<Seq<u8>>,
)
    requires
        new_authority matches Some(a) ==> a.len() == 32,
        set_authority_outcome(program_id, recs, authority_type, new_authority) is Ok,
    ensures
        step_kept(
            program_id,
            recs,
            set_authority_outcome(program_id, recs, authority_type, new_authority)->Ok_0,
            false,
            false,
        ),
{
    let after = set_authority_outcome(program_id, recs, authority_type, new_authority)->Ok_0;
    if authority_type == AuthorityType::MintTokens || authority_type == AuthorityType::FreezeAccount {
        let m = decode_mint(recs[0].data)->Ok_0;
        let m2 = if authority_type == AuthorityType::MintTokens {
            MintView { mint_authority: new_authority, ..m }
        } else {
            MintView { freeze_authority: new_authority, ..m }
        };
        lemma_mint_rewrite_kept(program_id, recs[0], m2);
    } else {
        let a = decode_account(recs[0].data)->Ok_0;
        let a2 = if authority_type == AuthorityType::AccountOwner {
            AccountView { owner: new_authority->0, delegate: None, delegated_amount: 0, ..a }
        } else {
            AccountView { close_authority: new_authority, ..a }
        };
        lemma_account_rewrite_kept(program_id, recs[0], a2, false);
    }
    assert forall|i: int| 0 <= i < recs.len() implies #[trigger] kept_at(
        program_id,
        recs[i],
        after[i],
        i,
        false,
        false,
    ) by {
        if i != 0 {
            lemma_unchanged_kept(program_id, recs[i], after[i], false, false);
        }
    }
}

proof fn lemma_kept_mint_to(program_id: Seq<u8>, recs: Seq<RecordView>, amount: u64)
    requires
        mint_to_outcome(program_id, recs, amount) is Ok,
    ensures
        step_kept(program_id, recs, mint_to_outcome(program_id, recs, amount)->Ok_0,
        false,
        false,
    ),
{
    let after = mint_to_outcome(program_id, recs, amount)->Ok_0;
    let m = decode_mint(recs[0].data)->Ok_0;
    let dst = decode_account(recs[1].data)->Ok_0;
    lemma_mint_rewrite_kept(program_id, recs[0], MintView { supply: (m.supply + amount) as u64, ..m });
    lemma_account_rewrite_kept(program_id, recs[1], credit(dst, amount), false);
    assert forall|i: int| 0 <= i < recs.len() implies #[trigger] kept_at(
        program_id,
        recs[i],
        after[i],
        i,
        false,
        false,
    ) by {
        if i > 1 {
            lemma_unchanged_kept(program_id, recs[i], after[i], false, false);
        }
    }
}

proof fn lemma_kept_burn(program_id: Seq<u8>, recs: Seq<RecordView>, amount: u64)
    requires
        burn_outcome(program_id, recs, amount) is Ok,
    ensures
        step_kept(program_id, recs, burn_outcome(program_id, recs, amount)->Ok_0,
        false,
        false,
    ),
{
    let after = burn_outcome(program_id, recs, amount)->Ok_0;
    let acc = decode_account(recs[0].data)->Ok_0;
    let m = decode_mint(recs[1].data)->Ok_0;
    let by_delegate = owner_or_delegate_outcome(
        program_id,
        acc.owner,
        acc.delegate,
        recs[2],
        trailing(recs, 3),
    )->Ok_0;
    lemma_account_rewrite_kept(program_id, recs[0], debit(acc, amount, by_delegate), false);
    lemma_mint_rewrite_kept(program_id, recs[1], MintView { supply: (m.supply - amount) as u64, ..m });
    assert forall|i: int| 0 <= i < recs.len() implies #[trigger] kept_at(
        program_id,
        recs[i],
        after[i],
        i,
        false,
        false,
    ) by {
        if i > 1 {
            lemma_unchanged_kept(program_id, recs[i], after[i], false, false);
        }
    }
}

proof fn lemma_kept_close_account(program_id: Seq<u8>, recs: Seq<RecordView>)
    requires
        close_account_outcome(program_id, recs) is Ok,
    ensures
        step_kept(program_id, recs, close_account_outcome(program_id, recs)->Ok_0, false, true),
        close_account_outcome(program_id, recs)->Ok_0[0].data == zeros(ACCOUNT_LEN as nat),
{
    let after = close_account_outcome(program_id, recs)->Ok_0;
    assert(after[0].data[108] == 0u8);
    assert(live_account(program_id, after[0]) is None);
    assert(live_mint(program_id, after[0]) is None);
    lemma_unchanged_kept(program_id, recs[1], after[1], false, false);
    assert forall|i: int| 0 <= i < recs.len() implies #[trigger] kept_at(
        program_id,
        recs[i],
        after[i],
        i,
        false,
        true,
    ) by {
        if i > 1 {
            lemma_unchanged_kept(program_id, recs[i], after[i], false, false);
        }
    }
}

proof fn lemma_kept_set_state(program_id: Seq<u8>, recs: Seq<RecordView>, target: AccountState)
    requires
        target != AccountState::Uninitialized,
        set_state_outcome(program_id, recs, target) is Ok,
    ensures
        step_kept(
            program_id,
            recs,
            set_state_outcome(program_id, recs, target)->Ok_0,
            target == AccountState::Initialized,
            false,
        ),
{
    let after = set_state_outcome(program_id, recs, target)->Ok_0;
    let a = decode_account(recs[0].data)->Ok_0;
    let thawing = target == AccountState::Initialized;
    lemma_account_rewrite_kept(
        program_id,
        recs[0],
        AccountView { state: target, ..a },
        thawing,
    );
    assert forall|i: int| 0 <= i < recs.len() implies #[trigger] kept_at(
        program_id,
        recs[i],
        after[i],
        i,
        thawing,
        false,
    ) by {
        if i != 0 {
            lemma_unchanged_kept(program_id, recs[i], after[i], false, false);
        }
    }
}

/// What a successful instruction keeps at every record: see `record_kept`.
/// Only a thaw may change a frozen account, and then only its state; only a
/// close may clear an initialized record, and then its data is all zero.
pub proof fn lemma_step_keeps(
    program_id: Seq<u8>,
    recs: Seq<RecordView>,
    data: Seq<u8>,
)
    requires
        keys_wf(recs),
        process_outcome(program_id, recs, data) is Ok,
    ensures
        ({
            let ix = decode_instruction(data)->Ok_0;
            let after = process_outcome(program_id, recs, data)->Ok_0;
            &&& step_kept(
                program_id,
                recs,
                after,
                ix == InstructionView::ThawAccount,
                ix == InstructionView::CloseAccount,
            )
            &&& ix == InstructionView::CloseAccount ==> after[0].data == zeros(ACCOUNT_LEN as nat)
        }),
{
    crate::instruction::lemma_decoded_instruction_wf(data);
    let ix = decode_instruction(data)->Ok_0;
    match ix {
        InstructionView::InitializeMint { decimals, mint_authority, freeze_authority } => {
            let rent = rent_for(recs, 1, MINT_LEN as nat);
            lemma_kept_initialize_mint(program_id, recs, decimals, mint_authority, freeze_authority, rent);
        },
        InstructionView::InitializeAccount => {
            let rent = rent_for(recs, 3, ACCOUNT_LEN as nat);
            lemma_kept_initialize_account(program_id, recs, rent);
        },
        InstructionView::InitializeMultisig { m } => {
            let rent = rent_for(recs, 1, MULTISIG_LEN as nat);
            lemma_kept_initialize_multisig(program_id, recs, m, rent);
        },
        InstructionView::Transfer { amount } => {
            lemma_kept_transfer(program_id, recs, amount);
        },
        InstructionView::Approve { amount } => {
            lemma_kept_approve(program_id, recs, amount);
        },
        InstructionView::Revoke => {
            lemma_kept_revoke(program_id, recs);
        },
        InstructionView::SetAuthority { authority_type, new_authority } => {
            lemma_kept_set_authority(program_id, recs, authority_type, new_authority);
        },
        InstructionView::MintTo { amount } => {
            lemma_kept_mint_to(program_id, recs, amount);
        },
        InstructionView::Burn { amount } => {
            lemma_kept_burn(program_id, recs, amount);
        },
        InstructionView::CloseAccount => {
            lemma_kept_close_account(program_id, recs);
        },
        InstructionView::FreezeAccount => {
            lemma_kept_set_state(program_id, recs, AccountState::Frozen);
        },
        InstructionView::ThawAccount => {
            lemma_kept_set_state(program_id, recs, AccountState::Initialized);
        },
    }
}

/// Delegate coherence. After any successful instruction, every live token
/// account among the records has a delegate exactly when its allowance is
/// positive, provided all of them did before.
pub proof fn lemma_delegate_coherence(
    program_id: Seq<u8>,
    recs: Seq<RecordView>,
    data: Seq<u8>,
)
    requires
        keys_wf(recs),
        process_outcome(program_id, recs, data) is Ok,
        forall|i: int| 0 <= i < recs.len() ==> #[trigger] delegate_coherent(program_id, recs[i]),
    ensures
        ({
            let after = process_outcome(program_id, recs, data)->Ok_0;
            forall|i: int| 0 <= i < after.len() ==> #[trigger] delegate_coherent(program_id, after[i])
        }),
{
    let after = process_outcome(program_id, recs, data)->Ok_0;
    let ix = decode_instruction(data)->Ok_0;
    lemma_step_keeps(program_id, recs, data);
    assert forall|i: int| 0 <= i < after.len() implies #[trigger] delegate_coherent(program_id, after[i]) by {
        assert(kept_at(
            program_id,
            recs[i],
            after[i],
            i,
            ix == InstructionView::ThawAccount,
            ix == InstructionView::CloseAccount,
        ));
        assert(delegate_coherent(program_id, recs[i]));
    }
}

/// Frozen safety. After a successful instruction, every frozen token account
/// among the records holds the same balance, authorities, allowance and
/// state as before; only a thaw of record 0 changes it, and then only its
/// state, to initialized.
pub proof fn lemma_frozen_safety(
    program_id: Seq<u8>,
    recs: Seq<RecordView>,
    data: Seq<u8>,
)
    requires
        keys_wf(recs),
        process_outcome(program_id, recs, data) is Ok,
    ensures
        ({
            let after = process_outcome(program_id, recs, data)->Ok_0;
            let ix = decode_instruction(data)->Ok_0;
            &&& after.len() == recs.len()
            &&& forall|i: int|
                0 <= i < recs.len() && #[trigger] is_frozen_account(program_id, recs[i]) ==> live_account(
                    program_id,
                    after[i],
                ) == live_account(program_id, recs[i]) || (ix == InstructionView::ThawAccount && i
                    == 0 && live_account(program_id, after[i]) == Some(
                    AccountView {
                        state: AccountState::Initialized,
                        ..live_account(program_id, recs[i])->0
                    },
                ))
        }),
{
    let after = process_outcome(program_id, recs, data)->Ok_0;
    let ix = decode_instruction(data)->Ok_0;
    lemma_step_keeps(program_id, recs, data);
    assert forall|i: int|
        0 <= i < recs.len() && #[trigger] is_frozen_account(program_id, recs[i]) implies live_account(
            program_id,
            after[i],
        ) == live_account(program_id, recs[i]) || (ix == InstructionView::ThawAccount && i == 0
            && live_account(program_id, after[i]) == Some(
            AccountView { state: AccountState::Initialized, ..live_account(program_id, recs[i])->0 },
        )) by {
        assert(kept_at(
            program_id,
            recs[i],
            after[i],
            i,
            ix == InstructionView::ThawAccount,
            ix == InstructionView::CloseAccount,
        ));
    }
}

/// Initialization monotonicity. After a successful instruction, every
/// record that was an initialized mint, token account or multisig still is
/// one, except record 0 of a close, whose data is then all zero.
pub proof fn lemma_initialization_monotone(
    program_id: Seq<u8>,
    recs: Seq<RecordView>,
    data: Seq<u8>,
)
    requires
        keys_wf(recs),
        process_outcome(program_id, recs, data) is Ok,
    ensures
        ({
            let after = process_outcome(program_id, recs, data)->Ok_0;
            let ix = decode_instruction(data)->Ok_0;
            &&& after.len() == recs.len()
            &&& forall|i: int|
                0 <= i < recs.len() && #[trigger] is_initialized_record(program_id, recs[i])
                    ==> is_initialized_record(program_id, after[i]) || (ix
                    == InstructionView::CloseAccount && i == 0 && after[i].data == zeros(
                    ACCOUNT_LEN as nat,
                ))
        }),
{
    let after = process_outcome(program_id, recs, data)->Ok_0;
    let ix = decode_instruction(data)->Ok_0;
    lemma_step_keeps(program_id, recs, data);
    assert forall|i: int|
        0 <= i < recs.len() && #[trigger] is_initialized_record(program_id, recs[i])
            implies is_initialized_record(program_id, after[i]) || (ix
            == InstructionView::CloseAccount && i == 0 && after[i].data == zeros(ACCOUNT_LEN as nat)) by {
        assert(kept_at(
            program_id,
            recs[i],
            after[i],
            i,
            ix == InstructionView::ThawAccount,
            ix == InstructionView::CloseAccount,
        ));
    }
}

/// A transfer of zero that succeeds leaves both balances as they were.
pub proof fn lemma_transfer_zero_keeps_balances(program_id: Seq<u8>, recs: Seq<RecordView>)
    requires
        transfer_outcome(program_id, recs, 0) is Ok,
    ensures
        ({
            let after = transfer_outcome(program_id, recs, 0)->Ok_0;
            &&& decode_account(after[0].data) is Ok
            &&& decode_account(after[1].data) is Ok
            &&& decode_account(after[0].data)->Ok_0.amount == decode_account(recs[0].data)->Ok_0.amount
            &&& decode_account(after[1].data)->Ok_0.amount == decode_account(recs[1].data)->Ok_0.amount
        }),
{
    let src = decode_account(recs[0].data)->Ok_0;
    let dst = decode_account(recs[1].data)->Ok_0;
    let by_delegate = owner_or_delegate_outcome(
        program_id,
        src.owner,
        src.delegate,
        recs[2],
        trailing(recs, 3),
    )->Ok_0;
    lemma_account_round_trip(debit(src, 0, by_delegate));
    lemma_account_round_trip(credit(dst, 0));
}

/// No silent wraparound. A successful mint, burn or transfer moves exactly
/// its amount, computed over unbounded integers: the supply and balances it
/// touches change by the amount and no more; a close adds the account's
/// lamports to the destination exactly. (A change that would leave the range
/// of `u64` is refused instead, with `Overflow` or `InsufficientFunds`.)
#[verifier::spinoff_prover]
#[verifier::rlimit(60)]
pub proof fn lemma_no_wraparound(
    program_id: Seq<u8>,
    recs: Seq<RecordView>,
    data: Seq<u8>,
)
    requires
        process_outcome(program_id, recs, data) is Ok,
    ensures
        ({
            let after = process_outcome(program_id, recs, data)->Ok_0;
            match decode_instruction(data)->Ok_0 {
                InstructionView::MintTo { amount } => {
                    &&& decode_mint(after[0].data)->Ok_0.supply == decode_mint(recs[0].data)->Ok_0.supply
                        + amount
                    &&& decode_account(after[1].data)->Ok_0.amount == decode_account(
                        recs[1].data,
                    )->Ok_0.amount + amount
                },
                InstructionView::Burn { amount } => {
                    &&& decode_account(after[0].data)->Ok_0.amount == decode_account(
                        recs[0].data,
                    )->Ok_0.amount - amount
                    &&& decode_mint(after[1].data)->Ok_0.supply == decode_mint(recs[1].data)->Ok_0.supply
                        - amount
                },
                InstructionView::Transfer { amount } => {
                    &&& decode_account(after[0].data)->Ok_0.amount == decode_account(
                        recs[0].data,
                    )->Ok_0.amount - amount
                    &&& decode_account(after[1].data)->Ok_0.amount == decode_account(
                        recs[1].data,
                    )->Ok_0.amount + amount
                },
                InstructionView::CloseAccount => after[1].lamports == recs[1].lamports
                    + recs[0].lamports,
                _ => true,
            }
        }),
{
    let ix = decode_instruction(data)->Ok_0;
    match ix {
        InstructionView::MintTo { amount } => {
            let m = decode_mint(recs[0].data)->Ok_0;
            let dst = decode_account(recs[1].data)->Ok_0;
            lemma_mint_round_trip(MintView { supply: (m.supply + amount) as u64, ..m });
            lemma_account_round_trip(credit(dst, amount));
        },
        InstructionView::Burn { amount } => {
            let acc = decode_account(recs[0].data)->Ok_0;
            let m = decode_mint(recs[1].data)->Ok_0;
            let by_delegate = owner_or_delegate_outcome(
                program_id,
                acc.owner,
                acc.delegate,
                recs[2],
                trailing(recs, 3),
            )->Ok_0;
            lemma_account_round_trip(debit(acc, amount, by_delegate));
            lemma_mint_round_trip(MintView { supply: (m.supply - amount) as u64, ..m });
        },
        InstructionView::Transfer { amount } => {
            let src = decode_account(recs[0].data)->Ok_0;
            let dst = decode_account(recs[1].data)->Ok_0;
            let by_delegate = owner_or_delegate_outcome(
                program_id,
                src.owner,
                src.delegate,
                recs[2],
                trailing(recs, 3),
            )->Ok_0;
            lemma_account_round_trip(debit(src, amount, by_delegate));
            lemma_account_round_trip(credit(dst, amount));
        },
        _ => {},
    }
}

} // verus!
