// What an instance that is going hands on, so every accepted operation keeps
// exactly one owner and exactly one credit.
//
// The parked operation never ran and carries no custody: it goes to the
// durable owner as its ownership allows. Records of stranded commands
// are given up before the queue is answered, and commands a writer took and
// never ran leave `outstanding` in the same step that they enter `pending`.
use vstd::prelude::*;
use crate::settlement::{
    identity_spec, ownership_of, PrivateControlCommand, PrivateIdentity, PrivateOperation,
    PrivateRouteRegistry, PrivateSettlementOwner, SettlementOwnership, SettlementView,
};

verus! {

/// A parked operation as it is carried once no record can publish for it:
/// a control loses the completion registration it was published with.
pub open spec fn carried_spec(parked: PrivateOperation) -> PrivateOperation {
    match parked {
        PrivateOperation::Control { command, completion: Some(_) } => PrivateOperation::Control {
            command,
            completion: None,
        },
        other => other,
    }
}

/// The durable owner after a parked operation is handed over as `ownership`
/// allows: carried whole and answerable here when it is ours; as an identity
/// with its credit when an established record owns the outcome; kept whole,
/// credit and all, when nobody can say.
pub open spec fn parked_handed_over<R>(
    v: SettlementView<R>,
    origin: R,
    parked: PrivateOperation,
    ownership: SettlementOwnership,
) -> SettlementView<R> {
    match ownership {
        SettlementOwnership::Ours => SettlementView { held: v.held.push((origin, carried_spec(parked))), ..v },
        SettlementOwnership::Elsewhere => SettlementView {
            outstanding: v.outstanding.push((origin, identity_spec(parked))),
            ..v
        },
        SettlementOwnership::Unprovable => SettlementView { held: v.held.push((origin, parked)), ..v },
    }
}

/// The completion registrations of stranded controls, in queue order.
pub open spec fn stranded_tokens_spec(stranded: Seq<PrivateOperation>) -> Seq<u64>
    decreases stranded.len(),
{
    if stranded.len() == 0 {
        Seq::empty()
    } else {
        let rest = stranded_tokens_spec(stranded.drop_last());
        match stranded.last() {
            PrivateOperation::Control { completion: Some(token), .. } => rest.push(token),
            _ => rest,
        }
    }
}

/// Whether an identity is one a cancelled registration answered for.
pub open spec fn cancelled_identity(identity: PrivateIdentity, cancelled: Seq<u64>) -> bool {
    identity matches PrivateIdentity::Control { completion: Some(token), .. } && cancelled.contains(token)
}

/// The identities that stay outstanding once cancelled commands are handed
/// on: every one a cancelled registration did not answer for, in order.
pub open spec fn still_outstanding(outstanding: Seq<PrivateIdentity>, cancelled: Seq<u64>) -> Seq<PrivateIdentity>
    decreases outstanding.len(),
{
    if outstanding.len() == 0 {
        Seq::empty()
    } else {
        let rest = still_outstanding(outstanding.drop_last(), cancelled);
        if cancelled_identity(outstanding.last(), cancelled) {
            rest
        } else {
            rest.push(outstanding.last())
        }
    }
}

/// The commands a cancellation hands on, each without a registration.
pub open spec fn cancelled_commands(cancellable: Seq<(u64, PrivateControlCommand)>) -> Seq<PrivateOperation> {
    cancellable.map_values(
        |c: (u64, PrivateControlCommand)| PrivateOperation::Control { command: c.1, completion: None },
    )
}

/// Hand the parked operation to the durable owner, after asking the
/// completion registry who owns it; that ownership is returned.
pub fn hand_over_parked<R: PrivateRouteRegistry, P>(
    durable: &mut PrivateSettlementOwner<R, P>,
    origin: R,
    parked: PrivateOperation,
) -> (r: SettlementOwnership)
    ensures
        final(durable)@ == parked_handed_over(old(durable)@, origin, parked, r),
        old(durable).wf() ==> final(durable).wf(),
        !(parked matches PrivateOperation::Control { completion: Some(_), .. }) ==> r == SettlementOwnership::Ours,
{
    let ownership = ownership_of(&origin, &parked);
    match ownership {
        SettlementOwnership::Ours => {
            let carried = match parked {
                PrivateOperation::Control { command, completion: Some(_) } => PrivateOperation::Control {
                    command,
                    completion: None,
                },
                other => other,
            };
            durable.take_one(origin, carried);
        },
        SettlementOwnership::Elsewhere => {
            let identity = PrivateIdentity::of(&parked);
            durable.take_one_outstanding(origin, identity);
        },
        SettlementOwnership::Unprovable => {
            durable.take_one(origin, parked);
        },
    }
    ownership
}

/// The completion registrations of the stranded controls, in queue order:
/// what is given up before the queue is answered.
pub fn stranded_tokens(stranded: &Vec<PrivateOperation>) -> (r: Vec<u64>)
    ensures
        r@ == stranded_tokens_spec(stranded@),
{
    let mut tokens: Vec<u64> = Vec::new();
    let mut i: usize = 0;
    while i < stranded.len()
        invariant
            i <= stranded@.len(),
            tokens@ == stranded_tokens_spec(stranded@.take(i as int)),
        decreases stranded.len() - i,
    {
        proof {
            assert(stranded@.take(i + 1).drop_last() =~= stranded@.take(i as int));
        }
        match &stranded[i] {
            PrivateOperation::Control { completion: Some(token), .. } => {
                tokens.push(*token);
            },
            _ => {},
        }
        i = i + 1;
    }
    proof {
        assert(stranded@.take(stranded@.len() as int) =~= stranded@);
    }
    tokens
}

fn token_cancelled(cancellable: &Vec<(u64, PrivateControlCommand)>, token: u64) -> (r: bool)
    ensures
        r == cancellable@.map_values(|c: (u64, PrivateControlCommand)| c.0).contains(token),
{
    let ghost tokens = cancellable@.map_values(|c: (u64, PrivateControlCommand)| c.0);
    let mut i: usize = 0;
    while i < cancellable.len()
        invariant
            i <= cancellable@.len(),
            tokens == cancellable@.map_values(|c: (u64, PrivateControlCommand)| c.0),
            forall|j: int| 0 <= j < i ==> tokens[j] != token,
        decreases cancellable.len() - i,
    {
        if cancellable[i].0 == token {
            proof {
                assert(tokens[i as int] == token);
            }
            return true;
        }
        i = i + 1;
    }
    false
}

/// Hand on the commands a cancellation took from writers that never ran
/// them: each identity a cancelled registration answered for leaves
/// `outstanding`, and its command enters `pending` without a registration,
/// in the same step.
pub fn hand_over_cancelled(
    outstanding: &mut Vec<PrivateIdentity>,
    pending: &mut Vec<PrivateOperation>,
    cancellable: Vec<(u64, PrivateControlCommand)>,
)
    ensures
        final(outstanding)@ == still_outstanding(
            old(outstanding)@,
            cancellable@.map_values(|c: (u64, PrivateControlCommand)| c.0),
        ),
        final(pending)@ == old(pending)@ + cancelled_commands(cancellable@),
{
    let ghost cancelled = cancellable@.map_values(|c: (u64, PrivateControlCommand)| c.0);
    let ghost before = outstanding@;
    let mut kept: Vec<PrivateIdentity> = Vec::new();
    let mut i: usize = 0;
    while i < outstanding.len()
        invariant
            i <= outstanding@.len(),
            outstanding@ == before,
            cancelled == cancellable@.map_values(|c: (u64, PrivateControlCommand)| c.0),
            kept@ == still_outstanding(before.take(i as int), cancelled),
        decreases outstanding.len() - i,
    {
        proof {
            assert(before.take(i + 1).drop_last() =~= before.take(i as int));
        }
        let identity = outstanding[i];
        let cancelled_here = match identity {
            PrivateIdentity::Control { completion: Some(token), .. } => token_cancelled(&cancellable, token),
            _ => false,
        };
        if !cancelled_here {
            kept.push(identity);
        }
        i = i + 1;
    }
    proof {
        assert(before.take(before.len() as int) =~= before);
    }
    *outstanding = kept;
    let ghost start = pending@;
    let mut j: usize = 0;
    while j < cancellable.len()
        invariant
            j <= cancellable@.len(),
            pending@ == start + cancelled_commands(cancellable@.take(j as int)),
        decreases cancellable.len() - j,
    {
        let command = cancellable[j].1;
        pending.push(PrivateOperation::Control { command, completion: None });
        j = j + 1;
        proof {
            assert(pending@ =~= start + cancelled_commands(cancellable@.take(j as int)));
        }
    }
    proof {
        assert(cancellable@.take(cancellable@.len() as int) =~= cancellable@);
    }
}

/// After a cancellation is handed on, no identity a cancelled registration
/// answered for is still outstanding, and nothing else left.
pub proof fn law_cancelled_work_has_one_owner(outstanding: Seq<PrivateIdentity>, cancelled: Seq<u64>)
    ensures
        forall|i: int|
            0 <= i < still_outstanding(outstanding, cancelled).len() ==> !cancelled_identity(
                #[trigger] still_outstanding(outstanding, cancelled)[i],
                cancelled,
            ),
        forall|i: int|
            0 <= i < outstanding.len() && !cancelled_identity(#[trigger] outstanding[i], cancelled)
                ==> still_outstanding(outstanding, cancelled).contains(outstanding[i]),
    decreases outstanding.len(),
{
    if outstanding.len() > 0 {
        let rest = outstanding.drop_last();
        law_cancelled_work_has_one_owner(rest, cancelled);
        let kept = still_outstanding(outstanding, cancelled);
        let kept_rest = still_outstanding(rest, cancelled);
        assert forall|i: int| 0 <= i < kept.len() implies !cancelled_identity(#[trigger] kept[i], cancelled) by {
            if i < kept_rest.len() {
                assert(kept[i] == kept_rest[i]);
            }
        }
        assert forall|i: int|
            0 <= i < outstanding.len() && !cancelled_identity(#[trigger] outstanding[i], cancelled) implies kept.contains(
            outstanding[i],
        ) by {
            if i < rest.len() {
                assert(rest[i] == outstanding[i]);
                let k = choose|k: int| 0 <= k < kept_rest.len() && kept_rest[k] == rest[i];
                assert(kept[k] == kept_rest[k]);
            } else {
                assert(kept[kept.len() - 1] == outstanding[i]);
            }
        }
    }
}

} // verus!
