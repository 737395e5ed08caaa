use vstd::prelude::*;
use crate::keys::{encrypt_justice, encrypted_of, sign_message, signature_of, CIPHER_LIMIT};
use crate::monitor::WatchtowerMonitor;
use crate::net::http::{AddAppointmentError, RequestError};
use crate::receipts::{
    appointment_message, locator_of, Appointment, AppointmentReceipt, TO_SELF_DELAY, TXID_LEN,
};
use crate::registry::{
    lemma_map_of_domain, lemma_map_of_finite, lemma_map_of_value, slots_set,
    status_set,
};
use crate::tower::{TowerId, TowerInfo, TowerStatus};
use crate::RevokeableOutputData;

verus! {

/// One appointment to submit to one tower.
#[derive(Debug)]
pub struct Delivery {
    pub tower_id: TowerId,
    pub net_addr: String,
    pub appointment: Appointment,
    pub signature: String,
}

/// Whether `d` submits, for the output `out`, one signed appointment to
/// each tower of `m`, each tower exactly once.
pub open spec fn planned(
    m: Map<Seq<u8>, TowerInfo>,
    user_sk: Seq<u8>,
    out: RevokeableOutputData,
    d: Seq<Delivery>,
) -> bool {
    &&& d.len() == m.len()
    &&& forall|i: int, j: int|
        0 <= i < d.len() && 0 <= j < d.len() && i != j ==> d[i].tower_id@ != d[j].tower_id@
    &&& forall|k: Seq<u8>|
        m.contains_key(k) ==> exists|i: int| 0 <= i < d.len() && d[i].tower_id@ == k
    &&& forall|i: int|
        #![trigger d[i]]
        0 <= i < d.len() ==> {
            &&& m.contains_key(d[i].tower_id@)
            &&& d[i].net_addr == m[d[i].tower_id@].net_addr
            &&& d[i].appointment.locator@ == locator_of(out.commitment_txid@)
            &&& d[i].appointment.encrypted_blob@ == encrypted_of(
                out.justice_transaction@,
                out.commitment_txid@,
            )
            &&& d[i].appointment.to_self_delay == TO_SELF_DELAY
            &&& d[i].signature@ == signature_of(d[i].appointment.message(), user_sk)
        }
}

/// The outcome of one delivery, as reported to the caller.
#[derive(Debug, Clone, Copy, PartialEq, Eq, Structural)]
pub enum DeliveryOutcome {
    /// Accepted with a trusted receipt; the tower has this many slots left.
    Delivered { available_slots: u32 },
    /// Refused, answered with an error or with an untrusted receipt.
    Rejected,
    /// The tower could not be reached.
    Unreachable,
}

/// The outcome that a checked answer of a tower amounts to.
pub open spec fn classify(res: Result<(u32, AppointmentReceipt), AddAppointmentError>) -> DeliveryOutcome {
    match res {
        Ok(p) => DeliveryOutcome::Delivered { available_slots: p.0 },
        Err(AddAppointmentError::RequestError(RequestError::ConnectionError(_))) => DeliveryOutcome::Unreachable,
        Err(_) => DeliveryOutcome::Rejected,
    }
}

/// The registry after folding in one outcome for the tower `id`.
pub open spec fn apply_outcome(m: Map<Seq<u8>, TowerInfo>, id: Seq<u8>, o: DeliveryOutcome) -> Map<
    Seq<u8>,
    TowerInfo,
> {
    match o {
        DeliveryOutcome::Delivered { available_slots } => slots_set(m, id, available_slots),
        DeliveryOutcome::Unreachable => status_set(m, id, TowerStatus::TemporaryUnreachable),
        DeliveryOutcome::Rejected => m,
    }
}

/// The registry after folding in a sequence of outcomes, in order.
pub open spec fn fold_outcomes(m: Map<Seq<u8>, TowerInfo>, s: Seq<(Seq<u8>, DeliveryOutcome)>) -> Map<
    Seq<u8>,
    TowerInfo,
>
    decreases s.len(),
{
    if s.len() == 0 {
        m
    } else {
        apply_outcome(fold_outcomes(m, s.drop_last()), s.last().0, s.last().1)
    }
}

/// A report with each tower given by its identifier's bytes.
pub open spec fn report_view(r: Seq<(TowerId, DeliveryOutcome)>) -> Seq<(Seq<u8>, DeliveryOutcome)> {
    Seq::new(r.len(), |i: int| (r[i].0@, r[i].1))
}

fn classify_outcome(res: &Result<(u32, AppointmentReceipt), AddAppointmentError>) -> (r: DeliveryOutcome)
    ensures
        r == classify(*res),
{
    match res {
        Ok(p) => DeliveryOutcome::Delivered { available_slots: p.0 },
        Err(AddAppointmentError::RequestError(e)) => {
            if e.is_connection() {
                DeliveryOutcome::Unreachable
            } else {
                DeliveryOutcome::Rejected
            }
        },
        Err(_) => DeliveryOutcome::Rejected,
    }
}

/// With two towers, one accepting and one unreachable, one dispatch round
/// updates the slots of the first, marks the second temporarily
/// unreachable, and reports both.
pub proof fn lemma_dispatch_isolation(
    m: Map<Seq<u8>, TowerInfo>,
    a: Seq<u8>,
    b: Seq<u8>,
    accepted: Result<(u32, AppointmentReceipt), AddAppointmentError>,
    failed: Result<(u32, AppointmentReceipt), AddAppointmentError>,
)
    requires
        m.contains_key(a),
        m.contains_key(b),
        a != b,
        accepted is Ok,
        failed matches Err(AddAppointmentError::RequestError(e)) && e is ConnectionError,
    ensures
        ({
            let report = seq![(a, classify(accepted)), (b, classify(failed))];
            let f = fold_outcomes(m, report);
            &&& classify(accepted) == DeliveryOutcome::Delivered {
                available_slots: accepted->Ok_0.0,
            }
            &&& classify(failed) == DeliveryOutcome::Unreachable
            &&& f[a] == m[a].with_slots(accepted->Ok_0.0)
            &&& f[b] == m[b].with_status(TowerStatus::TemporaryUnreachable)
            &&& f.dom() == m.dom()
        }),
{
    let o1 = classify(accepted);
    let o2 = classify(failed);
    let first = seq![(a, o1)];
    let report = seq![(a, o1), (b, o2)];
    assert(report.drop_last() =~= first);
    assert(first.drop_last() =~= Seq::<(Seq<u8>, DeliveryOutcome)>::empty());
    assert(fold_outcomes(m, first.drop_last()) == m);
    assert(first.last() == (a, o1));
    assert(fold_outcomes(m, first) == apply_outcome(m, a, o1));
    let m1 = slots_set(m, a, accepted->Ok_0.0);
    assert(fold_outcomes(m, report) == apply_outcome(m1, b, o2));
    assert(m1.dom() =~= m.dom());
    assert(fold_outcomes(m, report).dom() =~= m.dom());
}

impl WatchtowerMonitor {
    /// Builds, for one revocable output, the signed appointment to submit
    /// to each tower of the current registry.
    pub fn add_update_appointment(&self, justice_data: &RevokeableOutputData) -> (r: Vec<Delivery>)
        requires
            self.wf(),
            justice_data.commitment_txid@.len() == TXID_LEN,
            justice_data.justice_transaction@.len() < CIPHER_LIMIT,
        ensures
            planned(self.towers@, self.user_sk@, *justice_data, r@),
    {
        let entries = self.towers.to_vec();
        let blob = encrypt_justice(
            justice_data.justice_transaction.as_slice(),
            justice_data.commitment_txid.as_slice(),
        );
        let appointment = Appointment::new(justice_data.commitment_txid.as_slice(), blob.as_slice());
        let msg = appointment.to_vec();
        proof {
            use_type_invariant(&self.user_sk);
        }
        let signature = sign_message(msg.as_slice(), self.user_sk.as_bytes());
        let mut r: Vec<Delivery> = Vec::new();
        let mut i: usize = 0;
        while i < entries.len()
            invariant
                0 <= i <= entries@.len(),
                r@.len() == i,
                appointment.locator@ == locator_of(justice_data.commitment_txid@),
                appointment.encrypted_blob@ == encrypted_of(
                    justice_data.justice_transaction@,
                    justice_data.commitment_txid@,
                ),
                appointment.to_self_delay == TO_SELF_DELAY,
                signature@ == signature_of(appointment.message(), self.user_sk@),
                forall|j: int|
                    #![trigger r@[j]]
                    0 <= j < i ==> {
                        &&& r@[j].tower_id@ == entries@[j].0@
                        &&& r@[j].net_addr == entries@[j].1.net_addr
                        &&& r@[j].appointment.locator@ == appointment.locator@
                        &&& r@[j].appointment.encrypted_blob@ == appointment.encrypted_blob@
                        &&& r@[j].appointment.to_self_delay == appointment.to_self_delay
                        &&& r@[j].signature@ == signature@
                    },
            decreases entries@.len() - i,
        {
            let e = &entries[i];
            r.push(
                Delivery {
                    tower_id: e.0.duplicate(),
                    net_addr: e.1.net_addr.clone(),
                    appointment: appointment.duplicate(),
                    signature: signature.clone(),
                },
            );
            i = i + 1;
        }
        proof {
            let m = self.towers@;
            let es = entries@;
            lemma_map_of_finite(es);
            assert forall|k: Seq<u8>| m.contains_key(k) implies exists|i: int|
                0 <= i < r@.len() && r@[i].tower_id@ == k by {
                lemma_map_of_domain(es, k);
                let i = choose|i: int| 0 <= i < es.len() && es[i].0@ == k;
                assert(r@[i].tower_id@ == k);
            }
            assert forall|i: int| #![trigger r@[i]] 0 <= i < r@.len() implies m.contains_key(
                r@[i].tower_id@,
            ) && r@[i].net_addr == m[r@[i].tower_id@].net_addr by {
                lemma_map_of_value(es, i);
            }
            assert forall|i: int, j: int|
                0 <= i < r@.len() && 0 <= j < r@.len() && i != j implies r@[i].tower_id@
                != r@[j].tower_id@ by {
                assert(r@[i].tower_id@ == es[i].0@);
                assert(r@[j].tower_id@ == es[j].0@);
            }
        }
        r
    }

    /// Builds the appointments of a whole channel event: for each revocable
    /// output, one per tower of the registry as it stands now.
    pub fn on_channel_event(&self, outputs: &Vec<RevokeableOutputData>) -> (r: Vec<Vec<Delivery>>)
        requires
            self.wf(),
            forall|o: int|
                0 <= o < outputs@.len() ==> (#[trigger] outputs@[o]).commitment_txid@.len()
                    == TXID_LEN && outputs@[o].justice_transaction@.len() < CIPHER_LIMIT,
        ensures
            r@.len() == outputs@.len(),
            forall|o: int|
                0 <= o < r@.len() ==> planned(self.towers@, self.user_sk@, outputs@[o], (#[trigger] r@[o])@),
    {
        let mut r: Vec<Vec<Delivery>> = Vec::new();
        let mut o: usize = 0;
        while o < outputs.len()
            invariant
                self.wf(),
                0 <= o <= outputs@.len(),
                r@.len() == o,
                forall|q: int|
                    0 <= q < outputs@.len() ==> (#[trigger] outputs@[q]).commitment_txid@.len()
                        == TXID_LEN && outputs@[q].justice_transaction@.len() < CIPHER_LIMIT,
                forall|q: int|
                    0 <= q < o ==> planned(self.towers@, self.user_sk@, outputs@[q], (#[trigger] r@[q])@),
            decreases outputs@.len() - o,
        {
            let d = self.add_update_appointment(&outputs[o]);
            r.push(d);
            o = o + 1;
        }
        r
    }

    /// Folds the checked answers to one output's deliveries into the
    /// registry, the i-th answer coming from the i-th delivery, and reports
    /// per delivery what came of it. A failure at one tower does not affect
    /// any other.
    pub fn apply_delivery_outcomes(
        &mut self,
        deliveries: &Vec<Delivery>,
        answers: Vec<Result<(u32, AppointmentReceipt), AddAppointmentError>>,
    ) -> (r: Vec<(TowerId, DeliveryOutcome)>)
        requires
            old(self).wf(),
            answers@.len() == deliveries@.len(),
        ensures
            final(self).wf(),
            final(self).user_sk == old(self).user_sk,
            final(self).user_id == old(self).user_id,
            r@.len() == deliveries@.len(),
            forall|i: int|
                #![trigger r@[i]]
                0 <= i < r@.len() ==> r@[i].0@ == deliveries@[i].tower_id@ && r@[i].1 == classify(
                    answers@[i],
                ),
            final(self).towers@ == fold_outcomes(old(self).towers@, report_view(r@)),
    {
        let mut r: Vec<(TowerId, DeliveryOutcome)> = Vec::new();
        let mut i: usize = 0;
        while i < answers.len()
            invariant
                self.wf(),
                self.user_sk == old(self).user_sk,
                self.user_id == old(self).user_id,
                answers@.len() == deliveries@.len(),
                0 <= i <= answers@.len(),
                r@.len() == i,
                forall|j: int|
                    #![trigger r@[j]]
                    0 <= j < i ==> r@[j].0@ == deliveries@[j].tower_id@ && r@[j].1 == classify(
                        answers@[j],
                    ),
                self.towers@ == fold_outcomes(old(self).towers@, report_view(r@)),
            decreases answers@.len() - i,
        {
            let id = &deliveries[i].tower_id;
            let outcome = classify_outcome(&answers[i]);
            match outcome {
                DeliveryOutcome::Delivered { available_slots } => {
                    self.towers.set_slots(id, available_slots);
                },
                DeliveryOutcome::Unreachable => {
                    self.towers.set_status(id, TowerStatus::TemporaryUnreachable);
                },
                DeliveryOutcome::Rejected => {},
            }
            let ghost before = r@;
            r.push((id.duplicate(), outcome));
            proof {
                assert(report_view(r@).drop_last() =~= report_view(before));
            }
            i = i + 1;
        }
        r
    }
}

/// A report whose entries follow, one for one, the deliveries planned for an
/// output holds exactly one outcome for each tower of the registry the plan
/// was made from.
pub proof fn lemma_report_covers_snapshot(
    m: Map<Seq<u8>, TowerInfo>,
    user_sk: Seq<u8>,
    out: RevokeableOutputData,
    d: Seq<Delivery>,
    report: Seq<(TowerId, DeliveryOutcome)>,
)
    requires
        planned(m, user_sk, out, d),
        report.len() == d.len(),
        forall|i: int| 0 <= i < report.len() ==> (#[trigger] report[i]).0@ == d[i].tower_id@,
    ensures
        report.len() == m.len(),
        forall|k: Seq<u8>|
            m.contains_key(k) ==> exists|i: int| 0 <= i < report.len() && report[i].0@ == k,
        forall|i: int, j: int|
            0 <= i < report.len() && 0 <= j < report.len() && i != j ==> report[i].0@
                != report[j].0@,
        forall|i: int| 0 <= i < report.len() ==> m.contains_key(#[trigger] report[i].0@),
{
    assert forall|k: Seq<u8>| m.contains_key(k) implies exists|i: int|
        0 <= i < report.len() && report[i].0@ == k by {
        let i = choose|i: int| 0 <= i < d.len() && d[i].tower_id@ == k;
        assert(report[i].0@ == k);
    }
    assert forall|i: int| 0 <= i < report.len() implies m.contains_key(#[trigger] report[i].0@) by {
        assert(report[i].0@ == d[i].tower_id@);
        assert(m.contains_key(d[i].tower_id@));
    }
    assert forall|i: int, j: int|
        0 <= i < report.len() && 0 <= j < report.len() && i != j implies report[i].0@
        != report[j].0@ by {
        assert(report[i].0@ == d[i].tower_id@);
        assert(report[j].0@ == d[j].tower_id@);
    }
}

} // verus!
