//! Streaming risk inference: scoring a snapshot against a feature-weight
//! table, per-patient memory with a bounded history, and rate-limited alerts.
//!
//! Values, weights, thresholds, risk, confidence and contributions are
//! fixed-point numbers in millionths (see `ONE`).
use vstd::prelude::*;
use vstd::string::*;
use crate::ethos::{
    lemma_missing_required_vital_blocks, readings, EthosGuard, EthosResult, PatientData, SnapshotView,
    ONE,
};
use crate::keyed::{find_from, insert, lemma_find_from};
use crate::text::{push_tenths, round_div, tenths_text};

verus! {

/// Most recent updates kept per patient.
pub const HISTORY_LIMIT: usize = 24;

/// Risk at and above which a sepsis alert is an emergency (0.9).
pub const EMERGENCY_RISK: u64 = 900_000;

/// Risk reported when no weighted feature is available (0.5).
pub const NEUTRAL_RISK: u64 = 500_000;

/// Category of an alert.
#[derive(Debug, Clone, Copy, PartialEq, Eq, Structural)]
pub enum AlertType {
    SepsisRisk,
    VitalAbnormal,
    TrendChange,
    DataQuality,
    EthosBlocked,
}

/// Severity of an alert: `Info < Warning < Critical < Emergency`.
#[derive(Debug, Clone, Copy, PartialEq, Eq, Structural, PartialOrd, Ord)]
pub enum AlertSeverity {
    Info,
    Warning,
    Critical,
    Emergency,
}

impl AlertSeverity {
    pub open spec fn spec_rank(self) -> u8 {
        match self {
            AlertSeverity::Info => 1,
            AlertSeverity::Warning => 2,
            AlertSeverity::Critical => 3,
            AlertSeverity::Emergency => 4,
        }
    }

    /// The explicit ordinal of the severity, from 1 (`Info`) to 4 (`Emergency`).
    pub fn rank(&self) -> (r: u8)
        ensures
            r == self.spec_rank(),
    {
        match self {
            AlertSeverity::Info => 1,
            AlertSeverity::Warning => 2,
            AlertSeverity::Critical => 3,
            AlertSeverity::Emergency => 4,
        }
    }

    /// Severity of a sepsis alert for a risk: `Emergency` from 0.9 on,
    /// `Critical` below.
    pub open spec fn spec_for_risk(risk: u64) -> AlertSeverity {
        if risk >= EMERGENCY_RISK {
            AlertSeverity::Emergency
        } else {
            AlertSeverity::Critical
        }
    }

    pub fn for_risk(risk: u64) -> (r: AlertSeverity)
        ensures
            r == Self::spec_for_risk(risk),
    {
        if risk >= EMERGENCY_RISK {
            AlertSeverity::Emergency
        } else {
            AlertSeverity::Critical
        }
    }
}

/// Alert raised for a patient.
#[derive(Debug, Clone)]
pub struct Alert {
    pub patient_id: String,
    pub alert_type: AlertType,
    pub message: String,
    pub severity: AlertSeverity,
    pub timestamp: i64,
    /// The values that triggered the alert, by name.
    pub triggering_values: Vec<(String, u64)>,
}

/// The views of a list of named quantities.
pub open spec fn named(v: Seq<(String, u64)>) -> Seq<(Seq<char>, u64)> {
    v.map_values(|p: (String, u64)| (p.0@, p.1))
}

/// `base` with each entry inserted in turn.
pub open spec fn insert_all(
    base: Seq<(Seq<char>, Option<i64>)>,
    entries: Seq<(Seq<char>, Option<i64>)>,
) -> Seq<(Seq<char>, Option<i64>)>
    decreases entries.len(),
{
    if entries.len() == 0 {
        base
    } else {
        let e = entries.last();
        insert(insert_all(base, entries.drop_last()), e.0, e.1)
    }
}

/// One update of a patient's vitals and labs.
#[derive(Debug, Clone)]
pub struct VitalUpdate {
    pub patient_id: String,
    /// Logical time of the update, e.g. in seconds.
    pub timestamp: i64,
    pub vitals: Vec<(String, Option<i64>)>,
    pub labs: Vec<(String, Option<i64>)>,
}

impl VitalUpdate {
    /// The snapshot built from the update: each entry set in turn, so a
    /// later entry under the same name replaces an earlier one.
    pub open spec fn spec_snapshot(&self) -> SnapshotView {
        SnapshotView {
            vitals: insert_all(Seq::empty(), readings(self.vitals@)),
            labs: insert_all(Seq::empty(), readings(self.labs@)),
        }
    }

    pub fn to_patient_data(&self) -> (r: PatientData)
        ensures
            r@ == self.spec_snapshot(),
            r.metadata@.len() == 0,
    {
        let mut data = PatientData::new();
        assert(data@.vitals =~= Seq::empty());
        assert(data@.labs =~= Seq::empty());
        let mut i: usize = 0;
        while i < self.vitals.len()
            invariant
                i <= self.vitals.len(),
                data@.vitals == insert_all(Seq::empty(), readings(self.vitals@).subrange(0, i as int)),
                data@.labs =~= Seq::empty(),
                data.metadata@.len() == 0,
            decreases self.vitals.len() - i,
        {
            let ghost post = readings(self.vitals@).subrange(0, i + 1);
            assert(post.drop_last() =~= readings(self.vitals@).subrange(0, i as int));
            data.set_vital(self.vitals[i].0.as_str(), self.vitals[i].1);
            i = i + 1;
        }
        assert(readings(self.vitals@).subrange(0, self.vitals.len() as int) =~= readings(self.vitals@));
        let mut j: usize = 0;
        while j < self.labs.len()
            invariant
                j <= self.labs.len(),
                data@.vitals == insert_all(Seq::empty(), readings(self.vitals@)),
                data@.labs == insert_all(Seq::empty(), readings(self.labs@).subrange(0, j as int)),
                data.metadata@.len() == 0,
            decreases self.labs.len() - j,
        {
            let ghost post = readings(self.labs@).subrange(0, j + 1);
            assert(post.drop_last() =~= readings(self.labs@).subrange(0, j as int));
            data.set_lab(self.labs[j].0.as_str(), self.labs[j].1);
            j = j + 1;
        }
        assert(readings(self.labs@).subrange(0, self.labs.len() as int) =~= readings(self.labs@));
        data
    }
}

/// Discretized risk bucket.
#[derive(Debug, Clone, Copy, PartialEq, Eq, Structural)]
pub enum RiskLevel {
    Low,
    Moderate,
    High,
    Critical,
}

impl RiskLevel {
    pub open spec fn spec_from_score(score: u64) -> RiskLevel {
        if score < 250_000 {
            RiskLevel::Low
        } else if score < 500_000 {
            RiskLevel::Moderate
        } else if score < 750_000 {
            RiskLevel::High
        } else {
            RiskLevel::Critical
        }
    }

    /// Buckets `[0, 0.25)`, `[0.25, 0.5)`, `[0.5, 0.75)` and `[0.75, 1]`.
    pub fn from_score(score: u64) -> (r: RiskLevel)
        ensures
            r == Self::spec_from_score(score),
    {
        if score < 250_000 {
            RiskLevel::Low
        } else if score < 500_000 {
            RiskLevel::Moderate
        } else if score < 750_000 {
            RiskLevel::High
        } else {
            RiskLevel::Critical
        }
    }
}

/// Inference result for a patient.
#[derive(Debug, Clone)]
pub struct InferenceResult {
    pub patient_id: String,
    pub timestamp: i64,
    pub sepsis_risk: u64,
    pub risk_level: RiskLevel,
    /// Contributing features, largest contribution first.
    pub top_contributing_factors: Vec<(String, u64)>,
    pub confidence: u64,
}

/// Configuration of the streaming engine.
#[derive(Debug, Clone, Copy)]
pub struct StreamingConfig {
    /// Risk at and above which a sepsis alert is raised.
    pub sepsis_alert_threshold: u64,
    /// Minimum time between two sepsis alerts for one patient.
    pub alert_cooldown_secs: u64,
    /// Whether the guard rules run before scoring.
    pub enable_ethos: bool,
}

impl Default for StreamingConfig {
    fn default() -> (r: Self)
        ensures
            r.sepsis_alert_threshold == 700_000,
            r.alert_cooldown_secs == 300,
            r.enable_ethos,
    {
        StreamingConfig { sepsis_alert_threshold: 700_000, alert_cooldown_secs: 300, enable_ethos: true }
    }
}

/// The value of a feature: the vital of that name, else the lab of that name.
pub open spec fn feature_value(data: SnapshotView, name: Seq<char>) -> Option<i64> {
    match data.vital(name) {
        Some(v) => Some(v),
        None => data.lab(name),
    }
}

/// A value clamped to `[0, 100]`.
pub open spec fn clamped(v: i64) -> nat {
    if v <= 0 {
        0
    } else if v >= 100 * ONE {
        (100 * ONE) as nat
    } else {
        v as nat
    }
}

/// The contribution of a present feature: its value scaled by 1/100 into
/// `[0, 1]`, times its weight; rounded down to a millionth.
pub open spec fn contribution(v: i64, w: u64) -> nat {
    (clamped(v) * w / (100 * ONE) as int) as nat
}

/// Sum of the weights of a table.
pub open spec fn total_weight(ws: Seq<(Seq<char>, u64)>) -> nat
    decreases ws.len(),
{
    if ws.len() == 0 {
        0
    } else {
        total_weight(ws.drop_last()) + ws.last().1 as nat
    }
}

/// Sum of the weights of the features that have a value.
pub open spec fn present_weight(ws: Seq<(Seq<char>, u64)>, data: SnapshotView) -> nat
    decreases ws.len(),
{
    if ws.len() == 0 {
        0
    } else {
        present_weight(ws.drop_last(), data) + if feature_value(data, ws.last().0) is Some {
            ws.last().1 as nat
        } else {
            0
        }
    }
}

/// Sum of clamped value times weight over the features that have a value.
pub open spec fn weighted_sum(ws: Seq<(Seq<char>, u64)>, data: SnapshotView) -> nat
    decreases ws.len(),
{
    if ws.len() == 0 {
        0
    } else {
        weighted_sum(ws.drop_last(), data) + match feature_value(data, ws.last().0) {
            Some(v) => clamped(v) * ws.last().1 as nat,
            None => 0,
        }
    }
}

/// Number of features that have a value.
pub open spec fn available_count(ws: Seq<(Seq<char>, u64)>, data: SnapshotView) -> nat
    decreases ws.len(),
{
    if ws.len() == 0 {
        0
    } else {
        available_count(ws.drop_last(), data) + if feature_value(data, ws.last().0) is Some {
            1nat
        } else {
            0
        }
    }
}

/// The contribution of each feature that has a value, in table order.
pub open spec fn contributions(ws: Seq<(Seq<char>, u64)>, data: SnapshotView) -> Seq<
    (Seq<char>, u64),
>
    decreases ws.len(),
{
    if ws.len() == 0 {
        Seq::empty()
    } else {
        let c = contributions(ws.drop_last(), data);
        match feature_value(data, ws.last().0) {
            Some(v) => c.push((ws.last().0, contribution(v, ws.last().1) as u64)),
            None => c,
        }
    }
}

/// The risk score: the weighted mean of the scaled values over the features
/// that have a value, or the neutral 0.5 when their weights sum to zero.
pub open spec fn spec_risk(ws: Seq<(Seq<char>, u64)>, data: SnapshotView) -> u64 {
    if present_weight(ws, data) == 0 {
        NEUTRAL_RISK
    } else {
        (weighted_sum(ws, data) / (100 * present_weight(ws, data))) as u64
    }
}

/// The confidence: the share of the table's features that have a value, or
/// zero for an empty table.
pub open spec fn spec_confidence(ws: Seq<(Seq<char>, u64)>, data: SnapshotView) -> u64 {
    if ws.len() == 0 {
        0
    } else {
        (available_count(ws, data) * ONE / ws.len() as int) as u64
    }
}

/// Where an entry of contribution `c` goes in a list ranked largest first:
/// after every entry of `c` or more from `start` on.
pub open spec fn rank_position(s: Seq<(Seq<char>, u64)>, c: u64, start: int) -> int
    decreases s.len() - start,
{
    if start < 0 || start >= s.len() {
        s.len() as int
    } else if s[start].1 < c {
        start
    } else {
        rank_position(s, c, start + 1)
    }
}

/// The entries ranked by contribution, largest first; entries of equal
/// contribution keep their order.
pub open spec fn ranked(s: Seq<(Seq<char>, u64)>) -> Seq<(Seq<char>, u64)>
    decreases s.len(),
{
    if s.len() == 0 {
        Seq::empty()
    } else {
        let r = ranked(s.drop_last());
        r.insert(rank_position(r, s.last().1, 0), s.last())
    }
}

proof fn lemma_rank_position(s: Seq<(Seq<char>, u64)>, c: u64, start: int)
    requires
        0 <= start <= s.len(),
    ensures
        start <= rank_position(s, c, start) <= s.len(),
        forall|j: int| start <= j < rank_position(s, c, start) ==> s[j].1 >= c,
        rank_position(s, c, start) < s.len() ==> s[rank_position(s, c, start)].1 < c,
    decreases s.len() - start,
{
    if start < s.len() && s[start].1 >= c {
        lemma_rank_position(s, c, start + 1);
    }
}

/// Risk and confidence always lie in `[0, 1]`.
pub proof fn lemma_scores_in_unit_range(ws: Seq<(Seq<char>, u64)>, data: SnapshotView)
    ensures
        spec_risk(ws, data) <= ONE,
        spec_confidence(ws, data) <= ONE,
{
    lemma_sums_bounded(ws, data);
    let p = present_weight(ws, data);
    let sum = weighted_sum(ws, data);
    if p > 0 {
        assert(sum / (100 * p) <= ONE) by (nonlinear_arith)
            requires
                sum <= 100 * ONE * p,
                p > 0,
        ;
    }
    if ws.len() > 0 {
        let a = available_count(ws, data);
        let n = ws.len();
        assert(a * ONE / n as int <= ONE) by (nonlinear_arith)
            requires
                a <= n,
                n > 0,
        ;
    }
}

/// Inserts an entry into a list ranked largest first.
fn insert_ranked(sorted: &mut Vec<(String, u64)>, name: String, c: u64)
    ensures
        named(final(sorted)@) == named(old(sorted)@).insert(
            rank_position(named(old(sorted)@), c, 0),
            (name@, c),
        ),
{
    let ghost s = named(sorted@);
    let mut i: usize = 0;
    while i < sorted.len() && sorted[i].1 >= c
        invariant
            i <= sorted.len(),
            s == named(sorted@),
            rank_position(s, c, 0) == rank_position(s, c, i as int),
        decreases sorted.len() - i,
    {
        i = i + 1;
    }
    assert(rank_position(s, c, 0) == i as int);
    sorted.insert(i, (name, c));
    assert(named(sorted@) =~= s.insert(i as int, (name@, c)));
}

proof fn lemma_prefix_weight(ws: Seq<(Seq<char>, u64)>, i: int)
    requires
        0 <= i <= ws.len(),
    ensures
        total_weight(ws.subrange(0, i)) <= total_weight(ws),
    decreases ws.len() - i,
{
    if i < ws.len() {
        assert(ws.subrange(0, i + 1).drop_last() =~= ws.subrange(0, i));
        lemma_prefix_weight(ws, i + 1);
    } else {
        assert(ws.subrange(0, i) =~= ws);
    }
}

proof fn lemma_sums_bounded(ws: Seq<(Seq<char>, u64)>, data: SnapshotView)
    ensures
        present_weight(ws, data) <= total_weight(ws),
        weighted_sum(ws, data) <= 100 * ONE * present_weight(ws, data),
        available_count(ws, data) <= ws.len(),
    decreases ws.len(),
{
    if ws.len() > 0 {
        lemma_sums_bounded(ws.drop_last(), data);
        match feature_value(data, ws.last().0) {
            Some(v) => {
                let w = ws.last().1 as nat;
                assert(clamped(v) * w <= 100 * ONE * w) by (nonlinear_arith)
                    requires
                        clamped(v) <= 100 * ONE,
                ;
            },
            None => {},
        }
    }
}

/// The history after an update: the update appended, and the oldest entry
/// dropped once the limit would be passed.
pub open spec fn push_window(h: Seq<VitalUpdate>, u: VitalUpdate) -> Seq<VitalUpdate> {
    if h.len() >= HISTORY_LIMIT {
        h.push(u).drop_first()
    } else {
        h.push(u)
    }
}

/// The history kept after a run of updates of one patient, from an empty one.
pub open spec fn history_after(us: Seq<VitalUpdate>) -> Seq<VitalUpdate>
    decreases us.len(),
{
    if us.len() == 0 {
        Seq::empty()
    } else {
        push_window(history_after(us.drop_last()), us.last())
    }
}

/// After any run of updates, the history holds exactly the most recent
/// `HISTORY_LIMIT` of them (all of them while there are fewer), oldest first.
pub proof fn lemma_history_keeps_most_recent(us: Seq<VitalUpdate>)
    ensures
        history_after(us) == us.subrange(
            if us.len() > HISTORY_LIMIT {
                us.len() - HISTORY_LIMIT
            } else {
                0
            },
            us.len() as int,
        ),
        history_after(us).len() <= HISTORY_LIMIT,
    decreases us.len(),
{
    if us.len() > 0 {
        let pre = us.drop_last();
        lemma_history_keeps_most_recent(pre);
        let n = us.len() as int;
        if pre.len() >= HISTORY_LIMIT {
            assert(history_after(us) =~= us.subrange(n - HISTORY_LIMIT, n));
        } else {
            assert(history_after(us) =~= us.subrange(0, n));
        }
    }
}

/// The cooldown has passed: no alert yet, or at least `cooldown` time units
/// since the last one.
pub open spec fn spec_cooldown_elapsed(last_alert: Option<i64>, now: i64, cooldown: u64) -> bool {
    match last_alert {
        None => true,
        Some(last) => now - last >= cooldown,
    }
}

pub fn cooldown_elapsed(last_alert: Option<i64>, now: i64, cooldown: u64) -> (r: bool)
    ensures
        r == spec_cooldown_elapsed(last_alert, now, cooldown),
{
    match last_alert {
        None => true,
        Some(last) => (now as i128) - (last as i128) >= cooldown as i128,
    }
}

/// The patient identifiers of a list of memories.
pub open spec fn patient_ids(states: Seq<PatientState>) -> Seq<Seq<char>> {
    states.map_values(|s: PatientState| s.patient_id@)
}

/// Where a patient's memory is after an update: its existing entry, or a new
/// entry at the end.
pub open spec fn slot(old: EngineView, id: Seq<char>) -> int {
    match find_from(patient_ids(old.states), id, 0) {
        Some(i) => i,
        None => old.states.len() as int,
    }
}

/// The history a patient had before an update.
pub open spec fn prior_history(old: EngineView, id: Seq<char>) -> Seq<VitalUpdate> {
    match find_from(patient_ids(old.states), id, 0) {
        Some(i) => old.states[i].vital_history@,
        None => Seq::empty(),
    }
}

/// The time of a patient's last sepsis alert before an update.
pub open spec fn prior_last_alert(old: EngineView, id: Seq<char>) -> Option<i64> {
    match find_from(patient_ids(old.states), id, 0) {
        Some(i) => old.states[i].last_alert,
        None => None,
    }
}

/// A patient's risk before an update.
pub open spec fn prior_risk(old: EngineView, id: Seq<char>) -> u64 {
    match find_from(patient_ids(old.states), id, 0) {
        Some(i) => old.states[i].current_risk,
        None => 0,
    }
}

/// The guard is on and blocks the update's snapshot.
pub open spec fn blocks(old: EngineView, update: VitalUpdate) -> bool {
    old.config.enable_ethos && !old.guard.spec_passes(update.spec_snapshot())
}

/// A sepsis alert is raised for an update that was not blocked: the risk
/// reaches the threshold and the patient's cooldown has passed.
pub open spec fn alert_fires(old: EngineView, update: VitalUpdate) -> bool {
    &&& spec_risk(old.weights, update.spec_snapshot()) >= old.config.sepsis_alert_threshold
    &&& spec_cooldown_elapsed(
        prior_last_alert(old, update.patient_id@),
        update.timestamp,
        old.config.alert_cooldown_secs,
    )
}

/// The alert raised for a blocked update.
pub open spec fn is_blocked_alert(a: Alert, old: EngineView, update: VitalUpdate) -> bool {
    &&& a.patient_id@ == update.patient_id@
    &&& a.alert_type == AlertType::EthosBlocked
    &&& a.severity == AlertSeverity::Warning
    &&& a.timestamp == update.timestamp
    &&& a.triggering_values@.len() == 0
    &&& exists|f: int|
        #![trigger old.guard.rules@[f]]
        old.guard.first_failure(update.spec_snapshot(), f) && a.message@ == "Prediction blocked: "@
            + old.guard.rules@[f].spec_explain(update.spec_snapshot()).rule_violated
}

/// The result of scoring an update that was not blocked.
pub open spec fn is_scored_result(r: InferenceResult, old: EngineView, update: VitalUpdate) -> bool {
    let data = update.spec_snapshot();
    let risk = spec_risk(old.weights, data);
    &&& r.patient_id@ == update.patient_id@
    &&& r.timestamp == update.timestamp
    &&& r.sepsis_risk == risk
    &&& r.risk_level == RiskLevel::spec_from_score(risk)
    &&& named(r.top_contributing_factors@) == ranked(contributions(old.weights, data))
    &&& r.confidence == spec_confidence(old.weights, data)
}

/// The sepsis alert raised for an update: severity by risk, and the three
/// largest contributions as triggering values.
pub open spec fn is_sepsis_alert(a: Alert, old: EngineView, update: VitalUpdate) -> bool {
    let data = update.spec_snapshot();
    let risk = spec_risk(old.weights, data);
    let ranking = ranked(contributions(old.weights, data));
    &&& a.patient_id@ == update.patient_id@
    &&& a.alert_type == AlertType::SepsisRisk
    &&& a.severity == AlertSeverity::spec_for_risk(risk)
    &&& a.timestamp == update.timestamp
    &&& a.message@ == "HIGH SEPSIS RISK: "@ + tenths_text(round_div(risk as nat, 1000)) + "%"@
    &&& named(a.triggering_values@) == ranking.subrange(
        0,
        if ranking.len() < 3 {
            ranking.len() as int
        } else {
            3
        },
    )
}

/// With the guard on and the default clinical rules, an update whose snapshot
/// lacks a measured MAP or HR is blocked, whatever labs it carries: it gets
/// no inference result and exactly one guard alert (see `process_update`).
pub proof fn lemma_missing_vitals_always_blocked(old: EngineView, update: VitalUpdate)
    requires
        old.config.enable_ethos,
        old.guard.is_clinical_default(),
        update.spec_snapshot().vital("MAP"@) is None || update.spec_snapshot().vital("HR"@) is None,
    ensures
        blocks(old, update),
{
    let required = old.guard.rules@[0]->RequireCriticalVitals_0.required();
    assert(required[0] == "MAP"@);
    assert(required[1] == "HR"@);
    if update.spec_snapshot().vital("MAP"@) is None {
        lemma_missing_required_vital_blocks(old.guard, update.spec_snapshot(), 0, "MAP"@);
    } else {
        lemma_missing_required_vital_blocks(old.guard, update.spec_snapshot(), 0, "HR"@);
    }
}

/// The ranking keeps every entry and orders them by contribution, largest
/// first.
pub proof fn lemma_ranked_sorted(s: Seq<(Seq<char>, u64)>)
    ensures
        ranked(s).len() == s.len(),
        forall|i: int, j: int| 0 <= i < j < ranked(s).len() ==> ranked(s)[i].1 >= ranked(s)[j].1,
    decreases s.len(),
{
    if s.len() > 0 {
        let r = ranked(s.drop_last());
        lemma_ranked_sorted(s.drop_last());
        let x = s.last();
        let p = rank_position(r, x.1, 0);
        lemma_rank_position(r, x.1, 0);
        let t = r.insert(p, x);
        assert forall|i: int, j: int| 0 <= i < j < t.len() implies t[i].1 >= t[j].1 by {
            if j < p {
            } else if j == p {
                assert(t[i] == r[i]);
            } else if i < p {
                assert(t[j] == r[j - 1]);
                if p < r.len() {
                    assert(r[p].1 < x.1);
                }
            } else if i == p {
                assert(t[j] == r[j - 1]);
                assert(r[p].1 < x.1);
                if j - 1 > p {
                    assert(r[p].1 >= r[j - 1].1);
                }
            } else {
                assert(t[i] == r[i - 1]);
                assert(t[j] == r[j - 1]);
            }
        }
    }
}

fn lookup_feature(data: &PatientData, name: &String) -> (r: Option<i64>)
    ensures
        r == feature_value(data@, name@),
{
    match data.get_vital(name.as_str()) {
        Some(v) => Some(v),
        None => data.get_lab(name.as_str()),
    }
}

/// What the engine remembers of one patient.
#[derive(Debug, Clone)]
pub struct PatientState {
    pub patient_id: String,
    pub last_update: i64,
    pub last_alert: Option<i64>,
    /// The most recent updates, oldest first.
    pub vital_history: Vec<VitalUpdate>,
    pub current_risk: u64,
}

/// What the engine holds, as mathematical values.
pub struct EngineView {
    pub config: StreamingConfig,
    pub guard: EthosGuard,
    pub states: Seq<PatientState>,
    pub weights: Seq<(Seq<char>, u64)>,
}

/// Streaming inference engine: owns the memory of every patient it has seen.
pub struct StreamingInference {
    config: StreamingConfig,
    ethos_guard: EthosGuard,
    patient_states: Vec<PatientState>,
    feature_weights: Vec<(String, u64)>,
}

impl View for StreamingInference {
    type V = EngineView;

    closed spec fn view(&self) -> EngineView {
        EngineView {
            config: self.config,
            guard: self.ethos_guard,
            states: self.patient_states@,
            weights: named(self.feature_weights@),
        }
    }
}

impl StreamingInference {
    /// The weight table fits the machine word, and no history is longer than
    /// the limit.
    pub open spec fn wf(&self) -> bool {
        &&& total_weight(self@.weights) <= u64::MAX
        &&& forall|i: int|
            0 <= i < self@.states.len() ==> (#[trigger] self@.states[i]).vital_history@.len()
                <= HISTORY_LIMIT
    }

    pub fn new(config: StreamingConfig) -> (r: Self)
        ensures
            r.wf(),
            r@.config == config,
            r@.guard.is_clinical_default(),
            r@.states.len() == 0,
            r@.weights.len() == 0,
    {
        let r = StreamingInference {
            config,
            ethos_guard: EthosGuard::clinical_default(),
            patient_states: Vec::new(),
            feature_weights: Vec::new(),
        };
        assert(r@.weights =~= Seq::empty());
        r
    }

    /// Replaces the feature-weight table (weights in millionths).
    pub fn set_feature_weights(&mut self, weights: Vec<(String, u64)>)
        requires
            old(self).wf(),
            total_weight(named(weights@)) <= u64::MAX,
        ensures
            final(self).wf(),
            final(self)@ == (EngineView { weights: named(weights@), ..old(self)@ }),
    {
        self.feature_weights = weights;
    }

    /// Replaces the guard rules.
    pub fn set_ethos_guard(&mut self, guard: EthosGuard)
        requires
            old(self).wf(),
        ensures
            final(self).wf(),
            final(self)@ == (EngineView { guard, ..old(self)@ }),
    {
        self.ethos_guard = guard;
    }

    /// The memory of a patient, if the engine has seen it.
    pub fn patient_state(&self, patient_id: &str) -> (r: Option<&PatientState>)
        ensures
            match find_from(patient_ids(self@.states), patient_id@, 0) {
                Some(i) => r == Some(&self@.states[i]),
                None => r is None,
            },
    {
        match self.find_patient(&patient_id.to_owned()) {
            Some(i) => Some(&self.patient_states[i]),
            None => None,
        }
    }

    fn find_patient(&self, patient_id: &String) -> (r: Option<usize>)
        ensures
            match r {
                Some(i) => find_from(patient_ids(self@.states), patient_id@, 0)
                    == Some(i as int) && i < self@.states.len(),
                None => find_from(patient_ids(self@.states), patient_id@, 0) is None,
            },
    {
        let ghost ids = patient_ids(self@.states);
        let mut i: usize = 0;
        while i < self.patient_states.len() && self.patient_states[i].patient_id != *patient_id
            invariant
                i <= self.patient_states.len(),
                ids == patient_ids(self@.states),
                find_from(ids, patient_id@, 0) == find_from(ids, patient_id@, i as int),
            decreases self.patient_states.len() - i,
        {
            i = i + 1;
        }
        if i < self.patient_states.len() {
            Some(i)
        } else {
            None
        }
    }

    /// Risk score of a snapshot, with the contribution of each feature that
    /// has a value, largest first.
    pub fn calculate_risk(&self, data: &PatientData) -> (r: (u64, Vec<(String, u64)>))
        requires
            self.wf(),
        ensures
            r.0 == spec_risk(self@.weights, data@),
            r.0 <= ONE,
            named(r.1@) == ranked(contributions(self@.weights, data@)),
    {
        let ghost ws = self@.weights;
        let mut present: u64 = 0;
        let mut sum: u128 = 0;
        let mut list: Vec<(String, u64)> = Vec::new();
        let mut i: usize = 0;
        while i < self.feature_weights.len()
            invariant
                i <= self.feature_weights.len(),
                ws == self@.weights,
                ws.len() == self.feature_weights.len(),
                total_weight(ws) <= u64::MAX,
                present == present_weight(ws.subrange(0, i as int), data@),
                sum == weighted_sum(ws.subrange(0, i as int), data@),
                present <= total_weight(ws.subrange(0, i as int)),
                sum <= 100 * ONE * present,
                named(list@) == ranked(contributions(ws.subrange(0, i as int), data@)),
            decreases self.feature_weights.len() - i,
        {
            let ghost pre = ws.subrange(0, i as int);
            let ghost post = ws.subrange(0, i + 1);
            assert(post.drop_last() =~= pre);
            proof {
                lemma_prefix_weight(ws, i + 1);
            }
            let name = &self.feature_weights[i].0;
            let w = self.feature_weights[i].1;
            assert(post.last() == (name@, w));
            match lookup_feature(data, name) {
                Some(v) => {
                    let cl: u128 = if v <= 0 {
                        0
                    } else if v >= 100 * ONE as i64 {
                        100 * ONE as u128
                    } else {
                        v as u128
                    };
                    assert(cl == clamped(v));
                    assert(cl * w <= 100 * ONE * 0xffff_ffff_ffff_ffff) by (nonlinear_arith)
                        requires
                            cl <= 100 * ONE,
                            w <= 0xffff_ffff_ffff_ffff,
                    ;
                    let part = cl * (w as u128);
                    assert(part <= 100 * ONE * w) by (nonlinear_arith)
                        requires
                            part == cl * w,
                            cl <= 100 * ONE,
                    ;
                    let c = part / (100 * ONE as u128);
                    assert(c <= w) by (nonlinear_arith)
                        requires
                            c as int == part as int / (100 * ONE as int),
                            part <= 100 * ONE * w,
                    ;
                    assert(present + w <= total_weight(post));
                    assert(sum + part <= 100 * ONE * (present + w)) by (nonlinear_arith)
                        requires
                            sum <= 100 * ONE * present,
                            part <= 100 * ONE * w,
                    ;
                    assert(100 * ONE * (present + w) <= 100 * ONE * 0xffff_ffff_ffff_ffff)
                        by (nonlinear_arith)
                        requires
                            present + w <= 0xffff_ffff_ffff_ffff,
                    ;
                    present = present + w;
                    sum = sum + part;
                    let ghost cp = contributions(pre, data@);
                    let ghost x = (name@, c as u64);
                    assert(contributions(post, data@) == cp.push(x));
                    assert(cp.push(x).drop_last() =~= cp);
                    assert(ranked(cp.push(x)) == ranked(cp).insert(rank_position(ranked(cp), x.1, 0), x));
                    insert_ranked(&mut list, name.clone(), c as u64);
                },
                None => {
                    assert(contributions(post, data@) == contributions(pre, data@));
                },
            }
            i = i + 1;
        }
        assert(ws.subrange(0, ws.len() as int) =~= ws);
        let risk = if present == 0 {
            NEUTRAL_RISK
        } else {
            let q = sum / (100 * present as u128);
            assert(q <= ONE) by (nonlinear_arith)
                requires
                    q as int == sum as int / (100 * present as int),
                    sum <= 100 * ONE * present,
                    present > 0,
            ;
            q as u64
        };
        (risk, list)
    }

    /// Share of the weighted features that have a value, or zero when no
    /// weights are configured.
    pub fn calculate_confidence(&self, data: &PatientData) -> (r: u64)
        ensures
            r == spec_confidence(self@.weights, data@),
            r <= ONE,
    {
        let ghost ws = self@.weights;
        let mut available: usize = 0;
        let mut i: usize = 0;
        while i < self.feature_weights.len()
            invariant
                i <= self.feature_weights.len(),
                ws == self@.weights,
                ws.len() == self.feature_weights.len(),
                available == available_count(ws.subrange(0, i as int), data@),
                available <= i,
            decreases self.feature_weights.len() - i,
        {
            let ghost post = ws.subrange(0, i + 1);
            assert(post.drop_last() =~= ws.subrange(0, i as int));
            if lookup_feature(data, &self.feature_weights[i].0).is_some() {
                available = available + 1;
            }
            i = i + 1;
        }
        assert(ws.subrange(0, ws.len() as int) =~= ws);
        let total = self.feature_weights.len();
        if total == 0 {
            0
        } else {
            let q = (available as u128) * (ONE as u128) / (total as u128);
            assert(q <= ONE) by (nonlinear_arith)
                requires
                    q as int == (available * ONE) as int / total as int,
                    available <= total,
                    total > 0,
            ;
            q as u64
        }
    }

    /// Processes one update: records it in the patient's memory, runs the
    /// guard rules, and when they pass scores the snapshot and decides on a
    /// sepsis alert under the patient's cooldown.
    pub fn process_update(&mut self, update: VitalUpdate) -> (r: (Option<InferenceResult>, Vec<Alert>))
        requires
            old(self).wf(),
        ensures
            final(self).wf(),
            final(self)@.config == old(self)@.config,
            final(self)@.guard == old(self)@.guard,
            final(self)@.weights == old(self)@.weights,
            final(self)@.states.len() == if find_from(
                patient_ids(old(self)@.states),
                update.patient_id@,
                0,
            ) is Some {
                old(self)@.states.len()
            } else {
                old(self)@.states.len() + 1
            },
            forall|j: int|
                0 <= j < old(self)@.states.len() && j != slot(old(self)@, update.patient_id@)
                    ==> final(self)@.states[j] == old(self)@.states[j],
            final(self)@.states[slot(old(self)@, update.patient_id@)].patient_id@
                == update.patient_id@,
            final(self)@.states[slot(old(self)@, update.patient_id@)].last_update == update.timestamp,
            final(self)@.states[slot(old(self)@, update.patient_id@)].vital_history@ == push_window(
                prior_history(old(self)@, update.patient_id@),
                update,
            ),
            blocks(old(self)@, update) ==> {
                &&& r.0 is None
                &&& r.1@.len() == 1
                &&& is_blocked_alert(r.1@[0], old(self)@, update)
                &&& final(self)@.states[slot(old(self)@, update.patient_id@)].last_alert
                    == prior_last_alert(old(self)@, update.patient_id@)
                &&& final(self)@.states[slot(old(self)@, update.patient_id@)].current_risk
                    == prior_risk(old(self)@, update.patient_id@)
            },
            !blocks(old(self)@, update) ==> {
                &&& r.0 is Some
                &&& is_scored_result(r.0->Some_0, old(self)@, update)
                &&& final(self)@.states[slot(old(self)@, update.patient_id@)].current_risk
                    == spec_risk(old(self)@.weights, update.spec_snapshot())
            },
            !blocks(old(self)@, update) && alert_fires(old(self)@, update) ==> {
                &&& r.1@.len() == 1
                &&& is_sepsis_alert(r.1@[0], old(self)@, update)
                &&& final(self)@.states[slot(old(self)@, update.patient_id@)].last_alert == Some(
                    update.timestamp,
                )
            },
            !blocks(old(self)@, update) && !alert_fires(old(self)@, update) ==> {
                &&& r.1@.len() == 0
                &&& final(self)@.states[slot(old(self)@, update.patient_id@)].last_alert
                    == prior_last_alert(old(self)@, update.patient_id@)
            },
    {
        let ghost old_view = self@;
        let ghost id = update.patient_id@;
        let ghost u = update;
        let patient_id = update.patient_id.clone();
        let timestamp = update.timestamp;
        let data = update.to_patient_data();
        let idx = match self.find_patient(&patient_id) {
            Some(i) => i,
            None => {
                self.patient_states.push(
                    PatientState {
                        patient_id: patient_id.clone(),
                        last_update: 0,
                        last_alert: None,
                        vital_history: Vec::new(),
                        current_risk: 0,
                    },
                );
                self.patient_states.len() - 1
            },
        };
        assert(idx == slot(old_view, id));
        proof {
            lemma_find_from(patient_ids(old_view.states), id, 0);
        }
        assert(self.patient_states@[idx as int].patient_id@ == id);
        let ghost with_slot = self.patient_states@;
        let mut state = self.patient_states.remove(idx);
        assert(state.vital_history@ == prior_history(old_view, id));
        assert(state.last_alert == prior_last_alert(old_view, id));
        assert(state.current_risk == prior_risk(old_view, id));
        state.last_update = timestamp;
        state.vital_history.push(update);
        if state.vital_history.len() > HISTORY_LIMIT {
            state.vital_history.remove(0);
        }
        assert(state.vital_history@ =~= push_window(prior_history(old_view, id), u));
        let mut alerts: Vec<Alert> = Vec::new();
        if self.config.enable_ethos {
            match self.ethos_guard.check(&data, ()) {
                EthosResult::Blocked(explanation) => {
                    let mut message = String::from_str("Prediction blocked: ");
                    message.append(explanation.rule_violated.as_str());
                    alerts.push(
                        Alert {
                            patient_id,
                            alert_type: AlertType::EthosBlocked,
                            message,
                            severity: AlertSeverity::Warning,
                            timestamp,
                            triggering_values: Vec::new(),
                        },
                    );
                    self.patient_states.insert(idx, state);
                    assert(self.patient_states@ =~= with_slot.update(idx as int, state));
                    return (None, alerts);
                },
                EthosResult::Allowed(_) => {},
            }
        }
        let (risk, contributions) = self.calculate_risk(&data);
        let confidence = self.calculate_confidence(&data);
        state.current_risk = risk;
        if risk >= self.config.sepsis_alert_threshold && cooldown_elapsed(
            state.last_alert,
            timestamp,
            self.config.alert_cooldown_secs,
        ) {
            state.last_alert = Some(timestamp);
            let mut top: Vec<(String, u64)> = Vec::new();
            let mut k: usize = 0;
            while k < contributions.len() && k < 3
                invariant
                    k <= contributions.len(),
                    k <= 3,
                    named(top@) == named(contributions@).subrange(0, k as int),
                decreases 3 - k,
            {
                let ghost before = top@;
                top.push((contributions[k].0.clone(), contributions[k].1));
                assert(named(top@) =~= named(before).push(named(contributions@)[k as int]));
                assert(named(contributions@).subrange(0, k + 1) =~= named(contributions@).subrange(
                    0,
                    k as int,
                ).push(named(contributions@)[k as int]));
                k = k + 1;
            }
            let mut message = String::from_str("HIGH SEPSIS RISK: ");
            push_tenths(&mut message, (risk + 500) / 1000);
            message.append("%");
            alerts.push(
                Alert {
                    patient_id: patient_id.clone(),
                    alert_type: AlertType::SepsisRisk,
                    message,
                    severity: AlertSeverity::for_risk(risk),
                    timestamp,
                    triggering_values: top,
                },
            );
        }
        let result = InferenceResult {
            patient_id,
            timestamp,
            sepsis_risk: risk,
            risk_level: RiskLevel::from_score(risk),
            top_contributing_factors: contributions,
            confidence,
        };
        self.patient_states.insert(idx, state);
        assert(self.patient_states@ =~= with_slot.update(idx as int, state));
        (Some(result), alerts)
    }
}

} // verus!
