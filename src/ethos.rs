//! Deontic guardrails: safety rules that must hold of a patient snapshot
//! before a prediction may proceed, and the counterfactual explanations they
//! give when they do not.
//!
//! Measured values and thresholds are fixed-point numbers in millionths
//! (`85_000_000` is 85.0, `500_000` is 0.5); `None` means "not measured".
use vstd::prelude::*;
use vstd::string::*;
use crate::keyed::{insert, keys, lemma_find_from, lookup, position};
use crate::text::{
    decimal, hundredths_text, join, list_text, push_decimal, push_hundredths, push_joined,
    push_tenths, round_div, tenths_text,
};

verus! {

/// One whole, in the library's fixed-point unit of millionths.
pub const ONE: u64 = 1_000_000;

/// What an explanation states, as mathematical values.
pub struct ExplanationView {
    pub blocked_action: Seq<char>,
    pub rule_violated: Seq<char>,
    pub rule_id: Seq<char>,
    pub counterfactual: Seq<char>,
    pub severity: u8,
    pub context: Seq<(Seq<char>, Seq<char>)>,
}

/// Explanation generated when an action is blocked.
#[derive(Debug, Clone)]
pub struct CounterfactualExplanation {
    /// The action that was attempted.
    pub blocked_action: String,
    /// The rule that was violated.
    pub rule_violated: String,
    /// The rule identifier, for audit logging.
    pub rule_id: String,
    /// What would need to change for the action to proceed.
    pub counterfactual: String,
    /// Severity level (1-10).
    pub severity: u8,
    /// Additional context, one entry per key.
    pub context: Vec<(String, String)>,
}

/// The views of a list of string pairs.
pub open spec fn text_pairs(v: Seq<(String, String)>) -> Seq<(Seq<char>, Seq<char>)> {
    v.map_values(|p: (String, String)| (p.0@, p.1@))
}

impl View for CounterfactualExplanation {
    type V = ExplanationView;

    open spec fn view(&self) -> ExplanationView {
        ExplanationView {
            blocked_action: self.blocked_action@,
            rule_violated: self.rule_violated@,
            rule_id: self.rule_id@,
            counterfactual: self.counterfactual@,
            severity: self.severity,
            context: text_pairs(self.context@),
        }
    }
}

impl CounterfactualExplanation {
    pub fn new(
        blocked_action: String,
        rule_violated: String,
        rule_id: String,
        counterfactual: String,
        severity: u8,
    ) -> (r: Self)
        ensures
            r@ == (ExplanationView {
                blocked_action: blocked_action@,
                rule_violated: rule_violated@,
                rule_id: rule_id@,
                counterfactual: counterfactual@,
                severity,
                context: Seq::empty(),
            }),
    {
        let r = CounterfactualExplanation {
            blocked_action,
            rule_violated,
            rule_id,
            counterfactual,
            severity,
            context: Vec::new(),
        };
        assert(text_pairs(r.context@) =~= Seq::empty());
        r
    }

    /// Sets the context entry under `key` to `value`.
    pub fn with_context(self, key: String, value: String) -> (r: Self)
        ensures
            r@ == (ExplanationView { context: insert(self@.context, key@, value@), ..self@ }),
    {
        let mut r = self;
        let pos = position(&r.context, &key);
        let ghost old_ctx = r.context@;
        assert(keys(text_pairs(old_ctx)) =~= old_ctx.map_values(|p: (String, String)| p.0@));
        match pos {
            Some(i) => {
                r.context.set(i, (key, value));
                assert(text_pairs(r.context@) =~= text_pairs(old_ctx).update(
                    i as int,
                    (key@, value@),
                ));
            },
            None => {
                r.context.push((key, value));
                assert(text_pairs(r.context@) =~= text_pairs(old_ctx).push((key@, value@)));
            },
        }
        r
    }
}

/// Result of a guard check.
#[derive(Debug)]
pub enum EthosResult<T> {
    /// The action is allowed; proceed with the contained value.
    Allowed(T),
    /// The action is blocked; the explanation says why.
    Blocked(CounterfactualExplanation),
}

impl<T> EthosResult<T> {
    pub fn is_allowed(&self) -> (r: bool)
        ensures
            r == self is Allowed,
    {
        match self {
            EthosResult::Allowed(_) => true,
            EthosResult::Blocked(_) => false,
        }
    }

    pub fn is_blocked(&self) -> (r: bool)
        ensures
            r == self is Blocked,
    {
        match self {
            EthosResult::Allowed(_) => false,
            EthosResult::Blocked(_) => true,
        }
    }

    /// The allowed value; only for a decision known to be `Allowed`.
    pub fn unwrap(self) -> (r: T)
        requires
            self is Allowed,
        ensures
            r == self->Allowed_0,
    {
        match self {
            EthosResult::Allowed(v) => v,
            EthosResult::Blocked(_) => unreached(),
        }
    }

    pub fn explanation(&self) -> (r: Option<&CounterfactualExplanation>)
        ensures
            match self {
                EthosResult::Blocked(e) => r == Some(e),
                EthosResult::Allowed(_) => r is None,
            },
    {
        match self {
            EthosResult::Blocked(e) => Some(e),
            EthosResult::Allowed(_) => None,
        }
    }
}

/// The views of a list of named readings.
pub open spec fn readings(v: Seq<(String, Option<i64>)>) -> Seq<(Seq<char>, Option<i64>)> {
    v.map_values(|p: (String, Option<i64>)| (p.0@, p.1))
}

/// The value measured under `name`, if an entry holds one.
pub open spec fn reading(s: Seq<(Seq<char>, Option<i64>)>, name: Seq<char>) -> Option<i64> {
    match lookup(s, name) {
        Some(v) => v,
        None => None,
    }
}

/// How many entries are recorded as not measured.
pub open spec fn absent_count(s: Seq<(Seq<char>, Option<i64>)>) -> nat
    decreases s.len(),
{
    if s.len() == 0 {
        0
    } else {
        absent_count(s.drop_last()) + if s.last().1 is None {
            1nat
        } else {
            0nat
        }
    }
}

/// Patient data a rule is evaluated on: vitals and labs by name, each either
/// a measured value (in millionths) or `None` for "not measured".
#[derive(Debug, Clone)]
pub struct PatientData {
    pub vitals: Vec<(String, Option<i64>)>,
    pub lab_values: Vec<(String, Option<i64>)>,
    pub metadata: Vec<(String, String)>,
}

fn set_reading(v: &mut Vec<(String, Option<i64>)>, name: String, value: Option<i64>)
    ensures
        readings(final(v)@) == insert(readings(old(v)@), name@, value),
{
    let pos = position(v, &name);
    let ghost before = v@;
    assert(keys(readings(before)) =~= before.map_values(|p: (String, Option<i64>)| p.0@));
    match pos {
        Some(i) => {
            v.set(i, (name, value));
            assert(readings(v@) =~= readings(before).update(i as int, (name@, value)));
        },
        None => {
            v.push((name, value));
            assert(readings(v@) =~= readings(before).push((name@, value)));
        },
    }
}

fn get_reading(v: &Vec<(String, Option<i64>)>, name: &String) -> (r: Option<i64>)
    ensures
        r == reading(readings(v@), name@),
{
    let pos = position(v, name);
    assert(keys(readings(v@)) =~= v@.map_values(|p: (String, Option<i64>)| p.0@));
    match pos {
        Some(i) => v[i].1,
        None => None,
    }
}

/// What a snapshot holds, as mathematical values.
pub struct SnapshotView {
    pub vitals: Seq<(Seq<char>, Option<i64>)>,
    pub labs: Seq<(Seq<char>, Option<i64>)>,
}

impl SnapshotView {
    pub open spec fn vital(self, name: Seq<char>) -> Option<i64> {
        reading(self.vitals, name)
    }

    pub open spec fn lab(self, name: Seq<char>) -> Option<i64> {
        reading(self.labs, name)
    }

    /// Number of vitals and labs, measured or not.
    pub open spec fn field_count(self) -> nat {
        self.vitals.len() + self.labs.len()
    }

    /// Number of vitals and labs recorded as not measured.
    pub open spec fn absent_fields(self) -> nat {
        absent_count(self.vitals) + absent_count(self.labs)
    }
}

impl View for PatientData {
    type V = SnapshotView;

    open spec fn view(&self) -> SnapshotView {
        SnapshotView { vitals: readings(self.vitals@), labs: readings(self.lab_values@) }
    }
}

impl PatientData {
    pub fn new() -> (r: Self)
        ensures
            r.vitals@.len() == 0,
            r.lab_values@.len() == 0,
            r.metadata@.len() == 0,
    {
        PatientData { vitals: Vec::new(), lab_values: Vec::new(), metadata: Vec::new() }
    }

    pub fn set_vital(&mut self, name: &str, value: Option<i64>)
        ensures
            final(self)@.vitals == insert(old(self)@.vitals, name@, value),
            final(self).lab_values == old(self).lab_values,
            final(self).metadata == old(self).metadata,
    {
        set_reading(&mut self.vitals, name.to_owned(), value);
    }

    pub fn set_lab(&mut self, name: &str, value: Option<i64>)
        ensures
            final(self)@.labs == insert(old(self)@.labs, name@, value),
            final(self).vitals == old(self).vitals,
            final(self).metadata == old(self).metadata,
    {
        set_reading(&mut self.lab_values, name.to_owned(), value);
    }

    pub fn get_vital(&self, name: &str) -> (r: Option<i64>)
        ensures
            r == self@.vital(name@),
    {
        get_reading(&self.vitals, &name.to_owned())
    }

    pub fn get_lab(&self, name: &str) -> (r: Option<i64>)
        ensures
            r == self@.lab(name@),
    {
        get_reading(&self.lab_values, &name.to_owned())
    }

    pub fn is_vital_missing(&self, name: &str) -> (r: bool)
        ensures
            r == (self@.vital(name@) is None),
    {
        self.get_vital(name).is_none()
    }

    pub fn is_lab_missing(&self, name: &str) -> (r: bool)
        ensures
            r == (self@.lab(name@) is None),
    {
        self.get_lab(name).is_none()
    }
}

/// The required names that hold no measured vital, in their order.
pub open spec fn missing_of(required: Seq<Seq<char>>, vitals: Seq<(Seq<char>, Option<i64>)>) -> Seq<
    Seq<char>,
>
    decreases required.len(),
{
    if required.len() == 0 {
        Seq::empty()
    } else {
        let m = missing_of(required.drop_last(), vitals);
        if reading(vitals, required.last()) is None {
            m.push(required.last())
        } else {
            m
        }
    }
}

/// Rule: the critical vitals must be measured before a prediction is made.
#[derive(Debug, Clone)]
pub struct RequireCriticalVitals {
    pub required_vitals: Vec<String>,
}

impl RequireCriticalVitals {
    pub open spec fn required(&self) -> Seq<Seq<char>> {
        self.required_vitals@.map_values(|s: String| s@)
    }

    /// Every required vital holds a measured value.
    pub open spec fn spec_check(&self, data: SnapshotView) -> bool {
        forall|i: int| 0 <= i < self.required().len() ==> (#[trigger] data.vital(self.required()[i])) is Some
    }

    pub open spec fn spec_missing(&self, data: SnapshotView) -> Seq<Seq<char>> {
        missing_of(self.required(), data.vitals)
    }

    pub open spec fn spec_explain(&self, data: SnapshotView) -> ExplanationView {
        let missing = self.spec_missing(data);
        ExplanationView {
            blocked_action: "Sepsis Risk Prediction"@,
            rule_violated: "Missing critical vital signs: "@ + list_text(missing),
            rule_id: "ETHOS-001"@,
            counterfactual: "If "@ + join(missing, ", "@) + " were available, prediction would proceed"@,
            severity: 8,
            context: Seq::empty(),
        }
    }

    pub fn new(vitals: Vec<&str>) -> (r: Self)
        ensures
            r.required() == vitals@.map_values(|s: &str| s@),
    {
        let mut required_vitals: Vec<String> = Vec::new();
        let mut i: usize = 0;
        while i < vitals.len()
            invariant
                i <= vitals.len(),
                required_vitals@.map_values(|s: String| s@) =~= vitals@.subrange(0, i as int).map_values(
                    |s: &str| s@,
                ),
            decreases vitals.len() - i,
        {
            let ghost before = required_vitals@;
            let name: &str = vitals[i];
            let owned: String = name.to_owned();
            assert(owned@ == vitals@[i as int]@);
            required_vitals.push(owned);
            assert(required_vitals@.map_values(|s: String| s@) =~= before.map_values(|s: String| s@).push(
                owned@,
            ));
            assert(vitals@.subrange(0, i + 1).map_values(|s: &str| s@) =~= vitals@.subrange(
                0,
                i as int,
            ).map_values(|s: &str| s@).push(vitals@[i as int]@));
            i = i + 1;
        }
        assert(vitals@.subrange(0, vitals.len() as int) =~= vitals@);
        RequireCriticalVitals { required_vitals }
    }

    pub fn id(&self) -> (r: &'static str)
        ensures
            r@ == "ETHOS-001"@,
    {
        "ETHOS-001"
    }

    pub fn description(&self) -> (r: &'static str)
        ensures
            r@ == "Require critical vital signs before making predictions"@,
    {
        "Require critical vital signs before making predictions"
    }

    pub fn check(&self, data: &PatientData) -> (r: bool)
        ensures
            r == self.spec_check(data@),
    {
        let mut i: usize = 0;
        while i < self.required_vitals.len()
            invariant
                i <= self.required_vitals.len(),
                forall|j: int| 0 <= j < i ==> (#[trigger] data@.vital(self.required()[j])) is Some,
            decreases self.required_vitals.len() - i,
        {
            if get_reading(&data.vitals, &self.required_vitals[i]).is_none() {
                assert(data@.vital(self.required()[i as int]) is None);
                return false;
            }
            i = i + 1;
        }
        true
    }

    /// The required vitals that are not measured, in their configured order.
    pub fn missing_vitals(&self, data: &PatientData) -> (r: Vec<String>)
        ensures
            r@.map_values(|s: String| s@) == self.spec_missing(data@),
    {
        let mut missing: Vec<String> = Vec::new();
        let mut i: usize = 0;
        while i < self.required_vitals.len()
            invariant
                i <= self.required_vitals.len(),
                missing@.map_values(|s: String| s@) == missing_of(
                    self.required().subrange(0, i as int),
                    data@.vitals,
                ),
            decreases self.required_vitals.len() - i,
        {
            let ghost pre = self.required().subrange(0, i as int);
            let ghost post = self.required().subrange(0, i + 1);
            assert(post.drop_last() =~= pre);
            assert(post.last() == self.required_vitals@[i as int]@);
            let ghost before = missing@;
            if get_reading(&data.vitals, &self.required_vitals[i]).is_none() {
                missing.push(self.required_vitals[i].clone());
                assert(missing@.map_values(|s: String| s@) =~= before.map_values(|s: String| s@).push(
                    post.last(),
                ));
            }
            i = i + 1;
        }
        assert(self.required().subrange(0, self.required_vitals.len() as int) =~= self.required());
        missing
    }

    pub fn explain(&self, data: &PatientData) -> (r: CounterfactualExplanation)
        ensures
            r@ == self.spec_explain(data@),
    {
        let missing = self.missing_vitals(data);
        let mut violated = String::from_str("Missing critical vital signs: ");
        violated.append("[");
        push_joined(&mut violated, &missing, ", ", true);
        violated.append("]");
        let mut counterfactual = String::from_str("If ");
        push_joined(&mut counterfactual, &missing, ", ", false);
        counterfactual.append(" were available, prediction would proceed");
        let r = CounterfactualExplanation::new(
            String::from_str("Sepsis Risk Prediction"),
            violated,
            String::from_str("ETHOS-001"),
            counterfactual,
            8,
        );
        assert(r@.rule_violated =~= self.spec_explain(data@).rule_violated);
        assert(r@.counterfactual =~= self.spec_explain(data@).counterfactual);
        r
    }
}

fn count_absent(v: &Vec<(String, Option<i64>)>) -> (r: usize)
    ensures
        r == absent_count(readings(v@)),
        r <= v.len(),
{
    let ghost s = readings(v@);
    let mut count: usize = 0;
    let mut i: usize = 0;
    while i < v.len()
        invariant
            i <= v.len(),
            s == readings(v@),
            count <= i,
            count == absent_count(s.subrange(0, i as int)),
        decreases v.len() - i,
    {
        assert(s.subrange(0, i + 1).drop_last() =~= s.subrange(0, i as int));
        if v[i].1.is_none() {
            count = count + 1;
        }
        i = i + 1;
    }
    assert(s.subrange(0, v.len() as int) =~= s);
    count
}

fn round_div_exec(a: u128, b: u128) -> (r: u128)
    requires
        b > 0,
        a <= 0x1_0000_0000_0000_0000_0000,
        b <= 0x1_0000_0000_0000_0000_0000,
    ensures
        r == round_div(a as nat, b as nat),
{
    (2 * a + b) / (2 * b)
}

/// The uncertainty of a snapshot, in tenths of a percent, rounded; an empty
/// snapshot is fully uncertain.
pub open spec fn uncertainty_tenths_pct(data: SnapshotView) -> nat {
    if data.field_count() == 0 {
        1000
    } else {
        round_div(data.absent_fields() * 1000, data.field_count())
    }
}

/// The uncertainty of a snapshot, in hundredths, rounded; an empty snapshot
/// is fully uncertain.
pub open spec fn uncertainty_hundredths(data: SnapshotView) -> nat {
    if data.field_count() == 0 {
        100
    } else {
        round_div(data.absent_fields() * 100, data.field_count())
    }
}

/// Rule: block a prediction when too large a share of the values is missing.
#[derive(Debug, Clone, Copy)]
pub struct MaxUncertaintyThreshold {
    /// Largest accepted share of missing values, in millionths.
    pub threshold: u64,
}

impl MaxUncertaintyThreshold {
    /// The uncertainty (missing values over all values) is at most the
    /// threshold; a snapshot with no values at all never passes.
    pub open spec fn spec_check(&self, data: SnapshotView) -> bool {
        data.field_count() > 0 && data.absent_fields() * ONE <= self.threshold * data.field_count()
    }

    /// Smallest share of present values that passes, in whole percent, rounded.
    pub open spec fn presence_pct(&self) -> nat {
        round_div(
            (ONE - if self.threshold <= ONE {
                self.threshold
            } else {
                ONE
            }) as nat,
            10_000,
        )
    }

    pub open spec fn spec_explain(&self, data: SnapshotView) -> ExplanationView {
        ExplanationView {
            blocked_action: "Sepsis Risk Prediction"@,
            rule_violated: "Data uncertainty ("@ + tenths_text(uncertainty_tenths_pct(data))
                + "%) exceeds maximum threshold ("@ + tenths_text(round_div(self.threshold as nat, 1000))
                + "%)"@,
            rule_id: "ETHOS-002"@,
            counterfactual: "If at least "@ + decimal(self.presence_pct())
                + "% of values were present, prediction would proceed"@,
            severity: 7,
            context: seq![
                ("current_uncertainty"@, hundredths_text(uncertainty_hundredths(data))),
                ("threshold"@, hundredths_text(round_div(self.threshold as nat, 10_000))),
            ],
        }
    }

    pub fn new(threshold: u64) -> (r: Self)
        ensures
            r.threshold == threshold,
    {
        MaxUncertaintyThreshold { threshold }
    }

    pub fn id(&self) -> (r: &'static str)
        ensures
            r@ == "ETHOS-002"@,
    {
        "ETHOS-002"
    }

    pub fn description(&self) -> (r: &'static str)
        ensures
            r@ == "Block prediction if data uncertainty exceeds threshold"@,
    {
        "Block prediction if data uncertainty exceeds threshold"
    }

    pub fn check(&self, data: &PatientData) -> (r: bool)
        ensures
            r == self.spec_check(data@),
    {
        let total = data.vitals.len() as u128 + data.lab_values.len() as u128;
        if total == 0 {
            return false;
        }
        let missing = count_absent(&data.vitals) as u128 + count_absent(&data.lab_values) as u128;
        // A threshold of one or more accepts every non-empty snapshot.
        let t: u128 = if self.threshold <= ONE {
            self.threshold as u128
        } else {
            ONE as u128
        };
        proof {
            let thr = self.threshold as int;
            let tt = t as int;
            let m = missing as int;
            let n = total as int;
            assert(m * 1_000_000 <= tt * n <==> m * 1_000_000 <= thr * n) by (nonlinear_arith)
                requires
                    0 <= m <= n,
                    tt == if thr <= 1_000_000 {
                        thr
                    } else {
                        1_000_000
                    },
            ;
            assert(tt * n <= 1_000_000 * n) by (nonlinear_arith)
                requires
                    0 <= tt <= 1_000_000,
                    0 <= n,
            ;
        }
        missing * (ONE as u128) <= t * total
    }

    pub fn explain(&self, data: &PatientData) -> (r: CounterfactualExplanation)
        ensures
            r@ == self.spec_explain(data@),
    {
        let total = data.vitals.len() as u128 + data.lab_values.len() as u128;
        let missing = count_absent(&data.vitals) as u128 + count_absent(&data.lab_values) as u128;
        let (pct_tenths, hundredths) = if total > 0 {
            let a = round_div_exec(missing * 1000, total);
            let b = round_div_exec(missing * 100, total);
            assert(a <= 1000 && b <= 100) by (nonlinear_arith)
                requires
                    a == (2 * (missing * 1000) + total) / (2 * total),
                    b == (2 * (missing * 100) + total) / (2 * total),
                    missing <= total,
                    total > 0,
            ;
            (a as u64, b as u64)
        } else {
            (1000u64, 100u64)
        };
        let t = self.threshold as u128;
        let threshold_tenths = round_div_exec(t, 1000) as u64;
        let threshold_hundredths = round_div_exec(t, 10_000) as u64;
        let presence = round_div_exec(
            (ONE - if self.threshold <= ONE {
                self.threshold
            } else {
                ONE
            }) as u128,
            10_000,
        ) as u64;

        let mut violated = String::from_str("Data uncertainty (");
        push_tenths(&mut violated, pct_tenths);
        violated.append("%) exceeds maximum threshold (");
        push_tenths(&mut violated, threshold_tenths);
        violated.append("%)");
        let mut counterfactual = String::from_str("If at least ");
        push_decimal(&mut counterfactual, presence);
        counterfactual.append("% of values were present, prediction would proceed");
        let mut uncertainty_text = String::new();
        push_hundredths(&mut uncertainty_text, hundredths);
        let mut threshold_text = String::new();
        push_hundredths(&mut threshold_text, threshold_hundredths);

        let r = CounterfactualExplanation::new(
            String::from_str("Sepsis Risk Prediction"),
            violated,
            String::from_str("ETHOS-002"),
            counterfactual,
            7,
        );
        let r = r.with_context(String::from_str("current_uncertainty"), uncertainty_text);
        let r = r.with_context(String::from_str("threshold"), threshold_text);
        proof {
            reveal_strlit("current_uncertainty");
            reveal_strlit("threshold");
            let key1 = "current_uncertainty"@;
            let key2 = "threshold"@;
            let one = seq![(key1, uncertainty_text@)];
            assert(insert(Seq::<(Seq<char>, Seq<char>)>::empty(), key1, uncertainty_text@) =~= one);
            assert(key1 != key2) by {
                assert(key1.len() != key2.len());
            }
            assert(keys(one) =~= seq![key1]);
            lemma_find_from(keys(one), key2, 0);
        }
        assert(r@.rule_violated =~= self.spec_explain(data@).rule_violated);
        assert(r@.counterfactual =~= self.spec_explain(data@).counterfactual);
        assert(r@.context =~= self.spec_explain(data@).context);
        r
    }
}

/// The required-vitals check passes exactly when no required vital is
/// missing, and the missing list holds exactly the required names without a
/// measured value.
pub proof fn lemma_required_vitals_missing(rule: RequireCriticalVitals, data: SnapshotView)
    ensures
        rule.spec_check(data) <==> rule.spec_missing(data).len() == 0,
        forall|name: Seq<char>|
            #![trigger rule.spec_missing(data).contains(name)]
            rule.spec_missing(data).contains(name) <==> (rule.required().contains(name)
                && data.vital(name) is None),
{
    lemma_missing_of(rule.required(), data);
}

proof fn lemma_missing_of(required: Seq<Seq<char>>, data: SnapshotView)
    ensures
        (forall|i: int| 0 <= i < required.len() ==> (#[trigger] data.vital(required[i])) is Some)
            <==> missing_of(required, data.vitals).len() == 0,
        forall|name: Seq<char>|
            #![trigger missing_of(required, data.vitals).contains(name)]
            missing_of(required, data.vitals).contains(name) <==> (required.contains(name)
                && data.vital(name) is None),
    decreases required.len(),
{
    if required.len() > 0 {
        let pre = required.drop_last();
        lemma_missing_of(pre, data);
        let m = missing_of(pre, data.vitals);
        assert forall|name: Seq<char>| #[trigger]
            missing_of(required, data.vitals).contains(name) <==> (required.contains(name)
                && data.vital(name) is None) by {
            if required.contains(name) && !pre.contains(name) {
                let k = choose|k: int| 0 <= k < required.len() && required[k] == name;
                if k < required.len() - 1 {
                    assert(pre[k] == name);
                }
            }
            if pre.contains(name) {
                let k = choose|k: int| 0 <= k < pre.len() && pre[k] == name;
                assert(required[k] == name);
            }
            if data.vital(required.last()) is None {
                assert(missing_of(required, data.vitals) == m.push(required.last()));
                if m.contains(name) {
                    let k = choose|k: int| 0 <= k < m.len() && m[k] == name;
                    assert(m.push(required.last())[k] == name);
                }
                if name == required.last() {
                    assert(m.push(required.last())[m.len() as int] == name);
                }
            }
        }
        if forall|i: int| 0 <= i < required.len() ==> (#[trigger] data.vital(required[i])) is Some {
            assert forall|i: int| 0 <= i < pre.len() implies (#[trigger] data.vital(pre[i])) is Some by {
                assert(pre[i] == required[i]);
            }
            assert(data.vital(required[required.len() - 1]) is Some);
        } else {
            let i = choose|i: int| 0 <= i < required.len() && (#[trigger] data.vital(required[i])) is None;
            if i < required.len() - 1 {
                assert(pre[i] == required[i]);
            } else {
                assert(missing_of(required, data.vitals) == m.push(required.last()));
            }
        }
    }
}

/// A guard rule: one of the built-in rule kinds.
#[derive(Debug, Clone)]
pub enum EthosRule {
    RequireCriticalVitals(RequireCriticalVitals),
    MaxUncertaintyThreshold(MaxUncertaintyThreshold),
}

impl EthosRule {
    pub open spec fn spec_check(&self, data: SnapshotView) -> bool {
        match self {
            EthosRule::RequireCriticalVitals(r) => r.spec_check(data),
            EthosRule::MaxUncertaintyThreshold(r) => r.spec_check(data),
        }
    }

    pub open spec fn spec_explain(&self, data: SnapshotView) -> ExplanationView {
        match self {
            EthosRule::RequireCriticalVitals(r) => r.spec_explain(data),
            EthosRule::MaxUncertaintyThreshold(r) => r.spec_explain(data),
        }
    }

    pub open spec fn spec_id(&self) -> Seq<char> {
        match self {
            EthosRule::RequireCriticalVitals(_) => "ETHOS-001"@,
            EthosRule::MaxUncertaintyThreshold(_) => "ETHOS-002"@,
        }
    }

    /// Stable identifier of the rule, for audit correlation.
    pub fn id(&self) -> (r: &'static str)
        ensures
            r@ == self.spec_id(),
    {
        match self {
            EthosRule::RequireCriticalVitals(r) => r.id(),
            EthosRule::MaxUncertaintyThreshold(r) => r.id(),
        }
    }

    pub fn description(&self) -> (r: &'static str)
        ensures
            r@ == match self {
                EthosRule::RequireCriticalVitals(_) => "Require critical vital signs before making predictions"@,
                EthosRule::MaxUncertaintyThreshold(_) => "Block prediction if data uncertainty exceeds threshold"@,
            },
    {
        match self {
            EthosRule::RequireCriticalVitals(r) => r.description(),
            EthosRule::MaxUncertaintyThreshold(r) => r.description(),
        }
    }

    pub fn check(&self, data: &PatientData) -> (r: bool)
        ensures
            r == self.spec_check(data@),
    {
        match self {
            EthosRule::RequireCriticalVitals(r) => r.check(data),
            EthosRule::MaxUncertaintyThreshold(r) => r.check(data),
        }
    }

    pub fn explain(&self, data: &PatientData) -> (r: CounterfactualExplanation)
        ensures
            r@ == self.spec_explain(data@),
            r@.rule_id == self.spec_id(),
    {
        match self {
            EthosRule::RequireCriticalVitals(r) => r.explain(data),
            EthosRule::MaxUncertaintyThreshold(r) => r.explain(data),
        }
    }
}

/// The explanations of the failing rules, in rule order.
pub open spec fn violations(rules: Seq<EthosRule>, data: SnapshotView) -> Seq<ExplanationView>
    decreases rules.len(),
{
    if rules.len() == 0 {
        Seq::empty()
    } else {
        let v = violations(rules.drop_last(), data);
        if rules.last().spec_check(data) {
            v
        } else {
            v.push(rules.last().spec_explain(data))
        }
    }
}

/// An ordered set of guard rules.
#[derive(Debug, Clone)]
pub struct EthosGuard {
    pub rules: Vec<EthosRule>,
}

impl EthosGuard {
    /// Every rule passes.
    pub open spec fn spec_passes(&self, data: SnapshotView) -> bool {
        forall|i: int| 0 <= i < self.rules@.len() ==> (#[trigger] self.rules@[i]).spec_check(data)
    }

    /// Rule `i` is the first rule, in configured order, that fails.
    pub open spec fn first_failure(&self, data: SnapshotView, i: int) -> bool {
        &&& 0 <= i < self.rules@.len()
        &&& !self.rules@[i].spec_check(data)
        &&& forall|j: int| 0 <= j < i ==> (#[trigger] self.rules@[j]).spec_check(data)
    }

    /// The default clinical policy: MAP and HR must be measured, then at most
    /// half of the values may be missing.
    pub open spec fn is_clinical_default(&self) -> bool {
        &&& self.rules@.len() == 2
        &&& self.rules@[0] is RequireCriticalVitals
        &&& self.rules@[0]->RequireCriticalVitals_0.required() == seq!["MAP"@, "HR"@]
        &&& self.rules@[1] == EthosRule::MaxUncertaintyThreshold(
            MaxUncertaintyThreshold { threshold: 500_000 },
        )
    }

    pub fn new() -> (r: Self)
        ensures
            r.rules@.len() == 0,
    {
        EthosGuard { rules: Vec::new() }
    }

    pub fn clinical_default() -> (r: Self)
        ensures
            r.is_clinical_default(),
    {
        let mut guard = Self::new();
        let mut names: Vec<&str> = Vec::new();
        names.push("MAP");
        names.push("HR");
        let required = RequireCriticalVitals::new(names);
        assert(required.required() =~= seq!["MAP"@, "HR"@]);
        guard.add_rule(EthosRule::RequireCriticalVitals(required));
        guard.add_rule(EthosRule::MaxUncertaintyThreshold(MaxUncertaintyThreshold::new(500_000)));
        guard
    }

    pub fn add_rule(&mut self, rule: EthosRule)
        ensures
            final(self).rules@ == old(self).rules@.push(rule),
    {
        self.rules.push(rule);
    }

    /// Fail-fast evaluation: the explanation of the first failing rule, or
    /// the action when every rule passes.
    pub fn check<T>(&self, data: &PatientData, action: T) -> (r: EthosResult<T>)
        ensures
            r is Allowed <==> self.spec_passes(data@),
            r is Allowed ==> r->Allowed_0 == action,
            r is Blocked ==> exists|i: int|
                #![trigger self.rules@[i]]
                self.first_failure(data@, i) && r->Blocked_0@ == self.rules@[i].spec_explain(data@),
    {
        let mut i: usize = 0;
        while i < self.rules.len()
            invariant
                i <= self.rules.len(),
                forall|j: int| 0 <= j < i ==> (#[trigger] self.rules@[j]).spec_check(data@),
            decreases self.rules.len() - i,
        {
            if !self.rules[i].check(data) {
                let e = self.rules[i].explain(data);
                assert(self.first_failure(data@, i as int));
                return EthosResult::Blocked(e);
            }
            i = i + 1;
        }
        EthosResult::Allowed(action)
    }

    /// Collect-all evaluation: the explanations of every failing rule, in
    /// rule order.
    pub fn check_all(&self, data: &PatientData) -> (r: Vec<CounterfactualExplanation>)
        ensures
            r@.map_values(|e: CounterfactualExplanation| e@) == violations(self.rules@, data@),
    {
        let mut out: Vec<CounterfactualExplanation> = Vec::new();
        let mut i: usize = 0;
        while i < self.rules.len()
            invariant
                i <= self.rules.len(),
                out@.map_values(|e: CounterfactualExplanation| e@) == violations(
                    self.rules@.subrange(0, i as int),
                    data@,
                ),
            decreases self.rules.len() - i,
        {
            let ghost before = out@;
            let ghost post = self.rules@.subrange(0, i + 1);
            assert(post.drop_last() =~= self.rules@.subrange(0, i as int));
            if !self.rules[i].check(data) {
                let e = self.rules[i].explain(data);
                out.push(e);
                assert(out@.map_values(|e: CounterfactualExplanation| e@) =~= before.map_values(
                    |e: CounterfactualExplanation| e@,
                ).push(post.last().spec_explain(data@)));
            }
            i = i + 1;
        }
        assert(self.rules@.subrange(0, self.rules.len() as int) =~= self.rules@);
        out
    }
}

/// A guard that holds a required-vitals rule blocks every snapshot in which
/// one of that rule's vitals is not measured, whatever else the snapshot
/// holds.
pub proof fn lemma_missing_required_vital_blocks(
    guard: EthosGuard,
    data: SnapshotView,
    i: int,
    name: Seq<char>,
)
    requires
        0 <= i < guard.rules@.len(),
        guard.rules@[i] is RequireCriticalVitals,
        guard.rules@[i]->RequireCriticalVitals_0.required().contains(name),
        data.vital(name) is None,
    ensures
        !guard.spec_passes(data),
{
    let rule = guard.rules@[i]->RequireCriticalVitals_0;
    let k = choose|k: int| 0 <= k < rule.required().len() && rule.required()[k] == name;
    assert(!rule.spec_check(data));
    assert(!guard.rules@[i].spec_check(data));
}

impl Default for EthosGuard {
    fn default() -> (r: Self)
        ensures
            r.rules@.len() == 0,
    {
        Self::new()
    }
}

} // verus!
