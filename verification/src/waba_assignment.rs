//! The WABA assignment report: WhatsApp phone numbers grouped by WABA, each
//! with the inbox assignments and assignment rules that apply to it.
//!
//! The report is assembled like ordered maps keyed by `(waba, phone)`, by the
//! assignment key and by the rule key: duplicates collapse to the last value
//! read, everything comes out sorted, and the assignments and rules of a phone
//! are the entries in that phone's key range.

use vstd::prelude::*;

use crate::sorted::{
    collect_last, collects_last, has_view, last_with_key, select_marked, selects_last, Duplicate,
    KeyOrder,
};
use crate::http::WhoamiData;
use crate::json::{
    elements_model, json_str, json_u64, members_model, model, push_member, str_array_model,
    str_models, JsonModel, JsonValue,
};
use crate::permissions::{contains_text, waba_assignment_permission_texts, waba_assignment_permissions};
use crate::text::{clone_opt, clone_strings, compare_str, concat2, decimal, join_seqs,
    join_strings, lemma_seq_order_basic, lemma_seq_order_facts, opt_str, opt_text, opt_text_owned, push_char, seq_order,
    seq_trim, trim_chars, views,
};

verus! {

/// A WhatsApp phone number of a WABA.
#[derive(Debug, Clone, PartialEq, Eq)]
pub struct PhoneNumber {
    pub waba_id: String,
    pub waba_name: Option<String>,
    pub waba_status: Option<String>,
    pub phone_number_id: String,
    pub meta_phone_number_id: Option<String>,
    pub display_phone_number: Option<String>,
    pub display_name: Option<String>,
    pub status: Option<String>,
    pub quality_rating: Option<String>,
}

/// An inbox assignment of a phone number to a team and/or agent.
#[derive(Debug, Clone, PartialEq, Eq)]
pub struct PhoneAssignment {
    pub phone_number_id: String,
    pub relation_id: Option<String>,
    pub assignment_source: String,
    pub team_id: Option<String>,
    pub team_name: Option<String>,
    pub team_status: Option<String>,
    pub agent_id: Option<String>,
    pub agent_name: Option<String>,
    pub agent_email: Option<String>,
    pub member_status: String,
    pub resolution_status: String,
}

/// One condition of an assignment rule node.
#[derive(Debug, Clone, PartialEq, Eq)]
pub struct AssignmentCondition {
    pub expression: Option<String>,
    pub range: Vec<String>,
    pub timezone: Option<String>,
    pub handle: Option<String>,
}

/// A target of an assignment rule node. `target_type` is the wire field `type`.
#[derive(Debug, Clone, PartialEq, Eq)]
pub struct AssignmentTarget {
    pub target_type: String,
    pub id: String,
    pub name: Option<String>,
    pub status: String,
}

/// One node of a phone number's assignment rules.
#[derive(Debug, Clone, PartialEq, Eq)]
pub struct AssignmentRule {
    pub phone_number_id: String,
    pub mode: String,
    pub sequence: u32,
    pub node_id: String,
    pub node_type: String,
    pub next: Option<String>,
    pub default_next: Option<String>,
    pub basic_assign_type: Option<String>,
    pub assign_owner: Option<bool>,
    pub assign_last_assigned: Option<bool>,
    pub auto_assign_unassigned: Option<bool>,
    pub online_only: Option<bool>,
    pub assign_type: Option<String>,
    pub action_type: Option<String>,
    pub action_rule: Option<String>,
    pub conditions: Vec<AssignmentCondition>,
    pub targets: Vec<AssignmentTarget>,
}

/// The body of a search by phone number ids, one page at a time.
#[derive(Debug)]
pub struct PhoneIdsSearchRequest<'a> {
    pub phone_number_ids: &'a [String],
    pub cursor: Option<&'a str>,
    pub limit: u32,
}

/// The assembled report.
#[derive(Debug, Clone, PartialEq, Eq)]
pub struct WabaAssignmentReport {
    pub complete: bool,
    pub wabas: Vec<WabaReport>,
}

/// One WABA and its phone numbers.
#[derive(Debug, Clone, PartialEq, Eq)]
pub struct WabaReport {
    pub waba_id: String,
    pub waba_name: Option<String>,
    pub waba_status: Option<String>,
    pub phone_numbers: Vec<PhoneReport>,
}

/// One phone number with its assignments and assignment rules.
#[derive(Debug, Clone, PartialEq, Eq)]
pub struct PhoneReport {
    pub phone: PhoneNumber,
    pub assignments: Vec<PhoneAssignment>,
    pub assignment_rules: Vec<AssignmentRule>,
}

// ---------------------------------------------------------------------------
// Views
// ---------------------------------------------------------------------------

impl View for PhoneNumber {
    type V = PhoneNumber;

    open spec fn view(&self) -> PhoneNumber {
        *self
    }
}

impl View for PhoneAssignment {
    type V = PhoneAssignment;

    open spec fn view(&self) -> PhoneAssignment {
        *self
    }
}

impl View for AssignmentTarget {
    type V = AssignmentTarget;

    open spec fn view(&self) -> AssignmentTarget {
        *self
    }
}

/// The contents of an `AssignmentCondition`.
pub struct AssignmentConditionView {
    pub expression: Option<String>,
    pub range: Seq<String>,
    pub timezone: Option<String>,
    pub handle: Option<String>,
}

impl View for AssignmentCondition {
    type V = AssignmentConditionView;

    open spec fn view(&self) -> AssignmentConditionView {
        AssignmentConditionView {
            expression: self.expression,
            range: self.range@,
            timezone: self.timezone,
            handle: self.handle,
        }
    }
}

/// The contents of an `AssignmentRule`.
pub struct AssignmentRuleView {
    pub phone_number_id: String,
    pub mode: String,
    pub sequence: u32,
    pub node_id: String,
    pub node_type: String,
    pub next: Option<String>,
    pub default_next: Option<String>,
    pub basic_assign_type: Option<String>,
    pub assign_owner: Option<bool>,
    pub assign_last_assigned: Option<bool>,
    pub auto_assign_unassigned: Option<bool>,
    pub online_only: Option<bool>,
    pub assign_type: Option<String>,
    pub action_type: Option<String>,
    pub action_rule: Option<String>,
    pub conditions: Seq<AssignmentConditionView>,
    pub targets: Seq<AssignmentTarget>,
}

impl View for AssignmentRule {
    type V = AssignmentRuleView;

    open spec fn view(&self) -> AssignmentRuleView {
        AssignmentRuleView {
            phone_number_id: self.phone_number_id,
            mode: self.mode,
            sequence: self.sequence,
            node_id: self.node_id,
            node_type: self.node_type,
            next: self.next,
            default_next: self.default_next,
            basic_assign_type: self.basic_assign_type,
            assign_owner: self.assign_owner,
            assign_last_assigned: self.assign_last_assigned,
            auto_assign_unassigned: self.auto_assign_unassigned,
            online_only: self.online_only,
            assign_type: self.assign_type,
            action_type: self.action_type,
            action_rule: self.action_rule,
            conditions: self.conditions@.map_values(|c: AssignmentCondition| c@),
            targets: self.targets@,
        }
    }
}

// ---------------------------------------------------------------------------
// Copies
// ---------------------------------------------------------------------------

impl Duplicate for PhoneAssignment {
    fn duplicate(&self) -> (r: Self) {
        PhoneAssignment {
            phone_number_id: self.phone_number_id.clone(),
            relation_id: clone_opt(&self.relation_id),
            assignment_source: self.assignment_source.clone(),
            team_id: clone_opt(&self.team_id),
            team_name: clone_opt(&self.team_name),
            team_status: clone_opt(&self.team_status),
            agent_id: clone_opt(&self.agent_id),
            agent_name: clone_opt(&self.agent_name),
            agent_email: clone_opt(&self.agent_email),
            member_status: self.member_status.clone(),
            resolution_status: self.resolution_status.clone(),
        }
    }
}

impl AssignmentCondition {
    /// A copy with the same contents.
    pub fn duplicate(&self) -> (r: Self)
        ensures
            r@ == self@,
    {
        AssignmentCondition {
            expression: clone_opt(&self.expression),
            range: clone_strings(&self.range),
            timezone: clone_opt(&self.timezone),
            handle: clone_opt(&self.handle),
        }
    }
}

impl AssignmentTarget {
    /// A copy equal to the original.
    pub fn duplicate(&self) -> (r: Self)
        ensures
            r == *self,
    {
        AssignmentTarget {
            target_type: self.target_type.clone(),
            id: self.id.clone(),
            name: clone_opt(&self.name),
            status: self.status.clone(),
        }
    }
}

impl Duplicate for AssignmentRule {
    fn duplicate(&self) -> (r: Self) {
        let mut conditions: Vec<AssignmentCondition> = Vec::new();
        let mut i: usize = 0;
        while i < self.conditions.len()
            invariant
                0 <= i <= self.conditions@.len(),
                conditions@.len() == i,
                forall|j: int| 0 <= j < i ==> (#[trigger] conditions@[j])@ == self.conditions@[j]@,
            decreases self.conditions@.len() - i,
        {
            conditions.push(self.conditions[i].duplicate());
            i = i + 1;
        }
        assert(conditions@.map_values(|c: AssignmentCondition| c@) =~= self.conditions@.map_values(
            |c: AssignmentCondition| c@,
        ));
        let mut targets: Vec<AssignmentTarget> = Vec::new();
        let mut k: usize = 0;
        while k < self.targets.len()
            invariant
                0 <= k <= self.targets@.len(),
                targets@ == self.targets@.take(k as int),
            decreases self.targets@.len() - k,
        {
            targets.push(self.targets[k].duplicate());
            assert(self.targets@.take(k as int + 1) =~= self.targets@.take(k as int).push(
                self.targets@[k as int],
            ));
            k = k + 1;
        }
        assert(self.targets@.take(self.targets@.len() as int) =~= self.targets@);
        AssignmentRule {
            phone_number_id: self.phone_number_id.clone(),
            mode: self.mode.clone(),
            sequence: self.sequence,
            node_id: self.node_id.clone(),
            node_type: self.node_type.clone(),
            next: clone_opt(&self.next),
            default_next: clone_opt(&self.default_next),
            basic_assign_type: clone_opt(&self.basic_assign_type),
            assign_owner: self.assign_owner,
            assign_last_assigned: self.assign_last_assigned,
            auto_assign_unassigned: self.auto_assign_unassigned,
            online_only: self.online_only,
            assign_type: clone_opt(&self.assign_type),
            action_type: clone_opt(&self.action_type),
            action_rule: clone_opt(&self.action_rule),
            conditions,
            targets,
        }
    }
}

// ---------------------------------------------------------------------------
// Keys and their order
// ---------------------------------------------------------------------------

/// Lexicographic combination of two three-way comparisons.
pub open spec fn lex(first: int, rest: int) -> int {
    if first != 0 {
        first
    } else {
        rest
    }
}

/// Three-way comparison of integers.
pub open spec fn int_order(a: int, b: int) -> int {
    if a < b {
        -1
    } else if a == b {
        0
    } else {
        1
    }
}

/// The key of an assignment: phone number id, source, team id, agent id and
/// relation id, absent ids taken as empty.
#[derive(Debug)]
pub struct AssignmentKey {
    pub phone_number_id: String,
    pub assignment_source: String,
    pub team_id: String,
    pub agent_id: String,
    pub relation_id: String,
}

impl View for AssignmentKey {
    type V = (Seq<char>, Seq<char>, Seq<char>, Seq<char>, Seq<char>);

    open spec fn view(&self) -> (Seq<char>, Seq<char>, Seq<char>, Seq<char>, Seq<char>) {
        (
            self.phone_number_id@,
            self.assignment_source@,
            self.team_id@,
            self.agent_id@,
            self.relation_id@,
        )
    }
}

/// Lexicographic order of assignment keys.
pub open spec fn assignment_key_order(
    a: (Seq<char>, Seq<char>, Seq<char>, Seq<char>, Seq<char>),
    b: (Seq<char>, Seq<char>, Seq<char>, Seq<char>, Seq<char>),
) -> int {
    lex(
        seq_order(a.0, b.0),
        lex(
            seq_order(a.1, b.1),
            lex(seq_order(a.2, b.2), lex(seq_order(a.3, b.3), seq_order(a.4, b.4))),
        ),
    )
}

/// The key of an assignment, as text.
pub open spec fn assignment_key_of(v: PhoneAssignment) -> (
    Seq<char>,
    Seq<char>,
    Seq<char>,
    Seq<char>,
    Seq<char>,
) {
    (
        v.phone_number_id@,
        v.assignment_source@,
        opt_text(v.team_id),
        opt_text(v.agent_id),
        opt_text(v.relation_id),
    )
}

/// The greatest character, the upper end of the key ranges.
pub open spec fn max_char_text() -> Seq<char> {
    seq!['\u{10ffff}']
}

/// Whether an assignment lies in the key range of a phone number: from
/// `(phone, "", "", "", "")` to `(phone, M, M, M, M)` with `M` the greatest
/// character, both ends included.
pub open spec fn in_assignment_range(v: PhoneAssignment, phone: Seq<char>) -> bool {
    let e = Seq::<char>::empty();
    let m = max_char_text();
    &&& assignment_key_order(assignment_key_of(v), (phone, e, e, e, e)) >= 0
    &&& assignment_key_order(assignment_key_of(v), (phone, m, m, m, m)) <= 0
}

proof fn lemma_assignment_key_order(
    a: (Seq<char>, Seq<char>, Seq<char>, Seq<char>, Seq<char>),
    b: (Seq<char>, Seq<char>, Seq<char>, Seq<char>, Seq<char>),
    c: (Seq<char>, Seq<char>, Seq<char>, Seq<char>, Seq<char>),
)
    ensures
        -1 <= assignment_key_order(a, b) <= 1,
        assignment_key_order(a, b) == -assignment_key_order(b, a),
        assignment_key_order(a, a) == 0,
        assignment_key_order(a, b) <= 0 && assignment_key_order(b, c) <= 0
            ==> assignment_key_order(a, c) <= 0,
        assignment_key_order(a, b) < 0 && assignment_key_order(b, c) <= 0
            ==> assignment_key_order(a, c) < 0,
        assignment_key_order(a, b) <= 0 && assignment_key_order(b, c) < 0
            ==> assignment_key_order(a, c) < 0,
{
    lemma_seq_order_facts(a.0, b.0, c.0);
    lemma_seq_order_facts(a.1, b.1, c.1);
    lemma_seq_order_facts(a.2, b.2, c.2);
    lemma_seq_order_facts(a.3, b.3, c.3);
    lemma_seq_order_facts(a.4, b.4, c.4);
}

impl AssignmentKey {
    /// Compares two keys lexicographically.
    pub fn compare(&self, other: &Self) -> (r: i8)
        ensures
            r as int == assignment_key_order(self@, other@),
    {
        let c = compare_str(self.phone_number_id.as_str(), other.phone_number_id.as_str());
        if c != 0 {
            return c;
        }
        let c = compare_str(self.assignment_source.as_str(), other.assignment_source.as_str());
        if c != 0 {
            return c;
        }
        let c = compare_str(self.team_id.as_str(), other.team_id.as_str());
        if c != 0 {
            return c;
        }
        let c = compare_str(self.agent_id.as_str(), other.agent_id.as_str());
        if c != 0 {
            return c;
        }
        compare_str(self.relation_id.as_str(), other.relation_id.as_str())
    }
}

impl KeyOrder for PhoneAssignment {
    open spec fn key_order(a: Self, b: Self) -> int {
        assignment_key_order(assignment_key_of(a), assignment_key_of(b))
    }

    proof fn lemma_key_order(a: Self, b: Self, c: Self) {
        lemma_assignment_key_order(assignment_key_of(a), assignment_key_of(b), assignment_key_of(c));
    }

    fn compare_keys(&self, other: &Self) -> (r: i8) {
        assignment_key(self).compare(&assignment_key(other))
    }
}

/// Assignment keys compare equal only when they are equal in all five
/// parts: phone number, source, team, agent and relation.
pub proof fn assignment_key_order_zero_only_for_equal_keys(
    a: (Seq<char>, Seq<char>, Seq<char>, Seq<char>, Seq<char>),
    b: (Seq<char>, Seq<char>, Seq<char>, Seq<char>, Seq<char>),
)
    ensures
        assignment_key_order(a, b) == 0 <==> a == b,
{
    lemma_seq_order_basic(a.0, b.0);
    lemma_seq_order_basic(a.1, b.1);
    lemma_seq_order_basic(a.2, b.2);
    lemma_seq_order_basic(a.3, b.3);
    lemma_seq_order_basic(a.4, b.4);
}

/// Two assignments share a key, so that the one read later replaces the
/// other in the report, only when they agree on the phone number, the
/// source, the team, the agent and the relation (a missing id counting as
/// the empty one).
pub proof fn assignments_share_a_key_only_when_all_fields_agree(
    a: PhoneAssignment,
    b: PhoneAssignment,
)
    ensures
        PhoneAssignment::key_order(a, b) == 0 <==> (a.phone_number_id@ == b.phone_number_id@
            && a.assignment_source@ == b.assignment_source@ && opt_text(a.team_id) == opt_text(
            b.team_id,
        ) && opt_text(a.agent_id) == opt_text(b.agent_id) && opt_text(a.relation_id) == opt_text(
            b.relation_id,
        )),
{
    assignment_key_order_zero_only_for_equal_keys(assignment_key_of(a), assignment_key_of(b));
}

/// Two assignments of a phone number that differ in their agent or their
/// relation both appear in that phone's report: neither replaces the other.
pub proof fn distinct_assignments_are_both_reported(
    p: PhoneReport,
    a1: PhoneAssignment,
    a2: PhoneAssignment,
    rules: Seq<AssignmentRule>,
)
    requires
        phone_report_ok(p, seq![a1, a2], rules),
        in_assignment_range(a1, p.phone.phone_number_id@),
        in_assignment_range(a2, p.phone.phone_number_id@),
        opt_text(a1.agent_id) != opt_text(a2.agent_id) || opt_text(a1.relation_id) != opt_text(
            a2.relation_id,
        ),
    ensures
        has_view(p.assignments@, a1),
        has_view(p.assignments@, a2),
{
    let s = seq![a1, a2];
    let keep = |a: PhoneAssignment| in_assignment_range(a, p.phone.phone_number_id@);
    assignments_share_a_key_only_when_all_fields_agree(a2, a1);
    assert(s[0] == a1 && s[1] == a2);
    assert(last_with_key(s, 0));
    assert(last_with_key(s, 1));
    assert(keep(s[0]));
    assert(keep(s[1]));
}

/// The key of an assignment.
pub fn assignment_key(value: &PhoneAssignment) -> (r: AssignmentKey)
    ensures
        r@ == assignment_key_of(*value),
{
    AssignmentKey {
        phone_number_id: value.phone_number_id.clone(),
        assignment_source: value.assignment_source.clone(),
        team_id: opt_text_owned(&value.team_id),
        agent_id: opt_text_owned(&value.agent_id),
        relation_id: opt_text_owned(&value.relation_id),
    }
}

/// A string of one greatest character.
fn max_char_string() -> (r: String)
    ensures
        r@ == max_char_text(),
{
    let mut r = String::new();
    push_char(&mut r, '\u{10ffff}');
    assert(r@ =~= max_char_text());
    r
}

/// The lower end of a phone number's assignment key range.
pub fn assignment_range_start(phone_number_id: &str) -> (r: AssignmentKey)
    ensures
        r@ == (phone_number_id@, Seq::<char>::empty(), Seq::<char>::empty(), Seq::<char>::empty(), Seq::<char>::empty()),
{
    AssignmentKey {
        phone_number_id: phone_number_id.to_owned(),
        assignment_source: String::new(),
        team_id: String::new(),
        agent_id: String::new(),
        relation_id: String::new(),
    }
}

/// The upper end of a phone number's assignment key range.
pub fn assignment_range_end(phone_number_id: &str) -> (r: AssignmentKey)
    ensures
        r@ == (phone_number_id@, max_char_text(), max_char_text(), max_char_text(), max_char_text()),
{
    AssignmentKey {
        phone_number_id: phone_number_id.to_owned(),
        assignment_source: max_char_string(),
        team_id: max_char_string(),
        agent_id: max_char_string(),
        relation_id: max_char_string(),
    }
}

/// The key of a rule node: phone number id, mode, sequence and node id.
#[derive(Debug)]
pub struct RuleKey {
    pub phone_number_id: String,
    pub mode: String,
    pub sequence: u32,
    pub node_id: String,
}

impl View for RuleKey {
    type V = (Seq<char>, Seq<char>, u32, Seq<char>);

    open spec fn view(&self) -> (Seq<char>, Seq<char>, u32, Seq<char>) {
        (self.phone_number_id@, self.mode@, self.sequence, self.node_id@)
    }
}

/// Lexicographic order of rule keys.
pub open spec fn rule_key_order(
    a: (Seq<char>, Seq<char>, u32, Seq<char>),
    b: (Seq<char>, Seq<char>, u32, Seq<char>),
) -> int {
    lex(
        seq_order(a.0, b.0),
        lex(seq_order(a.1, b.1), lex(int_order(a.2 as int, b.2 as int), seq_order(a.3, b.3))),
    )
}

/// The key of a rule node, as text.
pub open spec fn rule_key_of(v: AssignmentRuleView) -> (Seq<char>, Seq<char>, u32, Seq<char>) {
    (v.phone_number_id@, v.mode@, v.sequence, v.node_id@)
}

/// Whether a rule node lies in the key range of a phone number: from
/// `(phone, "", 0, "")` to `(phone, M, u32::MAX, M)`, both ends included.
pub open spec fn in_rule_range(v: AssignmentRule, phone: Seq<char>) -> bool {
    let e = Seq::<char>::empty();
    let m = max_char_text();
    &&& rule_key_order(rule_key_of(v@), (phone, e, 0, e)) >= 0
    &&& rule_key_order(rule_key_of(v@), (phone, m, u32::MAX, m)) <= 0
}

proof fn lemma_rule_key_order(
    a: (Seq<char>, Seq<char>, u32, Seq<char>),
    b: (Seq<char>, Seq<char>, u32, Seq<char>),
    c: (Seq<char>, Seq<char>, u32, Seq<char>),
)
    ensures
        -1 <= rule_key_order(a, b) <= 1,
        rule_key_order(a, b) == -rule_key_order(b, a),
        rule_key_order(a, a) == 0,
        rule_key_order(a, b) <= 0 && rule_key_order(b, c) <= 0 ==> rule_key_order(a, c) <= 0,
        rule_key_order(a, b) < 0 && rule_key_order(b, c) <= 0 ==> rule_key_order(a, c) < 0,
        rule_key_order(a, b) <= 0 && rule_key_order(b, c) < 0 ==> rule_key_order(a, c) < 0,
{
    lemma_seq_order_facts(a.0, b.0, c.0);
    lemma_seq_order_facts(a.1, b.1, c.1);
    lemma_seq_order_facts(a.3, b.3, c.3);
}

impl RuleKey {
    /// Compares two keys lexicographically.
    pub fn compare(&self, other: &Self) -> (r: i8)
        ensures
            r as int == rule_key_order(self@, other@),
    {
        let c = compare_str(self.phone_number_id.as_str(), other.phone_number_id.as_str());
        if c != 0 {
            return c;
        }
        let c = compare_str(self.mode.as_str(), other.mode.as_str());
        if c != 0 {
            return c;
        }
        if self.sequence < other.sequence {
            return -1;
        }
        if self.sequence > other.sequence {
            return 1;
        }
        compare_str(self.node_id.as_str(), other.node_id.as_str())
    }
}

impl KeyOrder for AssignmentRule {
    open spec fn key_order(a: Self, b: Self) -> int {
        rule_key_order(rule_key_of(a@), rule_key_of(b@))
    }

    proof fn lemma_key_order(a: Self, b: Self, c: Self) {
        lemma_rule_key_order(rule_key_of(a@), rule_key_of(b@), rule_key_of(c@));
    }

    fn compare_keys(&self, other: &Self) -> (r: i8) {
        rule_key(self).compare(&rule_key(other))
    }
}

/// The key of a rule node.
pub fn rule_key(value: &AssignmentRule) -> (r: RuleKey)
    ensures
        r@ == rule_key_of(value@),
{
    RuleKey {
        phone_number_id: value.phone_number_id.clone(),
        mode: value.mode.clone(),
        sequence: value.sequence,
        node_id: value.node_id.clone(),
    }
}

/// The lower end of a phone number's rule key range.
pub fn rule_range_start(phone_number_id: &str) -> (r: RuleKey)
    ensures
        r@ == (phone_number_id@, Seq::<char>::empty(), 0u32, Seq::<char>::empty()),
{
    RuleKey {
        phone_number_id: phone_number_id.to_owned(),
        mode: String::new(),
        sequence: 0,
        node_id: String::new(),
    }
}

/// The upper end of a phone number's rule key range.
pub fn rule_range_end(phone_number_id: &str) -> (r: RuleKey)
    ensures
        r@ == (phone_number_id@, max_char_text(), u32::MAX, max_char_text()),
{
    RuleKey {
        phone_number_id: phone_number_id.to_owned(),
        mode: max_char_string(),
        sequence: u32::MAX,
        node_id: max_char_string(),
    }
}

/// Lexicographic order of `(waba id, phone number id)`.
pub open spec fn phone_key_order(a: PhoneNumber, b: PhoneNumber) -> int {
    lex(seq_order(a.waba_id@, b.waba_id@), seq_order(a.phone_number_id@, b.phone_number_id@))
}

impl KeyOrder for PhoneNumber {
    open spec fn key_order(a: Self, b: Self) -> int {
        phone_key_order(a, b)
    }

    proof fn lemma_key_order(a: Self, b: Self, c: Self) {
        lemma_seq_order_facts(a.waba_id@, b.waba_id@, c.waba_id@);
        lemma_seq_order_facts(a.phone_number_id@, b.phone_number_id@, c.phone_number_id@);
    }

    fn compare_keys(&self, other: &Self) -> (r: i8) {
        let c = compare_str(self.waba_id.as_str(), other.waba_id.as_str());
        if c != 0 {
            return c;
        }
        compare_str(self.phone_number_id.as_str(), other.phone_number_id.as_str())
    }
}

// ---------------------------------------------------------------------------
// Assembling the report
// ---------------------------------------------------------------------------

/// The phone reports of all WABAs, in order.
pub open spec fn flatten_phones(w: Seq<WabaReport>) -> Seq<PhoneReport>
    decreases w.len(),
{
    if w.len() == 0 {
        Seq::empty()
    } else {
        flatten_phones(w.drop_last()) + w.last().phone_numbers@
    }
}

/// The phone numbers of a sequence of phone reports.
pub open spec fn phones_of(f: Seq<PhoneReport>) -> Seq<PhoneNumber> {
    f.map_values(|p: PhoneReport| p.phone)
}

/// `r` holds, in key order, the last assignment read for each key in the
/// assignment key range of `phone`.
pub open spec fn assignments_for(
    r: Seq<PhoneAssignment>,
    s: Seq<PhoneAssignment>,
    phone: Seq<char>,
) -> bool {
    selects_last(r, s, |a: PhoneAssignment| in_assignment_range(a, phone))
}

/// `r` holds, in key order, the last rule node read for each key in the rule
/// key range of `phone`.
pub open spec fn rules_for(r: Seq<AssignmentRule>, s: Seq<AssignmentRule>, phone: Seq<char>) -> bool {
    selects_last(r, s, |v: AssignmentRule| in_rule_range(v, phone))
}

/// A phone report carries exactly the assignments and rules of its phone.
pub open spec fn phone_report_ok(
    p: PhoneReport,
    assignments: Seq<PhoneAssignment>,
    rules: Seq<AssignmentRule>,
) -> bool {
    &&& assignments_for(p.assignments@, assignments, p.phone.phone_number_id@)
    &&& rules_for(p.assignment_rules@, rules, p.phone.phone_number_id@)
}

/// A WABA group is non-empty, takes its id, name and status from its first
/// phone number, and holds only phone numbers of that WABA.
pub open spec fn group_ok(g: WabaReport) -> bool {
    &&& g.phone_numbers@.len() > 0
    &&& g.waba_id == g.phone_numbers@[0].phone.waba_id
    &&& g.waba_name == g.phone_numbers@[0].phone.waba_name
    &&& g.waba_status == g.phone_numbers@[0].phone.waba_status
    &&& forall|k: int|
        0 <= k < g.phone_numbers@.len() ==> (#[trigger] g.phone_numbers@[k]).phone.waba_id@
            == g.waba_id@
}

/// Every group is well formed and the WABA ids strictly increase.
pub open spec fn groups_ok(w: Seq<WabaReport>) -> bool {
    &&& forall|g: int| 0 <= g < w.len() ==> group_ok(#[trigger] w[g])
    &&& forall|g: int, h: int|
        #![trigger w[g], w[h]]
        0 <= g < h < w.len() ==> seq_order(w[g].waba_id@, w[h].waba_id@) < 0
}

/// Marks the assignments that lie in the key range of `phone`.
fn assignment_marks(sorted: &Vec<PhoneAssignment>, phone: &str) -> (m: Vec<bool>)
    ensures
        m@.len() == sorted@.len(),
        forall|k: int|
            0 <= k < sorted@.len() ==> m@[k] == in_assignment_range(#[trigger] sorted@[k], phone@),
{
    let start = assignment_range_start(phone);
    let end = assignment_range_end(phone);
    let mut m: Vec<bool> = Vec::new();
    let mut i: usize = 0;
    while i < sorted.len()
        invariant
            0 <= i <= sorted@.len(),
            m@.len() == i,
            start@ == (phone@, Seq::<char>::empty(), Seq::<char>::empty(), Seq::<char>::empty(), Seq::<char>::empty()),
            end@ == (phone@, max_char_text(), max_char_text(), max_char_text(), max_char_text()),
            forall|k: int| 0 <= k < i ==> m@[k] == in_assignment_range(#[trigger] sorted@[k], phone@),
        decreases sorted@.len() - i,
    {
        let key = assignment_key(&sorted[i]);
        let inside = key.compare(&start) >= 0 && key.compare(&end) <= 0;
        m.push(inside);
        i = i + 1;
    }
    m
}

/// Marks the rule nodes that lie in the key range of `phone`.
fn rule_marks(sorted: &Vec<AssignmentRule>, phone: &str) -> (m: Vec<bool>)
    ensures
        m@.len() == sorted@.len(),
        forall|k: int| 0 <= k < sorted@.len() ==> m@[k] == in_rule_range(#[trigger] sorted@[k], phone@),
{
    let start = rule_range_start(phone);
    let end = rule_range_end(phone);
    let mut m: Vec<bool> = Vec::new();
    let mut i: usize = 0;
    while i < sorted.len()
        invariant
            0 <= i <= sorted@.len(),
            m@.len() == i,
            start@ == (phone@, Seq::<char>::empty(), 0u32, Seq::<char>::empty()),
            end@ == (phone@, max_char_text(), u32::MAX, max_char_text()),
            forall|k: int| 0 <= k < i ==> m@[k] == in_rule_range(#[trigger] sorted@[k], phone@),
        decreases sorted@.len() - i,
    {
        let key = rule_key(&sorted[i]);
        let inside = key.compare(&start) >= 0 && key.compare(&end) <= 0;
        m.push(inside);
        i = i + 1;
    }
    m
}

proof fn lemma_flatten_extend_last(w: Seq<WabaReport>, w2: Seq<WabaReport>, rep: PhoneReport)
    requires
        w.len() > 0,
        w2.len() == w.len(),
        w2.drop_last() == w.drop_last(),
        w2.last().phone_numbers@ == w.last().phone_numbers@.push(rep),
    ensures
        flatten_phones(w2) == flatten_phones(w).push(rep),
{
    assert(flatten_phones(w2) =~= flatten_phones(w).push(rep));
}

proof fn lemma_flatten_new_group(w: Seq<WabaReport>, g: WabaReport, rep: PhoneReport)
    requires
        g.phone_numbers@ == seq![rep],
    ensures
        flatten_phones(w.push(g)) == flatten_phones(w).push(rep),
{
    assert(w.push(g).drop_last() =~= w);
    assert(flatten_phones(w.push(g)) =~= flatten_phones(w).push(rep));
}

proof fn lemma_phones_of_push(f: Seq<PhoneReport>, rep: PhoneReport)
    ensures
        phones_of(f.push(rep)) == phones_of(f).push(rep.phone),
{
    assert(phones_of(f.push(rep)) =~= phones_of(f).push(rep.phone));
}

/// The grouping invariant of `assemble_report` after `i` sorted phones.
pub open spec fn grouping_inv(
    wabas: Seq<WabaReport>,
    sp: Seq<PhoneNumber>,
    i: int,
    assignments: Seq<PhoneAssignment>,
    rules: Seq<AssignmentRule>,
) -> bool {
    &&& 0 <= i <= sp.len()
    &&& groups_ok(wabas)
    &&& phones_of(flatten_phones(wabas)) == sp.take(i)
    &&& forall|j: int|
        0 <= j < flatten_phones(wabas).len() ==> phone_report_ok(
            #[trigger] flatten_phones(wabas)[j],
            assignments,
            rules,
        )
    &&& (wabas.len() > 0 <==> i > 0)
    &&& wabas.len() > 0 ==> wabas.last().waba_id@ == sp[i - 1].waba_id@
}

proof fn lemma_group_extend(
    wabas: Seq<WabaReport>,
    w2: Seq<WabaReport>,
    sp: Seq<PhoneNumber>,
    i: int,
    rep: PhoneReport,
    assignments: Seq<PhoneAssignment>,
    rules: Seq<AssignmentRule>,
)
    requires
        0 <= i < sp.len(),
        grouping_inv(wabas, sp, i, assignments, rules),
        wabas.len() > 0,
        rep.phone == sp[i],
        wabas.last().waba_id@ == rep.phone.waba_id@,
        phone_report_ok(rep, assignments, rules),
        w2.len() == wabas.len(),
        w2.drop_last() == wabas.drop_last(),
        w2.last().waba_id == wabas.last().waba_id,
        w2.last().waba_name == wabas.last().waba_name,
        w2.last().waba_status == wabas.last().waba_status,
        w2.last().phone_numbers@ == wabas.last().phone_numbers@.push(rep),
    ensures
        grouping_inv(w2, sp, i + 1, assignments, rules),
{
    lemma_flatten_extend_last(wabas, w2, rep);
    lemma_phones_of_push(flatten_phones(wabas), rep);
    assert(sp.take(i + 1) =~= sp.take(i).push(sp[i]));
    let n = wabas.len() - 1;
    assert forall|g: int| 0 <= g < w2.len() implies group_ok(#[trigger] w2[g]) by {
        if g < n {
            assert(w2[g] == w2.drop_last()[g]);
            assert(wabas[g] == wabas.drop_last()[g]);
        } else {
            let old_g = wabas[n];
            assert(group_ok(old_g));
            assert(w2[g].phone_numbers@[0] == old_g.phone_numbers@[0]);
            assert forall|k: int| 0 <= k < w2[g].phone_numbers@.len() implies (
            #[trigger] w2[g].phone_numbers@[k]).phone.waba_id@ == w2[g].waba_id@ by {
                if k < old_g.phone_numbers@.len() {
                    assert(w2[g].phone_numbers@[k] == old_g.phone_numbers@[k]);
                }
            }
        }
    }
    assert forall|g: int, h: int|
        #![trigger w2[g], w2[h]]
        0 <= g < h < w2.len() implies seq_order(w2[g].waba_id@, w2[h].waba_id@) < 0 by {
        assert(w2[g].waba_id == wabas[g].waba_id) by {
            if g < n {
                assert(w2[g] == w2.drop_last()[g]);
                assert(wabas[g] == wabas.drop_last()[g]);
            }
        }
        assert(w2[h].waba_id == wabas[h].waba_id) by {
            if h < n {
                assert(w2[h] == w2.drop_last()[h]);
                assert(wabas[h] == wabas.drop_last()[h]);
            }
        }
    }
    let f = flatten_phones(wabas);
    let f2 = flatten_phones(w2);
    assert forall|j: int| 0 <= j < f2.len() implies phone_report_ok(#[trigger] f2[j], assignments, rules) by {
        if j < f.len() {
            assert(f2[j] == f[j]);
        }
    }
    assert(phones_of(f2).last() == rep.phone);
}

proof fn lemma_group_new(
    wabas: Seq<WabaReport>,
    sp: Seq<PhoneNumber>,
    i: int,
    rep: PhoneReport,
    g: WabaReport,
    assignments: Seq<PhoneAssignment>,
    rules: Seq<AssignmentRule>,
)
    requires
        0 <= i < sp.len(),
        crate::sorted::sorted_by_key(sp),
        grouping_inv(wabas, sp, i, assignments, rules),
        rep.phone == sp[i],
        wabas.len() > 0 ==> wabas.last().waba_id@ != rep.phone.waba_id@,
        phone_report_ok(rep, assignments, rules),
        g.phone_numbers@ == seq![rep],
        g.waba_id == rep.phone.waba_id,
        g.waba_name == rep.phone.waba_name,
        g.waba_status == rep.phone.waba_status,
    ensures
        grouping_inv(wabas.push(g), sp, i + 1, assignments, rules),
{
    let w2 = wabas.push(g);
    lemma_flatten_new_group(wabas, g, rep);
    lemma_phones_of_push(flatten_phones(wabas), rep);
    assert(sp.take(i + 1) =~= sp.take(i).push(sp[i]));
    assert(group_ok(g));
    assert forall|k: int| 0 <= k < w2.len() implies group_ok(#[trigger] w2[k]) by {
        if k < wabas.len() {
            assert(w2[k] == wabas[k]);
        }
    }
    if wabas.len() > 0 {
        let last = wabas.len() - 1;
        assert(PhoneNumber::key_order(sp[i - 1], sp[i]) < 0);
        lemma_seq_order_facts(sp[i - 1].waba_id@, sp[i].waba_id@, sp[i].waba_id@);
        assert(seq_order(wabas[last].waba_id@, g.waba_id@) < 0);
        assert forall|a: int, b: int|
            #![trigger w2[a], w2[b]]
            0 <= a < b < w2.len() implies seq_order(w2[a].waba_id@, w2[b].waba_id@) < 0 by {
            if b < wabas.len() {
                assert(w2[a] == wabas[a] && w2[b] == wabas[b]);
            } else if a < last {
                assert(w2[a] == wabas[a]);
                assert(seq_order(wabas[a].waba_id@, wabas[last].waba_id@) < 0);
                lemma_seq_order_facts(wabas[a].waba_id@, wabas[last].waba_id@, g.waba_id@);
            } else {
                assert(w2[a] == wabas[a]);
            }
        }
    }
    let f = flatten_phones(wabas);
    let f2 = flatten_phones(w2);
    assert forall|j: int| 0 <= j < f2.len() implies phone_report_ok(#[trigger] f2[j], assignments, rules) by {
        if j < f.len() {
            assert(f2[j] == f[j]);
        }
    }
}

/// Groups phone numbers by WABA, with the assignments and rules of each phone.
///
/// Phone numbers are deduplicated by `(waba id, phone number id)`,
/// assignments by their key and rule nodes by theirs, the last one read
/// winning; everything comes out in key order. A phone number gets every
/// assignment and rule node in its key range, and a WABA takes its name and
/// status from its first phone number.
pub fn assemble_report(
    phones: Vec<PhoneNumber>,
    assignments: Vec<PhoneAssignment>,
    rules: Vec<AssignmentRule>,
) -> (report: WabaAssignmentReport)
    ensures
        report.complete,
        groups_ok(report.wabas@),
        collects_last(phones_of(flatten_phones(report.wabas@)), phones@),
        forall|j: int|
            0 <= j < flatten_phones(report.wabas@).len() ==> phone_report_ok(
                #[trigger] flatten_phones(report.wabas@)[j],
                assignments@,
                rules@,
            ),
{
    let ghost ps = phones@;
    let ghost as0 = assignments@;
    let ghost rs0 = rules@;
    let mut sorted_phones = collect_last(phones);
    let sorted_assignments = collect_last(assignments);
    let sorted_rules = collect_last(rules);
    let ghost sp = sorted_phones@;
    let mut wabas: Vec<WabaReport> = Vec::new();
    assert(sp.take(0) =~= Seq::<PhoneNumber>::empty());
    assert(phones_of(flatten_phones(wabas@)) =~= Seq::<PhoneNumber>::empty());
    while sorted_phones.len() > 0
        invariant
            sorted_phones@.len() <= sp.len(),
            sorted_phones@ == sp.skip(sp.len() - sorted_phones@.len()),
            collects_last(sp, ps),
            collects_last(sorted_assignments@, as0),
            collects_last(sorted_rules@, rs0),
            grouping_inv(wabas@, sp, sp.len() - sorted_phones@.len(), as0, rs0),
        decreases sorted_phones@.len(),
    {
        let ghost i = sp.len() - sorted_phones@.len();
        assert(sorted_phones@[0] == sp[i]);
        let phone = sorted_phones.remove(0);
        assert(sorted_phones@ =~= sp.skip(i + 1));
        let phone_id = phone.phone_number_id.clone();
        let assignment_flags = assignment_marks(&sorted_assignments, phone_id.as_str());
        let phone_assignments = select_marked(
            &sorted_assignments,
            &assignment_flags,
            Ghost(as0),
            Ghost(|a: PhoneAssignment| in_assignment_range(a, phone_id@)),
        );
        let rule_flags = rule_marks(&sorted_rules, phone_id.as_str());
        let phone_rules = select_marked(
            &sorted_rules,
            &rule_flags,
            Ghost(rs0),
            Ghost(|v: AssignmentRule| in_rule_range(v, phone_id@)),
        );
        let report = PhoneReport {
            phone,
            assignments: phone_assignments,
            assignment_rules: phone_rules,
        };
        assert(phone_report_ok(report, as0, rs0));
        let n = wabas.len();
        let ghost before = wabas@;
        if n > 0 && wabas[n - 1].waba_id == report.phone.waba_id {
            let mut group = wabas.pop().unwrap();
            let ghost old_group = group;
            group.phone_numbers.push(report);
            wabas.push(group);
            proof {
                assert(wabas@.drop_last() =~= before.drop_last());
                lemma_group_extend(before, wabas@, sp, i, report, as0, rs0);
            }
        } else {
            let mut numbers: Vec<PhoneReport> = Vec::new();
            let waba_id = report.phone.waba_id.clone();
            let waba_name = clone_opt(&report.phone.waba_name);
            let waba_status = clone_opt(&report.phone.waba_status);
            numbers.push(report);
            let group = WabaReport { waba_id, waba_name, waba_status, phone_numbers: numbers };
            assert(group.phone_numbers@ =~= seq![report]);
            wabas.push(group);
            proof {
                lemma_group_new(before, sp, i, report, group, as0, rs0);
            }
        }
    }
    assert(sp.take(sp.len() as int) =~= sp);
    WabaAssignmentReport { complete: true, wabas }
}

// ---------------------------------------------------------------------------
// Rendering
// ---------------------------------------------------------------------------

/// An optional text, `-` when absent.
pub open spec fn text_or_dash(value: Option<Seq<char>>) -> Seq<char> {
    match value {
        Some(v) => v,
        None => "-"@,
    }
}

/// The view of an optional string.
pub open spec fn opt_view(o: Option<String>) -> Option<Seq<char>> {
    match o {
        Some(v) => Some(v@),
        None => None,
    }
}

/// The first present value, in the manner of `Option::or`.
pub open spec fn first_some(a: Option<Seq<char>>, b: Option<Seq<char>>) -> Option<Seq<char>> {
    match a {
        Some(v) => Some(v),
        None => b,
    }
}

/// An optional text, `-` when absent.
pub fn text<'a>(value: Option<&'a str>) -> (r: &'a str)
    ensures
        r@ == match value {
            Some(v) => v@,
            None => "-"@,
        },
{
    match value {
        Some(v) => v,
        None => "-",
    }
}

/// ` <EMAIL>` for an assignment with an agent email, else nothing.
pub open spec fn email_part(v: PhoneAssignment) -> Seq<char> {
    match opt_view(v.agent_email) {
        Some(e) => " <"@ + e + ">"@,
        None => Seq::empty(),
    }
}

/// ` TEAM` for an assignment with a team name or id, else nothing.
pub open spec fn team_part(v: PhoneAssignment) -> Seq<char> {
    match first_some(opt_view(v.team_name), opt_view(v.team_id)) {
        Some(t) => " "@ + t,
        None => Seq::empty(),
    }
}

/// The label of an assignment:
/// `SOURCE[ TEAM]: SUBJECT[ <EMAIL>] [MEMBER_STATUS; RESOLUTION_STATUS]`, the
/// team being its name or else its id, the subject the agent's name, else its
/// id, else `UNKNOWN`.
pub open spec fn assignment_label_text(v: PhoneAssignment) -> Seq<char> {
    let subject = match first_some(opt_view(v.agent_name), opt_view(v.agent_id)) {
        Some(s) => s,
        None => "UNKNOWN"@,
    };
    v.assignment_source@ + team_part(v) + ": "@ + subject + email_part(v) + " ["@ + v.member_status@ + "; "@
        + v.resolution_status@ + "]"@
}

/// Formats an assignment for the table.
pub fn assignment_label(value: &PhoneAssignment) -> (r: String)
    ensures
        r@ == assignment_label_text(*value),
{
    let subject: &str = match opt_str(&value.agent_name) {
        Some(name) => name,
        None => match opt_str(&value.agent_id) {
            Some(id) => id,
            None => "UNKNOWN",
        },
    };
    let mut r = value.assignment_source.clone();
    match opt_str(&value.team_name) {
        Some(team) => {
            r.append(" ");
            r.append(team);
        },
        None => match opt_str(&value.team_id) {
            Some(team) => {
                r.append(" ");
                r.append(team);
            },
            None => {},
        },
    }
    r.append(": ");
    r.append(subject);
    match opt_str(&value.agent_email) {
        Some(email) => {
            r.append(" <");
            r.append(email);
            r.append(">");
        },
        None => {},
    }
    r.append(" [");
    r.append(value.member_status.as_str());
    r.append("; ");
    r.append(value.resolution_status.as_str());
    r.append("]");
    assert(r@ =~= assignment_label_text(*value));
    r
}

/// The label of a rule target: `TYPE:NAME_OR_ID [STATUS]`.
pub open spec fn target_label_text(t: AssignmentTarget) -> Seq<char> {
    let shown = match t.name {
        Some(n) => n@,
        None => t.id@,
    };
    t.target_type@ + ":"@ + shown + " ["@ + t.status@ + "]"@
}

/// The target labels of a rule, joined with `,`.
pub open spec fn targets_text(ts: Seq<AssignmentTarget>) -> Seq<char> {
    crate::text::join_seqs(ts.map_values(|t: AssignmentTarget| target_label_text(t)), ","@)
}

/// `:KIND` for a rule node with an assign type, else nothing.
pub open spec fn assign_type_part(v: AssignmentRule) -> Seq<char> {
    match opt_view(v.assign_type) {
        Some(k) => ":"@ + k,
        None => Seq::empty(),
    }
}

/// The label of a rule node: `MODE:SEQUENCE:NODE_TYPE[:ASSIGN_TYPE]`, followed
/// by ` -> ` and the targets when there are any.
pub open spec fn rule_label_text(v: AssignmentRule) -> Seq<char> {
    let targets = targets_text(v.targets@);
    let head = v.mode@ + ":"@ + crate::text::decimal(v.sequence as nat) + ":"@ + v.node_type@
        + assign_type_part(v);
    if targets.len() == 0 {
        head
    } else {
        head + " -> "@ + targets
    }
}

fn target_label(t: &AssignmentTarget) -> (r: String)
    ensures
        r@ == target_label_text(*t),
{
    let mut r = t.target_type.clone();
    r.append(":");
    match opt_str(&t.name) {
        Some(n) => r.append(n),
        None => r.append(t.id.as_str()),
    }
    r.append(" [");
    r.append(t.status.as_str());
    r.append("]");
    r
}

/// Formats a rule node for the table.
pub fn rule_label(value: &AssignmentRule) -> (r: String)
    ensures
        r@ == rule_label_text(*value),
{
    let mut labels: Vec<String> = Vec::new();
    let mut i: usize = 0;
    while i < value.targets.len()
        invariant
            0 <= i <= value.targets@.len(),
            labels@.len() == i,
            forall|j: int| 0 <= j < i ==> (#[trigger] labels@[j])@ == target_label_text(value.targets@[j]),
        decreases value.targets@.len() - i,
    {
        labels.push(target_label(&value.targets[i]));
        i = i + 1;
    }
    let targets = crate::text::join_strings(&labels, ",");
    assert(crate::text::views(labels@) =~= value.targets@.map_values(
        |t: AssignmentTarget| target_label_text(t),
    ));
    let mut r = value.mode.clone();
    r.append(":");
    let seq = crate::text::u64_to_decimal(value.sequence as u64);
    r.append(seq.as_str());
    r.append(":");
    r.append(value.node_type.as_str());
    match opt_str(&value.assign_type) {
        Some(kind) => {
            r.append(":");
            r.append(kind);
        },
        None => {},
    }
    if targets.as_str().unicode_len() > 0 {
        r.append(" -> ");
        r.append(targets.as_str());
    }
    assert(r@ =~= rule_label_text(*value));
    r
}

/// The labels of a sequence of assignments joined with `; `, or `-` when
/// there are none.
pub open spec fn assignments_cell(v: Seq<PhoneAssignment>) -> Seq<char> {
    let joined = crate::text::join_seqs(
        v.map_values(|a: PhoneAssignment| assignment_label_text(a)),
        "; "@,
    );
    if joined.len() == 0 {
        "-"@
    } else {
        joined
    }
}

/// The labels of a sequence of rule nodes joined with `; `, or `-` when there
/// are none.
pub open spec fn rules_cell(v: Seq<AssignmentRule>) -> Seq<char> {
    let joined = crate::text::join_seqs(v.map_values(|r: AssignmentRule| rule_label_text(r)), "; "@);
    if joined.len() == 0 {
        "-"@
    } else {
        joined
    }
}

/// One table row: WABA name and id, phone number, phone status, assignments
/// and rules, separated by tabs.
pub open spec fn table_row(w: WabaReport, p: PhoneReport) -> Seq<char> {
    text_or_dash(opt_view(w.waba_name)) + " ("@ + w.waba_id@ + ")\t"@ + text_or_dash(
        opt_view(p.phone.display_phone_number),
    ) + "\t"@ + text_or_dash(opt_view(p.phone.status)) + "\t"@ + assignments_cell(p.assignments@)
        + "\t"@ + rules_cell(p.assignment_rules@) + "\n"@
}

/// A text with no tab in it.
pub open spec fn tab_free(s: Seq<char>) -> bool {
    forall|i: int| 0 <= i < s.len() ==> #[trigger] s[i] != '\t'
}

/// Three cells and the rest of a line, joined by tabs.
pub open spec fn tab_cells(a: Seq<char>, b: Seq<char>, c: Seq<char>, rest: Seq<char>) -> Seq<char> {
    a + "\t"@ + b + "\t"@ + c + "\t"@ + rest
}

/// The third tab-separated cell of a table row, the PHONE_STATUS column, is
/// the phone number's own status, or `-` when it has none; the WABA's status
/// plays no part. (This reads the row by its tabs, so it needs the two
/// cells before it, the WABA name and id and the phone number, to hold no
/// tab.)
pub proof fn table_row_status_cell_is_phone_status(w: WabaReport, p: PhoneReport)
    requires
        w.waba_name matches Some(n) ==> tab_free(n@),
        tab_free(w.waba_id@),
        p.phone.display_phone_number matches Some(d) ==> tab_free(d@),
    ensures
        exists|first: Seq<char>, second: Seq<char>, rest: Seq<char>|
            tab_free(first) && tab_free(second) && table_row(w, p) == #[trigger] tab_cells(
                first,
                second,
                text_or_dash(opt_view(p.phone.status)),
                rest,
            ),
{
    reveal_strlit("-");
    reveal_strlit(" (");
    reveal_strlit(")\t");
    reveal_strlit("\t");
    let first = text_or_dash(opt_view(w.waba_name)) + " ("@ + w.waba_id@ + ")"@;
    reveal_strlit(")");
    let second = text_or_dash(opt_view(p.phone.display_phone_number));
    let status = match p.phone.status {
        Some(s) => s@,
        None => "-"@,
    };
    let rest = assignments_cell(p.assignments@) + "\t"@ + rules_cell(p.assignment_rules@)
        + "\n"@;
    let name = text_or_dash(opt_view(w.waba_name));
    assert(tab_free(name));
    assert(tab_free(first)) by {
        assert forall|i: int| 0 <= i < first.len() implies #[trigger] first[i] != '\t' by {
            if i < name.len() {
                assert(first[i] == name[i]);
            } else if i < name.len() + 2 {
                assert(first[i] == " ("@[i - name.len()]);
            } else if i < name.len() + 2 + w.waba_id@.len() {
                assert(first[i] == w.waba_id@[i - name.len() - 2]);
            } else {
                assert(first[i] == ")"@[i - name.len() - 2 - w.waba_id@.len()]);
            }
        }
    }
    assert(tab_free(second));
    assert(text_or_dash(opt_view(p.phone.status)) == status);
    assert(first + "\t"@ =~= name + " ("@ + w.waba_id@ + ")\t"@);
    assert(table_row(w, p) =~= tab_cells(first, second, status, rest));
}

/// The rows of the first `n` phone numbers of a WABA.
pub open spec fn waba_rows(w: WabaReport, n: int) -> Seq<char>
    decreases n,
{
    if n <= 0 {
        Seq::empty()
    } else {
        waba_rows(w, n - 1) + table_row(w, w.phone_numbers@[n - 1])
    }
}

/// The rows of all phone numbers of the WABAs, in order.
pub open spec fn table_rows(ws: Seq<WabaReport>) -> Seq<char>
    decreases ws.len(),
{
    if ws.len() == 0 {
        Seq::empty()
    } else {
        table_rows(ws.drop_last()) + waba_rows(ws.last(), ws.last().phone_numbers@.len() as int)
    }
}

/// The header of the table.
pub open spec fn table_header() -> Seq<char> {
    "WABA\tPHONE_NUMBER\tPHONE_STATUS\tASSIGNMENTS\tASSIGNMENT_RULES\n"@
}

fn joined_labels_assignments(v: &Vec<PhoneAssignment>) -> (r: String)
    ensures
        r@ == assignments_cell(v@),
{
    let mut labels: Vec<String> = Vec::new();
    let mut i: usize = 0;
    while i < v.len()
        invariant
            0 <= i <= v@.len(),
            labels@.len() == i,
            forall|j: int| 0 <= j < i ==> (#[trigger] labels@[j])@ == assignment_label_text(v@[j]),
        decreases v@.len() - i,
    {
        labels.push(assignment_label(&v[i]));
        i = i + 1;
    }
    let joined = crate::text::join_strings(&labels, "; ");
    assert(crate::text::views(labels@) =~= v@.map_values(
        |a: PhoneAssignment| assignment_label_text(a),
    ));
    if joined.as_str().unicode_len() == 0 {
        "-".to_owned()
    } else {
        joined
    }
}

fn joined_labels_rules(v: &Vec<AssignmentRule>) -> (r: String)
    ensures
        r@ == rules_cell(v@),
{
    let mut labels: Vec<String> = Vec::new();
    let mut i: usize = 0;
    while i < v.len()
        invariant
            0 <= i <= v@.len(),
            labels@.len() == i,
            forall|j: int| 0 <= j < i ==> (#[trigger] labels@[j])@ == rule_label_text(v@[j]),
        decreases v@.len() - i,
    {
        labels.push(rule_label(&v[i]));
        i = i + 1;
    }
    let joined = crate::text::join_strings(&labels, "; ");
    assert(crate::text::views(labels@) =~= v@.map_values(|r: AssignmentRule| rule_label_text(r)));
    if joined.as_str().unicode_len() == 0 {
        "-".to_owned()
    } else {
        joined
    }
}

/// The cells before the assignments: WABA, phone number and phone status.
pub open spec fn row_prefix(w: WabaReport, p: PhoneReport) -> Seq<char> {
    text_or_dash(opt_view(w.waba_name)) + " ("@ + w.waba_id@ + ")\t"@ + text_or_dash(
        opt_view(p.phone.display_phone_number),
    ) + "\t"@ + text_or_dash(opt_view(p.phone.status)) + "\t"@
}

fn row_prefix_string(w: &WabaReport, p: &PhoneReport) -> (r: String)
    ensures
        r@ == row_prefix(*w, *p),
{
    let mut r = text(opt_str(&w.waba_name)).to_owned();
    r.append(" (");
    r.append(w.waba_id.as_str());
    r.append(")\t");
    r.append(text(opt_str(&p.phone.display_phone_number)));
    r.append("\t");
    r.append(text(opt_str(&p.phone.status)));
    r.append("\t");
    r
}

fn append_row(out: &mut String, w: &WabaReport, p: &PhoneReport)
    ensures
        final(out)@ == old(out)@ + table_row(*w, *p),
{
    let prefix = row_prefix_string(w, p);
    let assignments = joined_labels_assignments(&p.assignments);
    let rules = joined_labels_rules(&p.assignment_rules);
    out.append(prefix.as_str());
    out.append(assignments.as_str());
    out.append("\t");
    out.append(rules.as_str());
    out.append("\n");
    assert(table_row(*w, *p) =~= row_prefix(*w, *p) + assignments_cell(p.assignments@) + "\t"@
        + rules_cell(p.assignment_rules@) + "\n"@);
    assert(final(out)@ =~= old(out)@ + table_row(*w, *p));
}

/// Renders the report as a tab-separated table: a header line, then one line
/// per phone number in report order.
pub fn render_table(report: &WabaAssignmentReport) -> (r: String)
    ensures
        r@ == table_header() + table_rows(report.wabas@),
{
    let mut output = "WABA\tPHONE_NUMBER\tPHONE_STATUS\tASSIGNMENTS\tASSIGNMENT_RULES\n".to_owned();
    let mut g: usize = 0;
    assert(report.wabas@.take(0) =~= Seq::<WabaReport>::empty());
    while g < report.wabas.len()
        invariant
            0 <= g <= report.wabas@.len(),
            output@ == table_header() + table_rows(report.wabas@.take(g as int)),
        decreases report.wabas@.len() - g,
    {
        let waba = &report.wabas[g];
        let mut k: usize = 0;
        let ghost base = output@;
        while k < waba.phone_numbers.len()
            invariant
                0 <= k <= waba.phone_numbers@.len(),
                output@ == base + waba_rows(*waba, k as int),
            decreases waba.phone_numbers@.len() - k,
        {
            append_row(&mut output, waba, &waba.phone_numbers[k]);
            assert(output@ =~= base + waba_rows(*waba, k as int + 1));
            k = k + 1;
        }
        assert(report.wabas@.take(g as int + 1).drop_last() =~= report.wabas@.take(g as int));
        assert(output@ =~= table_header() + table_rows(report.wabas@.take(g as int + 1)));
        g = g + 1;
    }
    assert(report.wabas@.take(report.wabas@.len() as int) =~= report.wabas@);
    output
}

// ---------------------------------------------------------------------------
// Paged reads
// ---------------------------------------------------------------------------

/// How many records a page asks for.
pub const PAGE_LIMIT: u32 = 100;

/// How many phone number ids one search carries.
pub const BATCH_LIMIT: usize = 100;

/// The error of a response that says more pages follow but names no cursor.
pub open spec fn missing_cursor_message(operation: Seq<char>) -> Seq<char> {
    operation + " response set hasMore=true without nextCursor"@
}

/// The cursor of the next page: none when no more pages follow; the given
/// cursor when more follow and it is not blank; an error otherwise.
pub open spec fn next_cursor_result(p: crate::http::ApiPagination, operation: Seq<char>) -> Result<
    Option<Seq<char>>,
    Seq<char>,
> {
    if !p.has_more {
        Ok(None)
    } else {
        match p.next_cursor {
            Some(c) => if seq_trim(c@).len() > 0 {
                Ok(Some(c@))
            } else {
                Err(missing_cursor_message(operation))
            },
            None => Err(missing_cursor_message(operation)),
        }
    }
}

/// The view of an optional cursor result.
pub open spec fn cursor_result_view(r: Result<Option<String>, String>) -> Result<
    Option<Seq<char>>,
    Seq<char>,
> {
    match r {
        Ok(Some(c)) => Ok(Some(c@)),
        Ok(None) => Ok(None),
        Err(e) => Err(e@),
    }
}

/// The cursor of the page after this one, checked against `has_more`.
pub fn next_cursor(pagination: crate::http::ApiPagination, operation: &str) -> (r: Result<
    Option<String>,
    String,
>)
    ensures
        cursor_result_view(r) == next_cursor_result(pagination, operation@),
{
    if !pagination.has_more {
        return Ok(None);
    }
    match pagination.next_cursor {
        Some(c) => {
            let t = trim_chars(c.as_str());
            if t.len() > 0 {
                Ok(Some(c))
            } else {
                Err(concat2(operation, " response set hasMore=true without nextCursor"))
            }
        },
        None => Err(concat2(operation, " response set hasMore=true without nextCursor")),
    }
}

/// Splits a list response into its records and the cursor of the next page.
pub fn page<T>(envelope: crate::http::ApiEnvelope<Vec<T>>, operation: &str) -> (r: Result<
    (Vec<T>, Option<String>),
    String,
>)
    ensures
        match envelope.pagination {
            None => r is Err && r->Err_0@ == operation@ + " response omitted pagination"@,
            Some(p) => match envelope.data {
                None => r is Err && r->Err_0@ == operation@ + " response missing data"@,
                Some(d) => match next_cursor_result(p, operation@) {
                    Ok(c) => r is Ok && r->Ok_0.0 == d && match r->Ok_0.1 {
                        Some(s) => c == Some(s@),
                        None => c is None,
                    },
                    Err(m) => r is Err && r->Err_0@ == m,
                },
            },
        },
{
    let pagination = match envelope.pagination {
        Some(p) => p,
        None => {
            return Err(concat2(operation, " response omitted pagination"));
        },
    };
    let data = match envelope.data {
        Some(d) => d,
        None => {
            return Err(concat2(operation, " response missing data"));
        },
    };
    match next_cursor(pagination, operation) {
        Ok(c) => Ok((data, c)),
        Err(e) => Err(e),
    }
}

/// The records of a paged read, gathered page by page: the records in page
/// order, the cursor of the next page, and every cursor handed out so far.
pub struct PageCollector<T> {
    records: Vec<T>,
    cursor: Option<String>,
    seen: Vec<String>,
}

/// The error of a read whose server handed out a cursor a second time.
pub open spec fn repeated_cursor_message(operation: Seq<char>) -> Seq<char> {
    operation + " returned a repeated cursor"@
}

impl<T> PageCollector<T> {
    /// The records gathered so far.
    pub closed spec fn records_view(&self) -> Seq<T> {
        self.records@
    }

    /// The cursor of the next page to ask for (`None` for the first page).
    pub closed spec fn cursor_view(&self) -> Option<Seq<char>> {
        match self.cursor {
            Some(c) => Some(c@),
            None => None,
        }
    }

    /// Every cursor handed out so far, in order.
    pub closed spec fn seen_view(&self) -> Seq<Seq<char>> {
        views(self.seen@)
    }

    /// No cursor was handed out twice, and the next cursor is the last one
    /// handed out.
    pub open spec fn wf(&self) -> bool {
        &&& self.seen_view().no_duplicates()
        &&& match self.cursor_view() {
            Some(c) => self.seen_view().len() > 0 && self.seen_view().last() == c,
            None => self.seen_view().len() == 0,
        }
    }

    /// A read before its first page.
    pub fn new() -> (r: Self)
        ensures
            r.wf(),
            r.records_view() == Seq::<T>::empty(),
            r.cursor_view() is None,
            r.seen_view() == Seq::<Seq<char>>::empty(),
    {
        let r = PageCollector { records: Vec::new(), cursor: None, seen: Vec::new() };
        assert(r.seen_view() =~= Seq::<Seq<char>>::empty());
        r
    }

    /// The cursor to send with the next request.
    pub fn cursor(&self) -> (r: Option<&str>)
        ensures
            match r {
                Some(s) => self.cursor_view() == Some(s@),
                None => self.cursor_view() is None,
            },
    {
        match &self.cursor {
            Some(c) => Some(c.as_str()),
            None => None,
        }
    }

    /// Takes one page: its records go after those gathered so far. With no
    /// next cursor the read is done (`Ok(false)`); a new cursor becomes the
    /// next one to ask for (`Ok(true)`); a cursor handed out before fails the
    /// read.
    pub fn accept(&mut self, data: Vec<T>, next: Option<String>, operation: &str) -> (r: Result<
        bool,
        String,
    >)
        requires
            old(self).wf(),
        ensures
            final(self).wf(),
            final(self).records_view() == old(self).records_view() + data@,
            match next {
                None => r == Ok::<bool, String>(false) && final(self).cursor_view()
                    == old(self).cursor_view() && final(self).seen_view()
                    == old(self).seen_view(),
                Some(c) => if old(self).seen_view().contains(c@) {
                    r is Err && r->Err_0@ == repeated_cursor_message(operation@)
                } else {
                    r == Ok::<bool, String>(true) && final(self).cursor_view() == Some(c@)
                        && final(self).seen_view() == old(self).seen_view().push(c@)
                },
            },
    {
        let mut data = data;
        self.records.append(&mut data);
        match next {
            None => Ok(false),
            Some(c) => {
                if contains_text(&self.seen, c.as_str()) {
                    return Err(concat2(operation, " returned a repeated cursor"));
                }
                let ghost before = self.seen@;
                self.seen.push(c.clone());
                assert(views(self.seen@) =~= views(before).push(c@));
                self.cursor = Some(c);
                Ok(true)
            },
        }
    }

    /// The records gathered, in page order.
    pub fn into_records(self) -> (r: Vec<T>)
        ensures
            r@ == self.records_view(),
    {
        self.records
    }
}

/// The phone number ids of the phones, in order.
pub open spec fn phone_ids(phones: Seq<PhoneNumber>) -> Seq<Seq<char>> {
    phones.map_values(|p: PhoneNumber| p.phone_number_id@)
}

/// The `k`-th batch of `ids`: at most `BATCH_LIMIT` ids from `k * BATCH_LIMIT` on.
pub open spec fn batch_at(ids: Seq<Seq<char>>, k: int) -> Seq<Seq<char>> {
    let lo = k * 100;
    let hi = if lo + 100 < ids.len() {
        lo + 100
    } else {
        ids.len() as int
    };
    ids.subrange(lo, hi)
}

/// The ids of a list of batches, joined in order.
pub open spec fn joined_batches(b: Seq<Vec<String>>) -> Seq<Seq<char>>
    decreases b.len(),
{
    if b.len() == 0 {
        Seq::empty()
    } else {
        joined_batches(b.drop_last()) + views(b.last()@)
    }
}

/// The phone number ids of the phones, in order, cut into batches of
/// `BATCH_LIMIT` (the last one may be shorter; none when there are no phones).
/// Joined again, the batches give back every id in order.
pub fn phone_id_batches(phones: &Vec<PhoneNumber>) -> (r: Vec<Vec<String>>)
    ensures
        joined_batches(r@) == phone_ids(phones@),
        r@.len() * 100 >= phones@.len(),
        r@.len() == 0 || (r@.len() - 1) * 100 < phones@.len(),
        forall|k: int| 0 <= k < r@.len() ==> views(#[trigger] r@[k]@) == batch_at(phone_ids(phones@), k),
{
    let n = phones.len();
    let mut r: Vec<Vec<String>> = Vec::new();
    let mut start: usize = 0;
    while start < n
        invariant
            n == phones@.len(),
            start <= n,
            start <= r@.len() * 100,
            start == n || start == r@.len() * 100,
            r@.len() == 0 || (r@.len() - 1) * 100 < start,
            joined_batches(r@) == phone_ids(phones@).take(start as int),
            forall|k: int| 0 <= k < r@.len() ==> views(#[trigger] r@[k]@) == batch_at(phone_ids(phones@), k),
        decreases n - start,
    {
        let end = if n - start > BATCH_LIMIT { start + BATCH_LIMIT } else { n };
        let mut batch: Vec<String> = Vec::new();
        let mut i: usize = start;
        while i < end
            invariant
                n == phones@.len(),
                start <= i <= end <= n,
                views(batch@) == phone_ids(phones@).subrange(start as int, i as int),
            decreases end - i,
        {
            let ghost before = batch@;
            batch.push(phones[i].phone_number_id.clone());
            assert(batch@.drop_last() =~= before);
            assert(batch@.last()@ == phones@[i as int].phone_number_id@);
            assert(views(batch@) =~= views(before).push(phones@[i as int].phone_number_id@));
            assert(phone_ids(phones@).subrange(start as int, i + 1) =~= phone_ids(phones@).subrange(
                start as int,
                i as int,
            ).push(phones@[i as int].phone_number_id@));
            assert(views(batch@) =~= phone_ids(phones@).subrange(start as int, i + 1));
            i = i + 1;
        }
        assert(views(batch@) == batch_at(phone_ids(phones@), r@.len() as int));
        let ghost before = r@;
        r.push(batch);
        assert(r@.drop_last() == before);
        assert(phone_ids(phones@).take(end as int) =~= phone_ids(phones@).take(start as int)
            + phone_ids(phones@).subrange(start as int, end as int));
        start = end;
    }
    assert(phone_ids(phones@).take(n as int) =~= phone_ids(phones@));
    r
}

impl<'a> PhoneIdsSearchRequest<'a> {
    /// The JSON body: the ids, the cursor when there is one, and the page
    /// limit.
    pub fn body(&self) -> (r: JsonValue)
        ensures
            model(r) == JsonModel::Object(
                seq![("phoneNumberIds"@, str_array_model(self.phone_number_ids@))] + match self.cursor {
                    Some(c) => seq![("cursor"@, JsonModel::Str(c@))],
                    None => seq![],
                } + seq![("limit"@, JsonModel::Number(decimal(self.limit as nat)))],
            ),
    {
        let mut items: Vec<JsonValue> = Vec::new();
        let mut i: usize = 0;
        assert(elements_model(items@) =~= str_models(self.phone_number_ids@, 0));
        while i < self.phone_number_ids.len()
            invariant
                0 <= i <= self.phone_number_ids@.len(),
                items@.len() == i,
                elements_model(items@) == str_models(self.phone_number_ids@, i as nat),
            decreases self.phone_number_ids@.len() - i,
        {
            let ghost before = items@;
            items.push(JsonValue::Str(self.phone_number_ids[i].clone()));
            assert(items@.subrange(0, items@.len() - 1) =~= before);
            assert(model(items@[i as int]) == JsonModel::Str(self.phone_number_ids@[i as int]@));
            assert(elements_model(items@) =~= str_models(self.phone_number_ids@, i as nat + 1));
            i = i + 1;
        }
        let mut members: Vec<(String, JsonValue)> = Vec::new();
        assert(members_model(members@) =~= Seq::<(Seq<char>, JsonModel)>::empty());
        push_member(&mut members, "phoneNumberIds", JsonValue::Array(items));
        match self.cursor {
            Some(c) => push_member(&mut members, "cursor", json_str(c)),
            None => {},
        }
        push_member(&mut members, "limit", json_u64(self.limit as u64));
        let r = JsonValue::Object(members);
        assert(model(r) == JsonModel::Object(members_model(members@)));
        assert(members_model(members@) =~= seq![("phoneNumberIds"@, str_array_model(self.phone_number_ids@))] + match self.cursor {
            Some(c) => seq![("cursor"@, JsonModel::Str(c@))],
            None => seq![],
        } + seq![("limit"@, JsonModel::Number(decimal(self.limit as nat)))]);
        r
    }
}

// ---------------------------------------------------------------------------
// Permission preflight
// ---------------------------------------------------------------------------

/// The WABA assignment permissions not in `effective`, in their fixed order.
pub open spec fn missing_effective(effective: Seq<Seq<char>>) -> Seq<Seq<char>> {
    waba_assignment_permission_texts().filter(|p: Seq<char>| !effective.contains(p))
}

/// A list for the preflight message: `-` when empty, else joined by commas.
pub open spec fn label_of(v: Seq<Seq<char>>) -> Seq<char> {
    if v.len() == 0 {
        "-"@
    } else {
        join_seqs(v, ","@)
    }
}

/// The preflight refusal: which missing permissions were never requested,
/// and which were requested but are not effective.
pub open spec fn preflight_message(requested: Seq<Seq<char>>, effective: Seq<Seq<char>>) -> Seq<char> {
    let missing = missing_effective(effective);
    "WABA assignment requires all three effective permissions; not requested: "@ + label_of(
        missing.filter(|p: Seq<char>| !requested.contains(p)),
    ) + "; requested but ineffective: "@ + label_of(
        missing.filter(|p: Seq<char>| requested.contains(p)),
    )
}

/// The permission preflight of the report: passes when all three WABA
/// assignment permissions are effective for the identity, else fails with a
/// message that tells missing requests from ineffective ones.
pub fn ensure_effective_permissions(identity: &WhoamiData) -> (r: Result<(), String>)
    ensures
        r is Ok <==> missing_effective(views(identity.effective_permissions@)).len() == 0,
        r is Err ==> r->Err_0@ == preflight_message(
            views(identity.requested_permissions@),
            views(identity.effective_permissions@),
        ),
{
    let perms = waba_assignment_permissions();
    let ghost all = waba_assignment_permission_texts();
    let ghost eff = views(identity.effective_permissions@);
    let ghost req = views(identity.requested_permissions@);
    let ghost pm = |p: Seq<char>| !eff.contains(p);
    let ghost pn = |p: Seq<char>| !req.contains(p);
    let ghost pi = |p: Seq<char>| req.contains(p);
    let mut missing: Vec<String> = Vec::new();
    let mut i: usize = 0;
    while i < perms.len()
        invariant
            0 <= i <= perms@.len(),
            perms@.map_values(|s: &str| s@) == all,
            all == waba_assignment_permission_texts(),
            eff == views(identity.effective_permissions@),
            pm == (|p: Seq<char>| !eff.contains(p)),
            views(missing@) == all.take(i as int).filter(pm),
        decreases perms@.len() - i,
    {
        let p = perms[i];
        proof {
            let t = all.take(i as int + 1);
            assert(t.drop_last() =~= all.take(i as int));
            assert(t.last() == p@);
            reveal_with_fuel(Seq::<Seq<char>>::filter, 1);
        }
        let ghost before = views(missing@);
        if !contains_text(&identity.effective_permissions, p) {
            missing.push(p.to_owned());
        }
        assert(views(missing@) =~= all.take(i as int + 1).filter(pm));
        i = i + 1;
    }
    assert(all.take(perms@.len() as int) =~= all);
    assert(views(missing@) == missing_effective(eff));
    if missing.len() == 0 {
        return Ok(());
    }
    let mut not_requested: Vec<String> = Vec::new();
    let mut ineffective: Vec<String> = Vec::new();
    let mut j: usize = 0;
    while j < missing.len()
        invariant
            0 <= j <= missing@.len(),
            req == views(identity.requested_permissions@),
            pn == (|p: Seq<char>| !req.contains(p)),
            pi == (|p: Seq<char>| req.contains(p)),
            views(not_requested@) == views(missing@).take(j as int).filter(pn),
            views(ineffective@) == views(missing@).take(j as int).filter(pi),
        decreases missing@.len() - j,
    {
        proof {
            let t = views(missing@).take(j as int + 1);
            assert(t.drop_last() =~= views(missing@).take(j as int));
            assert(t.last() == missing@[j as int]@);
            reveal_with_fuel(Seq::<Seq<char>>::filter, 1);
        }
        if contains_text(&identity.requested_permissions, missing[j].as_str()) {
            ineffective.push(missing[j].clone());
        } else {
            not_requested.push(missing[j].clone());
        }
        assert(views(not_requested@) =~= views(missing@).take(j as int + 1).filter(pn));
        assert(views(ineffective@) =~= views(missing@).take(j as int + 1).filter(pi));
        j = j + 1;
    }
    assert(views(missing@).take(missing@.len() as int) =~= views(missing@));
    let mut message = "WABA assignment requires all three effective permissions; not requested: ".to_owned();
    let a = list_label(&not_requested);
    message.append(a.as_str());
    message.append("; requested but ineffective: ");
    let b = list_label(&ineffective);
    message.append(b.as_str());
    Err(message)
}

/// `-` for an empty list, else the list joined by commas.
fn list_label(v: &Vec<String>) -> (r: String)
    ensures
        r@ == label_of(views(v@)),
{
    if v.len() == 0 {
        "-".to_owned()
    } else {
        join_strings(v, ",")
    }
}

} // verus!
