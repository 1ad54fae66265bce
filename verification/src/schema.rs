//! Parameter schemas: the validate-and-coerce capability the dispatch
//! pipeline runs against the bag.  A schema is an ordered list of rules;
//! each rule may require its parameter, coerce it to an unsigned number,
//! and restrict it to a set of allowed string values.  Validation walks
//! the rules in order, coercing the bag in place and collecting one
//! structured reason per failing rule.
use vstd::prelude::*;

verus! {

use crate::json::{JsonValue, JsonV, view_json};
use crate::params::{Params, ParamsV, spec_has_key, spec_lookup, spec_insert};
use crate::errors::{ValidationReason, ReasonV, view_reasons};
use crate::strutil::str_eq;
use vstd::string::StringExecFns;
use vstd::string::StrSliceExecFns;

/// What a rule coerces its parameter to.
#[derive(Clone, Copy, PartialEq, Eq, Structural, Debug)]
pub enum ParamKind {
    /// Any JSON value is taken as it stands.
    AnyKind,
    /// The value must be an unsigned number, or a string spelling one,
    /// which is coerced in place.
    U64Kind,
}

/// One parameter rule.
#[derive(Debug, PartialEq)]
pub struct ParamRule {
    pub name: String,
    pub required: bool,
    pub kind: ParamKind,
    pub allowed: Option<Vec<String>>,
}

/// An ordered parameter schema.
#[derive(Debug, PartialEq)]
pub struct Schema {
    pub rules: Vec<ParamRule>,
}

/// The value of a decimal digit character, or -1.
pub open spec fn spec_digit_val(c: char) -> int {
    if '0' <= c && c <= '9' {
        (c as u32) - ('0' as u32)
    } else {
        -1
    }
}

/// The number the digits from `i` on spell, continuing from `acc`; `None`
/// on a non-digit or past the largest unsigned 64-bit number.
pub open spec fn spec_u64_from(s: Seq<char>, i: int, acc: int) -> Option<u64>
    decreases s.len() - i,
    when 0 <= i <= s.len()
{
    if i == s.len() {
        Some(acc as u64)
    } else {
        let d = spec_digit_val(s[i]);
        if d < 0 {
            None
        } else if acc * 10 + d > 0xFFFF_FFFF_FFFF_FFFF {
            None
        } else {
            spec_u64_from(s, i + 1, acc * 10 + d)
        }
    }
}

/// The unsigned number a string spells, when it is one or more decimal
/// digits whose value fits 64 bits.
pub open spec fn spec_str_u64(s: Seq<char>) -> Option<u64> {
    if s.len() == 0 {
        None
    } else {
        spec_u64_from(s, 0, 0)
    }
}

/// Parses a string as an unsigned 64-bit decimal number.
pub fn parse_u64(s: &str) -> (r: Option<u64>)
    ensures
        r == spec_str_u64(s@),
{
    let n = s.unicode_len();
    if n == 0 {
        return None;
    }
    let mut acc: u64 = 0;
    let mut i: usize = 0;
    while i < n
        invariant
            0 <= i <= n,
            n == s@.len(),
            n > 0,
            spec_u64_from(s@, i as int, acc as int) == spec_u64_from(s@, 0, 0),
        decreases n - i,
    {
        let c = s.get_char(i);
        if c < '0' || c > '9' {
            proof {
                assert(spec_digit_val(c) < 0);
            }
            return None;
        }
        let d: u64 = ((c as u32) - 48) as u64;
        proof {
            assert(spec_digit_val(c) == d);
        }
        if acc > 1844674407370955161u64 || (acc == 1844674407370955161u64 && d > 5) {
            proof {
                assert(acc as int * 10 + d > 0xFFFF_FFFF_FFFF_FFFF);
            }
            return None;
        }
        proof {
            assert(acc as int * 10 + d <= 0xFFFF_FFFF_FFFF_FFFF);
        }
        acc = acc * 10 + d;
        i += 1;
    }
    Some(acc)
}

/// Whether `s` is among the listed values.
pub open spec fn spec_str_in(list: Seq<String>, s: Seq<char>) -> bool {
    exists|j: int| 0 <= j < list.len() && list[j]@ == s
}

/// Whether `s` is among the listed values.
fn str_in(list: &Vec<String>, s: &str) -> (r: bool)
    ensures
        r == spec_str_in(list@, s@),
{
    let mut j: usize = 0;
    while j < list.len()
        invariant
            0 <= j <= list@.len(),
            forall|k: int| 0 <= k < j ==> list@[k]@ != s@,
        decreases list@.len() - j,
    {
        if str_eq(list[j].as_str(), s) {
            return true;
        }
        j += 1;
    }
    false
}

/// The bag and collected reasons after one rule is enforced: a missing
/// required parameter and a value of the wrong shape each add a reason; a
/// string spelling a number is coerced in place when the rule asks for a
/// number; a value outside the allowed list adds a reason.
pub open spec fn spec_apply_rule(rule: ParamRule, params: ParamsV, reasons: Seq<ReasonV>) -> (
    ParamsV,
    Seq<ReasonV>,
) {
    let name = rule.name@;
    if !spec_has_key(params, name) {
        if rule.required {
            (params, reasons.push(ReasonV { name, code: "missing"@ }))
        } else {
            (params, reasons)
        }
    } else {
        let v = spec_lookup(params, name);
        let coerced: Option<(ParamsV, JsonV)> = match rule.kind {
            ParamKind::AnyKind => Some((params, v)),
            ParamKind::U64Kind => match v {
                JsonV::U64(_) => Some((params, v)),
                JsonV::Str(text) => match spec_str_u64(text) {
                    Some(number) => Some(
                        (spec_insert(params, name, JsonV::U64(number)), JsonV::U64(number)),
                    ),
                    None => None,
                },
                _ => None,
            },
        };
        match coerced {
            None => (params, reasons.push(ReasonV { name, code: "wrong_type"@ })),
            Some((params2, v2)) => match rule.allowed {
                None => (params2, reasons),
                Some(list) => if v2 is Str && spec_str_in(list@, v2->Str_0) {
                    (params2, reasons)
                } else {
                    (params2, reasons.push(ReasonV { name, code: "not_allowed"@ }))
                },
            },
        }
    }
}

/// The bag and reasons after the rules from `i` on are enforced in order.
pub open spec fn spec_validate(
    rules: Seq<ParamRule>,
    i: int,
    params: ParamsV,
    reasons: Seq<ReasonV>,
) -> (ParamsV, Seq<ReasonV>)
    decreases rules.len() - i,
    when 0 <= i <= rules.len()
{
    if i == rules.len() {
        (params, reasons)
    } else {
        let (params2, reasons2) = spec_apply_rule(rules[i], params, reasons);
        spec_validate(rules, i + 1, params2, reasons2)
    }
}

impl Schema {
    /// An empty schema, which accepts every bag.
    pub fn new() -> (r: Schema)
        ensures
            r.rules@ =~= Seq::<ParamRule>::empty(),
    {
        Schema { rules: Vec::new() }
    }

    /// Adds a rule.
    pub fn add_rule(&mut self, rule: ParamRule)
        ensures
            final(self).rules@ == old(self).rules@.push(rule),
    {
        self.rules.push(rule);
    }

    /// Requires `name` to be present.
    pub fn req(&mut self, name: &str)
        ensures
            final(self).rules@.len() == old(self).rules@.len() + 1,
            final(self).rules@.drop_last() == old(self).rules@,
            final(self).rules@.last() == (ParamRule {
                name: final(self).rules@.last().name,
                required: true,
                kind: ParamKind::AnyKind,
                allowed: None,
            }),
            final(self).rules@.last().name@ == name@,
    {
        self.rules.push(
            ParamRule {
                name: name.to_owned(),
                required: true,
                kind: ParamKind::AnyKind,
                allowed: None,
            },
        );
    }

    /// Requires `name` to be present and an unsigned number, coercing a
    /// numeric string in place.
    pub fn req_u64(&mut self, name: &str)
        ensures
            final(self).rules@.len() == old(self).rules@.len() + 1,
            final(self).rules@.drop_last() == old(self).rules@,
            final(self).rules@.last() == (ParamRule {
                name: final(self).rules@.last().name,
                required: true,
                kind: ParamKind::U64Kind,
                allowed: None,
            }),
            final(self).rules@.last().name@ == name@,
    {
        self.rules.push(
            ParamRule {
                name: name.to_owned(),
                required: true,
                kind: ParamKind::U64Kind,
                allowed: None,
            },
        );
    }

    /// Requires `name` to be present and among the allowed values.
    pub fn req_values(&mut self, name: &str, allowed: Vec<String>)
        ensures
            final(self).rules@.len() == old(self).rules@.len() + 1,
            final(self).rules@.drop_last() == old(self).rules@,
            final(self).rules@.last().name@ == name@,
            final(self).rules@.last().required,
            final(self).rules@.last().kind == ParamKind::AnyKind,
            final(self).rules@.last().allowed == Some(allowed),
    {
        self.rules.push(
            ParamRule {
                name: name.to_owned(),
                required: true,
                kind: ParamKind::AnyKind,
                allowed: Some(allowed),
            },
        );
    }

    /// Accepts `name` when absent, and requires it to be an unsigned
    /// number when present.
    pub fn opt_u64(&mut self, name: &str)
        ensures
            final(self).rules@.len() == old(self).rules@.len() + 1,
            final(self).rules@.drop_last() == old(self).rules@,
            final(self).rules@.last() == (ParamRule {
                name: final(self).rules@.last().name,
                required: false,
                kind: ParamKind::U64Kind,
                allowed: None,
            }),
            final(self).rules@.last().name@ == name@,
    {
        self.rules.push(
            ParamRule {
                name: name.to_owned(),
                required: false,
                kind: ParamKind::U64Kind,
                allowed: None,
            },
        );
    }

    /// Accepts `name` when absent, and requires it to be among the
    /// allowed values when present.
    pub fn opt_values(&mut self, name: &str, allowed: Vec<String>)
        ensures
            final(self).rules@.len() == old(self).rules@.len() + 1,
            final(self).rules@.drop_last() == old(self).rules@,
            final(self).rules@.last().name@ == name@,
            !final(self).rules@.last().required,
            final(self).rules@.last().kind == ParamKind::AnyKind,
            final(self).rules@.last().allowed == Some(allowed),
    {
        self.rules.push(
            ParamRule {
                name: name.to_owned(),
                required: false,
                kind: ParamKind::AnyKind,
                allowed: Some(allowed),
            },
        );
    }

    /// Enforces every rule, in order, coercing the bag in place; the
    /// reasons of all failing rules come back together.
    pub fn validate(&self, params: &mut Params) -> (r: Result<(), Vec<ValidationReason>>)
        ensures
            ({
                let (p2, rs) = spec_validate(self.rules@, 0, old(params).view(), Seq::empty());
                &&& final(params).view() == p2
                &&& match r {
                    Ok(()) => rs.len() == 0,
                    Err(reasons) => view_reasons(reasons@) == rs && rs.len() > 0,
                }
            }),
    {
        let mut reasons: Vec<ValidationReason> = Vec::new();
        let ghost start_params = params.view();
        proof {
            assert(view_reasons(reasons@) =~= Seq::<ReasonV>::empty());
        }
        let mut i: usize = 0;
        while i < self.rules.len()
            invariant
                0 <= i <= self.rules@.len(),
                spec_validate(self.rules@, i as int, params.view(), view_reasons(reasons@))
                    == spec_validate(self.rules@, 0, start_params, Seq::empty()),
            decreases self.rules@.len() - i,
        {
            let rule = &self.rules[i];
            let ghost params0 = params.view();
            let ghost reasons0 = view_reasons(reasons@);
            let mut found_str: Option<String> = None;
            let mut found_u64 = false;
            let present = match params.find(rule.name.as_str()) {
                None => false,
                Some(JsonValue::U64(_)) => {
                    found_u64 = true;
                    true
                },
                Some(JsonValue::Str(text)) => {
                    found_str = Some(text.clone());
                    true
                },
                Some(_) => true,
            };
            if !present {
                if rule.required {
                    reasons.push(
                        ValidationReason {
                            name: rule.name.clone(),
                            code: String::from_str("missing"),
                        },
                    );
                    proof {
                        reveal_strlit("missing");
                        assert(view_reasons(reasons@) =~= reasons0.push(
                            ReasonV { name: rule.name@, code: "missing"@ },
                        ));
                    }
                }
            } else {
                let coerced_ok: bool = match rule.kind {
                    ParamKind::AnyKind => true,
                    ParamKind::U64Kind => {
                        if found_u64 {
                            true
                        } else {
                            match &found_str {
                                Some(text) => {
                                    match parse_u64(text.as_str()) {
                                        Some(number) => {
                                            let name = rule.name.clone();
                                            params.insert(name, JsonValue::U64(number));
                                            true
                                        },
                                        None => false,
                                    }
                                },
                                None => false,
                            }
                        }
                    },
                };
                if !coerced_ok {
                    reasons.push(
                        ValidationReason {
                            name: rule.name.clone(),
                            code: String::from_str("wrong_type"),
                        },
                    );
                    proof {
                        reveal_strlit("wrong_type");
                        assert(view_reasons(reasons@) =~= reasons0.push(
                            ReasonV { name: rule.name@, code: "wrong_type"@ },
                        ));
                    }
                } else {
                    match &rule.allowed {
                        None => {},
                        Some(list) => {
                            let value_ok: bool = match rule.kind {
                                ParamKind::AnyKind => match &found_str {
                                    Some(text) => str_in(list, text.as_str()),
                                    None => false,
                                },
                                ParamKind::U64Kind => false,
                            };
                            if !value_ok {
                                reasons.push(
                                    ValidationReason {
                                        name: rule.name.clone(),
                                        code: String::from_str("not_allowed"),
                                    },
                                );
                                proof {
                                    reveal_strlit("not_allowed");
                                    assert(view_reasons(reasons@) =~= reasons0.push(
                                        ReasonV { name: rule.name@, code: "not_allowed"@ },
                                    ));
                                }
                            }
                        },
                    }
                }
            }
            proof {
                let step = spec_apply_rule(self.rules@[i as int], params0, reasons0);
                assert((params.view(), view_reasons(reasons@)) == step);
            }
            i += 1;
        }
        if reasons.len() == 0 {
            Ok(())
        } else {
            proof {
                assert(view_reasons(reasons@).len() == reasons@.len());
            }
            Err(reasons)
        }
    }
}

} // verus!
