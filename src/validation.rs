//! Validation rules on a record's value, and a validator that applies them in
//! order.

use vstd::prelude::*;
use crate::error::{Error, ValidationError};
use crate::json::JsonView;
use crate::record::{Record, RecordView};

verus! {

/// A check on a record. A rule accepts or rejects; a rejection is a
/// validation error naming the field and the rule.
pub trait ValidationRule {
    /// Whether the rule accepts a record.
    spec fn accepts(&self, r: RecordView) -> bool;

    /// The field a rejection names.
    spec fn spec_field(&self) -> Seq<char>;

    /// The rule a rejection names.
    spec fn spec_rule(&self) -> Seq<char>;

    /// Accepts or rejects the record.
    fn validate(&self, record: &Record) -> (r: Result<(), Error>)
        ensures
            r is Ok <==> self.accepts(record@),
            r is Err ==> r->Err_0 is Validation && r->Err_0->Validation_0.field@ == self.spec_field()
                && r->Err_0->Validation_0.rule@ == self.spec_rule(),
    ;

    /// Name of the rule.
    fn name(&self) -> &'static str;

    /// What the rule checks.
    fn description(&self) -> &'static str;
}

fn rejection(field: &String, rule: &str, tail: &str) -> (r: Error)
    ensures
        r is Validation,
        r->Validation_0.field@ == field@,
        r->Validation_0.rule@ == rule@,
        r->Validation_0.message@ == "Field '"@ + field@ + tail@,
{
    let message = String::from_str("Field '").concat(field.as_str()).concat(tail);
    Error::Validation(
        ValidationError { field: field.clone(), rule: String::from_str(rule), message },
    )
}

/// Requires a field to be present in the value.
#[derive(Debug)]
pub struct RequiredFieldRule {
    field: String,
}

impl RequiredFieldRule {
    /// A rule requiring `field`.
    pub fn new(field: &str) -> (r: Self)
        ensures
            r.spec_field() == field@,
    {
        RequiredFieldRule { field: String::from_str(field) }
    }
}

impl ValidationRule for RequiredFieldRule {
    closed spec fn spec_field(&self) -> Seq<char> {
        self.field@
    }

    open spec fn spec_rule(&self) -> Seq<char> {
        "required"@
    }

    open spec fn accepts(&self, r: RecordView) -> bool {
        r.value.field(self.spec_field()) is Some
    }

    fn validate(&self, record: &Record) -> (r: Result<(), Error>) {
        if record.value.get(self.field.as_str()).is_none() {
            return Err(rejection(&self.field, "required", "' is required"));
        }
        Ok(())
    }

    fn name(&self) -> &'static str {
        "required_field"
    }

    fn description(&self) -> &'static str {
        "Validates that a required field is present"
    }
}

/// Rejects a field that holds the empty string; a missing field or one of
/// another kind passes.
#[derive(Debug)]
pub struct NonEmptyStringRule {
    field: String,
}

impl NonEmptyStringRule {
    /// A rule on `field`.
    pub fn new(field: &str) -> (r: Self)
        ensures
            r.spec_field() == field@,
    {
        NonEmptyStringRule { field: String::from_str(field) }
    }
}

impl ValidationRule for NonEmptyStringRule {
    closed spec fn spec_field(&self) -> Seq<char> {
        self.field@
    }

    open spec fn spec_rule(&self) -> Seq<char> {
        "non_empty"@
    }

    open spec fn accepts(&self, r: RecordView) -> bool {
        r.value.field(self.spec_field()) != Some(JsonView::Str(Seq::<char>::empty()))
    }

    fn validate(&self, record: &Record) -> (r: Result<(), Error>) {
        match record.value.get(self.field.as_str()) {
            Some(v) => match v.as_str() {
                Some(s) => {
                    assert(s@.len() > 0 ==> s@ != Seq::<char>::empty());
                    if s.as_str().is_empty() {
                        assert(s@ =~= Seq::<char>::empty());
                        return Err(rejection(&self.field, "non_empty", "' cannot be empty"));
                    }
                },
                None => {},
            },
            None => {},
        }
        Ok(())
    }

    fn name(&self) -> &'static str {
        "non_empty_string"
    }

    fn description(&self) -> &'static str {
        "Validates that a string field is not empty"
    }
}

/// One of the rules a [`Validator`] holds.
#[derive(Debug)]
pub enum FieldRule {
    Required(RequiredFieldRule),
    NonEmptyString(NonEmptyStringRule),
}

impl ValidationRule for FieldRule {
    open spec fn spec_field(&self) -> Seq<char> {
        match self {
            FieldRule::Required(x) => x.spec_field(),
            FieldRule::NonEmptyString(x) => x.spec_field(),
        }
    }

    open spec fn spec_rule(&self) -> Seq<char> {
        match self {
            FieldRule::Required(x) => x.spec_rule(),
            FieldRule::NonEmptyString(x) => x.spec_rule(),
        }
    }

    open spec fn accepts(&self, r: RecordView) -> bool {
        match self {
            FieldRule::Required(x) => x.accepts(r),
            FieldRule::NonEmptyString(x) => x.accepts(r),
        }
    }

    fn validate(&self, record: &Record) -> (r: Result<(), Error>) {
        match self {
            FieldRule::Required(x) => x.validate(record),
            FieldRule::NonEmptyString(x) => x.validate(record),
        }
    }

    fn name(&self) -> &'static str {
        match self {
            FieldRule::Required(x) => x.name(),
            FieldRule::NonEmptyString(x) => x.name(),
        }
    }

    fn description(&self) -> &'static str {
        match self {
            FieldRule::Required(x) => x.description(),
            FieldRule::NonEmptyString(x) => x.description(),
        }
    }
}

/// Every rule of the list accepts the record.
pub open spec fn all_accept(rules: Seq<FieldRule>, r: RecordView) -> bool {
    forall|i: int| 0 <= i < rules.len() ==> #[trigger] rules[i].accepts(r)
}

/// Rule `i` is the first of the list to reject the record.
pub open spec fn first_rejection(rules: Seq<FieldRule>, r: RecordView, i: int) -> bool {
    &&& 0 <= i < rules.len()
    &&& !rules[i].accepts(r)
    &&& forall|j: int| 0 <= j < i ==> #[trigger] rules[j].accepts(r)
}

/// `e` is the error of the first rule of the list that rejects the record:
/// a validation error naming that rule's field and rule.
pub open spec fn rejected_by(rules: Seq<FieldRule>, r: RecordView, e: Error) -> bool {
    exists|i: int|
        first_rejection(rules, r, i) && e is Validation && e->Validation_0.field@ == rules[i].spec_field()
            && e->Validation_0.rule@ == rules[i].spec_rule()
}

/// Applies its rules in the order they were added, stopping at the first
/// rejection.
#[derive(Debug)]
pub struct Validator {
    rules: Vec<FieldRule>,
}

impl Validator {
    /// The rules, in order.
    pub closed spec fn spec_rules(&self) -> Seq<FieldRule> {
        self.rules@
    }

    /// A validator with no rules.
    pub fn new() -> (r: Self)
        ensures
            r.spec_rules() == Seq::<FieldRule>::empty(),
    {
        Validator { rules: Vec::new() }
    }

    /// Adds a rule after the others.
    pub fn add_rule(&mut self, rule: FieldRule)
        ensures
            final(self).spec_rules() == old(self).spec_rules().push(rule),
    {
        self.rules.push(rule);
    }

    /// Accepts the record when every rule does; otherwise the error of the
    /// first rule that rejects it.
    pub fn validate(&self, record: &Record) -> (r: Result<(), Error>)
        ensures
            r is Ok <==> all_accept(self.spec_rules(), record@),
            r is Err ==> rejected_by(self.spec_rules(), record@, r->Err_0),
    {
        let mut i: usize = 0;
        while i < self.rules.len()
            invariant
                i <= self.rules.len(),
                forall|j: int| 0 <= j < i ==> #[trigger] self.rules@[j].accepts(record@),
            decreases self.rules.len() - i,
        {
            match self.rules[i].validate(record) {
                Ok(()) => {},
                Err(e) => {
                    assert(first_rejection(self.rules@, record@, i as int));
                    return Err(e);
                },
            }
            i = i + 1;
        }
        Ok(())
    }

    /// The number of rules.
    pub fn rule_count(&self) -> (r: usize)
        ensures
            r == self.spec_rules().len(),
    {
        self.rules.len()
    }
}

impl Default for Validator {
    fn default() -> (r: Self)
        ensures
            r.spec_rules() == Seq::<FieldRule>::empty(),
    {
        Validator::new()
    }
}

} // verus!
