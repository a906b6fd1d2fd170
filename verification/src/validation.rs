//! Content validation.
//!
//! A validator is a stateless predicate over the buffer's joined text,
//! injected by the caller through the [`Validator`] trait. Validation runs
//! every validator in order over the lines joined with `\n` and gathers the
//! failure messages; it never touches the editing state. What a particular
//! validator decides is the caller's business, so nothing is assumed of it;
//! the aggregation of its answers is exact.

use vstd::prelude::*;
use vstd::string::*;
use crate::textarea::TextArea;
use crate::textutil::{join_lines_exec, line_char_len};

verus! {

/// The outcome of running the validators: either all passed, or the failure
/// messages in validator order.
pub enum ValidationResult {
    Valid,
    Invalid(Vec<String>),
}

/// A content rule: checks the joined buffer text and reports a failure
/// message when the text does not satisfy it. Implementations come from the
/// embedding layer; nothing is assumed about what they answer.
pub trait Validator {
    fn check(&self, text: &str) -> Result<(), String>;
}

/// Rejects empty text: the buffer must hold at least one character.
pub fn required_validator(input: &str) -> (r: Result<(), String>)
    ensures
        input@.len() == 0 <==> r is Err,
        r matches Err(e) ==> e@ == "This field is required"@,
{
    if input.unicode_len() == 0 {
        Err(String::from_str("This field is required"))
    } else {
        Ok(())
    }
}

/// The rule of [`required_validator`] as a validator value.
pub struct RequiredValidator;

impl Validator for RequiredValidator {
    fn check(&self, text: &str) -> Result<(), String> {
        required_validator(text)
    }
}

/// The failure messages among the validators' answers, in order.
pub open spec fn spec_errors(results: Seq<Result<(), String>>) -> Seq<Seq<char>>
    decreases results.len(),
{
    if results.len() == 0 {
        Seq::empty()
    } else {
        spec_errors(results.drop_last()) + (match results.last() {
            Err(e) => seq![e@],
            Ok(_) => Seq::<Seq<char>>::empty(),
        })
    }
}

/// Gather the validators' answers: valid exactly when no answer is a
/// failure, else the failure messages in order.
pub fn aggregate_validation(results: Vec<Result<(), String>>) -> (r: ValidationResult)
    ensures
        r matches ValidationResult::Valid <==> spec_errors(results@).len() == 0,
        r matches ValidationResult::Invalid(v) ==> crate::textarea::str_seq_view(v@)
            == spec_errors(results@) && v@.len() >= 1,
{
    let mut errors: Vec<String> = Vec::new();
    let mut i: usize = 0;
    while i < results.len()
        invariant
            i <= results@.len(),
            crate::textarea::str_seq_view(errors@) =~= spec_errors(results@.subrange(0, i as int)),
        decreases results@.len() - i,
    {
        match &results[i] {
            Ok(_) => {},
            Err(e) => {
                errors.push(e.clone());
            },
        }
        proof {
            assert(results@.subrange(0, i + 1).drop_last() =~= results@.subrange(0, i as int));
            assert(results@.subrange(0, i + 1).last() == results@[i as int]);
            assert(crate::textarea::str_seq_view(errors@) =~= spec_errors(
                results@.subrange(0, i + 1),
            ));
        }
        i = i + 1;
    }
    proof {
        assert(results@.subrange(0, results@.len() as int) =~= results@);
    }
    if errors.len() == 0 {
        ValidationResult::Valid
    } else {
        ValidationResult::Invalid(errors)
    }
}

impl TextArea {
    /// The whole content as one text, the lines joined with `\n`.
    pub fn joined_text(&self) -> (r: String)
        ensures
            r@ == crate::textutil::join_lines(self.model().lines),
    {
        join_lines_exec(&self.lines)
    }

    /// Run every validator in order over the joined text and gather the
    /// failures. With no validators the content is valid; whether one fails
    /// is that validator's own affair, but the failure list holds exactly
    /// the messages the validators answered, in order.
    pub fn validate<V: Validator>(&self, validators: &Vec<V>) -> (r: ValidationResult)
        ensures
            validators@.len() == 0 ==> r matches ValidationResult::Valid,
            r matches ValidationResult::Invalid(v) ==> v@.len() >= 1,
    {
        let text = self.joined_text();
        let mut results: Vec<Result<(), String>> = Vec::new();
        let mut i: usize = 0;
        while i < validators.len()
            invariant
                i <= validators@.len(),
                results@.len() == i,
            decreases validators@.len() - i,
        {
            results.push(validators[i].check(text.as_str()));
            i = i + 1;
        }
        proof {
            if validators@.len() == 0 {
                assert(spec_errors(results@).len() == 0);
            }
        }
        aggregate_validation(results)
    }

    /// Whether every validator passes on the joined text.
    pub fn is_valid<V: Validator>(&self, validators: &Vec<V>) -> (r: bool)
        ensures
            validators@.len() == 0 ==> r == true,
    {
        match self.validate(validators) {
            ValidationResult::Valid => true,
            ValidationResult::Invalid(_) => false,
        }
    }
}

} // verus!
