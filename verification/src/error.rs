use vstd::prelude::*;

verus! {

/// Why a rule string was turned down.
#[derive(Debug, PartialEq, Eq)]
pub enum ValidationError {
    /// The string holds a character or an operator outside the alphabet of
    /// its rule family, or it is empty.
    InvalidGrammar,
    /// The string is spelled in the right alphabet, but the expression engine
    /// could not evaluate it. Carries the engine's message, or a sentence of
    /// this crate where the string is too long to be handed to the engine.
    CompileError(String),
}

/// The mathematical content of a [`ValidationError`].
pub enum ValidationFault {
    InvalidGrammar,
    CompileError(Seq<char>),
}

impl View for ValidationError {
    type V = ValidationFault;

    open spec fn view(&self) -> ValidationFault {
        match self {
            ValidationError::InvalidGrammar => ValidationFault::InvalidGrammar,
            ValidationError::CompileError(message) => ValidationFault::CompileError(message@),
        }
    }
}

/// The text shown for a string that is outside its family's alphabet.
pub open spec fn invalid_grammar_text() -> Seq<char> {
    "Expression contains invalid variables or operators."@
}

/// The text shown for a string that is too long for the expression engine.
pub open spec fn too_long_text() -> Seq<char> {
    "Expression is too long."@
}

impl ValidationFault {
    /// The text that describes the fault.
    pub open spec fn text(self) -> Seq<char> {
        match self {
            ValidationFault::InvalidGrammar => invalid_grammar_text(),
            ValidationFault::CompileError(message) => message,
        }
    }
}

impl ValidationError {
    /// Turns the expression engine's outcome into the verdict on a rule
    /// string: a value of any kind admits the string, a message turns it down
    /// as a compile fault that carries the message.
    pub fn compile_verdict<T>(outcome: Result<T, String>) -> (verdict: Result<(), ValidationError>)
        ensures
            outcome is Ok ==> verdict is Ok,
            outcome is Err ==> verdict is Err && verdict->Err_0@ == ValidationFault::CompileError(
                outcome->Err_0@,
            ),
    {
        match outcome {
            Ok(_) => Ok(()),
            Err(message) => Err(ValidationError::CompileError(message)),
        }
    }

    /// The error for a string that is too long to be handed to the engine.
    pub fn too_long() -> (error: ValidationError)
        ensures
            error@ == ValidationFault::CompileError(too_long_text()),
    {
        ValidationError::CompileError("Expression is too long.".to_owned())
    }

    /// Describes the error: a fixed sentence for a grammar fault, the
    /// engine's own message for a compile fault.
    pub fn message(&self) -> (text: String)
        ensures
            text@ == self@.text(),
    {
        match self {
            ValidationError::InvalidGrammar => {
                "Expression contains invalid variables or operators.".to_owned()
            },
            ValidationError::CompileError(message) => message.clone(),
        }
    }
}

/// Why an evaluation gave no result.
#[derive(Clone, Copy, Debug, PartialEq, Eq, Structural)]
pub enum EvalError {
    /// No logical rule yielded a token for the input.
    NoMatchingLogicalRule,
    /// A token was selected, but no arithmetic rule is registered for it.
    NoArithmeticRuleForToken,
}

impl EvalError {
    /// The text that describes the error.
    pub open spec fn text(self) -> Seq<char> {
        match self {
            EvalError::NoMatchingLogicalRule => "Failed to apply logical rule."@,
            EvalError::NoArithmeticRuleForToken => "Failed to find arithmetic rule for token."@,
        }
    }

    /// Describes the error in one sentence.
    pub fn message(&self) -> (text: String)
        ensures
            text@ == self.text(),
    {
        match self {
            EvalError::NoMatchingLogicalRule => "Failed to apply logical rule.".to_owned(),
            EvalError::NoArithmeticRuleForToken => {
                "Failed to find arithmetic rule for token.".to_owned()
            },
        }
    }
}

} // verus!
