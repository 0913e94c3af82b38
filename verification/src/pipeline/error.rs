use vstd::prelude::*;

use crate::value::{dec_digits, entries_model, strs_model, Val, Value};

verus! {

/// Errors that can arise while a pipeline runs.
///
/// `EarlyReturn` is not a failure: it is the control-flow signal of the
/// `$return` operator and carries the response envelope verbatim.
#[derive(Debug, Clone)]
pub enum ExecutionError {
    /// A variable or dotted path was not found in the context.
    PathNotFound { path: String },
    /// A type mismatch or an invalid operation on a type.
    TypeError { message: String, expected: Option<String>, actual: Option<String> },
    /// The storage collaborator failed.
    DatabaseError { message: String },
    /// Schema validation rejected the data.
    ValidationError { message: String, errors: Vec<String> },
    /// Template rendering failed.
    TemplateError { message: String },
    /// An operator was misconfigured or is not available.
    InvalidOperator { operator: String, message: String },
    /// Division by zero.
    DivisionByZero,
    /// An array index was out of bounds.
    IndexOutOfBounds { index: usize, length: usize },
    /// The pipeline ended early with a `$return` envelope.
    EarlyReturn { status: u16, headers: Vec<(String, Value)>, body: Value },
    /// Any other failure, described in words.
    Custom { message: String },
}

/// The mathematical model of an `ExecutionError`.
#[verifier::ext_equal]
pub enum ErrModel {
    PathNotFound { path: Seq<char> },
    TypeError { message: Seq<char>, expected: Option<Seq<char>>, actual: Option<Seq<char>> },
    DatabaseError { message: Seq<char> },
    ValidationError { message: Seq<char>, errors: Seq<Seq<char>> },
    TemplateError { message: Seq<char> },
    InvalidOperator { operator: Seq<char>, message: Seq<char> },
    DivisionByZero,
    IndexOutOfBounds { index: int, length: int },
    EarlyReturn { status: u16, headers: Seq<(Seq<char>, Val)>, body: Val },
    Custom { message: Seq<char> },
}

impl View for ExecutionError {
    type V = ErrModel;

    open spec fn view(&self) -> ErrModel {
        match self {
            ExecutionError::PathNotFound { path } => ErrModel::PathNotFound { path: path@ },
            ExecutionError::TypeError { message, expected, actual } => ErrModel::TypeError {
                message: message@,
                expected: match expected {
                    Some(e) => Some(e@),
                    None => None,
                },
                actual: match actual {
                    Some(a) => Some(a@),
                    None => None,
                },
            },
            ExecutionError::DatabaseError { message } => ErrModel::DatabaseError {
                message: message@,
            },
            ExecutionError::ValidationError { message, errors } => ErrModel::ValidationError {
                message: message@,
                errors: strs_model(errors@),
            },
            ExecutionError::TemplateError { message } => ErrModel::TemplateError {
                message: message@,
            },
            ExecutionError::InvalidOperator { operator, message } => ErrModel::InvalidOperator {
                operator: operator@,
                message: message@,
            },
            ExecutionError::DivisionByZero => ErrModel::DivisionByZero,
            ExecutionError::IndexOutOfBounds { index, length } => ErrModel::IndexOutOfBounds {
                index: *index as int,
                length: *length as int,
            },
            ExecutionError::EarlyReturn { status, headers, body } => ErrModel::EarlyReturn {
                status: *status,
                headers: entries_model(headers@),
                body: body@,
            },
            ExecutionError::Custom { message } => ErrModel::Custom { message: message@ },
        }
    }
}

impl ExecutionError {
    /// A `PathNotFound` error for the given path.
    pub fn path_not_found(path: &str) -> (e: ExecutionError)
        ensures
            e@ == (ErrModel::PathNotFound { path: path@ }),
    {
        ExecutionError::PathNotFound { path: path.to_owned() }
    }

    /// A `TypeError` with a message alone.
    pub fn type_error(message: &str) -> (e: ExecutionError)
        ensures
            e@ == (ErrModel::TypeError { message: message@, expected: None, actual: None }),
    {
        ExecutionError::TypeError { message: message.to_owned(), expected: None, actual: None }
    }

    /// A `TypeError` that also names the expected and the actual type.
    pub fn type_error_with_types(message: &str, expected: &str, actual: &str) -> (e:
        ExecutionError)
        ensures
            e@ == (ErrModel::TypeError {
                message: message@,
                expected: Some(expected@),
                actual: Some(actual@),
            }),
    {
        ExecutionError::TypeError {
            message: message.to_owned(),
            expected: Some(expected.to_owned()),
            actual: Some(actual.to_owned()),
        }
    }

    /// A `DatabaseError` with the given message.
    pub fn database_error(message: &str) -> (e: ExecutionError)
        ensures
            e@ == (ErrModel::DatabaseError { message: message@ }),
    {
        ExecutionError::DatabaseError { message: message.to_owned() }
    }

    /// A `ValidationError` with the given message and violation list.
    pub fn validation_error(message: &str, errors: Vec<String>) -> (e: ExecutionError)
        ensures
            e@ == (ErrModel::ValidationError { message: message@, errors: strs_model(errors@) }),
    {
        ExecutionError::ValidationError { message: message.to_owned(), errors }
    }

    /// A `Custom` error with the given message.
    pub fn custom(message: String) -> (e: ExecutionError)
        ensures
            e@ == (ErrModel::Custom { message: message@ }),
    {
        ExecutionError::Custom { message }
    }
}

/// The one-line rendering of an error, as `message` produces it.
pub open spec fn message_of(e: ErrModel) -> Seq<char> {
    match e {
        ErrModel::PathNotFound { path } => "Path not found: "@ + path,
        ErrModel::TypeError { message, expected, actual } => {
            let head = "Type error: "@ + message;
            if expected is Some && actual is Some {
                head + " (expected "@ + expected.unwrap() + ", got "@ + actual.unwrap() + ")"@
            } else {
                head
            }
        },
        ErrModel::DatabaseError { message } => "Database error: "@ + message,
        ErrModel::ValidationError { message, errors } => "Validation error: "@ + message
            + error_lines(errors),
        ErrModel::TemplateError { message } => "Template error: "@ + message,
        ErrModel::InvalidOperator { operator, message } => "Invalid operator '"@ + operator
            + "': "@ + message,
        ErrModel::DivisionByZero => "Division by zero"@,
        ErrModel::IndexOutOfBounds { index, length } => "Index out of bounds: "@ + dec_digits(
            if index >= 0 {
                index as nat
            } else {
                0
            },
        ) + " (length: "@ + dec_digits(
            if length >= 0 {
                length as nat
            } else {
                0
            },
        ) + ")"@,
        ErrModel::EarlyReturn { status, .. } => "Early return with status "@ + dec_digits(
            status as nat,
        ),
        ErrModel::Custom { message } => message,
    }
}

/// The indented list of violations under a validation error message.
pub open spec fn error_lines(errors: Seq<Seq<char>>) -> Seq<char> {
    if errors.len() == 0 {
        Seq::empty()
    } else {
        "\n  Errors:"@ + line_items(errors)
    }
}

/// One "    - ..." line per violation.
pub open spec fn line_items(errors: Seq<Seq<char>>) -> Seq<char>
    decreases errors.len(),
{
    if errors.len() == 0 {
        Seq::empty()
    } else {
        "\n    - "@ + errors[0] + line_items(errors.drop_first())
    }
}

impl ExecutionError {
    /// Renders the error in one line (with indented violation lines for
    /// a validation error), exactly as `message_of` states.
    pub fn message(&self) -> (r: String)
        ensures
            r@ == message_of(self@),
    {
        match self {
            ExecutionError::PathNotFound { path } => {
                let mut s = String::from_str("Path not found: ");
                s.append(path.as_str());
                s
            },
            ExecutionError::TypeError { message, expected, actual } => {
                let mut s = String::from_str("Type error: ");
                s.append(message.as_str());
                match (expected, actual) {
                    (Some(e), Some(a)) => {
                        s.append(" (expected ");
                        s.append(e.as_str());
                        s.append(", got ");
                        s.append(a.as_str());
                        s.append(")");
                    },
                    _ => {},
                }
                s
            },
            ExecutionError::DatabaseError { message } => {
                let mut s = String::from_str("Database error: ");
                s.append(message.as_str());
                s
            },
            ExecutionError::ValidationError { message, errors } => {
                let mut s = String::from_str("Validation error: ");
                s.append(message.as_str());
                if errors.len() > 0 {
                    s.append("\n  Errors:");
                }
                let ghost em = strs_model(errors@);
                let mut i: usize = 0;
                proof {
                    assert(em.skip(0) =~= em);
                    if errors@.len() == 0 {
                        assert(error_lines(em) =~= Seq::<char>::empty());
                    }
                }
                while i < errors.len()
                    invariant
                        i <= errors.len(),
                        em == strs_model(errors@),
                        s@ + line_items(em.skip(i as int)) == message_of(
                            ErrModel::ValidationError {
                                message: message@,
                                errors: em,
                            },
                        ),
                    decreases errors.len() - i,
                {
                    s.append("\n    - ");
                    s.append(errors[i].as_str());
                    proof {
                        assert(em.skip(i as int)[0] == errors@[i as int]@);
                        assert(em.skip(i as int).drop_first() =~= em.skip(i + 1));
                    }
                    i = i + 1;
                }
                proof {
                    assert(line_items(em.skip(errors@.len() as int)) =~= Seq::<char>::empty());
                    assert(s@ =~= s@ + Seq::<char>::empty());
                }
                s
            },
            ExecutionError::TemplateError { message } => {
                let mut s = String::from_str("Template error: ");
                s.append(message.as_str());
                s
            },
            ExecutionError::InvalidOperator { operator, message } => {
                let mut s = String::from_str("Invalid operator '");
                s.append(operator.as_str());
                s.append("': ");
                s.append(message.as_str());
                s
            },
            ExecutionError::DivisionByZero => String::from_str("Division by zero"),
            ExecutionError::IndexOutOfBounds { index, length } => {
                let mut s = String::from_str("Index out of bounds: ");
                s.append(crate::value::u64_to_string(*index as u64).as_str());
                s.append(" (length: ");
                s.append(crate::value::u64_to_string(*length as u64).as_str());
                s.append(")");
                s
            },
            ExecutionError::EarlyReturn { status, .. } => {
                let mut s = String::from_str("Early return with status ");
                s.append(crate::value::u64_to_string(*status as u64).as_str());
                s
            },
            ExecutionError::Custom { message } => message.clone(),
        }
    }
}

} // verus!
