//! The sample space: named parameters with their bounds, and a sample count,
//! read from a configuration whose fields may be missing or of the wrong kind.
use serde_json::Number;
use vstd::prelude::*;

verus! {

/// A JSON number from the configuration, carried through unopened.
#[verifier::external_type_specification]
#[verifier::external_body]
pub struct ExNumber(Number);

/// The fields of a sample space's configuration.
#[derive(Clone, Copy, Debug, PartialEq, Eq, Structural)]
pub enum FieldName {
    Samples,
    Parameters,
    Name,
    LowerBound,
    UpperBound,
}

/// The kinds of value that the configuration's fields hold.
#[derive(Clone, Copy, Debug, PartialEq, Eq, Structural)]
pub enum ValueKind {
    Integer,
    List,
    Text,
    Number,
}

/// Why a sample space could not be built or sampled.
#[derive(Clone, Copy, Debug, PartialEq, Eq, Structural)]
pub enum SpaceError {
    /// The configuration lacks the field.
    MissingField(FieldName),
    /// The field holds a value of another kind than the one given.
    TypeMismatch(FieldName, ValueKind),
    /// A parameter's name is the empty string.
    EmptyName,
    /// The sample count is below one, or there are no parameters.
    InvalidSpace,
}

/// One field of a configuration as it was read.
#[derive(Debug)]
pub enum Field<T> {
    Missing,
    Mistyped,
    Present(T),
}

/// The configuration of one parameter, as it was read.
#[derive(Debug)]
pub struct ParameterConfig {
    pub name: Field<String>,
    pub lower_bound: Field<Number>,
    pub upper_bound: Field<Number>,
}

/// The configuration of a sample space, as it was read.
#[derive(Debug)]
pub struct SpaceConfig {
    pub samples: Field<i64>,
    pub parameters: Field<Vec<ParameterConfig>>,
}

/// A named parameter with the bounds of its range.
#[derive(Debug)]
pub struct Parameter {
    pub name: String,
    pub lower_bound: Number,
    pub upper_bound: Number,
}

/// The parameters to sample, in output order, and the number of samples.
#[derive(Debug)]
pub struct SampleSpace {
    pub parameters: Vec<Parameter>,
    pub samples: i64,
}

/// The kind of value that each field must hold.
pub open spec fn expected_kind(field: FieldName) -> ValueKind {
    match field {
        FieldName::Samples => ValueKind::Integer,
        FieldName::Parameters => ValueKind::List,
        FieldName::Name => ValueKind::Text,
        FieldName::LowerBound => ValueKind::Number,
        FieldName::UpperBound => ValueKind::Number,
    }
}

/// The error that a field read as `f` gives, if any.
pub open spec fn field_error<T>(f: Field<T>, field: FieldName) -> Option<SpaceError> {
    match f {
        Field::Missing => Some(SpaceError::MissingField(field)),
        Field::Mistyped => Some(SpaceError::TypeMismatch(field, expected_kind(field))),
        Field::Present(_) => None,
    }
}

/// The parameter that a configuration describes, or the error of its first
/// faulty field in the order name, lower bound, upper bound; a name must not
/// be empty.
pub open spec fn parameter_result(c: ParameterConfig) -> Result<Parameter, SpaceError> {
    if let Some(e) = field_error(c.name, FieldName::Name) {
        Err(e)
    } else if c.name->Present_0@.len() == 0 {
        Err(SpaceError::EmptyName)
    } else if let Some(e) = field_error(c.lower_bound, FieldName::LowerBound) {
        Err(e)
    } else if let Some(e) = field_error(c.upper_bound, FieldName::UpperBound) {
        Err(e)
    } else {
        Ok(
            Parameter {
                name: c.name->Present_0,
                lower_bound: c.lower_bound->Present_0,
                upper_bound: c.upper_bound->Present_0,
            },
        )
    }
}

fn kind_of(field: FieldName) -> (kind: ValueKind)
    ensures
        kind == expected_kind(field),
{
    match field {
        FieldName::Samples => ValueKind::Integer,
        FieldName::Parameters => ValueKind::List,
        FieldName::Name => ValueKind::Text,
        FieldName::LowerBound => ValueKind::Number,
        FieldName::UpperBound => ValueKind::Number,
    }
}

/// The value of a field, or the error that it gives.
fn take_field<T>(f: Field<T>, field: FieldName) -> (r: Result<T, SpaceError>)
    ensures
        match r {
            Ok(v) => field_error(f, field) is None && f == Field::Present(v),
            Err(e) => field_error(f, field) == Some(e),
        },
{
    match f {
        Field::Missing => Err(SpaceError::MissingField(field)),
        Field::Mistyped => Err(SpaceError::TypeMismatch(field, kind_of(field))),
        Field::Present(v) => Ok(v),
    }
}

impl Parameter {
    /// The parameter that `config` describes; the first faulty field, in the
    /// order name, lower bound, upper bound, gives the error, and an empty
    /// name is refused.
    pub fn new(config: ParameterConfig) -> (r: Result<Parameter, SpaceError>)
        ensures
            r == parameter_result(config),
            r is Ok ==> r->Ok_0.name@.len() > 0,
    {
        let name = match take_field(config.name, FieldName::Name) {
            Ok(v) => v,
            Err(e) => return Err(e),
        };
        if name.as_str().is_empty() {
            return Err(SpaceError::EmptyName);
        }
        let lower_bound = match take_field(config.lower_bound, FieldName::LowerBound) {
            Ok(v) => v,
            Err(e) => return Err(e),
        };
        let upper_bound = match take_field(config.upper_bound, FieldName::UpperBound) {
            Ok(v) => v,
            Err(e) => return Err(e),
        };
        Ok(Parameter { name, lower_bound, upper_bound })
    }
}

/// `r` is what the configuration `config` gives: the first faulty field, in
/// the order samples, parameters, then each parameter in turn, gives the
/// error; with none, the space holds the sample count and every parameter.
pub open spec fn is_space_result(config: SpaceConfig, r: Result<SampleSpace, SpaceError>) -> bool {
    if let Some(e) = field_error(config.samples, FieldName::Samples) {
        r == Err::<SampleSpace, SpaceError>(e)
    } else if let Some(e) = field_error(config.parameters, FieldName::Parameters) {
        r == Err::<SampleSpace, SpaceError>(e)
    } else {
        let ps = config.parameters->Present_0@;
        match r {
            Ok(s) => {
                &&& s.samples == config.samples->Present_0
                &&& s.parameters@.len() == ps.len()
                &&& forall|i: int|
                    0 <= i < ps.len() ==> Ok::<Parameter, SpaceError>(#[trigger] s.parameters@[i]) == parameter_result(
                        ps[i],
                    )
            },
            Err(e) => exists|i: int|
                0 <= i < ps.len() && #[trigger] parameter_result(ps[i]) == Err::<Parameter, SpaceError>(e)
                    && forall|k: int| 0 <= k < i ==> (#[trigger] parameter_result(ps[k])) is Ok,
        }
    }
}

impl SampleSpace {
    /// The sample space that `config` describes.
    pub fn new(config: SpaceConfig) -> (r: Result<SampleSpace, SpaceError>)
        ensures
            is_space_result(config, r),
            r is Ok ==> forall|i: int|
                0 <= i < r->Ok_0.parameters@.len() ==> (#[trigger] r->Ok_0.parameters@[i]).name@.len()
                    > 0,
            // Success comes exactly when no field of the configuration is faulty.
            r is Ok <==> field_error(config.samples, FieldName::Samples) is None && field_error(
                config.parameters,
                FieldName::Parameters,
            ) is None && forall|i: int|
                0 <= i < config.parameters->Present_0@.len() ==> (#[trigger] parameter_result(
                    config.parameters->Present_0@[i],
                )) is Ok,
    {
        let ghost c = config;
        let samples = match take_field(config.samples, FieldName::Samples) {
            Ok(v) => v,
            Err(e) => return Err(e),
        };
        let configs = match take_field(config.parameters, FieldName::Parameters) {
            Ok(v) => v,
            Err(e) => return Err(e),
        };
        let ghost ps = configs@;
        assert(c.parameters->Present_0@ == ps);
        // Taken off the end twice over, the configurations come in their own order.
        let mut rest = configs;
        let mut reversed: Vec<ParameterConfig> = Vec::new();
        while rest.len() > 0
            invariant
                rest@.len() + reversed@.len() == ps.len(),
                rest@ == ps.subrange(0, rest@.len() as int),
                forall|a: int| 0 <= a < reversed@.len() ==> #[trigger] reversed@[a] == ps[ps.len() - 1 - a],
            decreases rest@.len(),
        {
            let p = rest.pop().unwrap();
            reversed.push(p);
        }
        let mut parameters: Vec<Parameter> = Vec::new();
        while reversed.len() > 0
            invariant
                c == config,
                c.parameters->Present_0@ == ps,
                field_error(c.samples, FieldName::Samples) is None,
                field_error(c.parameters, FieldName::Parameters) is None,
                c.samples->Present_0 == samples,
                parameters@.len() + reversed@.len() == ps.len(),
                forall|a: int| 0 <= a < reversed@.len() ==> #[trigger] reversed@[a] == ps[ps.len() - 1 - a],
                forall|i: int|
                    0 <= i < parameters@.len() ==> Ok::<Parameter, SpaceError>(#[trigger] parameters@[i]) == parameter_result(ps[i]),
            decreases reversed@.len(),
        {
            let ghost i = parameters@.len() as int;
            let p = reversed.pop().unwrap();
            assert(p == ps[i]);
            match Parameter::new(p) {
                Ok(parameter) => parameters.push(parameter),
                Err(e) => {
                    assert forall|k: int| 0 <= k < i implies (#[trigger] parameter_result(
                        ps[k],
                    )) is Ok by {
                        assert(Ok::<Parameter, SpaceError>(parameters@[k]) == parameter_result(
                            ps[k],
                        ));
                    }
                    assert(parameter_result(ps[i]) == Err::<Parameter, SpaceError>(e));
                    return Err(e);
                },
            }
        }
        assert forall|k: int| 0 <= k < ps.len() implies (#[trigger] parameter_result(ps[k])) is Ok by {
            assert(Ok::<Parameter, SpaceError>(parameters@[k]) == parameter_result(ps[k]));
        }
        Ok(SampleSpace { parameters, samples })
    }
}

} // verus!
