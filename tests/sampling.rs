use lhsrs::csv::{csv_contents, csv_header, csv_row};
use lhsrs::design::{
    generate_level_perms, generate_lhs, generate_sample_matrix, transpose, UnitCoord, JITTER_STEPS,
};
use lhsrs::space::{
    Field, FieldName, Parameter, ParameterConfig, SampleSpace, SpaceConfig, SpaceError, ValueKind,
};
use lhsrs::strata::generate_levels;
use rand::rngs::StdRng;
use rand::SeedableRng;
use serde_json::Number;
use std::collections::HashSet;
use std::hash::Hash;

fn has_unique_elements<T>(iter: T) -> bool
where
    T: IntoIterator,
    T::Item: Eq + Hash,
{
    let mut uniq = HashSet::new();
    iter.into_iter().all(move |x| uniq.insert(x))
}

fn parameter_config(name: &str, lower: i64, upper: i64) -> ParameterConfig {
    ParameterConfig {
        name: Field::Present(name.to_string()),
        lower_bound: Field::Present(Number::from(lower)),
        upper_bound: Field::Present(Number::from(upper)),
    }
}

fn space(samples: i64, bounds: &[(&str, i64, i64)]) -> SampleSpace {
    let parameters = bounds
        .iter()
        .map(|(name, lower, upper)| parameter_config(name, *lower, *upper))
        .collect();
    SampleSpace::new(SpaceConfig {
        samples: Field::Present(samples),
        parameters: Field::Present(parameters),
    })
    .unwrap()
}

/// The strata of column `j`, sorted.
fn sorted_strata(m: &Vec<Vec<UnitCoord>>, j: usize) -> Vec<u64> {
    let mut strata: Vec<u64> = m.iter().map(|row| row[j].stratum).collect();
    strata.sort();
    strata
}

fn unit_value(c: &UnitCoord, samples: i64) -> f64 {
    (c.stratum as f64 + c.jitter as f64 / JITTER_STEPS as f64) / samples as f64
}

#[test]
fn test_levels_output() {
    assert_eq!(generate_levels(5), vec![-2, -1, 0, 1, 2]);
}

#[test]
fn test_level_columns() {
    let mut rng = StdRng::seed_from_u64(1);
    assert_eq!(generate_level_perms(vec![-1, 0, 1], 2, &mut rng).len(), 2)
}

#[test]
fn test_level_columns_unique() {
    let mut rng = StdRng::seed_from_u64(2);
    assert!(has_unique_elements(generate_level_perms(
        generate_levels(100),
        4,
        &mut rng
    )))
}

#[test]
fn levels_of_eleven() {
    assert_eq!(generate_levels(11), vec![-5, -4, -3, -2, -1, 0, 1, 2, 3, 4, 5]);
}

#[test]
fn levels_of_even_count_lean_up() {
    assert_eq!(generate_levels(4), vec![-1, 0, 1, 2]);
    assert_eq!(generate_levels(2), vec![0, 1]);
}

#[test]
fn levels_of_one() {
    assert_eq!(generate_levels(1), vec![0]);
}

#[test]
fn levels_distinct_and_symmetric_for_odd() {
    for n in 1..40i64 {
        let levels = generate_levels(n);
        assert_eq!(levels.len() as i64, n);
        assert!(has_unique_elements(levels.clone()));
        if n % 2 == 1 {
            for i in 0..levels.len() {
                assert_eq!(levels[i], -levels[levels.len() - 1 - i]);
            }
        }
    }
}

#[test]
fn every_column_is_a_permutation_of_the_levels() {
    let mut rng = StdRng::seed_from_u64(3);
    let levels = generate_levels(9);
    let columns = generate_level_perms(levels.clone(), 5, &mut rng);
    assert_eq!(columns.len(), 5);
    for column in &columns {
        let mut sorted = column.clone();
        sorted.sort();
        assert_eq!(sorted, levels);
    }
}

#[test]
fn shuffling_reorders_the_levels() {
    let mut rng = StdRng::seed_from_u64(4);
    let levels = generate_levels(100);
    let columns = generate_level_perms(levels.clone(), 3, &mut rng);
    for column in &columns {
        assert_ne!(*column, levels);
    }
}

#[test]
fn sample_matrix_shifts_levels_into_strata() {
    let mut rng = StdRng::seed_from_u64(5);
    let matrix = generate_sample_matrix(vec![vec![-1, 0, 1, 2], vec![2, 1, 0, -1]], 4, &mut rng);
    assert_eq!(matrix.len(), 2);
    let strata: Vec<Vec<u64>> = matrix
        .iter()
        .map(|c| c.iter().map(|u| u.stratum).collect())
        .collect();
    assert_eq!(strata, vec![vec![0, 1, 2, 3], vec![3, 2, 1, 0]]);
    for column in &matrix {
        for cell in column {
            assert!(cell.jitter < JITTER_STEPS);
        }
    }
}

#[test]
fn jitter_varies_between_cells() {
    let mut rng = StdRng::seed_from_u64(6);
    let matrix = generate_sample_matrix(vec![vec![0; 20]], 1, &mut rng);
    let jitters: Vec<u64> = matrix[0].iter().map(|c| c.jitter).collect();
    assert!(has_unique_elements(jitters));
}

#[test]
fn transpose_turns_columns_into_rows() {
    let rows = transpose(vec![vec![1, 2, 3], vec![4, 5, 6]]);
    assert_eq!(rows, vec![vec![1, 4], vec![2, 5], vec![3, 6]]);
}

#[test]
fn transpose_of_single_column() {
    assert_eq!(transpose(vec![vec!['a', 'b']]), vec![vec!['a'], vec!['b']]);
}

#[test]
fn design_has_one_row_per_sample_and_one_entry_per_parameter() {
    let s = space(7, &[("a", 0, 1), ("b", 0, 1), ("c", 2, 3)]);
    let mut rng = StdRng::seed_from_u64(7);
    let m = generate_lhs(&s, &mut rng).unwrap();
    assert_eq!(m.len(), 7);
    for row in &m {
        assert_eq!(row.len(), 3);
    }
}

#[test]
fn design_uses_each_stratum_once_per_parameter() {
    let s = space(25, &[("a", 0, 1), ("b", 0, 1), ("c", 0, 1), ("d", 0, 1)]);
    let mut rng = StdRng::seed_from_u64(8);
    let m = generate_lhs(&s, &mut rng).unwrap();
    let all: Vec<u64> = (0..25).collect();
    for j in 0..4 {
        assert_eq!(sorted_strata(&m, j), all);
        for row in &m {
            let unit = unit_value(&row[j], 25);
            assert!((0.0..1.0).contains(&unit));
            assert_eq!((unit * 25.0).floor() as u64, row[j].stratum);
        }
    }
}

#[test]
fn two_runs_share_strata_but_differ() {
    let s = space(10, &[("a", 0, 1), ("b", 0, 1)]);
    let first = generate_lhs(&s, &mut StdRng::seed_from_u64(9)).unwrap();
    let second = generate_lhs(&s, &mut StdRng::seed_from_u64(10)).unwrap();
    assert_ne!(first, second);
    for j in 0..2 {
        assert_eq!(sorted_strata(&first, j), sorted_strata(&second, j));
    }
}

#[test]
fn same_seed_gives_same_design() {
    let s = space(6, &[("a", 0, 1)]);
    let first = generate_lhs(&s, &mut StdRng::seed_from_u64(11)).unwrap();
    let second = generate_lhs(&s, &mut StdRng::seed_from_u64(11)).unwrap();
    assert_eq!(first, second);
}

#[test]
fn four_samples_fall_one_per_quartile() {
    let s = space(4, &[("x", 0, 10), ("y", -5, 5)]);
    let m = generate_lhs(&s, &mut StdRng::seed_from_u64(12)).unwrap();
    assert_eq!(m.len(), 4);
    for (j, (lower, upper)) in [(0.0, 10.0), (-5.0, 5.0)].iter().enumerate() {
        let mut values: Vec<f64> = m
            .iter()
            .map(|row| unit_value(&row[j], 4) * (upper - lower) + lower)
            .collect();
        values.sort_by(|a, b| a.partial_cmp(b).unwrap());
        for (q, v) in values.iter().enumerate() {
            let quarter = (upper - lower) / 4.0;
            assert!(*v >= lower + quarter * q as f64);
            assert!(*v < lower + quarter * (q + 1) as f64);
        }
    }
}

#[test]
fn one_sample_spans_the_whole_range() {
    let s = space(1, &[("a", 0, 1), ("b", 3, 8), ("c", -1, 1)]);
    let m = generate_lhs(&s, &mut StdRng::seed_from_u64(13)).unwrap();
    assert_eq!(m.len(), 1);
    assert_eq!(m[0].len(), 3);
    for cell in &m[0] {
        assert_eq!(cell.stratum, 0);
        assert!(cell.jitter < JITTER_STEPS);
    }
}

#[test]
fn zero_samples_is_invalid() {
    let s = space(0, &[("a", 0, 1)]);
    let r = generate_lhs(&s, &mut StdRng::seed_from_u64(14));
    assert_eq!(r, Err(SpaceError::InvalidSpace));
}

#[test]
fn negative_samples_is_invalid() {
    let s = space(-3, &[("a", 0, 1)]);
    let r = generate_lhs(&s, &mut StdRng::seed_from_u64(15));
    assert_eq!(r, Err(SpaceError::InvalidSpace));
}

#[test]
fn no_parameters_is_invalid() {
    let s = space(5, &[]);
    let r = generate_lhs(&s, &mut StdRng::seed_from_u64(16));
    assert_eq!(r, Err(SpaceError::InvalidSpace));
}

#[test]
fn space_keeps_count_and_parameters_in_order() {
    let s = space(3, &[("x", 0, 10), ("y", -5, 5)]);
    assert_eq!(s.samples, 3);
    let names: Vec<&str> = s.parameters.iter().map(|p| p.name.as_str()).collect();
    assert_eq!(names, vec!["x", "y"]);
    assert_eq!(s.parameters[1].lower_bound, Number::from(-5));
    assert_eq!(s.parameters[1].upper_bound, Number::from(5));
}

#[test]
fn missing_samples_field() {
    let r = SampleSpace::new(SpaceConfig {
        samples: Field::Missing,
        parameters: Field::Missing,
    });
    assert_eq!(r.unwrap_err(), SpaceError::MissingField(FieldName::Samples));
}

#[test]
fn mistyped_samples_field() {
    let r = SampleSpace::new(SpaceConfig {
        samples: Field::Mistyped,
        parameters: Field::Present(vec![]),
    });
    assert_eq!(
        r.unwrap_err(),
        SpaceError::TypeMismatch(FieldName::Samples, ValueKind::Integer)
    );
}

#[test]
fn mistyped_parameters_field() {
    let r = SampleSpace::new(SpaceConfig {
        samples: Field::Present(4),
        parameters: Field::Mistyped,
    });
    assert_eq!(
        r.unwrap_err(),
        SpaceError::TypeMismatch(FieldName::Parameters, ValueKind::List)
    );
}

#[test]
fn missing_parameters_field() {
    let r = SampleSpace::new(SpaceConfig {
        samples: Field::Present(4),
        parameters: Field::Missing,
    });
    assert_eq!(r.unwrap_err(), SpaceError::MissingField(FieldName::Parameters));
}

#[test]
fn first_faulty_parameter_gives_the_error() {
    let bad_upper = ParameterConfig {
        name: Field::Present("b".to_string()),
        lower_bound: Field::Present(Number::from(0)),
        upper_bound: Field::Missing,
    };
    let bad_name = ParameterConfig {
        name: Field::Mistyped,
        lower_bound: Field::Missing,
        upper_bound: Field::Missing,
    };
    let r = SampleSpace::new(SpaceConfig {
        samples: Field::Present(4),
        parameters: Field::Present(vec![parameter_config("a", 0, 1), bad_upper, bad_name]),
    });
    assert_eq!(r.unwrap_err(), SpaceError::MissingField(FieldName::UpperBound));
}

#[test]
fn parameter_fields_are_checked_in_order() {
    let r = Parameter::new(ParameterConfig {
        name: Field::Present("a".to_string()),
        lower_bound: Field::Mistyped,
        upper_bound: Field::Missing,
    });
    assert_eq!(
        r.unwrap_err(),
        SpaceError::TypeMismatch(FieldName::LowerBound, ValueKind::Number)
    );
    let r = Parameter::new(ParameterConfig {
        name: Field::Missing,
        lower_bound: Field::Mistyped,
        upper_bound: Field::Missing,
    });
    assert_eq!(r.unwrap_err(), SpaceError::MissingField(FieldName::Name));
    let r = Parameter::new(ParameterConfig {
        name: Field::Present("a".to_string()),
        lower_bound: Field::Present(Number::from(1)),
        upper_bound: Field::Mistyped,
    });
    assert_eq!(
        r.unwrap_err(),
        SpaceError::TypeMismatch(FieldName::UpperBound, ValueKind::Number)
    );
}

#[test]
fn header_names_template_and_value_columns() {
    let s = space(2, &[("x", 0, 10), ("y", -5, 5)]);
    assert_eq!(csv_header(&s), "CaseName,x_Template,x,y_Template,y\n");
}

#[test]
fn row_wraps_names_in_braces() {
    let s = space(2, &[("x", 0, 10), ("y", -5, 5)]);
    let line = csv_row(&s, &vec!["1.5".to_string(), "-2".to_string()]);
    assert_eq!(line, ",{{{x}}},1.5,{{{y}}},-2,\n");
}

#[test]
fn contents_are_header_then_rows() {
    let s = space(2, &[("x", 0, 10)]);
    let rows = vec![vec!["1".to_string()], vec!["7.25".to_string()]];
    assert_eq!(
        csv_contents(&s, &rows),
        "CaseName,x_Template,x\n,{{{x}}},1,\n,{{{x}}},7.25,\n"
    );
}

#[test]
fn contents_without_rows_are_the_header() {
    let s = space(2, &[("x", 0, 10)]);
    assert_eq!(csv_contents(&s, &vec![]), "CaseName,x_Template,x\n");
}

#[test]
fn empty_name_is_refused() {
    let r = Parameter::new(parameter_config("", 0, 1));
    assert_eq!(r.unwrap_err(), SpaceError::EmptyName);
}

#[test]
fn empty_name_is_refused_before_the_bounds() {
    let r = Parameter::new(ParameterConfig {
        name: Field::Present(String::new()),
        lower_bound: Field::Missing,
        upper_bound: Field::Mistyped,
    });
    assert_eq!(r.unwrap_err(), SpaceError::EmptyName);
}

#[test]
fn space_with_an_empty_name_is_refused() {
    let r = SampleSpace::new(SpaceConfig {
        samples: Field::Present(3),
        parameters: Field::Present(vec![parameter_config("x", 0, 1), parameter_config("", 2, 3)]),
    });
    assert_eq!(r.unwrap_err(), SpaceError::EmptyName);
}
