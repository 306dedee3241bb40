use std::{collections::VecDeque, convert::Infallible};

use localpass::generator::{
    build_groups, fisher_yates, Draws, generate_passwords, generate_passwords_with_source,
    index_from_draw, next_index, zeroize_strings, GenerateError, GenerationOptions,
    InternalError, RandomSource, AMBIGUOUS, MAX_COUNT, MAX_LENGTH, MIN_LENGTH,
};

#[derive(Default)]
struct ZeroSource {
    fills: usize,
}

impl RandomSource for ZeroSource {
    type Error = Infallible;

    fn fill(&mut self, destination: &mut [u8; 4]) -> Result<(), Self::Error> {
        assert_eq!(destination.len(), 4);
        destination.fill(0);
        self.fills += 1;
        Ok(())
    }
}

struct ScriptedSource {
    values: VecDeque<u32>,
    fills: usize,
}

impl ScriptedSource {
    fn new(values: impl IntoIterator<Item = u32>) -> Self {
        Self {
            values: values.into_iter().collect(),
            fills: 0,
        }
    }
}

impl RandomSource for ScriptedSource {
    type Error = &'static str;

    fn fill(&mut self, destination: &mut [u8; 4]) -> Result<(), Self::Error> {
        if destination.len() != 4 {
            return Err("unexpected request size");
        }
        let value = self.values.pop_front().ok_or("script exhausted")?;
        destination.copy_from_slice(&value.to_le_bytes());
        self.fills += 1;
        Ok(())
    }
}

struct FailingSource;

impl RandomSource for FailingSource {
    type Error = &'static str;

    fn fill(&mut self, _destination: &mut [u8; 4]) -> Result<(), Self::Error> {
        Err("entropy failed")
    }
}

fn options(mask: u8, exclude_ambiguous: bool) -> GenerationOptions {
    GenerationOptions {
        lowercase: mask & 1 != 0,
        uppercase: mask & 2 != 0,
        numbers: mask & 4 != 0,
        symbols: mask & 8 != 0,
        exclude_ambiguous,
    }
}

#[test]
fn exact_groups_and_ambiguous_filter_match_wpf() {
    let unfiltered = build_groups(options(15, false));
    assert_eq!(
        unfiltered,
        vec![
            b"abcdefghijklmnopqrstuvwxyz".to_vec(),
            b"ABCDEFGHIJKLMNOPQRSTUVWXYZ".to_vec(),
            b"0123456789".to_vec(),
            b"!@#$%^&*_-+=?".to_vec(),
        ]
    );

    let filtered = build_groups(options(15, true));
    assert_eq!(
        filtered,
        vec![
            b"abcdefghijkmnpqrstuvwxyz".to_vec(),
            b"ACDEFGHJKLMNPQRTUVWXYZ".to_vec(),
            b"234679".to_vec(),
            b"!@#$%^&*_-+=?".to_vec(),
        ]
    );
}

#[test]
fn all_fifteen_masks_cover_every_selected_group_at_both_length_bounds() {
    for exclude_ambiguous in [false, true] {
        for mask in 1..16 {
            let generation_options = options(mask, exclude_ambiguous);
            let selected_groups = build_groups(generation_options);

            for length in [MIN_LENGTH, MAX_LENGTH] {
                let mut random = Draws::new(ZeroSource::default());
                let password =
                    generate_passwords_with_source(1, length, generation_options, &mut random)
                        .unwrap()
                        .pop()
                        .unwrap();

                assert_eq!(password.len(), length, "mask {mask}");
                assert!(password.bytes().all(|character| {
                    selected_groups
                        .iter()
                        .any(|group| group.contains(&character))
                }));
                for group in &selected_groups {
                    assert!(
                        password.bytes().any(|character| group.contains(&character)),
                        "mask {mask} omitted selected group {}",
                        String::from_utf8_lossy(group)
                    );
                }
                if exclude_ambiguous {
                    assert!(
                        !password
                            .bytes()
                            .any(|character| AMBIGUOUS.as_bytes().contains(&character))
                    );
                }
            }
        }
    }
}

#[test]
fn validates_count_length_and_group_bounds() {
    let enabled = options(15, true);

    for count in [0, MAX_COUNT + 1] {
        let error =
            generate_passwords_with_source(count, 20, enabled, &mut Draws::new(ZeroSource::default()))
                .unwrap_err();
        assert!(
            matches!(error, InternalError::CountOutOfRange { count: value } if value == count)
        );
    }

    for length in [0, MIN_LENGTH - 1, MAX_LENGTH + 1, usize::MAX] {
        let error =
            generate_passwords_with_source(1, length, enabled, &mut Draws::new(ZeroSource::default()))
                .unwrap_err();
        assert!(
            matches!(error, InternalError::LengthOutOfRange { length: value } if value == length)
        );
    }

    let error =
        generate_passwords_with_source(1, 20, options(0, true), &mut Draws::new(ZeroSource::default()))
            .unwrap_err();
    assert!(matches!(error, InternalError::NoCharacterGroups));
}

#[test]
fn supports_maximum_batch() {
    let passwords = generate_passwords_with_source(
        MAX_COUNT,
        20,
        options(15, false),
        &mut Draws::new(ZeroSource::default()),
    )
    .unwrap();

    assert_eq!(passwords.len(), MAX_COUNT);
    assert!(passwords.iter().all(|password| password.len() == 20));
}

#[test]
fn rejection_sampling_discards_values_at_or_above_ceiling() {
    let mut random = Draws::new(ScriptedSource::new([u32::MAX, 8]));

    assert_eq!(next_index(10, &mut random).unwrap(), 8);
    assert_eq!(random.source.fills, 2);
    assert!(random.source.values.is_empty());
}

#[test]
fn fisher_yates_uses_injected_indices_in_reverse_order() {
    let mut candidate = *b"abcd";
    let mut random = Draws::new(ScriptedSource::new([1, 0, 1]));

    fisher_yates(&mut candidate, &mut random).unwrap();

    assert_eq!(&candidate, b"cdab");
    assert_eq!(random.source.fills, 3);
    assert!(random.source.values.is_empty());
}

#[test]
fn entropy_failure_is_returned_without_fallback() {
    let error = generate_passwords_with_source(1, 20, options(15, true), &mut Draws::new(FailingSource))
        .unwrap_err();

    assert_eq!(error, InternalError::Entropy("entropy failed"));
}

#[test]
fn invalid_requests_never_draw_entropy() {
    let mut random = Draws::new(ScriptedSource::new([]));
    assert!(generate_passwords_with_source(0, 20, options(15, false), &mut random).is_err());
    assert!(generate_passwords_with_source(1, 3, options(15, false), &mut random).is_err());
    assert!(generate_passwords_with_source(1, 20, options(0, false), &mut random).is_err());
    assert_eq!(random.source.fills, 0);
}

#[test]
fn count_error_wins_over_length_and_group_errors() {
    let error =
        generate_passwords_with_source(0, 0, options(0, false), &mut Draws::new(ZeroSource::default()))
            .unwrap_err();
    assert_eq!(error, InternalError::CountOutOfRange { count: 0 });
    let error =
        generate_passwords_with_source(1, 0, options(0, false), &mut Draws::new(ZeroSource::default()))
            .unwrap_err();
    assert_eq!(error, InternalError::LengthOutOfRange { length: 0 });
}

#[test]
fn acceptance_boundary_for_ten_is_the_largest_multiple_below_two_to_the_32() {
    let ceiling = (1u64 << 32) - (1u64 << 32) % 10;
    assert_eq!(index_from_draw((ceiling - 1) as u32, 10), Some(9));
    assert_eq!(index_from_draw(ceiling as u32, 10), None);
    assert_eq!(index_from_draw(0, 10), Some(0));
    assert_eq!(index_from_draw(u32::MAX, 1), Some(0));
    assert_eq!(index_from_draw(37, 26), Some(11));
}

#[test]
fn zero_draws_pick_each_groups_first_character_then_shuffle() {
    let password = generate_passwords_with_source(1, 4, options(15, false), &mut Draws::new(ZeroSource::default()))
        .unwrap()
        .pop()
        .unwrap();
    // Positions hold a, A, 0, !; each shuffle step swaps index i with 0.
    assert_eq!(password, "A0!a");
}

#[test]
fn scripted_draws_fill_from_the_pool_after_the_groups() {
    let mut random = Draws::new(ScriptedSource::new([25, 4, 0, 0, 0, 0, 0, 0, 0]));
    let password = generate_passwords_with_source(1, 5, options(3, false), &mut random)
        .unwrap()
        .pop()
        .unwrap();
    // z from lowercase, E from uppercase, pool[0] = a three times, then four swaps with 0.
    assert_eq!(password, "Eaaaz");
    assert!(random.source.values.is_empty());
}

#[test]
fn operating_system_entropy_yields_valid_batches() {
    let passwords = generate_passwords(5, 16, options(15, true)).unwrap();
    let groups = build_groups(options(15, true));
    assert_eq!(passwords.len(), 5);
    for password in &passwords {
        assert_eq!(password.len(), 16);
        assert!(password.bytes().all(|c| groups.iter().any(|g| g.contains(&c))));
        for group in &groups {
            assert!(password.bytes().any(|c| group.contains(&c)));
        }
    }
    assert!(matches!(
        generate_passwords(100, 16, options(15, true)),
        Err(GenerateError::CountOutOfRange { count: 100 })
    ));
}

#[test]
fn zeroize_strings_empties_every_password() {
    let mut passwords = vec!["one".to_owned(), "two".to_owned()];
    zeroize_strings(&mut passwords);
    assert_eq!(passwords.len(), 2);
    assert!(passwords.iter().all(|password| password.is_empty()));
}

#[test]
fn filtered_batches_hold_no_lookalikes() {
    let passwords = generate_passwords(MAX_COUNT, MAX_LENGTH, options(15, true)).unwrap();
    for password in &passwords {
        assert!(password.chars().all(|c| !AMBIGUOUS.contains(c)));
    }
    let mut random = Draws::new(ScriptedSource::new([8, 0, 0, 0, 0, 0, 0, 0]));
    let password = generate_passwords_with_source(1, MIN_LENGTH, options(1, true), &mut random)
        .unwrap()
        .pop()
        .unwrap();
    assert!(!password.contains('l') && !password.contains('o'));
}

#[test]
fn zero_draws_make_one_fixed_password_per_filter() {
    let mut random = Draws::new(ZeroSource::default());
    let batch = generate_passwords_with_source(1, 4, options(15, false), &mut random).unwrap();
    assert_eq!(batch, vec!["A0!a".to_owned()]);
    assert_eq!(random.source.fills, 7);
    let mut random = Draws::new(ZeroSource::default());
    let batch = generate_passwords_with_source(1, 4, options(15, true), &mut random).unwrap();
    assert_eq!(batch, vec!["A2!a".to_owned()]);
}

#[test]
fn failed_fill_mid_shuffle_returns_its_error() {
    let mut random = Draws::new(ScriptedSource::new([3]));
    let mut candidate = *b"abcd";
    assert_eq!(fisher_yates(&mut candidate, &mut random), Err("script exhausted"));
    assert_eq!(&candidate, b"abcd");
}
