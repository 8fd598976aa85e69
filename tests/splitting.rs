use sandhi_split::rules::{strip_spaces, RuleTable, TableError};
use sandhi_split::splitter::{split, split_with_window};

fn row(left: &str, right: &str, combined: &str) -> Vec<String> {
    vec![left.to_string(), right.to_string(), combined.to_string()]
}

fn pairs(items: &[(&str, &str)]) -> Vec<(String, String)> {
    items
        .iter()
        .map(|(a, b)| (a.to_string(), b.to_string()))
        .collect()
}

#[test]
fn my_test() {
    let rows = vec![row("a", "i", "e"), row("a", "a", "A"), row("as", "a", "o ")];
    let table = RuleTable::build(&rows).unwrap();
    let out = split("rAmo", &table).unwrap();
    for (first, second) in &out {
        assert!(!first.is_empty() || !second.is_empty());
    }
    assert!(out.contains(&("rAmas".to_string(), "a".to_string())));
    assert!(out.contains(&("ra".to_string(), "amo".to_string())));
}

#[test]
fn one_rule_table_has_key_length_one() {
    let table = RuleTable::build(&vec![row("a", "i", "e")]).unwrap();
    assert_eq!(table.max_key_length(), Ok(1));
}

#[test]
fn one_rule_split_gives_all_candidates_in_order() {
    let table = RuleTable::build(&vec![row("a", "i", "e")]).unwrap();
    let out = split("te", &table).unwrap();
    assert_eq!(out, pairs(&[("", "te"), ("t", "e"), ("ta", "i")]));
}

#[test]
fn baselines_come_first_at_each_position() {
    let table = RuleTable::build(&vec![row("a", "i", "e")]).unwrap();
    let out = split("te", &table).unwrap();
    assert_eq!(out[0], ("".to_string(), "te".to_string()));
    assert_eq!(out[1], ("t".to_string(), "e".to_string()));
}

#[test]
fn window_before_final_character_undoes_fusion() {
    let table = RuleTable::build(&vec![row("a", "i", "e")]).unwrap();
    let out = split("te", &table).unwrap();
    assert_eq!(out[2], ("ta".to_string(), "i".to_string()));
    assert_eq!(out.len(), 3);
}

#[test]
fn longest_key_length_is_searched() {
    let table = RuleTable::build(&vec![row("x", "y", "ab")]).unwrap();
    assert_eq!(table.max_key_length(), Ok(2));
    let out = split("cab", &table).unwrap();
    assert_eq!(
        out,
        pairs(&[("", "cab"), ("c", "ab"), ("cx", "y"), ("ca", "b")])
    );
}

#[test]
fn window_bound_is_a_parameter() {
    let table = RuleTable::build(&vec![row("x", "y", "ab")]).unwrap();
    assert_eq!(
        split_with_window("cab", &table, 1),
        pairs(&[("", "cab"), ("c", "ab"), ("ca", "b")])
    );
    assert_eq!(
        split_with_window("cab", &table, 0),
        pairs(&[("", "cab"), ("c", "ab"), ("ca", "b")])
    );
}

#[test]
fn no_candidate_keeps_the_whole_input_as_prefix() {
    let table = RuleTable::build(&vec![row("a", "i", "e")]).unwrap();
    let out = split("te", &table).unwrap();
    assert!(!out.contains(&("te".to_string(), "".to_string())));
}

#[test]
fn empty_input_has_no_candidate() {
    let table = RuleTable::build(&vec![row("a", "i", "e")]).unwrap();
    assert_eq!(split("", &table), Ok(vec![]));
}

#[test]
fn window_never_runs_past_the_input() {
    let table = RuleTable::build(&vec![row("a", "i", "e"), row("u", "v", "eee")]).unwrap();
    let out = split("ee", &table).unwrap();
    assert_eq!(
        out,
        pairs(&[("", "ee"), ("a", "ie"), ("e", "e"), ("ea", "i")])
    );
}

#[test]
fn empty_table_fails_to_split() {
    let table = RuleTable::build(&vec![]).unwrap();
    assert!(table.is_empty());
    assert_eq!(split("te", &table), Err(TableError::EmptyTableError));
    assert_eq!(table.max_key_length(), Err(TableError::EmptyTableError));
}

#[test]
fn short_record_is_a_format_error() {
    let rows = vec![row("a", "i", "e"), vec!["a".to_string(), "i".to_string()]];
    assert!(matches!(
        RuleTable::build(&rows),
        Err(TableError::FormatError { row: 1 })
    ));
}

#[test]
fn extra_fields_are_ignored() {
    let mut r = row("a", "i", "e");
    r.push("note".to_string());
    let table = RuleTable::build(&vec![r]).unwrap();
    assert_eq!(table.lookup("e"), pairs(&[("a", "i")]));
}

#[test]
fn lookup_keeps_registration_order() {
    let rows = vec![row("a", "i", "e"), row("a", "a", "A"), row("A", "i", "e")];
    let table = RuleTable::build(&rows).unwrap();
    assert_eq!(table.lookup("e"), pairs(&[("a", "i"), ("A", "i")]));
    assert_eq!(table.lookup("A"), pairs(&[("a", "a")]));
    assert_eq!(table.lookup("o"), pairs(&[]));
}

#[test]
fn duplicate_records_are_kept() {
    let rows = vec![row("a", "i", "e"), row("a", "i", "e")];
    let table = RuleTable::build(&rows).unwrap();
    assert_eq!(table.lookup("e"), pairs(&[("a", "i"), ("a", "i")]));
    let out = split("te", &table).unwrap();
    assert_eq!(
        out,
        pairs(&[("", "te"), ("t", "e"), ("ta", "i"), ("ta", "i")])
    );
}

#[test]
fn spaced_form_is_also_registered_without_spaces() {
    let table = RuleTable::build(&vec![row("as", "a", "o '")]).unwrap();
    assert_eq!(table.lookup("o '"), pairs(&[("as", "a")]));
    assert_eq!(table.lookup("o'"), pairs(&[("as", "a")]));
    assert_eq!(table.max_key_length(), Ok(3));
}

#[test]
fn unspaced_form_is_registered_once() {
    let table = RuleTable::build(&vec![row("a", "i", "e")]).unwrap();
    assert_eq!(table.lookup("e").len(), 1);
}

#[test]
fn strip_spaces_removes_every_space() {
    assert_eq!(strip_spaces(" a b  c "), "abc");
    assert_eq!(strip_spaces(""), "");
    assert_eq!(strip_spaces("ā ī"), "āī");
}

#[test]
fn positions_are_characters_not_bytes() {
    let table = RuleTable::build(&vec![row("a", "i", "ē")]).unwrap();
    let out = split("tē", &table).unwrap();
    assert_eq!(out, pairs(&[("", "tē"), ("t", "ē"), ("ta", "i")]));
}

#[test]
fn split_is_deterministic() {
    let rows = vec![row("a", "i", "e"), row("a", "a", "A"), row("as", "a", "o '")];
    let table = RuleTable::build(&rows).unwrap();
    let first = split("rAmo 'pi", &table).unwrap();
    let second = split("rAmo 'pi", &table).unwrap();
    assert_eq!(first, second);
}

#[test]
fn baseline_reconstructs_input() {
    let table = RuleTable::build(&vec![row("a", "i", "e")]).unwrap();
    let out = split("deve", &table).unwrap();
    let baselines: Vec<&(String, String)> = out
        .iter()
        .filter(|(a, b)| format!("{}{}", a, b) == "deve")
        .collect();
    assert_eq!(baselines.len(), 4);
}

#[test]
fn fusion_candidate_differs_only_in_window() {
    let table = RuleTable::build(&vec![row("a", "i", "e")]).unwrap();
    let out = split("deva", &table).unwrap();
    assert_eq!(
        out,
        pairs(&[
            ("", "deva"),
            ("d", "eva"),
            ("da", "iva"),
            ("de", "va"),
            ("dev", "a"),
        ])
    );
}

#[test]
fn stripped_key_holds_every_spaced_pair() {
    let rows = vec![row("k", "l", "xy"), row("a", "b", "x y"), row("c", "d", "x y")];
    let table = RuleTable::build(&rows).unwrap();
    assert_eq!(table.lookup("x y"), pairs(&[("a", "b"), ("c", "d")]));
    assert_eq!(
        table.lookup("xy"),
        pairs(&[("k", "l"), ("a", "b"), ("c", "d")])
    );
}

#[test]
fn empty_combined_form_is_a_format_error() {
    let rows = vec![row("a", "i", "e"), row("a", "b", "")];
    assert!(matches!(
        RuleTable::build(&rows),
        Err(TableError::FormatError { row: 1 })
    ));
}

#[test]
fn all_space_combined_form_is_a_format_error() {
    let rows = vec![row("a", "b", "  ")];
    assert!(matches!(
        RuleTable::build(&rows),
        Err(TableError::FormatError { row: 0 })
    ));
}
