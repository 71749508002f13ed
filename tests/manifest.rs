use covenant_validator::manifest::{
    contract_name, parse_code_id_line, parse_code_ids, parse_u64, replace_all_exec, split_lines, split_words,
    ManifestError,
};

#[test]
fn manifest_is_read_in_order() {
    let m = parse_code_ids("valence_clock.wasm 12\nvalence_two_party_pol_holder.wasm  34\r\n").unwrap();
    assert_eq!(m.len(), 2);
    assert_eq!(m[0].name, "clock");
    assert_eq!(m[0].code_id, 12);
    assert_eq!(m[1].name, "two_party_pol_holder");
    assert_eq!(m[1].code_id, 34);
    assert_eq!(parse_code_ids("").unwrap().len(), 0);
}

#[test]
fn manifest_errors() {
    assert_eq!(parse_code_ids("a b c\n").unwrap_err(), ManifestError::InvalidLine);
    assert_eq!(parse_code_ids("valence_clock.wasm 1\n\nvalence_x.wasm 2").unwrap_err(), ManifestError::InvalidLine);
    assert_eq!(parse_code_ids("valence_clock.wasm abc").unwrap_err(), ManifestError::InvalidCodeId);
    assert_eq!(parse_code_ids("x 18446744073709551616").unwrap_err(), ManifestError::InvalidCodeId);
    assert_eq!(parse_code_id_line("x 18446744073709551615").unwrap().code_id, u64::MAX);
}

#[test]
fn names_lose_prefix_and_extension() {
    assert_eq!(contract_name("valence_astroport_liquid_pooler.wasm"), "astroport_liquid_pooler");
    assert_eq!(contract_name("clock"), "clock");
    assert_eq!(replace_all_exec("aaa", "aa", "b"), "ba");
    assert_eq!(replace_all_exec("abcabc", "bc", ""), "aa");
}

#[test]
fn splitting() {
    assert_eq!(split_words("  a\tb  "), vec!["a".to_string(), "b".to_string()]);
    assert_eq!(split_words(""), Vec::<String>::new());
    assert_eq!(split_lines("a\n\nb"), vec!["a".to_string(), "".to_string(), "b".to_string()]);
    assert_eq!(split_lines("a\n"), vec!["a".to_string()]);
    assert_eq!(split_lines("\n"), vec!["".to_string()]);
    assert_eq!(split_lines(""), Vec::<String>::new());
    assert_eq!(parse_u64("+7"), Some(7));
    assert_eq!(parse_u64("18446744073709551616"), None);
}
