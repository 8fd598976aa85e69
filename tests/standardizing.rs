use sandhi_split::dcs::{
    parse_is_purvapada, parse_lakara, parse_linga, parse_purusha, parse_stem, parse_tense,
    is_known_upos, parse_vacana, parse_verb_pada, parse_vibhakti, standardize, standardize_lemma,
    ConversionError, Lakara, Linga, Purusha, Semantics, Stem, StemPrayoga, StemTense, Subanta,
    Tinanta, Token, TokenFeatures, Vacana, VerbPada, Vibhakti,
};

fn features(items: &[(&str, &str)]) -> TokenFeatures {
    let mut f = TokenFeatures::new();
    for (k, v) in items {
        f.insert(k.to_string(), v.to_string());
    }
    f
}

fn token(lemma: &str, upos: &str, items: &[(&str, &str)]) -> Token {
    Token {
        lemma: lemma.to_string(),
        upos: upos.to_string(),
        features: features(items),
    }
}

#[test]
fn lemma_ant_becomes_at() {
    assert_eq!(standardize_lemma("Bagavant"), "Bagavat");
}

#[test]
fn lemma_final_ay_is_dropped() {
    assert_eq!(standardize_lemma("kIrtay"), "kIrt");
}

#[test]
fn pronoun_lemmas_are_renamed() {
    assert_eq!(standardize_lemma("mad"), "asmad");
    assert_eq!(standardize_lemma("tvad"), "yuzmad");
    assert_eq!(standardize_lemma("ka"), "kim");
    assert_eq!(standardize_lemma("deva"), "deva");
    assert_eq!(standardize_lemma(""), "");
}

#[test]
fn later_feature_value_wins() {
    let f = features(&[("Case", "Nom"), ("Case", "Acc")]);
    assert_eq!(f.get("Case"), Some(&"Acc".to_string()));
    assert!(f.contains_key("Case"));
    assert!(!f.contains_key("Gender"));
}

#[test]
fn feature_values_map_to_enums() {
    assert_eq!(parse_linga(&features(&[("Gender", "Fem")])), Ok(Linga::Stri));
    assert_eq!(parse_linga(&features(&[])), Ok(Linga::Unknown));
    assert_eq!(parse_vibhakti(&features(&[("Case", "Loc")])), Ok(Vibhakti::V7));
    assert_eq!(parse_vibhakti(&features(&[("Case", "Cpd")])), Ok(Vibhakti::Unknown));
    assert_eq!(parse_vacana(&features(&[("Number", "Dual")])), Ok(Vacana::Dvi));
    assert_eq!(parse_purusha(&features(&[("Person", "1")])), Ok(Purusha::Uttama));
    assert_eq!(parse_tense(&features(&[("Tense", "Past")])), Ok(StemTense::Past));
    assert_eq!(parse_verb_pada(&features(&[])), VerbPada::Unknown);
}

#[test]
fn compound_flag_follows_case() {
    assert!(parse_is_purvapada(&features(&[("Case", "Cpd")])));
    assert!(!parse_is_purvapada(&features(&[("Case", "Nom")])));
    assert!(!parse_is_purvapada(&features(&[])));
}

#[test]
fn unknown_values_are_conversion_errors() {
    assert_eq!(
        parse_linga(&features(&[("Gender", "X")])),
        Err(ConversionError::new("X"))
    );
    assert_eq!(
        parse_vibhakti(&features(&[("Case", "Foo")])),
        Err(ConversionError::new("Foo"))
    );
    assert_eq!(
        parse_vacana(&features(&[("Number", "Tri")])),
        Err(ConversionError::new("Tri"))
    );
    assert_eq!(
        parse_tense(&features(&[("Tense", "Aor")])),
        Err(ConversionError::new("Aor"))
    );
    assert_eq!(
        parse_purusha(&features(&[("Person", "4")])),
        Err(ConversionError::new("4"))
    );
}

#[test]
fn lakara_needs_tense_and_mood() {
    assert_eq!(
        parse_lakara(&features(&[("Mood", "Ind")])),
        Err(ConversionError::new("`Tense` not found"))
    );
    assert_eq!(
        parse_lakara(&features(&[("Tense", "Pres")])),
        Err(ConversionError::new("`Mood` not found"))
    );
    assert_eq!(
        parse_lakara(&features(&[("Tense", "Pres"), ("Mood", "Ind")])),
        Ok(Lakara::Lat)
    );
    assert_eq!(
        parse_lakara(&features(&[("Tense", "Pres"), ("Mood", "Sub")])),
        Ok(Lakara::Lot)
    );
    assert_eq!(
        parse_lakara(&features(&[("Tense", "Aor"), ("Mood", "Jus")])),
        Ok(Lakara::LunNoAgama)
    );
    assert_eq!(
        parse_lakara(&features(&[("Tense", "Perf"), ("Mood", "Sub")])),
        Ok(Lakara::Unknown)
    );
}

#[test]
fn error_message_names_the_value() {
    assert_eq!(
        ConversionError::new("Foo").message(),
        "Could not parse value `Foo`"
    );
}

#[test]
fn stem_is_basic_with_no_genders() {
    assert_eq!(
        parse_stem(&token("Bagavant", "NOUN", &[])),
        Stem::Basic {
            stem: "Bagavat".to_string(),
            lingas: vec![]
        }
    );
}

#[test]
fn noun_becomes_subanta() {
    let t = token(
        "deva",
        "NOUN",
        &[("Gender", "Masc"), ("Case", "Nom"), ("Number", "Sing")],
    );
    let w = standardize(&t).unwrap();
    assert_eq!(w.text, "deva");
    assert_eq!(
        w.semantics,
        Semantics::Subanta(Subanta {
            stem: Stem::Basic {
                stem: "deva".to_string(),
                lingas: vec![]
            },
            linga: Linga::Pum,
            vacana: Vacana::Eka,
            vibhakti: Vibhakti::V1,
            is_purvapada: false,
        })
    );
}

#[test]
fn adverb_becomes_avyaya() {
    let w = standardize(&token("ca", "CCONJ", &[])).unwrap();
    assert_eq!(w.semantics, Semantics::Avyaya);
    assert_eq!(w.text, "ca");
}

#[test]
fn mantra_is_unanalyzed() {
    let w = standardize(&token("om", "MANTRA", &[])).unwrap();
    assert_eq!(w.semantics, Semantics::Unanalyzed);
}

#[test]
fn verb_becomes_tinanta() {
    let t = token(
        "gam",
        "VERB",
        &[
            ("Person", "3"),
            ("Number", "Plur"),
            ("Tense", "Impf"),
            ("Mood", "Ind"),
        ],
    );
    let w = standardize(&t).unwrap();
    assert_eq!(
        w.semantics,
        Semantics::Tinanta(Tinanta {
            root: "gam".to_string(),
            purusha: Purusha::Prathama,
            vacana: Vacana::Bahu,
            lakara: Lakara::Lan,
            pada: VerbPada::Unknown,
        })
    );
}

#[test]
fn verb_with_form_becomes_participle() {
    let t = token(
        "gacCant",
        "VERB",
        &[
            ("VerbForm", "Part"),
            ("Tense", "Pres"),
            ("Gender", "Neut"),
            ("Case", "Cpd"),
        ],
    );
    let w = standardize(&t).unwrap();
    assert_eq!(w.text, "gacCat");
    assert_eq!(
        w.semantics,
        Semantics::Subanta(Subanta {
            stem: Stem::Krdanta {
                root: "gacCat".to_string(),
                tense: StemTense::Present,
                prayoga: StemPrayoga::Unknown,
            },
            linga: Linga::Napumsaka,
            vacana: Vacana::Unknown,
            vibhakti: Vibhakti::Unknown,
            is_purvapada: true,
        })
    );
}

#[test]
fn first_bad_feature_is_reported() {
    let t = token("deva", "NOUN", &[("Gender", "X"), ("Case", "Y")]);
    assert_eq!(standardize(&t), Err(ConversionError::new("X")));
    let v = token("gam", "VERB", &[("Person", "3"), ("Number", "Sing")]);
    assert_eq!(
        standardize(&v),
        Err(ConversionError::new("`Tense` not found"))
    );
}

#[test]
fn unknown_number_names_the_value() {
    let err = parse_vacana(&features(&[("Number", "Tri")])).unwrap_err();
    assert_eq!(err.message(), "Could not parse value `Tri`");
    let t = token("deva", "NOUN", &[("Number", "Pl")]);
    assert_eq!(standardize(&t), Err(ConversionError::new("Pl")));
}

#[test]
fn known_categories_are_recognized() {
    for u in ["NOUN", "PRON", "ADJ", "PART", "NUM", "CCONJ", "SCONJ", "ADV", "VERB", "MANTRA"] {
        assert!(is_known_upos(u));
    }
    assert!(!is_known_upos("INTJ"));
    assert!(!is_known_upos(""));
    assert!(!is_known_upos("noun"));
}
