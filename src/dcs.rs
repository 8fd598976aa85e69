//! Standardization of corpus tokens (lemma, part of speech, features) into
//! the library's semantic records.
use crate::rules::{pairs_view, PairView};
use vstd::pervasive::unreached;
use vstd::prelude::*;

verus! {

/// Whether `a` and `b` hold the same characters.
pub fn same_text(a: &str, b: &str) -> (r: bool)
    ensures
        r == (a@ == b@),
{
    String::from_str(a) == String::from_str(b)
}

/// `suffix` ends `s`.
pub open spec fn has_suffix(s: Seq<char>, suffix: Seq<char>) -> bool {
    suffix.len() <= s.len() && s.subrange(s.len() - suffix.len(), s.len() as int) == suffix
}

/// Whether `suffix` ends `s`.
pub fn ends_with(s: &str, suffix: &str) -> (r: bool)
    ensures
        r == has_suffix(s@, suffix@),
{
    let n = s.unicode_len();
    let m = suffix.unicode_len();
    m <= n && same_text(s.substring_char(n - m, n), suffix)
}

/// The value of feature `name`: the last entry of that name wins.
pub open spec fn feature(entries: Seq<PairView>, name: Seq<char>) -> Option<Seq<char>>
    decreases entries.len(),
{
    if entries.len() == 0 {
        None
    } else if entries.last().0 == name {
        Some(entries.last().1)
    } else {
        feature(entries.drop_last(), name)
    }
}

/// The morphological features of a token, by name.
pub struct TokenFeatures {
    entries: Vec<(String, String)>,
}

impl View for TokenFeatures {
    type V = Seq<PairView>;

    closed spec fn view(&self) -> Seq<PairView> {
        pairs_view(self.entries@)
    }
}

impl TokenFeatures {
    /// No feature.
    pub fn new() -> (r: TokenFeatures)
        ensures
            r@ == Seq::<PairView>::empty(),
    {
        TokenFeatures { entries: Vec::new() }
    }

    /// Sets feature `name` to `value`, replacing an earlier value.
    pub fn insert(&mut self, name: String, value: String)
        ensures
            final(self)@ == old(self)@.push((name@, value@)),
    {
        let ghost before = self.entries@;
        self.entries.push((name, value));
        assert(pairs_view(self.entries@) =~= pairs_view(before).push((name@, value@)));
    }

    /// Whether feature `name` is set.
    pub fn contains_key(&self, name: &str) -> (r: bool)
        ensures
            r == feature(self@, name@) is Some,
    {
        self.get(name).is_some()
    }

    /// The value of feature `name`, if set.
    pub fn get(&self, name: &str) -> (r: Option<&String>)
        ensures
            r is Some <==> feature(self@, name@) is Some,
            r matches Some(v) ==> feature(self@, name@) == Some(v@),
    {
        let ghost all = self@;
        let mut i = self.entries.len();
        assert(all.take(i as int) =~= all);
        while i > 0
            invariant
                i <= self.entries.len(),
                all == pairs_view(self.entries@),
                feature(all, name@) == feature(all.take(i as int), name@),
            decreases i,
        {
            assert(all.take(i as int).drop_last() =~= all.take(i as int - 1));
            assert(all.take(i as int).last() == (
                self.entries@[i - 1].0@,
                self.entries@[i - 1].1@,
            ));
            if same_text(self.entries[i - 1].0.as_str(), name) {
                return Some(&self.entries[i - 1].1);
            }
            i = i - 1;
        }
        None
    }
}

/// A token of the corpus.
pub struct Token {
    /// The citation form.
    pub lemma: String,
    /// The part-of-speech category.
    pub upos: String,
    /// The morphological features.
    pub features: TokenFeatures,
}

/// A feature value that could not be understood; holds that value, or a
/// description of what was missing.
#[derive(Debug, Clone, PartialEq, Eq)]
pub struct ConversionError(pub String);

impl ConversionError {
    /// An error about `s`.
    pub fn new(s: &str) -> (r: ConversionError)
        ensures
            r.0@ == s@,
    {
        ConversionError(String::from_str(s))
    }

    /// A readable description of the error.
    pub fn message(&self) -> (r: String)
        ensures
            r@ == "Could not parse value `"@ + self.0@ + "`"@,
    {
        String::from_str("Could not parse value `").concat(self.0.as_str()).concat("`")
    }
}

/// Grammatical gender.
#[derive(Debug, Clone, Copy, PartialEq, Eq)]
pub enum Linga {
    Pum,
    Stri,
    Napumsaka,
    Unknown,
}

/// Grammatical case.
#[derive(Debug, Clone, Copy, PartialEq, Eq)]
pub enum Vibhakti {
    V1,
    V2,
    V3,
    V4,
    V5,
    V6,
    V7,
    Sambodhana,
    Unknown,
}

/// Grammatical number.
#[derive(Debug, Clone, Copy, PartialEq, Eq)]
pub enum Vacana {
    Eka,
    Dvi,
    Bahu,
    Unknown,
}

/// Grammatical person.
#[derive(Debug, Clone, Copy, PartialEq, Eq)]
pub enum Purusha {
    Prathama,
    Madhyama,
    Uttama,
    Unknown,
}

/// Tense and mood of a finite verb.
#[derive(Debug, Clone, Copy, PartialEq, Eq)]
pub enum Lakara {
    Lat,
    Lit,
    Lrt,
    Lot,
    Lan,
    LinVidhi,
    LinAshih,
    Lun,
    LunNoAgama,
    Lrn,
    Unknown,
}

/// Tense of a participle.
#[derive(Debug, Clone, Copy, PartialEq, Eq)]
pub enum StemTense {
    Past,
    Present,
    Future,
    Unknown,
}

/// Voice of a participle.
#[derive(Debug, Clone, Copy, PartialEq, Eq)]
pub enum StemPrayoga {
    Unknown,
}

/// Voice of a finite verb.
#[derive(Debug, Clone, Copy, PartialEq, Eq)]
pub enum VerbPada {
    Unknown,
}

/// A nominal stem.
#[derive(Debug, Clone, PartialEq, Eq)]
pub enum Stem {
    Basic { stem: String, lingas: Vec<Linga> },
    Krdanta { root: String, tense: StemTense, prayoga: StemPrayoga },
}

/// An inflected nominal.
#[derive(Debug, Clone, PartialEq, Eq)]
pub struct Subanta {
    pub stem: Stem,
    pub linga: Linga,
    pub vacana: Vacana,
    pub vibhakti: Vibhakti,
    pub is_purvapada: bool,
}

/// A finite verb.
#[derive(Debug, Clone, PartialEq, Eq)]
pub struct Tinanta {
    pub root: String,
    pub purusha: Purusha,
    pub vacana: Vacana,
    pub lakara: Lakara,
    pub pada: VerbPada,
}

/// What a word means grammatically.
#[derive(Debug, Clone, PartialEq, Eq)]
pub enum Semantics {
    Subanta(Subanta),
    Tinanta(Tinanta),
    Avyaya,
    Unanalyzed,
}

/// A standardized word.
#[derive(Debug, Clone, PartialEq, Eq)]
pub struct ParsedWord {
    pub text: String,
    pub semantics: Semantics,
}

/// A result with the error replaced by the text that it carries.
pub open spec fn outcome<T>(r: Result<T, ConversionError>) -> Result<T, Seq<char>> {
    match r {
        Ok(v) => Ok(v),
        Err(e) => Err(e.0@),
    }
}

/// The standard form of a lemma: `-ant` stems end in `-at`, a final `-ay`
/// is dropped, and three pronoun stems are renamed.
pub open spec fn lemma_of(l: Seq<char>) -> Seq<char> {
    if has_suffix(l, "ant"@) {
        l.subrange(0, l.len() - "ant"@.len()) + "at"@
    } else if has_suffix(l, "ay"@) {
        l.subrange(0, l.len() - "ay"@.len())
    } else if l == "mad"@ {
        "asmad"@
    } else if l == "tvad"@ {
        "yuzmad"@
    } else if l == "ka"@ {
        "kim"@
    } else {
        l
    }
}

/// The participle tense that a `Tense` value gives.
pub open spec fn tense_of(v: Option<Seq<char>>) -> Result<StemTense, Seq<char>> {
    match v {
        None => Ok(StemTense::Unknown),
        Some(x) => if x == "Pres"@ {
            Ok(StemTense::Present)
        } else if x == "Past"@ {
            Ok(StemTense::Past)
        } else if x == "Fut"@ {
            Ok(StemTense::Future)
        } else {
            Err(x)
        },
    }
}

/// The gender that a `Gender` value gives.
pub open spec fn linga_of(v: Option<Seq<char>>) -> Result<Linga, Seq<char>> {
    match v {
        None => Ok(Linga::Unknown),
        Some(x) => if x == "Masc"@ {
            Ok(Linga::Pum)
        } else if x == "Fem"@ {
            Ok(Linga::Stri)
        } else if x == "Neut"@ {
            Ok(Linga::Napumsaka)
        } else {
            Err(x)
        },
    }
}

/// The case that a `Case` value gives.
pub open spec fn vibhakti_of(v: Option<Seq<char>>) -> Result<Vibhakti, Seq<char>> {
    match v {
        None => Ok(Vibhakti::Unknown),
        Some(x) => if x == "Nom"@ {
            Ok(Vibhakti::V1)
        } else if x == "Acc"@ {
            Ok(Vibhakti::V2)
        } else if x == "Ins"@ {
            Ok(Vibhakti::V3)
        } else if x == "Dat"@ {
            Ok(Vibhakti::V4)
        } else if x == "Abl"@ {
            Ok(Vibhakti::V5)
        } else if x == "Gen"@ {
            Ok(Vibhakti::V6)
        } else if x == "Loc"@ {
            Ok(Vibhakti::V7)
        } else if x == "Voc"@ {
            Ok(Vibhakti::Sambodhana)
        } else if x == "Cpd"@ {
            Ok(Vibhakti::Unknown)
        } else {
            Err(x)
        },
    }
}

/// Whether a `Case` value marks the first member of a compound.
pub open spec fn purvapada_of(v: Option<Seq<char>>) -> bool {
    v == Some("Cpd"@)
}

/// The person that a `Person` value gives.
pub open spec fn purusha_of(v: Option<Seq<char>>) -> Result<Purusha, Seq<char>> {
    match v {
        None => Ok(Purusha::Unknown),
        Some(x) => if x == "3"@ {
            Ok(Purusha::Prathama)
        } else if x == "2"@ {
            Ok(Purusha::Madhyama)
        } else if x == "1"@ {
            Ok(Purusha::Uttama)
        } else {
            Err(x)
        },
    }
}

/// The number that a `Number` value gives.
pub open spec fn vacana_of(v: Option<Seq<char>>) -> Result<Vacana, Seq<char>> {
    match v {
        None => Ok(Vacana::Unknown),
        Some(x) => if x == "Sing"@ {
            Ok(Vacana::Eka)
        } else if x == "Dual"@ {
            Ok(Vacana::Dvi)
        } else if x == "Plur"@ {
            Ok(Vacana::Bahu)
        } else {
            Err(x)
        },
    }
}

/// The tense and mood that `Tense` and `Mood` values give together.
pub open spec fn lakara_of(tense: Option<Seq<char>>, mood: Option<Seq<char>>) -> Result<
    Lakara,
    Seq<char>,
> {
    match (tense, mood) {
        (None, _) => Err("`Tense` not found"@),
        (Some(_), None) => Err("`Mood` not found"@),
        (Some(t), Some(m)) => Ok(
            if t == "Aor"@ && m == "Ind"@ {
                Lakara::Lun
            } else if t == "Aor"@ && m == "Jus"@ {
                Lakara::LunNoAgama
            } else if t == "Aor"@ && m == "Prec"@ {
                Lakara::LinAshih
            } else if t == "Fut"@ && m == "Cond"@ {
                Lakara::Lrn
            } else if t == "Fut"@ && m == "Ind"@ {
                Lakara::Lrt
            } else if t == "Impf"@ && m == "Ind"@ {
                Lakara::Lan
            } else if t == "Perf"@ && m == "Ind"@ {
                Lakara::Lit
            } else if t == "Pres"@ && (m == "Imp"@ || m == "Sub"@) {
                Lakara::Lot
            } else if t == "Pres"@ && m == "Ind"@ {
                Lakara::Lat
            } else if t == "Pres"@ && m == "Opt"@ {
                Lakara::LinVidhi
            } else {
                Lakara::Unknown
            },
        ),
    }
}

/// The first of the given outcomes that failed, with its text.
pub open spec fn first_error(a: Result<(), Seq<char>>, b: Result<(), Seq<char>>, c: Result<(), Seq<char>>) -> Option<Seq<char>> {
    if a is Err {
        Some(a->Err_0)
    } else if b is Err {
        Some(b->Err_0)
    } else if c is Err {
        Some(c->Err_0)
    } else {
        None
    }
}

/// An outcome with its value forgotten.
pub open spec fn unit<T>(r: Result<T, Seq<char>>) -> Result<(), Seq<char>> {
    match r {
        Ok(_) => Ok(()),
        Err(e) => Err(e),
    }
}

/// The error of a nominal's features: gender, then case, then number.
pub open spec fn subanta_error(f: Seq<PairView>) -> Option<Seq<char>> {
    first_error(
        unit(linga_of(feature(f, "Gender"@))),
        unit(vibhakti_of(feature(f, "Case"@))),
        unit(vacana_of(feature(f, "Number"@))),
    )
}

/// The gender, case, number and compound flag of `s` are those of `f`.
pub open spec fn nominal_fields_match(s: Subanta, f: Seq<PairView>) -> bool {
    &&& linga_of(feature(f, "Gender"@)) == Ok::<Linga, Seq<char>>(s.linga)
    &&& vibhakti_of(feature(f, "Case"@)) == Ok::<Vibhakti, Seq<char>>(s.vibhakti)
    &&& vacana_of(feature(f, "Number"@)) == Ok::<Vacana, Seq<char>>(s.vacana)
    &&& s.is_purvapada == purvapada_of(feature(f, "Case"@))
}

/// `r` is what reshaping `t` as a plain nominal gives.
pub open spec fn subanta_result(t: Token, r: Result<Semantics, ConversionError>) -> bool {
    match r {
        Ok(Semantics::Subanta(s)) => {
            &&& subanta_error(t.features@) is None
            &&& nominal_fields_match(s, t.features@)
            &&& s.stem matches Stem::Basic { stem, lingas }
            &&& stem@ == lemma_of(t.lemma@)
            &&& lingas@.len() == 0
        },
        Ok(_) => false,
        Err(e) => subanta_error(t.features@) == Some(e.0@),
    }
}

/// The error of a participle's features: tense first, then as a nominal.
pub open spec fn participle_error(f: Seq<PairView>) -> Option<Seq<char>> {
    if tense_of(feature(f, "Tense"@)) is Err {
        Some(tense_of(feature(f, "Tense"@))->Err_0)
    } else {
        subanta_error(f)
    }
}

/// `r` is what reshaping `t` as a participle gives.
pub open spec fn participle_result(t: Token, r: Result<Semantics, ConversionError>) -> bool {
    match r {
        Ok(Semantics::Subanta(s)) => {
            &&& participle_error(t.features@) is None
            &&& nominal_fields_match(s, t.features@)
            &&& s.stem matches Stem::Krdanta { root, tense, prayoga }
            &&& root@ == lemma_of(t.lemma@)
            &&& tense_of(feature(t.features@, "Tense"@)) == Ok::<StemTense, Seq<char>>(tense)
            &&& prayoga == StemPrayoga::Unknown
        },
        Ok(_) => false,
        Err(e) => participle_error(t.features@) == Some(e.0@),
    }
}

/// The error of a finite verb's features: person, number, tense and mood.
pub open spec fn verb_error(f: Seq<PairView>) -> Option<Seq<char>> {
    first_error(
        unit(purusha_of(feature(f, "Person"@))),
        unit(vacana_of(feature(f, "Number"@))),
        unit(lakara_of(feature(f, "Tense"@), feature(f, "Mood"@))),
    )
}

/// `r` is what reshaping `t` as a finite verb gives.
pub open spec fn verb_result(t: Token, r: Result<Semantics, ConversionError>) -> bool {
    match r {
        Ok(Semantics::Tinanta(v)) => {
            &&& verb_error(t.features@) is None
            &&& v.root@ == lemma_of(t.lemma@)
            &&& purusha_of(feature(t.features@, "Person"@)) == Ok::<Purusha, Seq<char>>(v.purusha)
            &&& vacana_of(feature(t.features@, "Number"@)) == Ok::<Vacana, Seq<char>>(v.vacana)
            &&& lakara_of(feature(t.features@, "Tense"@), feature(t.features@, "Mood"@)) == Ok::<
                Lakara,
                Seq<char>,
            >(v.lakara)
            &&& v.pada == VerbPada::Unknown
        },
        Ok(_) => false,
        Err(e) => verb_error(t.features@) == Some(e.0@),
    }
}

/// Categories of inflected nominals.
pub open spec fn is_nominal(u: Seq<char>) -> bool {
    u == "NOUN"@ || u == "PRON"@ || u == "ADJ"@ || u == "PART"@ || u == "NUM"@
}

/// Categories of indeclinables.
pub open spec fn is_indeclinable(u: Seq<char>) -> bool {
    u == "CCONJ"@ || u == "SCONJ"@ || u == "ADV"@
}

/// The categories that can be standardized.
pub open spec fn is_known_category(u: Seq<char>) -> bool {
    is_nominal(u) || is_indeclinable(u) || u == "VERB"@ || u == "MANTRA"@
}

proof fn lemma_categories_distinct(u: Seq<char>)
    ensures
        is_nominal(u) ==> !is_indeclinable(u) && u != "VERB"@ && u != "MANTRA"@,
        is_indeclinable(u) ==> u != "VERB"@ && u != "MANTRA"@,
        u == "VERB"@ ==> u != "MANTRA"@,
{
    reveal_strlit("NOUN");
    reveal_strlit("PRON");
    reveal_strlit("ADJ");
    reveal_strlit("PART");
    reveal_strlit("NUM");
    reveal_strlit("CCONJ");
    reveal_strlit("SCONJ");
    reveal_strlit("ADV");
    reveal_strlit("VERB");
    reveal_strlit("MANTRA");
    assert("ADJ"@[2] != "ADV"@[2]);
    assert("NUM"@[0] != "ADV"@[0]);
    assert("NOUN"@[0] != "VERB"@[0]);
    assert("PRON"@[0] != "VERB"@[0]);
    assert("PART"@[0] != "VERB"@[0]);
    assert("CCONJ"@.len() != "VERB"@.len() && "CCONJ"@.len() != "MANTRA"@.len());
    assert("SCONJ"@.len() != "VERB"@.len() && "SCONJ"@.len() != "MANTRA"@.len());
    assert("ADV"@.len() != "VERB"@.len() && "ADV"@.len() != "MANTRA"@.len());
}

/// Whether `u` is a category that `standardize` accepts; any other stops
/// the caller.
pub fn is_known_upos(u: &str) -> (r: bool)
    ensures
        r == is_known_category(u@),
{
    same_text(u, "NOUN") || same_text(u, "PRON") || same_text(u, "ADJ") || same_text(u, "PART")
        || same_text(u, "NUM") || same_text(u, "CCONJ") || same_text(u, "SCONJ") || same_text(
        u,
        "ADV",
    ) || same_text(u, "VERB") || same_text(u, "MANTRA")
}

/// The semantics of a standardization outcome.
pub open spec fn semantics_of(r: Result<ParsedWord, ConversionError>) -> Result<Semantics, ConversionError> {
    match r {
        Ok(w) => Ok(w.semantics),
        Err(e) => Err(e),
    }
}

/// Converts a corpus token into a standardized word: its lemma in standard
/// form and its semantics, read from its category and features. Fails on
/// the first feature value that cannot be understood. An unknown category
/// is outside the domain: callers stop before it.
pub fn standardize(t: &Token) -> (r: Result<ParsedWord, ConversionError>)
    requires
        is_known_category(t.upos@),
    ensures
        r matches Ok(w) ==> w.text@ == lemma_of(t.lemma@),
        is_nominal(t.upos@) ==> subanta_result(*t, semantics_of(r)),
        is_indeclinable(t.upos@) ==> (r matches Ok(w) && w.semantics is Avyaya),
        t.upos@ == "VERB"@ && feature(t.features@, "VerbForm"@) is Some ==> participle_result(
            *t,
            semantics_of(r),
        ),
        t.upos@ == "VERB"@ && feature(t.features@, "VerbForm"@) is None ==> verb_result(
            *t,
            semantics_of(r),
        ),
        t.upos@ == "MANTRA"@ ==> (r matches Ok(w) && w.semantics is Unanalyzed),
{
    proof {
        lemma_categories_distinct(t.upos@);
    }
    let u = t.upos.as_str();
    let semantics = if same_text(u, "NOUN") || same_text(u, "PRON") || same_text(u, "ADJ")
        || same_text(u, "PART") || same_text(u, "NUM") {
        match parse_subanta(t) {
            Ok(s) => s,
            Err(e) => return Err(e),
        }
    } else if same_text(u, "CCONJ") || same_text(u, "SCONJ") || same_text(u, "ADV") {
        Semantics::Avyaya
    } else if same_text(u, "VERB") {
        if t.features.contains_key("VerbForm") {
            match parse_participle(t) {
                Ok(s) => s,
                Err(e) => return Err(e),
            }
        } else {
            match parse_verb(t) {
                Ok(s) => s,
                Err(e) => return Err(e),
            }
        }
    } else if same_text(u, "MANTRA") {
        Semantics::Unanalyzed
    } else {
        unreached()
    };
    Ok(ParsedWord { text: standardize_lemma(t.lemma.as_str()), semantics })
}

/// The standard form of a lemma given in SLP1.
pub fn standardize_lemma(lemma: &str) -> (r: String)
    ensures
        r@ == lemma_of(lemma@),
{
    let n = lemma.unicode_len();
    if ends_with(lemma, "ant") {
        let m = "ant".unicode_len();
        return String::from_str(lemma.substring_char(0, n - m)).concat("at");
    }
    if ends_with(lemma, "ay") {
        let m = "ay".unicode_len();
        return String::from_str(lemma.substring_char(0, n - m));
    }
    if same_text(lemma, "mad") {
        String::from_str("asmad")
    } else if same_text(lemma, "tvad") {
        String::from_str("yuzmad")
    } else if same_text(lemma, "ka") {
        String::from_str("kim")
    } else {
        String::from_str(lemma)
    }
}

/// Reshapes a nominal token.
pub fn parse_subanta(t: &Token) -> (r: Result<Semantics, ConversionError>)
    ensures
        subanta_result(*t, r),
{
    let stem = parse_stem(t);
    let linga = match parse_linga(&t.features) {
        Ok(v) => v,
        Err(e) => return Err(e),
    };
    let vibhakti = match parse_vibhakti(&t.features) {
        Ok(v) => v,
        Err(e) => return Err(e),
    };
    let vacana = match parse_vacana(&t.features) {
        Ok(v) => v,
        Err(e) => return Err(e),
    };
    let is_purvapada = parse_is_purvapada(&t.features);
    Ok(Semantics::Subanta(Subanta { stem, linga, vacana, vibhakti, is_purvapada }))
}

/// Reshapes a finite verb token.
pub fn parse_verb(t: &Token) -> (r: Result<Semantics, ConversionError>)
    ensures
        verb_result(*t, r),
{
    let root = standardize_lemma(t.lemma.as_str());
    let purusha = match parse_purusha(&t.features) {
        Ok(v) => v,
        Err(e) => return Err(e),
    };
    let vacana = match parse_vacana(&t.features) {
        Ok(v) => v,
        Err(e) => return Err(e),
    };
    let lakara = match parse_lakara(&t.features) {
        Ok(v) => v,
        Err(e) => return Err(e),
    };
    let pada = parse_verb_pada(&t.features);
    Ok(Semantics::Tinanta(Tinanta { root, purusha, vacana, lakara, pada }))
}

/// Reshapes a participle token.
pub fn parse_participle(t: &Token) -> (r: Result<Semantics, ConversionError>)
    ensures
        participle_result(*t, r),
{
    let tense = match parse_tense(&t.features) {
        Ok(v) => v,
        Err(e) => return Err(e),
    };
    let stem = Stem::Krdanta {
        root: standardize_lemma(t.lemma.as_str()),
        tense,
        prayoga: StemPrayoga::Unknown,
    };
    let linga = match parse_linga(&t.features) {
        Ok(v) => v,
        Err(e) => return Err(e),
    };
    let vibhakti = match parse_vibhakti(&t.features) {
        Ok(v) => v,
        Err(e) => return Err(e),
    };
    let vacana = match parse_vacana(&t.features) {
        Ok(v) => v,
        Err(e) => return Err(e),
    };
    let is_purvapada = parse_is_purvapada(&t.features);
    Ok(Semantics::Subanta(Subanta { stem, linga, vacana, vibhakti, is_purvapada }))
}

/// The basic stem of a nominal token.
pub fn parse_stem(t: &Token) -> (r: Stem)
    ensures
        r matches Stem::Basic { stem, lingas } && stem@ == lemma_of(t.lemma@) && lingas@.len()
            == 0,
{
    Stem::Basic { stem: standardize_lemma(t.lemma.as_str()), lingas: Vec::new() }
}

/// The participle tense of the `Tense` feature.
pub fn parse_tense(f: &TokenFeatures) -> (r: Result<StemTense, ConversionError>)
    ensures
        outcome(r) == tense_of(feature(f@, "Tense"@)),
{
    match f.get("Tense") {
        Some(s) => {
            let s = s.as_str();
            if same_text(s, "Pres") {
                Ok(StemTense::Present)
            } else if same_text(s, "Past") {
                Ok(StemTense::Past)
            } else if same_text(s, "Fut") {
                Ok(StemTense::Future)
            } else {
                Err(ConversionError::new(s))
            }
        },
        None => Ok(StemTense::Unknown),
    }
}

/// The gender of the `Gender` feature.
pub fn parse_linga(f: &TokenFeatures) -> (r: Result<Linga, ConversionError>)
    ensures
        outcome(r) == linga_of(feature(f@, "Gender"@)),
{
    match f.get("Gender") {
        Some(s) => {
            let s = s.as_str();
            if same_text(s, "Masc") {
                Ok(Linga::Pum)
            } else if same_text(s, "Fem") {
                Ok(Linga::Stri)
            } else if same_text(s, "Neut") {
                Ok(Linga::Napumsaka)
            } else {
                Err(ConversionError::new(s))
            }
        },
        None => Ok(Linga::Unknown),
    }
}

/// The case of the `Case` feature.
pub fn parse_vibhakti(f: &TokenFeatures) -> (r: Result<Vibhakti, ConversionError>)
    ensures
        outcome(r) == vibhakti_of(feature(f@, "Case"@)),
{
    match f.get("Case") {
        Some(s) => {
            let s = s.as_str();
            if same_text(s, "Nom") {
                Ok(Vibhakti::V1)
            } else if same_text(s, "Acc") {
                Ok(Vibhakti::V2)
            } else if same_text(s, "Ins") {
                Ok(Vibhakti::V3)
            } else if same_text(s, "Dat") {
                Ok(Vibhakti::V4)
            } else if same_text(s, "Abl") {
                Ok(Vibhakti::V5)
            } else if same_text(s, "Gen") {
                Ok(Vibhakti::V6)
            } else if same_text(s, "Loc") {
                Ok(Vibhakti::V7)
            } else if same_text(s, "Voc") {
                Ok(Vibhakti::Sambodhana)
            } else if same_text(s, "Cpd") {
                Ok(Vibhakti::Unknown)
            } else {
                Err(ConversionError::new(s))
            }
        },
        None => Ok(Vibhakti::Unknown),
    }
}

/// Whether the `Case` feature marks the first member of a compound.
pub fn parse_is_purvapada(f: &TokenFeatures) -> (r: bool)
    ensures
        r == purvapada_of(feature(f@, "Case"@)),
{
    match f.get("Case") {
        Some(s) => same_text(s.as_str(), "Cpd"),
        None => false,
    }
}

/// The person of the `Person` feature.
pub fn parse_purusha(f: &TokenFeatures) -> (r: Result<Purusha, ConversionError>)
    ensures
        outcome(r) == purusha_of(feature(f@, "Person"@)),
{
    match f.get("Person") {
        Some(s) => {
            let s = s.as_str();
            if same_text(s, "3") {
                Ok(Purusha::Prathama)
            } else if same_text(s, "2") {
                Ok(Purusha::Madhyama)
            } else if same_text(s, "1") {
                Ok(Purusha::Uttama)
            } else {
                Err(ConversionError::new(s))
            }
        },
        None => Ok(Purusha::Unknown),
    }
}

/// The number of the `Number` feature.
pub fn parse_vacana(f: &TokenFeatures) -> (r: Result<Vacana, ConversionError>)
    ensures
        outcome(r) == vacana_of(feature(f@, "Number"@)),
{
    match f.get("Number") {
        Some(s) => {
            let s = s.as_str();
            if same_text(s, "Sing") {
                Ok(Vacana::Eka)
            } else if same_text(s, "Dual") {
                Ok(Vacana::Dvi)
            } else if same_text(s, "Plur") {
                Ok(Vacana::Bahu)
            } else {
                Err(ConversionError::new(s))
            }
        },
        None => Ok(Vacana::Unknown),
    }
}

/// The tense and mood of the `Tense` and `Mood` features.
pub fn parse_lakara(f: &TokenFeatures) -> (r: Result<Lakara, ConversionError>)
    ensures
        outcome(r) == lakara_of(feature(f@, "Tense"@), feature(f@, "Mood"@)),
{
    let tense = match f.get("Tense") {
        Some(s) => s.as_str(),
        None => return Err(ConversionError::new("`Tense` not found")),
    };
    let mood = match f.get("Mood") {
        Some(s) => s.as_str(),
        None => return Err(ConversionError::new("`Mood` not found")),
    };
    let val = if same_text(tense, "Aor") && same_text(mood, "Ind") {
        Lakara::Lun
    } else if same_text(tense, "Aor") && same_text(mood, "Jus") {
        Lakara::LunNoAgama
    } else if same_text(tense, "Aor") && same_text(mood, "Prec") {
        Lakara::LinAshih
    } else if same_text(tense, "Fut") && same_text(mood, "Cond") {
        Lakara::Lrn
    } else if same_text(tense, "Fut") && same_text(mood, "Ind") {
        Lakara::Lrt
    } else if same_text(tense, "Impf") && same_text(mood, "Ind") {
        Lakara::Lan
    } else if same_text(tense, "Perf") && same_text(mood, "Ind") {
        Lakara::Lit
    } else if same_text(tense, "Pres") && (same_text(mood, "Imp") || same_text(mood, "Sub")) {
        Lakara::Lot
    } else if same_text(tense, "Pres") && same_text(mood, "Ind") {
        Lakara::Lat
    } else if same_text(tense, "Pres") && same_text(mood, "Opt") {
        Lakara::LinVidhi
    } else {
        Lakara::Unknown
    };
    Ok(val)
}

/// The voice of a finite verb; the corpus does not mark it.
pub fn parse_verb_pada(f: &TokenFeatures) -> (r: VerbPada)
    ensures
        r == VerbPada::Unknown,
{
    VerbPada::Unknown
}

} // verus!
