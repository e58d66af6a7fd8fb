//! The typed session tree: values, measurements, sections, the session
//! document, and the title/label-keyed query API over it.

use vstd::prelude::*;
use crate::strutil::{str_eq, string_eq_str};

verus! {

// ---------------------------------------------------------------------------
// Leaf values
// ---------------------------------------------------------------------------

/// A numeric datum: caption, optional physical unit, stable label, raw text.
#[derive(Debug, Clone, PartialEq, Eq)]
pub struct NumberValue {
    pub text: String,
    pub unit: Option<String>,
    pub label: String,
    pub value: String,
}

/// A textual datum: caption, stable label, optional raw text.
#[derive(Debug, Clone, PartialEq, Eq)]
pub struct AlphaValue {
    pub text: String,
    pub label: String,
    pub value: Option<String>,
}

/// A reported datum, either numeric or textual.
#[derive(Debug, Clone, PartialEq, Eq)]
pub enum ValueEnum {
    Num(NumberValue),
    Alpha(AlphaValue),
}

impl ValueEnum {
    /// The stable identity of the datum.
    pub open spec fn spec_label(self) -> Seq<char> {
        match self {
            ValueEnum::Num(n) => n.label@,
            ValueEnum::Alpha(a) => a.label@,
        }
    }

    /// The human caption of the datum.
    pub open spec fn spec_text(self) -> Seq<char> {
        match self {
            ValueEnum::Num(n) => n.text@,
            ValueEnum::Alpha(a) => a.text@,
        }
    }

    /// The physical unit; a textual datum never carries one.
    pub open spec fn spec_unit(self) -> Option<String> {
        match self {
            ValueEnum::Num(n) => n.unit,
            ValueEnum::Alpha(_) => None,
        }
    }

    /// The raw value; absent only for a textual datum with empty content.
    pub open spec fn spec_value(self) -> Option<String> {
        match self {
            ValueEnum::Num(n) => Some(n.value),
            ValueEnum::Alpha(a) => a.value,
        }
    }

    pub fn get_label(&self) -> (r: &String)
        ensures
            r@ == self.spec_label(),
    {
        match self {
            ValueEnum::Num(n) => &n.label,
            ValueEnum::Alpha(a) => &a.label,
        }
    }

    pub fn get_text(&self) -> (r: &String)
        ensures
            r@ == self.spec_text(),
    {
        match self {
            ValueEnum::Num(n) => &n.text,
            ValueEnum::Alpha(a) => &a.text,
        }
    }

    pub fn get_unit(&self) -> (r: Option<&String>)
        ensures
            r matches Some(u) ==> self.spec_unit() == Some(*u),
            r is None ==> self.spec_unit() is None,
    {
        match self {
            ValueEnum::Num(n) => n.unit.as_ref(),
            ValueEnum::Alpha(_) => None,
        }
    }

    pub fn get_value(&self) -> (r: Option<&String>)
        ensures
            r matches Some(v) ==> self.spec_value() == Some(*v),
            r is None ==> self.spec_value() is None,
    {
        match self {
            ValueEnum::Num(n) => Some(&n.value),
            ValueEnum::Alpha(a) => a.value.as_ref(),
        }
    }
}

// ---------------------------------------------------------------------------
// Measurements
// ---------------------------------------------------------------------------

/// A coding record: values only, no nested measurements.
#[derive(Debug, PartialEq)]
pub struct MeasurementCoding {
    pub title: String,
    pub values: Option<Vec<ValueEnum>>,
}

/// An identification record: values only, no nested measurements.
#[derive(Debug, PartialEq)]
pub struct MeasurementIdentification {
    pub title: String,
    pub values: Option<Vec<ValueEnum>>,
}

/// A measured-values record: values only, no nested measurements.
#[derive(Debug, PartialEq)]
pub struct MeasurementMeasuredValues {
    pub title: String,
    pub values: Option<Vec<ValueEnum>>,
}

/// A fault record: the one shape that may nest further measurements.
#[derive(Debug, PartialEq)]
pub struct MeasurementMistake {
    pub title: String,
    pub values: Option<Vec<ValueEnum>>,
    pub measurements: Option<Vec<Measurement>>,
}

/// An extended-fault-memory record: values only, no nested measurements.
#[derive(Debug, PartialEq)]
pub struct MeasurementExtendedErrorMemory {
    pub title: String,
    pub values: Option<Vec<ValueEnum>>,
}

/// One diagnostic record, discriminated by the source element's object tag.
#[derive(Debug, PartialEq)]
pub enum Measurement {
    Codierung(MeasurementCoding),
    Identifikation(MeasurementIdentification),
    Fehler(MeasurementMistake),
    Messwerte(MeasurementMeasuredValues),
    ErweiterterFehlerspeicher(MeasurementExtendedErrorMemory),
}

impl Measurement {
    pub open spec fn spec_title(self) -> Seq<char> {
        match self {
            Measurement::Codierung(m) => m.title@,
            Measurement::Identifikation(m) => m.title@,
            Measurement::Fehler(m) => m.title@,
            Measurement::Messwerte(m) => m.title@,
            Measurement::ErweiterterFehlerspeicher(m) => m.title@,
        }
    }

    pub open spec fn spec_values(self) -> Option<Seq<ValueEnum>> {
        match self {
            Measurement::Codierung(m) => spec_opt_seq(m.values),
            Measurement::Identifikation(m) => spec_opt_seq(m.values),
            Measurement::Fehler(m) => spec_opt_seq(m.values),
            Measurement::Messwerte(m) => spec_opt_seq(m.values),
            Measurement::ErweiterterFehlerspeicher(m) => spec_opt_seq(m.values),
        }
    }

    /// Only the fault shape carries nested measurements.
    pub open spec fn spec_submeasurements(self) -> Option<Seq<Measurement>> {
        match self {
            Measurement::Fehler(m) => match m.measurements {
                Some(ms) => Some(ms@),
                None => None,
            },
            _ => None,
        }
    }

    pub fn get_title(&self) -> (r: &String)
        ensures
            r@ == self.spec_title(),
    {
        match self {
            Measurement::Codierung(m) => &m.title,
            Measurement::Identifikation(m) => &m.title,
            Measurement::Fehler(m) => &m.title,
            Measurement::Messwerte(m) => &m.title,
            Measurement::ErweiterterFehlerspeicher(m) => &m.title,
        }
    }

    pub fn get_values(&self) -> (r: Option<&Vec<ValueEnum>>)
        ensures
            r matches Some(v) ==> self.spec_values() == Some(v@),
            r is None ==> self.spec_values() is None,
    {
        match self {
            Measurement::Codierung(m) => m.values.as_ref(),
            Measurement::Identifikation(m) => m.values.as_ref(),
            Measurement::Fehler(m) => m.values.as_ref(),
            Measurement::Messwerte(m) => m.values.as_ref(),
            Measurement::ErweiterterFehlerspeicher(m) => m.values.as_ref(),
        }
    }

    pub fn get_submeasurements(&self) -> (r: Option<&Vec<Measurement>>)
        ensures
            r matches Some(v) ==> self.spec_submeasurements() == Some(v@),
            r is None ==> self.spec_submeasurements() is None,
    {
        match self {
            Measurement::Fehler(m) => m.measurements.as_ref(),
            _ => None,
        }
    }

    /// First direct value with the given label, in document order.
    pub fn get_value_by_label<'a>(&'a self, label: &String) -> (r: Option<&'a ValueEnum>)
        ensures
            r matches Some(v) ==> {
                &&& self.spec_values() matches Some(vs)
                &&& spec_find_value(vs, label@) == Some(*v)
            },
            r is None ==> match self.spec_values() {
                Some(vs) => spec_find_value(vs, label@) is None,
                None => true,
            },
    {
        match self.get_values() {
            Some(values) => find_value_by_label(values, label),
            None => None,
        }
    }

    /// First direct nested measurement with the given title; `None` for every
    /// shape but the fault record.
    pub fn get_submeasurement_by_title<'a>(&'a self, title: &String) -> (r: Option<
        &'a Measurement,
    >)
        ensures
            r matches Some(m) ==> {
                &&& self.spec_submeasurements() matches Some(ms)
                &&& spec_find_measurement(ms, title@) == Some(*m)
            },
            r is None ==> match self.spec_submeasurements() {
                Some(ms) => spec_find_measurement(ms, title@) is None,
                None => true,
            },
    {
        match self.get_submeasurements() {
            Some(ms) => get_measurement_by_title(ms, title),
            None => None,
        }
    }
}

pub open spec fn spec_opt_seq(v: Option<Vec<ValueEnum>>) -> Option<Seq<ValueEnum>> {
    match v {
        Some(vs) => Some(vs@),
        None => None,
    }
}

pub open spec fn spec_opt_seq_m(v: Option<Vec<Measurement>>) -> Option<Seq<Measurement>> {
    match v {
        Some(ms) => Some(ms@),
        None => None,
    }
}

// ---------------------------------------------------------------------------
// Sections
// ---------------------------------------------------------------------------

/// An electronic-control-unit section: a title and its measurements.
#[derive(Debug, PartialEq)]
pub struct ECUSection {
    pub title: String,
    pub measurements: Vec<Measurement>,
}

/// A top-level grouping of measurements, discriminated by an object tag.
/// Currently the only recognized shape is the ECU section.
#[derive(Debug, PartialEq)]
pub enum Section {
    ECU(ECUSection),
}

impl Section {
    pub open spec fn spec_title(self) -> Seq<char> {
        match self {
            Section::ECU(s) => s.title@,
        }
    }

    pub open spec fn spec_measurements(self) -> Seq<Measurement> {
        match self {
            Section::ECU(s) => s.measurements@,
        }
    }

    pub fn get_title(&self) -> (r: &String)
        ensures
            r@ == self.spec_title(),
    {
        match self {
            Section::ECU(section) => &section.title,
        }
    }

    pub fn get_measurements(&self) -> (r: &Vec<Measurement>)
        ensures
            r@ == self.spec_measurements(),
    {
        match self {
            Section::ECU(section) => &section.measurements,
        }
    }

    /// First direct measurement with the given title, in document order.
    pub fn get_measurement_by_title<'a>(&'a self, title: &String) -> (r: Option<&'a Measurement>)
        ensures
            r matches Some(m) ==> spec_find_measurement(self.spec_measurements(), title@) == Some(
                *m,
            ),
            r is None ==> spec_find_measurement(self.spec_measurements(), title@) is None,
    {
        match self {
            Section::ECU(section) => get_measurement_by_title(&section.measurements, title),
        }
    }
}

// ---------------------------------------------------------------------------
// Session metadata records
// ---------------------------------------------------------------------------

/// The diagnosis-address record of a session.
#[derive(Debug, Clone, PartialEq, Eq)]
pub struct DiagnosisAddress {
    pub coding_order: String,
    pub ivd: String,
    pub sfd: String,
    pub value: String,
}

/// One request/response parameter.
#[derive(Debug, Clone, PartialEq, Eq)]
pub struct Parameter {
    pub short_name: String,
    pub value: String,
    pub xml_space: Option<String>,
}

/// A service request: raw value plus optional parameters.
#[derive(Debug, Clone, PartialEq, Eq)]
pub struct Request {
    pub value: Option<String>,
    pub(crate) parameter: Option<Vec<Parameter>>,
}

/// A service response: raw value plus optional parameters.
#[derive(Debug, Clone, PartialEq, Eq)]
pub struct Response {
    pub value: Option<String>,
    pub(crate) parameter: Option<Vec<Parameter>>,
}

/// A commentary block.
#[derive(Debug, Clone, PartialEq, Eq)]
pub struct Kommentar {
    pub xml_space: String,
    pub value: Option<String>,
}

/// One wait-list entry.
#[derive(Debug, Clone, PartialEq, Eq)]
pub struct Warten {
    pub id: String,
    pub value: String,
}

/// A short-name service record.
#[derive(Debug, Clone, PartialEq, Eq)]
pub struct ShortNameService {
    pub id: String,
    pub phase: String,
    pub phase_detail: String,
    pub mode: Option<String>,
    pub bewertung: Option<String>,
    pub kommentar: Kommentar,
    pub request: Request,
    pub response: Option<Response>,
}

/// One human-translation entry: a parameter name mapped to byte offsets,
/// bit lengths and hex values.  Carried through, not interpreted.
#[derive(Debug, Clone, PartialEq, Eq)]
pub struct Translations {
    pub parameter_name: String,
    pub byte_position: String,
    pub lsb: String,
    pub bit_length: String,
    pub hex_value: String,
    pub value: String,
}

/// The translation table of the root hex service.
#[derive(Debug, Clone, PartialEq, Eq)]
pub struct HumanTranslations {
    pub service_id: Option<String>,
    pub rd_identifier: Option<String>,
    pub service_name: Option<String>,
    pub translations: Option<Vec<Translations>>,
}

/// The root diagnostic-service record owning the section tree.
#[derive(Debug, PartialEq)]
pub struct HexService {
    pub id: String,
    pub phase: String,
    pub phase_detail: String,
    pub did: Option<String>,
    pub bewertung: String,
    pub kommentar: Kommentar,
    pub request: String,
    pub expected_value: Option<String>,
    pub response: Option<String>,
    pub human_translations: HumanTranslations,
    pub sections: Vec<Section>,
}

/// The full parsed diagnostic export for one vehicle visit.
#[derive(Debug, PartialEq)]
pub struct ZdcSession {
    pub xmlns: String,
    pub zdc_file: String,
    pub datei_id: String,
    pub version_inhalt: String,
    pub diagnosis_address: DiagnosisAddress,
    pub short_name_service: Vec<ShortNameService>,
    pub warten: Vec<Warten>,
    pub hex_service: HexService,
}

impl ZdcSession {
    /// First section with the given title, in document order.
    pub fn get_section_by_title<'a>(&'a self, title: &str) -> (r: Option<&'a Section>)
        ensures
            r matches Some(s) ==> spec_find_section(self.hex_service.sections@, title@) == Some(
                *s,
            ),
            r is None ==> spec_find_section(self.hex_service.sections@, title@) is None,
    {
        let sections = &self.hex_service.sections;
        let n = sections.len();
        let mut i: usize = 0;
        proof {
            assert(sections@.skip(0) =~= sections@);
        }
        while i < n
            invariant
                sections@ == self.hex_service.sections@,
                n == sections@.len(),
                i <= n,
                spec_find_section(sections@, title@) == spec_find_section(
                    sections@.skip(i as int),
                    title@,
                ),
            decreases n - i,
        {
            if str_eq(sections[i].get_title().as_str(), title) {
                proof {
                    assert(sections@.skip(i as int)[0] == sections@[i as int]);
                }
                return Some(&sections[i]);
            }
            proof {
                lemma_find_section_skip(sections@, title@, i as int);
            }
            i += 1;
        }
        proof {
            assert(sections@.skip(n as int) =~= Seq::<Section>::empty());
        }
        None
    }
}

// ---------------------------------------------------------------------------
// Linear lookup: spec models and verified scans
// ---------------------------------------------------------------------------

/// The first section of `ss` whose title is `title`.
pub open spec fn spec_find_section(ss: Seq<Section>, title: Seq<char>) -> Option<Section>
    decreases ss.len(),
{
    if ss.len() == 0 {
        None
    } else if ss[0].spec_title() == title {
        Some(ss[0])
    } else {
        spec_find_section(ss.drop_first(), title)
    }
}

/// The first measurement of `ms` whose title is `title`.
pub open spec fn spec_find_measurement(ms: Seq<Measurement>, title: Seq<char>) -> Option<
    Measurement,
>
    decreases ms.len(),
{
    if ms.len() == 0 {
        None
    } else if ms[0].spec_title() == title {
        Some(ms[0])
    } else {
        spec_find_measurement(ms.drop_first(), title)
    }
}

/// The first value of `vs` whose label is `label`.
pub open spec fn spec_find_value(vs: Seq<ValueEnum>, label: Seq<char>) -> Option<ValueEnum>
    decreases vs.len(),
{
    if vs.len() == 0 {
        None
    } else if vs[0].spec_label() == label {
        Some(vs[0])
    } else {
        spec_find_value(vs.drop_first(), label)
    }
}

proof fn lemma_find_section_skip(ss: Seq<Section>, title: Seq<char>, i: int)
    requires
        0 <= i < ss.len(),
        ss[i].spec_title() != title,
    ensures
        spec_find_section(ss.skip(i), title) == spec_find_section(ss.skip(i + 1), title),
{
    assert(ss.skip(i)[0] == ss[i]);
    assert(ss.skip(i).drop_first() =~= ss.skip(i + 1));
}

proof fn lemma_find_measurement_skip(ms: Seq<Measurement>, title: Seq<char>, i: int)
    requires
        0 <= i < ms.len(),
        ms[i].spec_title() != title,
    ensures
        spec_find_measurement(ms.skip(i), title) == spec_find_measurement(ms.skip(i + 1), title),
{
    assert(ms.skip(i)[0] == ms[i]);
    assert(ms.skip(i).drop_first() =~= ms.skip(i + 1));
}

proof fn lemma_find_value_skip(vs: Seq<ValueEnum>, label: Seq<char>, i: int)
    requires
        0 <= i < vs.len(),
        vs[i].spec_label() != label,
    ensures
        spec_find_value(vs.skip(i), label) == spec_find_value(vs.skip(i + 1), label),
{
    assert(vs.skip(i)[0] == vs[i]);
    assert(vs.skip(i).drop_first() =~= vs.skip(i + 1));
}

/// First measurement of the slice with the given title, in order.
pub fn get_measurement_by_title<'a>(measurements: &'a Vec<Measurement>, title: &String) -> (r:
    Option<&'a Measurement>)
    ensures
        r matches Some(m) ==> spec_find_measurement(measurements@, title@) == Some(*m),
        r is None ==> spec_find_measurement(measurements@, title@) is None,
{
    let n = measurements.len();
    let mut i: usize = 0;
    proof {
        assert(measurements@.skip(0) =~= measurements@);
    }
    while i < n
        invariant
            n == measurements@.len(),
            i <= n,
            spec_find_measurement(measurements@, title@) == spec_find_measurement(
                measurements@.skip(i as int),
                title@,
            ),
        decreases n - i,
    {
        if string_eq_str(measurements[i].get_title(), title.as_str()) {
            proof {
                assert(measurements@.skip(i as int)[0] == measurements@[i as int]);
            }
            return Some(&measurements[i]);
        }
        proof {
            lemma_find_measurement_skip(measurements@, title@, i as int);
        }
        i += 1;
    }
    proof {
        assert(measurements@.skip(n as int) =~= Seq::<Measurement>::empty());
    }
    None
}

/// First value of the slice with the given label, in order.
pub fn find_value_by_label<'a>(values: &'a Vec<ValueEnum>, label: &String) -> (r: Option<
    &'a ValueEnum,
>)
    ensures
        r matches Some(v) ==> spec_find_value(values@, label@) == Some(*v),
        r is None ==> spec_find_value(values@, label@) is None,
{
    let n = values.len();
    let mut i: usize = 0;
    proof {
        assert(values@.skip(0) =~= values@);
    }
    while i < n
        invariant
            n == values@.len(),
            i <= n,
            spec_find_value(values@, label@) == spec_find_value(values@.skip(i as int), label@),
        decreases n - i,
    {
        if string_eq_str(values[i].get_label(), label.as_str()) {
            proof {
                assert(values@.skip(i as int)[0] == values@[i as int]);
            }
            return Some(&values[i]);
        }
        proof {
            lemma_find_value_skip(values@, label@, i as int);
        }
        i += 1;
    }
    proof {
        assert(values@.skip(n as int) =~= Seq::<ValueEnum>::empty());
    }
    None
}

/// Idempotent lookup: a section a sequence holds is returned by a lookup on
/// its own title, content and all, provided no earlier entry carries the
/// same title.
pub proof fn lemma_section_lookup_idempotent(ss: Seq<Section>, i: int)
    requires
        0 <= i < ss.len(),
        forall|j: int| 0 <= j < i ==> ss[j].spec_title() != ss[i].spec_title(),
    ensures
        spec_find_section(ss, ss[i].spec_title()) == Some(ss[i]),
    decreases i,
{
    if i > 0 {
        let tail = ss.drop_first();
        assert(tail[i - 1] == ss[i]);
        assert forall|j: int| 0 <= j < i - 1 implies #[trigger] tail[j].spec_title() != tail[i
            - 1].spec_title() by {
            assert(tail[j] == ss[j + 1]);
        }
        lemma_section_lookup_idempotent(tail, i - 1);
    }
}

/// For any session and any of its sections, a lookup by that section's own
/// title returns a section with identical content, provided the session's
/// section titles are pairwise distinct.  With a repeated title the lookup
/// still answers, but with the first bearer of the title.
pub proof fn lemma_session_lookup_idempotent(s: ZdcSession, i: int)
    requires
        0 <= i < s.hex_service.sections@.len(),
        forall|j: int, k: int|
            #![trigger s.hex_service.sections@[j].spec_title(), s.hex_service.sections@[k].spec_title()]
            0 <= j < k < s.hex_service.sections@.len()
                ==> s.hex_service.sections@[j].spec_title()
                != s.hex_service.sections@[k].spec_title(),
    ensures
        spec_find_section(s.hex_service.sections@, s.hex_service.sections@[i].spec_title())
            == Some(s.hex_service.sections@[i]),
{
    lemma_section_lookup_idempotent(s.hex_service.sections@, i);
}

} // verus!
