//! Discriminant dispatch: the second phase of the two-phase schema mapping.
//!
//! The source format selects an element's shape with a discriminant attribute
//! rather than with the element name, so parsing first builds a common
//! superset record and then dispatches on the discriminant string.  Every
//! unrecognized discriminant is a hard error naming the offending value, and
//! nested measurements on any shape but the fault record are a hard error as
//! well.

use vstd::prelude::*;
use crate::model::{
    AlphaValue, ECUSection, Measurement, MeasurementCoding, MeasurementExtendedErrorMemory,
    MeasurementIdentification, MeasurementMeasuredValues, MeasurementMistake, NumberValue,
    Section, ValueEnum,
};
use crate::strutil::string_eq_str;
use vstd::string::StringExecFns;

verus! {

/// A structured construction error; building a session never panics and
/// never yields a partial tree.
#[derive(Debug, Clone, PartialEq, Eq)]
pub enum ZdcError {
    /// Malformed XML, with the character offset of the failure.
    Syntax(usize),
    /// A section or measurement element carried an unrecognized object tag.
    UnknownObject(String),
    /// A value element carried an unrecognized format tag.
    UnknownFormat(String),
    /// A non-fault measurement element carried nested measurement children;
    /// the payload is the offending object tag.
    UnexpectedMeasurements(String),
    /// An element carried an attribute outside the recognized schema.
    UnknownAttribute(String),
    /// An element carried a child element outside the recognized schema.
    UnknownElement(String),
    /// An element carried non-whitespace text where none is allowed.
    UnexpectedText(String),
    /// A required attribute was absent; the payload names it.
    MissingAttribute(String),
    /// A required child element was absent; the payload names it.
    MissingElement(String),
    /// A child element that must occur once occurred more than once.
    DuplicateElement(String),
    /// A required text content was absent; the payload names the element.
    MissingText(String),
    /// The document nests elements deeper than the defensive ceiling.
    TooDeep,
    /// The supplied path is not a directory.
    NotADirectory,
    /// No session file was found in the directory.
    NoSessionFile,
}

// ---------------------------------------------------------------------------
// Common superset records (phase one of the dispatch)
// ---------------------------------------------------------------------------

/// The superset record of a section element, before dispatch.
#[derive(Debug, PartialEq)]
pub struct CommonSection {
    pub object: String,
    pub title: String,
    pub measurements: Vec<Measurement>,
}

/// The superset record of a measurement element, before dispatch.
#[derive(Debug, PartialEq)]
pub struct CommonMeasurement {
    pub object: String,
    pub title: String,
    pub values: Option<Vec<ValueEnum>>,
    pub measurements: Option<Vec<Measurement>>,
}

// ---------------------------------------------------------------------------
// Measurement dispatch
// ---------------------------------------------------------------------------

/// The five recognized measurement discriminants.
pub open spec fn spec_known_object(o: Seq<char>) -> bool {
    ||| o == "Codierung"@
    ||| o == "Identifikation"@
    ||| o == "Fehler"@
    ||| o == "Messwerte"@
    ||| o == "Erweiterter Fehlerspeicher"@
}

/// The measurement that a common record dispatches to, assuming its
/// discriminant is recognized.
pub open spec fn spec_measurement_of(c: CommonMeasurement) -> Measurement
    recommends
        spec_known_object(c.object@),
{
    if c.object@ == "Codierung"@ {
        Measurement::Codierung(MeasurementCoding { title: c.title, values: c.values })
    } else if c.object@ == "Identifikation"@ {
        Measurement::Identifikation(
            MeasurementIdentification { title: c.title, values: c.values },
        )
    } else if c.object@ == "Fehler"@ {
        Measurement::Fehler(
            MeasurementMistake {
                title: c.title,
                values: c.values,
                measurements: c.measurements,
            },
        )
    } else if c.object@ == "Messwerte"@ {
        Measurement::Messwerte(MeasurementMeasuredValues { title: c.title, values: c.values })
    } else {
        Measurement::ErweiterterFehlerspeicher(
            MeasurementExtendedErrorMemory { title: c.title, values: c.values },
        )
    }
}

/// Dispatch a common measurement record on its object tag.  Exactly the five
/// recognized discriminants succeed, and only the fault shape may carry
/// nested measurements; every other outcome is a structured error naming the
/// offending value.
pub fn measurement_from_common(c: CommonMeasurement) -> (r: Result<Measurement, ZdcError>)
    ensures
        r is Ok <==> spec_known_object(c.object@) && (c.object@ == "Fehler"@ || c.measurements
            is None),
        r matches Ok(m) ==> m == spec_measurement_of(c),
        !spec_known_object(c.object@) ==> r == Err::<Measurement, ZdcError>(ZdcError::UnknownObject(c.object)),
        spec_known_object(c.object@) && c.object@ != "Fehler"@ && c.measurements is Some ==> r
            == Err::<Measurement, ZdcError>(ZdcError::UnexpectedMeasurements(c.object)),
        c.measurements is Some ==> (r matches Ok(m) ==> m is Fehler && (m.spec_submeasurements()
            matches Some(ms) && Some(ms) == crate::model::spec_opt_seq_m(c.measurements))),
        r matches Ok(m) ==> m.spec_title() == c.title@ && m.spec_values()
            == crate::model::spec_opt_seq(c.values),
{
    proof {
        reveal_strlit("Codierung");
        reveal_strlit("Identifikation");
        reveal_strlit("Fehler");
        reveal_strlit("Messwerte");
        reveal_strlit("Erweiterter Fehlerspeicher");
        assert("Codierung"@.len() == 9);
        assert("Identifikation"@.len() == 14);
        assert("Fehler"@.len() == 6);
        assert("Messwerte"@.len() == 9);
        assert("Erweiterter Fehlerspeicher"@.len() == 26);
        assert("Codierung"@ != "Fehler"@);
        assert("Identifikation"@ != "Fehler"@);
        assert("Messwerte"@ != "Fehler"@);
        assert("Erweiterter Fehlerspeicher"@ != "Fehler"@);
    }
    if string_eq_str(&c.object, "Codierung") {
        if c.measurements.is_some() {
            return Err(ZdcError::UnexpectedMeasurements(c.object));
        }
        Ok(Measurement::Codierung(MeasurementCoding { title: c.title, values: c.values }))
    } else if string_eq_str(&c.object, "Identifikation") {
        if c.measurements.is_some() {
            return Err(ZdcError::UnexpectedMeasurements(c.object));
        }
        Ok(
            Measurement::Identifikation(
                MeasurementIdentification { title: c.title, values: c.values },
            ),
        )
    } else if string_eq_str(&c.object, "Fehler") {
        Ok(
            Measurement::Fehler(
                MeasurementMistake {
                    title: c.title,
                    values: c.values,
                    measurements: c.measurements,
                },
            ),
        )
    } else if string_eq_str(&c.object, "Messwerte") {
        if c.measurements.is_some() {
            return Err(ZdcError::UnexpectedMeasurements(c.object));
        }
        Ok(Measurement::Messwerte(MeasurementMeasuredValues { title: c.title, values: c.values }))
    } else if string_eq_str(&c.object, "Erweiterter Fehlerspeicher") {
        if c.measurements.is_some() {
            return Err(ZdcError::UnexpectedMeasurements(c.object));
        }
        Ok(
            Measurement::ErweiterterFehlerspeicher(
                MeasurementExtendedErrorMemory { title: c.title, values: c.values },
            ),
        )
    } else {
        Err(ZdcError::UnknownObject(c.object))
    }
}

// ---------------------------------------------------------------------------
// Section dispatch
// ---------------------------------------------------------------------------

/// The recognized section discriminants; currently only the ECU shape.
pub open spec fn spec_known_section_object(o: Seq<char>) -> bool {
    o == "ECU"@
}

/// Dispatch a common section record on its object tag.
pub fn section_from_common(c: CommonSection) -> (r: Result<Section, ZdcError>)
    ensures
        r is Ok <==> spec_known_section_object(c.object@),
        r matches Ok(s) ==> s == Section::ECU(
            (ECUSection { title: c.title, measurements: c.measurements }),
        ),
        !spec_known_section_object(c.object@) ==> r == Err::<Section, ZdcError>(ZdcError::UnknownObject(c.object)),
{
    if string_eq_str(&c.object, "ECU") {
        Ok(Section::ECU(ECUSection { title: c.title, measurements: c.measurements }))
    } else {
        Err(ZdcError::UnknownObject(c.object))
    }
}

// ---------------------------------------------------------------------------
// Value dispatch
// ---------------------------------------------------------------------------

/// Dispatch the parts of a value element on its format tag.  The numeric
/// shape requires text content and may carry a unit; the textual shape never
/// carries a unit and its content may be absent.
pub fn value_from_parts(
    format: String,
    text: String,
    unit: Option<String>,
    label: String,
    content: Option<String>,
) -> (r: Result<ValueEnum, ZdcError>)
    ensures
        r is Ok <==> (format@ == "NUM"@ && content is Some) || (format@ == "ALPHA"@ && unit
            is None),
        format@ == "NUM"@ ==> (content matches Some(v) ==> r == Ok::<ValueEnum, ZdcError>(
            ValueEnum::Num((NumberValue { text, unit, label, value: v })),
        )),
        format@ == "ALPHA"@ && unit is None ==> r == Ok::<ValueEnum, ZdcError>(
            ValueEnum::Alpha((AlphaValue { text, label, value: content })),
        ),
        format@ == "NUM"@ && content is None ==> (r matches Err(e) && e matches
            ZdcError::MissingText(n) && n@ == "VALUE"@),
        format@ == "ALPHA"@ && unit is Some ==> (r matches Err(e) && e matches
            ZdcError::UnknownAttribute(n) && n@ == "UNIT"@),
        format@ != "NUM"@ && format@ != "ALPHA"@ ==> r == Err::<ValueEnum, ZdcError>(
            ZdcError::UnknownFormat(format),
        ),
{
    proof {
        reveal_strlit("NUM");
        reveal_strlit("ALPHA");
        reveal_strlit("VALUE");
        reveal_strlit("UNIT");
        assert("NUM"@.len() == 3);
        assert("ALPHA"@.len() == 5);
        assert("NUM"@ != "ALPHA"@);
    }
    if string_eq_str(&format, "NUM") {
        match content {
            Some(v) => Ok(ValueEnum::Num(NumberValue { text, unit, label, value: v })),
            None => Err(ZdcError::MissingText(String::from_str("VALUE"))),
        }
    } else if string_eq_str(&format, "ALPHA") {
        if unit.is_some() {
            return Err(ZdcError::UnknownAttribute(String::from_str("UNIT")));
        }
        Ok(ValueEnum::Alpha(AlphaValue { text, label, value: content }))
    } else {
        Err(ZdcError::UnknownFormat(format))
    }
}

} // verus!
