//! Phase one of the schema mapping: reading the element tree into the typed
//! records.  Every element accepts a fixed set of attributes and child
//! elements; anything else fails construction with a structured error, so a
//! forward-incompatible document is rejected rather than silently thinned.

use vstd::prelude::*;
use vstd::string::StringExecFns;
use crate::model::{
    DiagnosisAddress, HexService, HumanTranslations, Kommentar, Measurement, Parameter, Request,
    Response, Section, ShortNameService, Translations, ValueEnum, Warten, ZdcSession,
};
use crate::schema::{
    measurement_from_common, section_from_common, value_from_parts, CommonMeasurement,
    CommonSection, ZdcError,
};
use crate::strutil::string_eq_str;
use crate::xml::{parse_xml, XmlAttr, XmlElement, XmlNode, MAX_DEPTH};

verus! {

/// Whether the node is an element with the given name.
pub open spec fn spec_is_elem_named(n: XmlNode, name: Seq<char>) -> bool {
    match n {
        XmlNode::Element(el) => el.name@ == name,
        XmlNode::Text(_) => false,
    }
}

/// Whether some child is an element with the given name.
pub open spec fn spec_has_child_named(ch: Seq<XmlNode>, name: Seq<char>) -> bool {
    exists|k: int| 0 <= k < ch.len() && spec_is_elem_named(ch[k], name)
}

/// The value of the first attribute with the given name.
pub open spec fn spec_attr_value(attrs: Seq<XmlAttr>, n: Seq<char>) -> Option<String>
    decreases attrs.len(),
{
    if attrs.len() == 0 {
        None
    } else if attrs[0].name@ == n {
        Some(attrs[0].value)
    } else {
        spec_attr_value(attrs.drop_first(), n)
    }
}

proof fn lemma_attr_value_push(attrs: Seq<XmlAttr>, a: XmlAttr, n: Seq<char>)
    ensures
        spec_attr_value(attrs.push(a), n) == (match spec_attr_value(attrs, n) {
            Some(v) => Some(v),
            None => if a.name@ == n {
                Some(a.value)
            } else {
                None
            },
        }),
    decreases attrs.len(),
{
    if attrs.len() == 0 {
        assert(attrs.push(a)[0] == a);
        assert(attrs.push(a).drop_first() =~= attrs);
    } else {
        assert(attrs.push(a)[0] == attrs[0]);
        assert(attrs.push(a).drop_first() =~= attrs.drop_first().push(a));
        lemma_attr_value_push(attrs.drop_first(), a, n);
    }
}

/// Whether some child is a text node.
pub open spec fn spec_has_text_child(ch: Seq<XmlNode>) -> bool {
    exists|k: int| 0 <= k < ch.len() && ch[k] is Text
}

/// The concatenated text of the text children, in order.
pub open spec fn spec_texts_concat(ch: Seq<XmlNode>) -> Seq<char>
    decreases ch.len(),
{
    if ch.len() == 0 {
        Seq::empty()
    } else {
        (match ch[0] {
            XmlNode::Text(t) => t@,
            XmlNode::Element(_) => Seq::empty(),
        }) + spec_texts_concat(ch.drop_first())
    }
}

proof fn lemma_texts_concat_push(ch: Seq<XmlNode>, c: XmlNode)
    ensures
        spec_texts_concat(ch.push(c)) == spec_texts_concat(ch) + (match c {
            XmlNode::Text(t) => t@,
            XmlNode::Element(_) => Seq::<char>::empty(),
        }),
    decreases ch.len(),
{
    let tail = (match c {
        XmlNode::Text(t) => t@,
        XmlNode::Element(_) => Seq::<char>::empty(),
    });
    if ch.len() == 0 {
        assert(ch.push(c)[0] == c);
        assert(ch.push(c).drop_first() =~= ch);
        assert(tail + Seq::<char>::empty() =~= tail);
        assert(Seq::<char>::empty() + tail =~= tail);
    } else {
        assert(ch.push(c)[0] == ch[0]);
        assert(ch.push(c).drop_first() =~= ch.drop_first().push(c));
        lemma_texts_concat_push(ch.drop_first(), c);
        let head = (match ch[0] {
            XmlNode::Text(t) => t@,
            XmlNode::Element(_) => Seq::<char>::empty(),
        });
        assert(head + (spec_texts_concat(ch.drop_first()) + tail) =~= (head + spec_texts_concat(
            ch.drop_first(),
        )) + tail);
    }
}

/// The attributes recognized on a value element.
pub open spec fn spec_value_attr(n: Seq<char>) -> bool {
    n == "FORMAT"@ || n == "TEXT"@ || n == "UNIT"@ || n == "LABEL"@
}

/// The one attribute recognized on section and measurement elements.
pub open spec fn spec_object_attr(n: Seq<char>) -> bool {
    n == "OBJECT"@
}

/// How many children are elements with the given name.
pub open spec fn spec_count_elems(ch: Seq<XmlNode>, name: Seq<char>) -> nat
    decreases ch.len(),
{
    if ch.len() == 0 {
        0
    } else {
        (if spec_is_elem_named(ch[0], name) {
            1nat
        } else {
            0nat
        }) + spec_count_elems(ch.drop_first(), name)
    }
}

proof fn lemma_count_push(ch: Seq<XmlNode>, c: XmlNode, n: Seq<char>)
    ensures
        spec_count_elems(ch.push(c), n) == spec_count_elems(ch, n) + (if spec_is_elem_named(
            c,
            n,
        ) {
            1nat
        } else {
            0nat
        }),
    decreases ch.len(),
{
    if ch.len() == 0 {
        assert(ch.push(c)[0] == c);
        assert(ch.push(c).drop_first() =~= ch);
    } else {
        assert(ch.push(c)[0] == ch[0]);
        assert(ch.push(c).drop_first() =~= ch.drop_first().push(c));
        lemma_count_push(ch.drop_first(), c, n);
    }
}

proof fn lemma_count_concat(a: Seq<XmlNode>, b: Seq<XmlNode>, n: Seq<char>)
    ensures
        spec_count_elems(a + b, n) == spec_count_elems(a, n) + spec_count_elems(b, n),
    decreases a.len(),
{
    if a.len() == 0 {
        assert(a + b =~= b);
    } else {
        assert((a + b)[0] == a[0]);
        assert((a + b).drop_first() =~= a.drop_first() + b);
        lemma_count_concat(a.drop_first(), b, n);
    }
}

/// A value element of the recognized shape: text-only content, attributes
/// within the recognized set, caption and label present, and a format that
/// admits the content (numeric with text content, or textual without a
/// unit).
pub open spec fn spec_value_elem_valid(e: XmlElement) -> bool {
    &&& forall|k: int| 0 <= k < e.children@.len() ==> #[trigger] e.children@[k] is Text
    &&& forall|k: int| 0 <= k < e.attrs@.len() ==> spec_value_attr(#[trigger] e.attrs@[k].name@)
    &&& spec_attr_value(e.attrs@, "TEXT"@) is Some
    &&& spec_attr_value(e.attrs@, "LABEL"@) is Some
    &&& match spec_attr_value(e.attrs@, "FORMAT"@) {
        Some(f) => (f@ == "NUM"@ && spec_has_text_child(e.children@)) || (f@ == "ALPHA"@
            && spec_attr_value(e.attrs@, "UNIT"@) is None),
        None => false,
    }
}

/// The concatenated text content of an element that may hold no child
/// elements; `None` when the element holds no text at all.
fn text_content(e: &XmlElement) -> (r: Result<Option<String>, ZdcError>)
    ensures
        r is Ok <==> (forall|k: int| 0 <= k < e.children@.len() ==> e.children@[k] is Text),
        r matches Ok(c) ==> {
            &&& (c is Some <==> spec_has_text_child(e.children@))
            &&& (c matches Some(t) ==> t@ == spec_texts_concat(e.children@))
        },
{
    let n = e.children.len();
    let mut acc = String::new();
    let mut saw_text = false;
    let mut j: usize = 0;
    while j < n
        invariant
            n == e.children@.len(),
            j <= n,
            forall|k: int| 0 <= k < j ==> e.children@[k] is Text,
            acc@ == spec_texts_concat(e.children@.subrange(0, j as int)),
            saw_text <==> spec_has_text_child(e.children@.subrange(0, j as int)),
        decreases n - j,
    {
        proof {
            let pre = e.children@.subrange(0, j as int);
            let post = e.children@.subrange(0, j + 1 as int);
            assert(post =~= pre.push(e.children@[j as int]));
            lemma_texts_concat_push(pre, e.children@[j as int]);
            assert(forall|k: int| 0 <= k < post.len() ==> post[k] == e.children@[k]);
            assert(forall|k: int| 0 <= k < pre.len() ==> pre[k] == e.children@[k]);
            assert(post[j as int] == e.children@[j as int]);
        }
        match &e.children[j] {
            XmlNode::Text(t) => {
                acc.append(t.as_str());
                saw_text = true;
            },
            XmlNode::Element(el) => {
                return Err(ZdcError::UnknownElement(el.name.clone()));
            },
        }
        j += 1;
    }
    proof {
        assert(e.children@.subrange(0, n as int) =~= e.children@);
    }
    if saw_text {
        Ok(Some(acc))
    } else {
        Ok(None)
    }
}

/// A simple text element: no attributes, text-only content.
pub open spec fn spec_text_elem_valid(el: XmlElement) -> bool {
    el.attrs@.len() == 0 && (forall|k: int|
        0 <= k < el.children@.len() ==> #[trigger] el.children@[k] is Text)
}

/// Text content of a child element that itself carries no attributes.
fn simple_text_child(el: &XmlElement) -> (r: Result<Option<String>, ZdcError>)
    ensures
        spec_text_elem_valid(*el) ==> r is Ok,
        r matches Ok(c) ==> el.attrs@.len() == 0 && (c is Some <==> spec_has_text_child(
            el.children@,
        )),
{
    if el.attrs.len() > 0 {
        return Err(ZdcError::UnknownAttribute(el.attrs[0].name.clone()));
    }
    text_content(el)
}

// ---------------------------------------------------------------------------
// Values and measurements
// ---------------------------------------------------------------------------

/// Read a value element: format discriminant, caption, optional unit,
/// label, optional text content; any attribute outside that set fails.
/// What a successful measurement parse certifies of one child: an element
/// named TITLE, VALUE or MEAS, never loose text, and a VALUE child whose
/// format discriminant is recognized.
pub open spec fn spec_meas_child_ok(c: XmlNode) -> bool {
    match c {
        XmlNode::Element(el) => {
            ||| el.name@ == "TITLE"@
            ||| (el.name@ == "VALUE"@ && (spec_attr_value(el.attrs@, "FORMAT"@) matches Some(f)
                && (f@ == "NUM"@ || f@ == "ALPHA"@)))
            ||| el.name@ == "MEAS"@
        },
        XmlNode::Text(_) => false,
    }
}

/// Every attribute of the element lies in the value schema.
pub open spec fn spec_value_attrs_ok(el: XmlElement) -> bool {
    forall|k: int| 0 <= k < el.attrs@.len() ==> spec_value_attr(#[trigger] el.attrs@[k].name@)
}

/// No element below one measurement child carries an unrecognized
/// attribute.
pub open spec fn spec_meas_child_attrs_ok(c: XmlNode, depth: nat) -> bool
    decreases depth,
{
    match c {
        XmlNode::Element(el) => {
            &&& (el.name@ == "TITLE"@ ==> el.attrs@.len() == 0)
            &&& (el.name@ == "VALUE"@ ==> spec_value_attrs_ok(el))
            &&& (el.name@ == "MEAS"@ ==> depth > 0 && (forall|k: int|
                0 <= k < el.attrs@.len() ==> spec_object_attr(#[trigger] el.attrs@[k].name@))
                && (forall|k: int|
                0 <= k < el.children@.len() ==> spec_meas_child_attrs_ok(
                    #[trigger] el.children@[k],
                    (depth - 1) as nat,
                )))
        },
        XmlNode::Text(_) => true,
    }
}

/// No element of the measurement subtree carries an attribute outside its
/// recognized set.
pub open spec fn spec_meas_subtree_attrs_ok(e: XmlElement, depth: nat) -> bool {
    &&& forall|k: int| 0 <= k < e.attrs@.len() ==> spec_object_attr(#[trigger] e.attrs@[k].name@)
    &&& forall|k: int|
        0 <= k < e.children@.len() ==> spec_meas_child_attrs_ok(#[trigger] e.children@[k], depth)
}

/// No element of the section subtree carries an attribute outside its
/// recognized set.
/// No element below one section child carries an unrecognized attribute.
pub open spec fn spec_section_child_attrs_ok(c: XmlNode) -> bool {
    match c {
        XmlNode::Element(el) => {
            &&& (el.name@ == "TITLE"@ ==> el.attrs@.len() == 0)
            &&& (el.name@ == "MEAS"@ ==> spec_meas_subtree_attrs_ok(el, MAX_DEPTH as nat))
        },
        XmlNode::Text(_) => true,
    }
}

pub open spec fn spec_section_subtree_attrs_ok(e: XmlElement) -> bool {
    &&& forall|k: int| 0 <= k < e.attrs@.len() ==> spec_object_attr(#[trigger] e.attrs@[k].name@)
    &&& forall|k: int|
        0 <= k < e.children@.len() ==> spec_section_child_attrs_ok(#[trigger] e.children@[k])
}

/// No element of a request or response subtree carries an attribute outside
/// its recognized set.
/// No element below one req_resp child carries an unrecognized attribute.
pub open spec fn spec_req_resp_child_attrs_ok(c: XmlNode) -> bool {
    match c {
        XmlNode::Element(el) => {
            &&& (el.name@ == "Parameter"@ ==> forall|k2: int|
                0 <= k2 < el.attrs@.len() ==> spec_parameter_attr(
                    #[trigger] el.attrs@[k2].name@,
                ))
        },
        XmlNode::Text(_) => true,
    }
}

pub open spec fn spec_req_resp_subtree_attrs_ok(e: XmlElement) -> bool {
    &&& forall|k: int|
        0 <= k < e.attrs@.len() ==> spec_req_resp_attr(#[trigger] e.attrs@[k].name@)
    &&& forall|k: int|
        0 <= k < e.children@.len() ==> spec_req_resp_child_attrs_ok(#[trigger] e.children@[k])
}

/// No element of a translation subtree carries an attribute outside its
/// recognized set.
/// No element below one translation child carries an unrecognized attribute.
pub open spec fn spec_translation_child_attrs_ok(c: XmlNode) -> bool {
    match c {
        XmlNode::Element(el) => {
            &&& (el.name@ == "LSB"@ ==> el.attrs@.len() == 0)
        },
        XmlNode::Text(_) => true,
    }
}

pub open spec fn spec_translation_subtree_attrs_ok(e: XmlElement) -> bool {
    &&& forall|k: int|
        0 <= k < e.attrs@.len() ==> spec_translation_attr(#[trigger] e.attrs@[k].name@)
    &&& forall|k: int|
        0 <= k < e.children@.len() ==> spec_translation_child_attrs_ok(
            #[trigger] e.children@[k],
        )
}

/// No element of the translation-table subtree carries an attribute outside
/// its recognized set.
/// No element below one ht child carries an unrecognized attribute.
pub open spec fn spec_ht_child_attrs_ok(c: XmlNode) -> bool {
    match c {
        XmlNode::Element(el) => {
            &&& (el.name@ == "Translation"@ ==> spec_translation_subtree_attrs_ok(el))
        },
        XmlNode::Text(_) => true,
    }
}

pub open spec fn spec_ht_subtree_attrs_ok(e: XmlElement) -> bool {
    &&& forall|k: int| 0 <= k < e.attrs@.len() ==> spec_ht_attr(#[trigger] e.attrs@[k].name@)
    &&& forall|k: int|
        0 <= k < e.children@.len() ==> spec_ht_child_attrs_ok(#[trigger] e.children@[k])
}

/// No element of a short-name-service subtree carries an attribute outside
/// its recognized set.
/// No element below one sns child carries an unrecognized attribute.
pub open spec fn spec_sns_child_attrs_ok(c: XmlNode) -> bool {
    match c {
        XmlNode::Element(el) => {
            &&& (el.name@ == "Kommentar"@ ==> forall|k2: int|
                0 <= k2 < el.attrs@.len() ==> spec_kommentar_attr(
                    #[trigger] el.attrs@[k2].name@,
                ))
            &&& (el.name@ == "Request"@ ==> spec_req_resp_subtree_attrs_ok(el))
            &&& (el.name@ == "Response"@ ==> spec_req_resp_subtree_attrs_ok(el))
        },
        XmlNode::Text(_) => true,
    }
}

pub open spec fn spec_sns_subtree_attrs_ok(e: XmlElement) -> bool {
    &&& forall|k: int| 0 <= k < e.attrs@.len() ==> spec_sns_attr(#[trigger] e.attrs@[k].name@)
    &&& forall|k: int|
        0 <= k < e.children@.len() ==> spec_sns_child_attrs_ok(#[trigger] e.children@[k])
}

/// No element of the hex-service subtree carries an attribute outside its
/// recognized set.
/// No element below one hex child carries an unrecognized attribute.
pub open spec fn spec_hex_child_attrs_ok(c: XmlNode) -> bool {
    match c {
        XmlNode::Element(el) => {
            &&& (el.name@ == "Kommentar"@ ==> forall|k2: int|
                0 <= k2 < el.attrs@.len() ==> spec_kommentar_attr(
                    #[trigger] el.attrs@[k2].name@,
                ))
            &&& (el.name@ == "Request"@ ==> el.attrs@.len() == 0)
            &&& (el.name@ == "ExpectedValue"@ ==> el.attrs@.len() == 0)
            &&& (el.name@ == "Response"@ ==> el.attrs@.len() == 0)
            &&& (el.name@ == "HumanTranslations"@ ==> spec_ht_subtree_attrs_ok(el))
            &&& (el.name@ == "SECTIONS"@ ==> spec_section_subtree_attrs_ok(el))
        },
        XmlNode::Text(_) => true,
    }
}

pub open spec fn spec_hex_subtree_attrs_ok(e: XmlElement) -> bool {
    &&& forall|k: int| 0 <= k < e.attrs@.len() ==> spec_hex_attr(#[trigger] e.attrs@[k].name@)
    &&& forall|k: int|
        0 <= k < e.children@.len() ==> spec_hex_child_attrs_ok(#[trigger] e.children@[k])
}

/// No element of the whole session document carries an attribute outside
/// its recognized set.
/// No element below one session child carries an unrecognized attribute.
pub open spec fn spec_session_child_attrs_ok(c: XmlNode) -> bool {
    match c {
        XmlNode::Element(el) => {
            &&& (el.name@ == "diagnosisAddress"@ ==> forall|k2: int|
                0 <= k2 < el.attrs@.len() ==> spec_diag_attr(#[trigger] el.attrs@[k2].name@))
            &&& (el.name@ == "ShortNameService"@ ==> spec_sns_subtree_attrs_ok(el))
            &&& (el.name@ == "Warten"@ ==> forall|k2: int|
                0 <= k2 < el.attrs@.len() ==> spec_warten_attr(
                    #[trigger] el.attrs@[k2].name@,
                ))
            &&& (el.name@ == "HexService"@ ==> spec_hex_subtree_attrs_ok(el))
        },
        XmlNode::Text(_) => true,
    }
}

pub open spec fn spec_session_subtree_attrs_ok(e: XmlElement) -> bool {
    &&& forall|k: int|
        0 <= k < e.attrs@.len() ==> spec_session_attr(#[trigger] e.attrs@[k].name@)
    &&& forall|k: int|
        0 <= k < e.children@.len() ==> spec_session_child_attrs_ok(#[trigger] e.children@[k])
}

/// A title element: no attributes, text-only content.
pub open spec fn spec_title_elem_valid(el: XmlElement) -> bool {
    el.attrs@.len() == 0 && (forall|k: int|
        0 <= k < el.children@.len() ==> #[trigger] el.children@[k] is Text)
}

/// A measurement element of the recognized shape, to the given nesting
/// allowance: one recognized OBJECT discriminant, exactly one TITLE child,
/// VALUE and MEAS children of recognized shape, and nested measurements only
/// on the fault discriminant.
pub open spec fn spec_measurement_elem_valid(e: XmlElement, depth: nat) -> bool
    decreases depth,
{
    &&& depth > 0
    &&& forall|k: int| 0 <= k < e.attrs@.len() ==> spec_object_attr(#[trigger] e.attrs@[k].name@)
    &&& match spec_attr_value(e.attrs@, "OBJECT"@) {
        Some(o) => crate::schema::spec_known_object(o@) && (o@ == "Fehler"@
            || !spec_has_child_named(e.children@, "MEAS"@)),
        None => false,
    }
    &&& spec_count_elems(e.children@, "TITLE"@) == 1
    &&& forall|k: int|
        0 <= k < e.children@.len() ==> match #[trigger] e.children@[k] {
            XmlNode::Element(el) => (el.name@ == "TITLE"@ && spec_title_elem_valid(el)) || (
            el.name@ == "VALUE"@ && spec_value_elem_valid(el)) || (el.name@ == "MEAS"@
                && spec_measurement_elem_valid(el, (depth - 1) as nat)),
            XmlNode::Text(_) => false,
        }
}

/// A section element of the recognized shape: the ECU discriminant, exactly
/// one TITLE child and at least one MEAS child of recognized shape.
pub open spec fn spec_section_elem_valid(e: XmlElement) -> bool {
    &&& forall|k: int| 0 <= k < e.attrs@.len() ==> spec_object_attr(#[trigger] e.attrs@[k].name@)
    &&& match spec_attr_value(e.attrs@, "OBJECT"@) {
        Some(o) => o@ == "ECU"@,
        None => false,
    }
    &&& spec_count_elems(e.children@, "TITLE"@) == 1
    &&& spec_has_child_named(e.children@, "MEAS"@)
    &&& forall|k: int|
        0 <= k < e.children@.len() ==> match #[trigger] e.children@[k] {
            XmlNode::Element(el) => (el.name@ == "TITLE"@ && spec_title_elem_valid(el)) || (
            el.name@ == "MEAS"@ && spec_measurement_elem_valid(el, MAX_DEPTH as nat)),
            XmlNode::Text(_) => false,
        }
}

pub fn parse_value(e: &XmlElement) -> (r: Result<ValueEnum, ZdcError>)
    ensures
        r is Ok ==> forall|k: int|
            0 <= k < e.attrs@.len() ==> spec_value_attr(e.attrs@[k].name@),
        spec_attr_value(e.attrs@, "FORMAT"@) is None ==> r is Err,
        r matches Ok(v) ==> (spec_attr_value(e.attrs@, "FORMAT"@) matches Some(f) && (v is Num
            <==> f@ == "NUM"@) && (v is Alpha <==> f@ == "ALPHA"@)),
        spec_value_elem_valid(*e) ==> r is Ok,
        r matches Ok(v) ==> {
            &&& (spec_attr_value(e.attrs@, "TEXT"@) matches Some(t) && t@ == v.spec_text())
            &&& (spec_attr_value(e.attrs@, "LABEL"@) matches Some(l) && l@ == v.spec_label())
            &&& (v is Num ==> v.spec_unit() == spec_attr_value(e.attrs@, "UNIT"@))
            &&& (match v.spec_value() {
                Some(raw) => spec_has_text_child(e.children@) && raw@ == spec_texts_concat(
                    e.children@,
                ),
                None => !spec_has_text_child(e.children@),
            })
        },
{
    let content = match text_content(e) {
        Ok(c) => c,
        Err(er) => {
            return Err(er);
        },
    };
    let mut format: Option<String> = None;
    let mut text: Option<String> = None;
    let mut unit: Option<String> = None;
    let mut label: Option<String> = None;
    let n_attrs = e.attrs.len();
    let mut k: usize = 0;
    while k < n_attrs
        invariant
            n_attrs == e.attrs@.len(),
            k <= n_attrs,
            forall|j: int| 0 <= j < k ==> spec_value_attr(e.attrs@[j].name@),
            match format {
                Some(f) => spec_attr_value(e.attrs@.subrange(0, k as int), "FORMAT"@) == Some(
                    f,
                ),
                None => spec_attr_value(e.attrs@.subrange(0, k as int), "FORMAT"@) is None,
            },
            match text {
                Some(t) => spec_attr_value(e.attrs@.subrange(0, k as int), "TEXT"@) == Some(t),
                None => spec_attr_value(e.attrs@.subrange(0, k as int), "TEXT"@) is None,
            },
            match unit {
                Some(u) => spec_attr_value(e.attrs@.subrange(0, k as int), "UNIT"@) == Some(u),
                None => spec_attr_value(e.attrs@.subrange(0, k as int), "UNIT"@) is None,
            },
            match label {
                Some(l) => spec_attr_value(e.attrs@.subrange(0, k as int), "LABEL"@) == Some(
                    l,
                ),
                None => spec_attr_value(e.attrs@.subrange(0, k as int), "LABEL"@) is None,
            },
        decreases n_attrs - k,
    {
        let a = &e.attrs[k];
        proof {
            assert(e.attrs@.subrange(0, k + 1 as int) =~= e.attrs@.subrange(0, k as int).push(
                e.attrs@[k as int],
            ));
            lemma_attr_value_push(e.attrs@.subrange(0, k as int), e.attrs@[k as int], "FORMAT"@);
            lemma_attr_value_push(e.attrs@.subrange(0, k as int), e.attrs@[k as int], "TEXT"@);
            lemma_attr_value_push(e.attrs@.subrange(0, k as int), e.attrs@[k as int], "UNIT"@);
            lemma_attr_value_push(e.attrs@.subrange(0, k as int), e.attrs@[k as int], "LABEL"@);
            reveal_strlit("FORMAT");
            reveal_strlit("TEXT");
            reveal_strlit("UNIT");
            reveal_strlit("LABEL");
            assert("FORMAT"@[0] == 'F' && "TEXT"@[0] == 'T' && "UNIT"@[0] == 'U' && "LABEL"@[0]
                == 'L');
        }
        if string_eq_str(&a.name, "FORMAT") {
            if format.is_none() {
                format = Some(a.value.clone());
            }
        } else if string_eq_str(&a.name, "TEXT") {
            if text.is_none() {
                text = Some(a.value.clone());
            }
        } else if string_eq_str(&a.name, "UNIT") {
            if unit.is_none() {
                unit = Some(a.value.clone());
            }
        } else if string_eq_str(&a.name, "LABEL") {
            if label.is_none() {
                label = Some(a.value.clone());
            }
        } else {
            return Err(ZdcError::UnknownAttribute(a.name.clone()));
        }
        k += 1;
    }
    proof {
        assert(e.attrs@.subrange(0, n_attrs as int) =~= e.attrs@);
    }
    let format = match format {
        Some(f) => f,
        None => {
            return Err(ZdcError::MissingAttribute(String::from_str("FORMAT")));
        },
    };
    let text = match text {
        Some(t) => t,
        None => {
            return Err(ZdcError::MissingAttribute(String::from_str("TEXT")));
        },
    };
    let label = match label {
        Some(l) => l,
        None => {
            return Err(ZdcError::MissingAttribute(String::from_str("LABEL")));
        },
    };
    proof {
        assert(e.attrs@.subrange(0, n_attrs as int) =~= e.attrs@);
        reveal_strlit("NUM");
        reveal_strlit("ALPHA");
        assert("NUM"@.len() == 3);
        assert("ALPHA"@.len() == 5);
    }
    value_from_parts(format, text, unit, label, content)
}

/// Read a measurement element into the common superset record and dispatch
/// it.  If the element carries nested measurement children, only the fault
/// shape can come out of a successful parse: nested children are never
/// silently dropped.
pub fn parse_measurement(e: &XmlElement, depth: usize) -> (r: Result<Measurement, ZdcError>)
    ensures
        r is Ok ==> forall|k: int|
            0 <= k < e.attrs@.len() ==> spec_object_attr(e.attrs@[k].name@),
        spec_has_child_named(e.children@, "MEAS"@) ==> (r matches Ok(m) ==> m is Fehler),
        r matches Ok(m) ==> (m.spec_values() is Some <==> spec_has_child_named(
            e.children@,
            "VALUE"@,
        )),
        spec_attr_value(e.attrs@, "OBJECT"@) is None ==> r is Err,
        r is Ok ==> (spec_attr_value(e.attrs@, "OBJECT"@) matches Some(o)
            && crate::schema::spec_known_object(o@)),
        spec_measurement_elem_valid(*e, depth as nat) ==> r is Ok,
        r is Ok ==> forall|k: int|
            0 <= k < e.children@.len() ==> spec_meas_child_ok(#[trigger] e.children@[k]),
        r is Ok ==> spec_meas_subtree_attrs_ok(*e, depth as nat),
    decreases depth,
{
    proof {
        reveal_strlit("TITLE");
        reveal_strlit("VALUE");
        reveal_strlit("MEAS");
        assert("TITLE"@.len() == 5);
        assert("VALUE"@.len() == 5);
        assert("MEAS"@.len() == 4);
    }
    if depth == 0 {
        return Err(ZdcError::TooDeep);
    }
    let child_depth = depth - 1;
    let mut title: Option<String> = None;
    let mut values: Vec<ValueEnum> = Vec::new();
    let mut meas: Vec<Measurement> = Vec::new();
    let n_children = e.children.len();
    let mut j: usize = 0;
    while j < n_children
        invariant
            n_children == e.children@.len(),
            j <= n_children,
            depth >= 1,
            child_depth == depth - 1,
            title is Some <==> spec_count_elems(
                e.children@.subrange(0, j as int),
                "TITLE"@,
            ) > 0,
            forall|k: int| 0 <= k < j ==> spec_meas_child_ok(#[trigger] e.children@[k]),
            forall|k: int|
                0 <= k < j ==> spec_meas_child_attrs_ok(
                    #[trigger] e.children@[k],
                    depth as nat,
                ),
            meas@.len() > 0 <==> spec_has_child_named(
                e.children@.subrange(0, j as int),
                "MEAS"@,
            ),
            values@.len() > 0 <==> spec_has_child_named(
                e.children@.subrange(0, j as int),
                "VALUE"@,
            ),
            "MEAS"@.len() == 4,
            "TITLE"@.len() == 5,
            "VALUE"@.len() == 5,
        decreases n_children - j,
    {
        let ghost pre = e.children@.subrange(0, j as int);
        let ghost post = e.children@.subrange(0, j + 1 as int);
        proof {
            reveal_strlit("TITLE");
            reveal_strlit("VALUE");
            reveal_strlit("MEAS");
            assert("TITLE"@[0] == 'T' && "VALUE"@[0] == 'V');
            assert("TITLE"@ != "VALUE"@);
            assert(forall|k: int| 0 <= k < post.len() ==> post[k] == e.children@[k]);
            assert(forall|k: int| 0 <= k < pre.len() ==> pre[k] == e.children@[k]);
            assert(post[j as int] == e.children@[j as int]);
            assert(post =~= pre.push(e.children@[j as int]));
            lemma_count_push(pre, e.children@[j as int], "TITLE"@);
        }
        match &e.children[j] {
            XmlNode::Element(el) => {
                if string_eq_str(&el.name, "TITLE") {
                    if title.is_some() {
                        proof {
                            let suf = e.children@.subrange(j as int, n_children as int);
                            assert(e.children@ =~= pre + suf);
                            lemma_count_concat(pre, suf, "TITLE"@);
                            assert(suf[0] == e.children@[j as int]);
                            assert(spec_count_elems(suf, "TITLE"@) >= 1);
                        }
                        return Err(ZdcError::DuplicateElement(el.name.clone()));
                    }
                    if el.attrs.len() > 0 {
                        return Err(ZdcError::UnknownAttribute(el.attrs[0].name.clone()));
                    }
                    match text_content(el) {
                        Ok(Some(t)) => {
                            title = Some(t);
                        },
                        Ok(None) => {
                            title = Some(String::new());
                        },
                        Err(er) => {
                            return Err(er);
                        },
                    }
                } else if string_eq_str(&el.name, "VALUE") {
                    match parse_value(el) {
                        Ok(v) => {
                            values.push(v);
                        },
                        Err(er) => {
                            return Err(er);
                        },
                    }
                } else if string_eq_str(&el.name, "MEAS") {
                    match parse_measurement(el, child_depth) {
                        Ok(m) => {
                            meas.push(m);
                        },
                        Err(er) => {
                            return Err(er);
                        },
                    }
                } else {
                    return Err(ZdcError::UnknownElement(el.name.clone()));
                }
            },
            XmlNode::Text(t) => {
                return Err(ZdcError::UnexpectedText(t.clone()));
            },
        }
        j += 1;
    }
    proof {
        assert(e.children@.subrange(0, n_children as int) =~= e.children@);
    }
    let ghost has_meas = spec_has_child_named(e.children@, "MEAS"@);
    let ghost has_value = spec_has_child_named(e.children@, "VALUE"@);
    let ghost has_title = spec_count_elems(e.children@, "TITLE"@) > 0;
    let mut object: Option<String> = None;
    let n_attrs = e.attrs.len();
    let mut k: usize = 0;
    while k < n_attrs
        invariant
            n_attrs == e.attrs@.len(),
            k <= n_attrs,
            forall|j2: int| 0 <= j2 < k ==> spec_object_attr(e.attrs@[j2].name@),
            meas@.len() > 0 <==> has_meas,
            values@.len() > 0 <==> has_value,
            title is Some <==> has_title,
            forall|k2: int|
                0 <= k2 < e.children@.len() ==> spec_meas_child_ok(#[trigger] e.children@[k2]),
            forall|k2: int|
                0 <= k2 < e.children@.len() ==> spec_meas_child_attrs_ok(
                    #[trigger] e.children@[k2],
                    depth as nat,
                ),
            depth >= 1,
            match object {
                Some(o) => spec_attr_value(e.attrs@.subrange(0, k as int), "OBJECT"@) == Some(
                    o,
                ),
                None => spec_attr_value(e.attrs@.subrange(0, k as int), "OBJECT"@) is None,
            },
        decreases n_attrs - k,
    {
        let a = &e.attrs[k];
        proof {
            assert(e.attrs@.subrange(0, k + 1 as int) =~= e.attrs@.subrange(0, k as int).push(
                e.attrs@[k as int],
            ));
            lemma_attr_value_push(e.attrs@.subrange(0, k as int), e.attrs@[k as int], "OBJECT"@);
        }
        if string_eq_str(&a.name, "OBJECT") {
            if object.is_none() {
                object = Some(a.value.clone());
            }
        } else {
            return Err(ZdcError::UnknownAttribute(a.name.clone()));
        }
        k += 1;
    }
    proof {
        assert(e.attrs@.subrange(0, n_attrs as int) =~= e.attrs@);
    }
    let object = match object {
        Some(o) => o,
        None => {
            return Err(ZdcError::MissingAttribute(String::from_str("OBJECT")));
        },
    };
    let title = match title {
        Some(t) => t,
        None => {
            return Err(ZdcError::MissingElement(String::from_str("TITLE")));
        },
    };
    let values_opt: Option<Vec<ValueEnum>> = if values.len() > 0 {
        Some(values)
    } else {
        None
    };
    let meas_opt: Option<Vec<Measurement>> = if meas.len() > 0 {
        Some(meas)
    } else {
        None
    };
    measurement_from_common(
        CommonMeasurement { object, title, values: values_opt, measurements: meas_opt },
    )
}

/// Read a section element: its object tag, title, and measurement children,
/// then dispatch on the object tag.
pub fn parse_section(e: &XmlElement) -> (r: Result<Section, ZdcError>)
    ensures
        r is Ok ==> forall|k: int|
            0 <= k < e.attrs@.len() ==> spec_object_attr(e.attrs@[k].name@),
        r matches Ok(s) ==> s.spec_measurements().len() > 0,
        spec_attr_value(e.attrs@, "OBJECT"@) is None ==> r is Err,
        r is Ok ==> (spec_attr_value(e.attrs@, "OBJECT"@) matches Some(o)
            && crate::schema::spec_known_section_object(o@)),
        spec_section_elem_valid(*e) ==> r is Ok,
        r is Ok ==> spec_section_subtree_attrs_ok(*e),
{
    proof {
        reveal_strlit("TITLE");
        reveal_strlit("MEAS");
        assert("TITLE"@.len() == 5);
        assert("MEAS"@.len() == 4);
    }
    let mut title: Option<String> = None;
    let mut meas: Vec<Measurement> = Vec::new();
    let n_children = e.children.len();
    let mut j: usize = 0;
    while j < n_children
        invariant
            n_children == e.children@.len(),
            j <= n_children,
            "TITLE"@.len() == 5,
            "MEAS"@.len() == 4,
            title is Some <==> spec_count_elems(
                e.children@.subrange(0, j as int),
                "TITLE"@,
            ) > 0,
            meas@.len() > 0 <==> spec_has_child_named(
                e.children@.subrange(0, j as int),
                "MEAS"@,
            ),
            forall|k: int|
                0 <= k < j ==> spec_section_child_attrs_ok(#[trigger] e.children@[k]),
        decreases n_children - j,
    {
        let ghost pre = e.children@.subrange(0, j as int);
        let ghost post = e.children@.subrange(0, j + 1 as int);
        proof {
            assert(forall|k: int| 0 <= k < post.len() ==> post[k] == e.children@[k]);
            assert(forall|k: int| 0 <= k < pre.len() ==> pre[k] == e.children@[k]);
            assert(post[j as int] == e.children@[j as int]);
            assert(post =~= pre.push(e.children@[j as int]));
            lemma_count_push(pre, e.children@[j as int], "TITLE"@);
        }
        match &e.children[j] {
            XmlNode::Element(el) => {
                if string_eq_str(&el.name, "TITLE") {
                    if title.is_some() {
                        proof {
                            let suf = e.children@.subrange(j as int, n_children as int);
                            assert(e.children@ =~= pre + suf);
                            lemma_count_concat(pre, suf, "TITLE"@);
                            assert(suf[0] == e.children@[j as int]);
                            assert(spec_count_elems(suf, "TITLE"@) >= 1);
                        }
                        return Err(ZdcError::DuplicateElement(el.name.clone()));
                    }
                    if el.attrs.len() > 0 {
                        return Err(ZdcError::UnknownAttribute(el.attrs[0].name.clone()));
                    }
                    match text_content(el) {
                        Ok(Some(t)) => {
                            title = Some(t);
                        },
                        Ok(None) => {
                            title = Some(String::new());
                        },
                        Err(er) => {
                            return Err(er);
                        },
                    }
                } else if string_eq_str(&el.name, "MEAS") {
                    match parse_measurement(el, MAX_DEPTH) {
                        Ok(m) => {
                            meas.push(m);
                        },
                        Err(er) => {
                            return Err(er);
                        },
                    }
                } else {
                    return Err(ZdcError::UnknownElement(el.name.clone()));
                }
            },
            XmlNode::Text(t) => {
                return Err(ZdcError::UnexpectedText(t.clone()));
            },
        }
        j += 1;
    }
    proof {
        assert(e.children@.subrange(0, n_children as int) =~= e.children@);
    }
    let ghost has_title = spec_count_elems(e.children@, "TITLE"@) > 0;
    let ghost has_meas = spec_has_child_named(e.children@, "MEAS"@);
    let mut object: Option<String> = None;
    let n_attrs = e.attrs.len();
    let mut k: usize = 0;
    while k < n_attrs
        invariant
            n_attrs == e.attrs@.len(),
            k <= n_attrs,
            forall|j2: int| 0 <= j2 < k ==> spec_object_attr(e.attrs@[j2].name@),
            title is Some <==> has_title,
            meas@.len() > 0 <==> has_meas,
            forall|k2: int|
                0 <= k2 < e.children@.len() ==> spec_section_child_attrs_ok(
                    #[trigger] e.children@[k2],
                ),
            match object {
                Some(o) => spec_attr_value(e.attrs@.subrange(0, k as int), "OBJECT"@) == Some(
                    o,
                ),
                None => spec_attr_value(e.attrs@.subrange(0, k as int), "OBJECT"@) is None,
            },
        decreases n_attrs - k,
    {
        let a = &e.attrs[k];
        proof {
            assert(e.attrs@.subrange(0, k + 1 as int) =~= e.attrs@.subrange(0, k as int).push(
                e.attrs@[k as int],
            ));
            lemma_attr_value_push(e.attrs@.subrange(0, k as int), e.attrs@[k as int], "OBJECT"@);
        }
        if string_eq_str(&a.name, "OBJECT") {
            if object.is_none() {
                object = Some(a.value.clone());
            }
        } else {
            return Err(ZdcError::UnknownAttribute(a.name.clone()));
        }
        k += 1;
    }
    proof {
        assert(e.attrs@.subrange(0, n_attrs as int) =~= e.attrs@);
    }
    let object = match object {
        Some(o) => o,
        None => {
            return Err(ZdcError::MissingAttribute(String::from_str("OBJECT")));
        },
    };
    let title = match title {
        Some(t) => t,
        None => {
            return Err(ZdcError::MissingElement(String::from_str("TITLE")));
        },
    };
    if meas.len() == 0 {
        return Err(ZdcError::MissingElement(String::from_str("MEAS")));
    }
    section_from_common(CommonSection { object, title, measurements: meas })
}

// ---------------------------------------------------------------------------
// Session metadata records
// ---------------------------------------------------------------------------

/// The attributes recognized on a commentary element.
pub open spec fn spec_kommentar_attr(n: Seq<char>) -> bool {
    n == "space"@
}

/// A commentary element of the recognized shape: one space attribute and
/// text-only content.
pub open spec fn spec_kommentar_elem_valid(e: XmlElement) -> bool {
    &&& forall|k: int|
        0 <= k < e.attrs@.len() ==> spec_kommentar_attr(#[trigger] e.attrs@[k].name@)
    &&& spec_attr_value(e.attrs@, "space"@) is Some
    &&& forall|k: int| 0 <= k < e.children@.len() ==> #[trigger] e.children@[k] is Text
}

/// Read a commentary element: a space attribute and optional text.
pub fn parse_kommentar(e: &XmlElement) -> (r: Result<Kommentar, ZdcError>)
    ensures
        r is Ok ==> forall|k: int|
            0 <= k < e.attrs@.len() ==> spec_kommentar_attr(e.attrs@[k].name@),
        spec_kommentar_elem_valid(*e) ==> r is Ok,
{
    let value = match text_content(e) {
        Ok(c) => c,
        Err(er) => {
            return Err(er);
        },
    };
    let mut space: Option<String> = None;
    let n_attrs = e.attrs.len();
    let mut k: usize = 0;
    while k < n_attrs
        invariant
            n_attrs == e.attrs@.len(),
            k <= n_attrs,
            forall|j: int| 0 <= j < k ==> spec_kommentar_attr(e.attrs@[j].name@),
            match space {
                Some(sp) => spec_attr_value(e.attrs@.subrange(0, k as int), "space"@) == Some(
                    sp,
                ),
                None => spec_attr_value(e.attrs@.subrange(0, k as int), "space"@) is None,
            },
        decreases n_attrs - k,
    {
        let a = &e.attrs[k];
        proof {
            assert(e.attrs@.subrange(0, k + 1 as int) =~= e.attrs@.subrange(0, k as int).push(
                e.attrs@[k as int],
            ));
            lemma_attr_value_push(e.attrs@.subrange(0, k as int), e.attrs@[k as int], "space"@);
        }
        if string_eq_str(&a.name, "space") {
            if space.is_none() {
                space = Some(a.value.clone());
            }
        } else {
            return Err(ZdcError::UnknownAttribute(a.name.clone()));
        }
        k += 1;
    }
    proof {
        assert(e.attrs@.subrange(0, n_attrs as int) =~= e.attrs@);
    }
    let xml_space = match space {
        Some(sp) => sp,
        None => {
            return Err(ZdcError::MissingAttribute(String::from_str("space")));
        },
    };
    Ok(Kommentar { xml_space, value })
}

/// The attributes recognized on a wait-list element.
pub open spec fn spec_warten_attr(n: Seq<char>) -> bool {
    n == "ID"@
}

/// A wait-list element of the recognized shape: one identifier attribute
/// and text content present.
pub open spec fn spec_warten_elem_valid(e: XmlElement) -> bool {
    &&& forall|k: int| 0 <= k < e.attrs@.len() ==> spec_warten_attr(#[trigger] e.attrs@[k].name@)
    &&& spec_attr_value(e.attrs@, "ID"@) is Some
    &&& forall|k: int| 0 <= k < e.children@.len() ==> #[trigger] e.children@[k] is Text
    &&& spec_has_text_child(e.children@)
}

/// Read a wait-list entry: an identifier attribute and required text.
pub fn parse_warten(e: &XmlElement) -> (r: Result<Warten, ZdcError>)
    ensures
        r is Ok ==> forall|k: int|
            0 <= k < e.attrs@.len() ==> spec_warten_attr(e.attrs@[k].name@),
        spec_warten_elem_valid(*e) ==> r is Ok,
{
    let value = match text_content(e) {
        Ok(Some(v)) => v,
        Ok(None) => {
            return Err(ZdcError::MissingText(String::from_str("WARTEN")));
        },
        Err(er) => {
            return Err(er);
        },
    };
    let mut id: Option<String> = None;
    let n_attrs = e.attrs.len();
    let mut k: usize = 0;
    while k < n_attrs
        invariant
            n_attrs == e.attrs@.len(),
            k <= n_attrs,
            forall|j: int| 0 <= j < k ==> spec_warten_attr(e.attrs@[j].name@),
            match id {
                Some(v) => spec_attr_value(e.attrs@.subrange(0, k as int), "ID"@) == Some(v),
                None => spec_attr_value(e.attrs@.subrange(0, k as int), "ID"@) is None,
            },
        decreases n_attrs - k,
    {
        let a = &e.attrs[k];
        proof {
            assert(e.attrs@.subrange(0, k + 1 as int) =~= e.attrs@.subrange(0, k as int).push(
                e.attrs@[k as int],
            ));
            lemma_attr_value_push(e.attrs@.subrange(0, k as int), e.attrs@[k as int], "ID"@);
        }
        if string_eq_str(&a.name, "ID") {
            if id.is_none() {
                id = Some(a.value.clone());
            }
        } else {
            return Err(ZdcError::UnknownAttribute(a.name.clone()));
        }
        k += 1;
    }
    proof {
        assert(e.attrs@.subrange(0, n_attrs as int) =~= e.attrs@);
    }
    let id = match id {
        Some(v) => v,
        None => {
            return Err(ZdcError::MissingAttribute(String::from_str("ID")));
        },
    };
    Ok(Warten { id, value })
}

/// The attributes recognized on a parameter element.
pub open spec fn spec_parameter_attr(n: Seq<char>) -> bool {
    n == "ShortName"@ || n == "Value"@ || n == "space"@
}

/// A parameter element of the recognized shape: short name and value
/// present, an optional space attribute, and no content.
pub open spec fn spec_parameter_elem_valid(e: XmlElement) -> bool {
    &&& forall|k: int|
        0 <= k < e.attrs@.len() ==> spec_parameter_attr(#[trigger] e.attrs@[k].name@)
    &&& spec_attr_value(e.attrs@, "ShortName"@) is Some
    &&& spec_attr_value(e.attrs@, "Value"@) is Some
    &&& e.children@.len() == 0
}

/// Read a parameter element: short name, value, optional space attribute,
/// and no content at all.
pub fn parse_parameter(e: &XmlElement) -> (r: Result<Parameter, ZdcError>)
    ensures
        r is Ok ==> forall|k: int|
            0 <= k < e.attrs@.len() ==> spec_parameter_attr(e.attrs@[k].name@),
        spec_parameter_elem_valid(*e) ==> r is Ok,
{
    match text_content(e) {
        Ok(Some(t)) => {
            return Err(ZdcError::UnexpectedText(t));
        },
        Ok(None) => {},
        Err(er) => {
            return Err(er);
        },
    }
    let mut short_name: Option<String> = None;
    let mut value: Option<String> = None;
    let mut space: Option<String> = None;
    let n_attrs = e.attrs.len();
    let mut k: usize = 0;
    while k < n_attrs
        invariant
            n_attrs == e.attrs@.len(),
            k <= n_attrs,
            forall|j: int| 0 <= j < k ==> spec_parameter_attr(e.attrs@[j].name@),
            match short_name {
                Some(v) => spec_attr_value(e.attrs@.subrange(0, k as int), "ShortName"@)
                    == Some(v),
                None => spec_attr_value(e.attrs@.subrange(0, k as int), "ShortName"@) is None,
            },
            match value {
                Some(v) => spec_attr_value(e.attrs@.subrange(0, k as int), "Value"@) == Some(
                    v,
                ),
                None => spec_attr_value(e.attrs@.subrange(0, k as int), "Value"@) is None,
            },
        decreases n_attrs - k,
    {
        let a = &e.attrs[k];
        proof {
            assert(e.attrs@.subrange(0, k + 1 as int) =~= e.attrs@.subrange(0, k as int).push(
                e.attrs@[k as int],
            ));
            lemma_attr_value_push(
                e.attrs@.subrange(0, k as int),
                e.attrs@[k as int],
                "ShortName"@,
            );
            lemma_attr_value_push(e.attrs@.subrange(0, k as int), e.attrs@[k as int], "Value"@);
            reveal_strlit("ShortName");
            reveal_strlit("Value");
            reveal_strlit("space");
            assert("Value"@[0] == 'V' && "space"@[0] == 's');
        }
        if string_eq_str(&a.name, "ShortName") {
            if short_name.is_none() {
                short_name = Some(a.value.clone());
            }
        } else if string_eq_str(&a.name, "Value") {
            if value.is_none() {
                value = Some(a.value.clone());
            }
        } else if string_eq_str(&a.name, "space") {
            if space.is_none() {
                space = Some(a.value.clone());
            }
        } else {
            return Err(ZdcError::UnknownAttribute(a.name.clone()));
        }
        k += 1;
    }
    proof {
        assert(e.attrs@.subrange(0, n_attrs as int) =~= e.attrs@);
    }
    let short_name = match short_name {
        Some(v) => v,
        None => {
            return Err(ZdcError::MissingAttribute(String::from_str("ShortName")));
        },
    };
    let value = match value {
        Some(v) => v,
        None => {
            return Err(ZdcError::MissingAttribute(String::from_str("Value")));
        },
    };
    Ok(Parameter { short_name, value, xml_space: space })
}

/// The attributes recognized on request and response elements.
pub open spec fn spec_req_resp_attr(n: Seq<char>) -> bool {
    n == "Value"@
}

/// A request or response element of the recognized shape: an optional value
/// attribute and only parameter children of recognized shape.
pub open spec fn spec_req_resp_elem_valid(e: XmlElement) -> bool {
    &&& forall|k: int|
        0 <= k < e.attrs@.len() ==> spec_req_resp_attr(#[trigger] e.attrs@[k].name@)
    &&& forall|k: int|
        0 <= k < e.children@.len() ==> match #[trigger] e.children@[k] {
            XmlNode::Element(el) => el.name@ == "Parameter"@ && spec_parameter_elem_valid(el),
            XmlNode::Text(_) => false,
        }
}

/// Shared reading of request and response elements: an optional value
/// attribute and any number of parameter children.
fn parse_req_resp_parts(e: &XmlElement) -> (r: Result<
    (Option<String>, Option<Vec<Parameter>>),
    ZdcError,
>)
    ensures
        r is Ok ==> forall|k: int|
            0 <= k < e.attrs@.len() ==> spec_req_resp_attr(e.attrs@[k].name@),
        spec_req_resp_elem_valid(*e) ==> r is Ok,
        r is Ok ==> spec_req_resp_subtree_attrs_ok(*e),
{
    let mut params: Vec<Parameter> = Vec::new();
    let n_children = e.children.len();
    let mut j: usize = 0;
    while j < n_children
        invariant
            n_children == e.children@.len(),
            j <= n_children,
            forall|k: int|
                0 <= k < j ==> spec_req_resp_child_attrs_ok(#[trigger] e.children@[k]),
        decreases n_children - j,
    {
        match &e.children[j] {
            XmlNode::Element(el) => {
                if string_eq_str(&el.name, "Parameter") {
                    match parse_parameter(el) {
                        Ok(p) => {
                            params.push(p);
                        },
                        Err(er) => {
                            return Err(er);
                        },
                    }
                } else {
                    return Err(ZdcError::UnknownElement(el.name.clone()));
                }
            },
            XmlNode::Text(t) => {
                return Err(ZdcError::UnexpectedText(t.clone()));
            },
        }
        j += 1;
    }
    proof {
        assert(e.children@.subrange(0, n_children as int) =~= e.children@);
    }
    let mut value: Option<String> = None;
    let n_attrs = e.attrs.len();
    let mut k: usize = 0;
    while k < n_attrs
        invariant
            n_attrs == e.attrs@.len(),
            k <= n_attrs,
            forall|j2: int| 0 <= j2 < k ==> spec_req_resp_attr(e.attrs@[j2].name@),
            forall|k2: int|
                0 <= k2 < e.children@.len() ==> spec_req_resp_child_attrs_ok(
                    #[trigger] e.children@[k2],
                ),
        decreases n_attrs - k,
    {
        let a = &e.attrs[k];
        if string_eq_str(&a.name, "Value") {
            if value.is_none() {
                value = Some(a.value.clone());
            }
        } else {
            return Err(ZdcError::UnknownAttribute(a.name.clone()));
        }
        k += 1;
    }
    let params_opt: Option<Vec<Parameter>> = if params.len() > 0 {
        Some(params)
    } else {
        None
    };
    Ok((value, params_opt))
}

/// Read a request element.
pub fn parse_request(e: &XmlElement) -> (r: Result<Request, ZdcError>)
    ensures
        r is Ok ==> forall|k: int|
            0 <= k < e.attrs@.len() ==> spec_req_resp_attr(e.attrs@[k].name@),
        spec_req_resp_elem_valid(*e) ==> r is Ok,
        r is Ok ==> spec_req_resp_subtree_attrs_ok(*e),
{
    match parse_req_resp_parts(e) {
        Ok((value, parameter)) => Ok(Request { value, parameter }),
        Err(er) => Err(er),
    }
}

/// Read a response element.
pub fn parse_response(e: &XmlElement) -> (r: Result<Response, ZdcError>)
    ensures
        r is Ok ==> forall|k: int|
            0 <= k < e.attrs@.len() ==> spec_req_resp_attr(e.attrs@[k].name@),
        spec_req_resp_elem_valid(*e) ==> r is Ok,
        r is Ok ==> spec_req_resp_subtree_attrs_ok(*e),
{
    match parse_req_resp_parts(e) {
        Ok((value, parameter)) => Ok(Response { value, parameter }),
        Err(er) => Err(er),
    }
}

/// The attributes recognized on the diagnosis-address element.
pub open spec fn spec_diag_attr(n: Seq<char>) -> bool {
    n == "codingOrder"@ || n == "IVD"@ || n == "SFD"@
}

/// A diagnosis-address element of the recognized shape: the three required
/// attributes and text content present.
pub open spec fn spec_diag_elem_valid(e: XmlElement) -> bool {
    &&& forall|k: int| 0 <= k < e.attrs@.len() ==> spec_diag_attr(#[trigger] e.attrs@[k].name@)
    &&& spec_attr_value(e.attrs@, "codingOrder"@) is Some
    &&& spec_attr_value(e.attrs@, "IVD"@) is Some
    &&& spec_attr_value(e.attrs@, "SFD"@) is Some
    &&& forall|k: int| 0 <= k < e.children@.len() ==> #[trigger] e.children@[k] is Text
    &&& spec_has_text_child(e.children@)
}

/// Read the diagnosis-address record: three required attributes and
/// required text content.
pub fn parse_diagnosis_address(e: &XmlElement) -> (r: Result<DiagnosisAddress, ZdcError>)
    ensures
        r is Ok ==> forall|k: int|
            0 <= k < e.attrs@.len() ==> spec_diag_attr(e.attrs@[k].name@),
        spec_diag_elem_valid(*e) ==> r is Ok,
{
    let value = match text_content(e) {
        Ok(Some(v)) => v,
        Ok(None) => {
            return Err(ZdcError::MissingText(String::from_str("diagnosisAddress")));
        },
        Err(er) => {
            return Err(er);
        },
    };
    let mut coding_order: Option<String> = None;
    let mut ivd: Option<String> = None;
    let mut sfd: Option<String> = None;
    let n_attrs = e.attrs.len();
    let mut k: usize = 0;
    while k < n_attrs
        invariant
            n_attrs == e.attrs@.len(),
            k <= n_attrs,
            forall|j: int| 0 <= j < k ==> spec_diag_attr(e.attrs@[j].name@),
            match coding_order {
                Some(v) => spec_attr_value(e.attrs@.subrange(0, k as int), "codingOrder"@)
                    == Some(v),
                None => spec_attr_value(e.attrs@.subrange(0, k as int), "codingOrder"@)
                    is None,
            },
            match ivd {
                Some(v) => spec_attr_value(e.attrs@.subrange(0, k as int), "IVD"@) == Some(v),
                None => spec_attr_value(e.attrs@.subrange(0, k as int), "IVD"@) is None,
            },
            match sfd {
                Some(v) => spec_attr_value(e.attrs@.subrange(0, k as int), "SFD"@) == Some(v),
                None => spec_attr_value(e.attrs@.subrange(0, k as int), "SFD"@) is None,
            },
        decreases n_attrs - k,
    {
        let a = &e.attrs[k];
        proof {
            assert(e.attrs@.subrange(0, k + 1 as int) =~= e.attrs@.subrange(0, k as int).push(
                e.attrs@[k as int],
            ));
            lemma_attr_value_push(
                e.attrs@.subrange(0, k as int),
                e.attrs@[k as int],
                "codingOrder"@,
            );
            lemma_attr_value_push(e.attrs@.subrange(0, k as int), e.attrs@[k as int], "IVD"@);
            lemma_attr_value_push(e.attrs@.subrange(0, k as int), e.attrs@[k as int], "SFD"@);
            reveal_strlit("codingOrder");
            reveal_strlit("IVD");
            reveal_strlit("SFD");
            assert("IVD"@[0] == 'I' && "SFD"@[0] == 'S');
        }
        if string_eq_str(&a.name, "codingOrder") {
            if coding_order.is_none() {
                coding_order = Some(a.value.clone());
            }
        } else if string_eq_str(&a.name, "IVD") {
            if ivd.is_none() {
                ivd = Some(a.value.clone());
            }
        } else if string_eq_str(&a.name, "SFD") {
            if sfd.is_none() {
                sfd = Some(a.value.clone());
            }
        } else {
            return Err(ZdcError::UnknownAttribute(a.name.clone()));
        }
        k += 1;
    }
    proof {
        assert(e.attrs@.subrange(0, n_attrs as int) =~= e.attrs@);
    }
    let coding_order = match coding_order {
        Some(v) => v,
        None => {
            return Err(ZdcError::MissingAttribute(String::from_str("codingOrder")));
        },
    };
    let ivd = match ivd {
        Some(v) => v,
        None => {
            return Err(ZdcError::MissingAttribute(String::from_str("IVD")));
        },
    };
    let sfd = match sfd {
        Some(v) => v,
        None => {
            return Err(ZdcError::MissingAttribute(String::from_str("SFD")));
        },
    };
    Ok(DiagnosisAddress { coding_order, ivd, sfd, value })
}

/// The attributes recognized on a short-name service element.
pub open spec fn spec_sns_attr(n: Seq<char>) -> bool {
    n == "ID"@ || n == "Phase"@ || n == "PhaseDetail"@ || n == "Mode"@ || n == "Bewertung"@
}

/// A short-name service element of the recognized shape: the required
/// identification attributes, one commentary, one request and at most one
/// response child, each of recognized shape.
pub open spec fn spec_sns_elem_valid(e: XmlElement) -> bool {
    &&& forall|k: int| 0 <= k < e.attrs@.len() ==> spec_sns_attr(#[trigger] e.attrs@[k].name@)
    &&& spec_attr_value(e.attrs@, "ID"@) is Some
    &&& spec_attr_value(e.attrs@, "Phase"@) is Some
    &&& spec_attr_value(e.attrs@, "PhaseDetail"@) is Some
    &&& spec_count_elems(e.children@, "Kommentar"@) == 1
    &&& spec_count_elems(e.children@, "Request"@) == 1
    &&& spec_count_elems(e.children@, "Response"@) <= 1
    &&& forall|k: int|
        0 <= k < e.children@.len() ==> match #[trigger] e.children@[k] {
            XmlNode::Element(el) => (el.name@ == "Kommentar"@ && spec_kommentar_elem_valid(el))
                || (el.name@ == "Request"@ && spec_req_resp_elem_valid(el)) || (el.name@
                == "Response"@ && spec_req_resp_elem_valid(el)),
            XmlNode::Text(_) => false,
        }
}

/// Read a short-name service record: identification attributes plus one
/// commentary, one request and at most one response child.
pub fn parse_short_name_service(e: &XmlElement) -> (r: Result<ShortNameService, ZdcError>)
    ensures
        r is Ok ==> forall|k: int|
            0 <= k < e.attrs@.len() ==> spec_sns_attr(e.attrs@[k].name@),
        spec_sns_elem_valid(*e) ==> r is Ok,
        r is Ok ==> spec_sns_subtree_attrs_ok(*e),
{
    proof {
        reveal_strlit("Kommentar");
        reveal_strlit("Request");
        reveal_strlit("Response");
        assert("Kommentar"@.len() == 9);
        assert("Request"@.len() == 7);
        assert("Response"@.len() == 8);
    }
    let mut kommentar: Option<Kommentar> = None;
    let mut request: Option<Request> = None;
    let mut response: Option<Response> = None;
    let n_children = e.children.len();
    let mut j: usize = 0;
    while j < n_children
        invariant
            n_children == e.children@.len(),
            j <= n_children,
            "Kommentar"@.len() == 9,
            "Request"@.len() == 7,
            "Response"@.len() == 8,
            kommentar is Some <==> spec_count_elems(
                e.children@.subrange(0, j as int),
                "Kommentar"@,
            ) > 0,
            request is Some <==> spec_count_elems(
                e.children@.subrange(0, j as int),
                "Request"@,
            ) > 0,
            response is Some <==> spec_count_elems(
                e.children@.subrange(0, j as int),
                "Response"@,
            ) > 0,
            forall|k: int| 0 <= k < j ==> spec_sns_child_attrs_ok(#[trigger] e.children@[k]),
        decreases n_children - j,
    {
        let ghost pre = e.children@.subrange(0, j as int);
        let ghost post = e.children@.subrange(0, j + 1 as int);
        proof {
            assert(forall|k: int| 0 <= k < post.len() ==> post[k] == e.children@[k]);
            assert(forall|k: int| 0 <= k < pre.len() ==> pre[k] == e.children@[k]);
            assert(post[j as int] == e.children@[j as int]);
            assert(post =~= pre.push(e.children@[j as int]));
            lemma_count_push(pre, e.children@[j as int], "Kommentar"@);
            lemma_count_push(pre, e.children@[j as int], "Request"@);
            lemma_count_push(pre, e.children@[j as int], "Response"@);
        }
        match &e.children[j] {
            XmlNode::Element(el) => {
                if string_eq_str(&el.name, "Kommentar") {
                    if kommentar.is_some() {
                        proof {
                            let suf = e.children@.subrange(j as int, n_children as int);
                            assert(e.children@ =~= pre + suf);
                            lemma_count_concat(pre, suf, "Kommentar"@);
                            assert(suf[0] == e.children@[j as int]);
                            assert(spec_count_elems(suf, "Kommentar"@) >= 1);
                        }
                        return Err(ZdcError::DuplicateElement(el.name.clone()));
                    }
                    match parse_kommentar(el) {
                        Ok(v) => {
                            kommentar = Some(v);
                        },
                        Err(er) => {
                            return Err(er);
                        },
                    }
                } else if string_eq_str(&el.name, "Request") {
                    if request.is_some() {
                        proof {
                            let suf = e.children@.subrange(j as int, n_children as int);
                            assert(e.children@ =~= pre + suf);
                            lemma_count_concat(pre, suf, "Request"@);
                            assert(suf[0] == e.children@[j as int]);
                            assert(spec_count_elems(suf, "Request"@) >= 1);
                        }
                        return Err(ZdcError::DuplicateElement(el.name.clone()));
                    }
                    match parse_request(el) {
                        Ok(v) => {
                            request = Some(v);
                        },
                        Err(er) => {
                            return Err(er);
                        },
                    }
                } else if string_eq_str(&el.name, "Response") {
                    if response.is_some() {
                        proof {
                            let suf = e.children@.subrange(j as int, n_children as int);
                            assert(e.children@ =~= pre + suf);
                            lemma_count_concat(pre, suf, "Response"@);
                            assert(suf[0] == e.children@[j as int]);
                            assert(spec_count_elems(suf, "Response"@) >= 1);
                        }
                        return Err(ZdcError::DuplicateElement(el.name.clone()));
                    }
                    match parse_response(el) {
                        Ok(v) => {
                            response = Some(v);
                        },
                        Err(er) => {
                            return Err(er);
                        },
                    }
                } else {
                    return Err(ZdcError::UnknownElement(el.name.clone()));
                }
            },
            XmlNode::Text(t) => {
                return Err(ZdcError::UnexpectedText(t.clone()));
            },
        }
        j += 1;
    }
    proof {
        assert(e.children@.subrange(0, n_children as int) =~= e.children@);
    }
    let ghost had_kommentar = spec_count_elems(e.children@, "Kommentar"@) > 0;
    let ghost had_request = spec_count_elems(e.children@, "Request"@) > 0;
    let mut id: Option<String> = None;
    let mut phase: Option<String> = None;
    let mut phase_detail: Option<String> = None;
    let mut mode: Option<String> = None;
    let mut bewertung: Option<String> = None;
    let n_attrs = e.attrs.len();
    let mut k: usize = 0;
    while k < n_attrs
        invariant
            n_attrs == e.attrs@.len(),
            k <= n_attrs,
            forall|j2: int| 0 <= j2 < k ==> spec_sns_attr(e.attrs@[j2].name@),
            kommentar is Some <==> had_kommentar,
            request is Some <==> had_request,
            forall|k2: int|
                0 <= k2 < e.children@.len() ==> spec_sns_child_attrs_ok(
                    #[trigger] e.children@[k2],
                ),
            match id {
                Some(v) => spec_attr_value(e.attrs@.subrange(0, k as int), "ID"@) == Some(v),
                None => spec_attr_value(e.attrs@.subrange(0, k as int), "ID"@) is None,
            },
            match phase {
                Some(v) => spec_attr_value(e.attrs@.subrange(0, k as int), "Phase"@) == Some(
                    v,
                ),
                None => spec_attr_value(e.attrs@.subrange(0, k as int), "Phase"@) is None,
            },
            match phase_detail {
                Some(v) => spec_attr_value(e.attrs@.subrange(0, k as int), "PhaseDetail"@)
                    == Some(v),
                None => spec_attr_value(e.attrs@.subrange(0, k as int), "PhaseDetail"@)
                    is None,
            },
        decreases n_attrs - k,
    {
        let a = &e.attrs[k];
        proof {
            assert(e.attrs@.subrange(0, k + 1 as int) =~= e.attrs@.subrange(0, k as int).push(
                e.attrs@[k as int],
            ));
            lemma_attr_value_push(e.attrs@.subrange(0, k as int), e.attrs@[k as int], "ID"@);
            lemma_attr_value_push(e.attrs@.subrange(0, k as int), e.attrs@[k as int], "Phase"@);
            lemma_attr_value_push(
                e.attrs@.subrange(0, k as int),
                e.attrs@[k as int],
                "PhaseDetail"@,
            );
            reveal_strlit("ID");
            reveal_strlit("Phase");
            reveal_strlit("PhaseDetail");
            reveal_strlit("Mode");
            reveal_strlit("Bewertung");
            assert("ID"@.len() == 2);
            assert("Phase"@.len() == 5);
            assert("PhaseDetail"@.len() == 11);
            assert("Mode"@.len() == 4);
            assert("Bewertung"@.len() == 9);
        }
        if string_eq_str(&a.name, "ID") {
            if id.is_none() {
                id = Some(a.value.clone());
            }
        } else if string_eq_str(&a.name, "Phase") {
            if phase.is_none() {
                phase = Some(a.value.clone());
            }
        } else if string_eq_str(&a.name, "PhaseDetail") {
            if phase_detail.is_none() {
                phase_detail = Some(a.value.clone());
            }
        } else if string_eq_str(&a.name, "Mode") {
            if mode.is_none() {
                mode = Some(a.value.clone());
            }
        } else if string_eq_str(&a.name, "Bewertung") {
            if bewertung.is_none() {
                bewertung = Some(a.value.clone());
            }
        } else {
            return Err(ZdcError::UnknownAttribute(a.name.clone()));
        }
        k += 1;
    }
    proof {
        assert(e.attrs@.subrange(0, n_attrs as int) =~= e.attrs@);
    }
    let id = match id {
        Some(v) => v,
        None => {
            return Err(ZdcError::MissingAttribute(String::from_str("ID")));
        },
    };
    let phase = match phase {
        Some(v) => v,
        None => {
            return Err(ZdcError::MissingAttribute(String::from_str("Phase")));
        },
    };
    let phase_detail = match phase_detail {
        Some(v) => v,
        None => {
            return Err(ZdcError::MissingAttribute(String::from_str("PhaseDetail")));
        },
    };
    let kommentar = match kommentar {
        Some(v) => v,
        None => {
            return Err(ZdcError::MissingElement(String::from_str("Kommentar")));
        },
    };
    let request = match request {
        Some(v) => v,
        None => {
            return Err(ZdcError::MissingElement(String::from_str("Request")));
        },
    };
    Ok(ShortNameService { id, phase, phase_detail, mode, bewertung, kommentar, request, response })
}

/// The attributes recognized on a translation element.
pub open spec fn spec_translation_attr(n: Seq<char>) -> bool {
    n == "ParameterName"@ || n == "BytePosition"@ || n == "BitLength"@ || n == "HexValue"@
}

/// A translation element of the recognized shape: the four required
/// attributes, exactly one LSB child of simple text shape, and text content
/// beside it.
pub open spec fn spec_translation_elem_valid(e: XmlElement) -> bool {
    &&& forall|k: int|
        0 <= k < e.attrs@.len() ==> spec_translation_attr(#[trigger] e.attrs@[k].name@)
    &&& spec_attr_value(e.attrs@, "ParameterName"@) is Some
    &&& spec_attr_value(e.attrs@, "BytePosition"@) is Some
    &&& spec_attr_value(e.attrs@, "BitLength"@) is Some
    &&& spec_attr_value(e.attrs@, "HexValue"@) is Some
    &&& spec_count_elems(e.children@, "LSB"@) == 1
    &&& spec_has_text_child(e.children@)
    &&& forall|k: int|
        0 <= k < e.children@.len() ==> match #[trigger] e.children@[k] {
            XmlNode::Element(el) => el.name@ == "LSB"@ && spec_text_elem_valid(el),
            XmlNode::Text(_) => true,
        }
}

/// Read one human-translation entry: four required attributes, one LSB
/// child element and required text content beside it.
pub fn parse_translation(e: &XmlElement) -> (r: Result<Translations, ZdcError>)
    ensures
        r is Ok ==> forall|k: int|
            0 <= k < e.attrs@.len() ==> spec_translation_attr(e.attrs@[k].name@),
        spec_translation_elem_valid(*e) ==> r is Ok,
        r is Ok ==> spec_translation_subtree_attrs_ok(*e),
{
    let mut lsb: Option<String> = None;
    let mut acc = String::new();
    let mut saw_text = false;
    let n_children = e.children.len();
    let mut j: usize = 0;
    while j < n_children
        invariant
            n_children == e.children@.len(),
            j <= n_children,
            lsb is Some <==> spec_count_elems(e.children@.subrange(0, j as int), "LSB"@) > 0,
            saw_text <==> spec_has_text_child(e.children@.subrange(0, j as int)),
            forall|k: int|
                0 <= k < j ==> spec_translation_child_attrs_ok(#[trigger] e.children@[k]),
        decreases n_children - j,
    {
        let ghost pre = e.children@.subrange(0, j as int);
        let ghost post = e.children@.subrange(0, j + 1 as int);
        proof {
            assert(forall|k: int| 0 <= k < post.len() ==> post[k] == e.children@[k]);
            assert(forall|k: int| 0 <= k < pre.len() ==> pre[k] == e.children@[k]);
            assert(post[j as int] == e.children@[j as int]);
            assert(post =~= pre.push(e.children@[j as int]));
            lemma_count_push(pre, e.children@[j as int], "LSB"@);
        }
        match &e.children[j] {
            XmlNode::Element(el) => {
                if string_eq_str(&el.name, "LSB") {
                    if lsb.is_some() {
                        proof {
                            let suf = e.children@.subrange(j as int, n_children as int);
                            assert(e.children@ =~= pre + suf);
                            lemma_count_concat(pre, suf, "LSB"@);
                            assert(suf[0] == e.children@[j as int]);
                            assert(spec_count_elems(suf, "LSB"@) >= 1);
                        }
                        return Err(ZdcError::DuplicateElement(el.name.clone()));
                    }
                    match simple_text_child(el) {
                        Ok(Some(t)) => {
                            lsb = Some(t);
                        },
                        Ok(None) => {
                            lsb = Some(String::new());
                        },
                        Err(er) => {
                            return Err(er);
                        },
                    }
                } else {
                    return Err(ZdcError::UnknownElement(el.name.clone()));
                }
            },
            XmlNode::Text(t) => {
                acc.append(t.as_str());
                saw_text = true;
            },
        }
        j += 1;
    }
    proof {
        assert(e.children@.subrange(0, n_children as int) =~= e.children@);
    }
    if !saw_text {
        return Err(ZdcError::MissingText(String::from_str("Translation")));
    }
    let lsb = match lsb {
        Some(v) => v,
        None => {
            return Err(ZdcError::MissingElement(String::from_str("LSB")));
        },
    };
    let mut parameter_name: Option<String> = None;
    let mut byte_position: Option<String> = None;
    let mut bit_length: Option<String> = None;
    let mut hex_value: Option<String> = None;
    let n_attrs = e.attrs.len();
    let mut k: usize = 0;
    while k < n_attrs
        invariant
            n_attrs == e.attrs@.len(),
            k <= n_attrs,
            forall|j2: int| 0 <= j2 < k ==> spec_translation_attr(e.attrs@[j2].name@),
            forall|k2: int|
                0 <= k2 < e.children@.len() ==> spec_translation_child_attrs_ok(
                    #[trigger] e.children@[k2],
                ),
            match parameter_name {
                Some(v) => spec_attr_value(e.attrs@.subrange(0, k as int), "ParameterName"@)
                    == Some(v),
                None => spec_attr_value(e.attrs@.subrange(0, k as int), "ParameterName"@)
                    is None,
            },
            match byte_position {
                Some(v) => spec_attr_value(e.attrs@.subrange(0, k as int), "BytePosition"@)
                    == Some(v),
                None => spec_attr_value(e.attrs@.subrange(0, k as int), "BytePosition"@)
                    is None,
            },
            match bit_length {
                Some(v) => spec_attr_value(e.attrs@.subrange(0, k as int), "BitLength"@)
                    == Some(v),
                None => spec_attr_value(e.attrs@.subrange(0, k as int), "BitLength"@) is None,
            },
            match hex_value {
                Some(v) => spec_attr_value(e.attrs@.subrange(0, k as int), "HexValue"@)
                    == Some(v),
                None => spec_attr_value(e.attrs@.subrange(0, k as int), "HexValue"@) is None,
            },
        decreases n_attrs - k,
    {
        let a = &e.attrs[k];
        proof {
            assert(e.attrs@.subrange(0, k + 1 as int) =~= e.attrs@.subrange(0, k as int).push(
                e.attrs@[k as int],
            ));
            lemma_attr_value_push(
                e.attrs@.subrange(0, k as int),
                e.attrs@[k as int],
                "ParameterName"@,
            );
            lemma_attr_value_push(
                e.attrs@.subrange(0, k as int),
                e.attrs@[k as int],
                "BytePosition"@,
            );
            lemma_attr_value_push(
                e.attrs@.subrange(0, k as int),
                e.attrs@[k as int],
                "BitLength"@,
            );
            lemma_attr_value_push(
                e.attrs@.subrange(0, k as int),
                e.attrs@[k as int],
                "HexValue"@,
            );
            reveal_strlit("ParameterName");
            reveal_strlit("BytePosition");
            reveal_strlit("BitLength");
            reveal_strlit("HexValue");
            assert("ParameterName"@.len() == 13);
            assert("BytePosition"@.len() == 12);
            assert("BitLength"@.len() == 9);
            assert("HexValue"@.len() == 8);
        }
        if string_eq_str(&a.name, "ParameterName") {
            if parameter_name.is_none() {
                parameter_name = Some(a.value.clone());
            }
        } else if string_eq_str(&a.name, "BytePosition") {
            if byte_position.is_none() {
                byte_position = Some(a.value.clone());
            }
        } else if string_eq_str(&a.name, "BitLength") {
            if bit_length.is_none() {
                bit_length = Some(a.value.clone());
            }
        } else if string_eq_str(&a.name, "HexValue") {
            if hex_value.is_none() {
                hex_value = Some(a.value.clone());
            }
        } else {
            return Err(ZdcError::UnknownAttribute(a.name.clone()));
        }
        k += 1;
    }
    proof {
        assert(e.attrs@.subrange(0, n_attrs as int) =~= e.attrs@);
    }
    let parameter_name = match parameter_name {
        Some(v) => v,
        None => {
            return Err(ZdcError::MissingAttribute(String::from_str("ParameterName")));
        },
    };
    let byte_position = match byte_position {
        Some(v) => v,
        None => {
            return Err(ZdcError::MissingAttribute(String::from_str("BytePosition")));
        },
    };
    let bit_length = match bit_length {
        Some(v) => v,
        None => {
            return Err(ZdcError::MissingAttribute(String::from_str("BitLength")));
        },
    };
    let hex_value = match hex_value {
        Some(v) => v,
        None => {
            return Err(ZdcError::MissingAttribute(String::from_str("HexValue")));
        },
    };
    Ok(Translations { parameter_name, byte_position, lsb, bit_length, hex_value, value: acc })
}

/// The attributes recognized on the human-translations element.
pub open spec fn spec_ht_attr(n: Seq<char>) -> bool {
    n == "ServiceID"@ || n == "RDIdentifier"@ || n == "ServiceName"@
}

/// A human-translations element of the recognized shape: optional
/// identification attributes and only translation children of recognized
/// shape.
pub open spec fn spec_ht_elem_valid(e: XmlElement) -> bool {
    &&& forall|k: int| 0 <= k < e.attrs@.len() ==> spec_ht_attr(#[trigger] e.attrs@[k].name@)
    &&& forall|k: int|
        0 <= k < e.children@.len() ==> match #[trigger] e.children@[k] {
            XmlNode::Element(el) => el.name@ == "Translation"@ && spec_translation_elem_valid(
                el,
            ),
            XmlNode::Text(_) => false,
        }
}

/// Read the translation table: three optional attributes and any number of
/// translation children.
pub fn parse_human_translations(e: &XmlElement) -> (r: Result<HumanTranslations, ZdcError>)
    ensures
        r is Ok ==> forall|k: int|
            0 <= k < e.attrs@.len() ==> spec_ht_attr(e.attrs@[k].name@),
        spec_ht_elem_valid(*e) ==> r is Ok,
        r is Ok ==> spec_ht_subtree_attrs_ok(*e),
{
    let mut translations: Vec<Translations> = Vec::new();
    let n_children = e.children.len();
    let mut j: usize = 0;
    while j < n_children
        invariant
            n_children == e.children@.len(),
            j <= n_children,
            forall|k: int| 0 <= k < j ==> spec_ht_child_attrs_ok(#[trigger] e.children@[k]),
        decreases n_children - j,
    {
        match &e.children[j] {
            XmlNode::Element(el) => {
                if string_eq_str(&el.name, "Translation") {
                    match parse_translation(el) {
                        Ok(t) => {
                            translations.push(t);
                        },
                        Err(er) => {
                            return Err(er);
                        },
                    }
                } else {
                    return Err(ZdcError::UnknownElement(el.name.clone()));
                }
            },
            XmlNode::Text(t) => {
                return Err(ZdcError::UnexpectedText(t.clone()));
            },
        }
        j += 1;
    }
    proof {
        assert(e.children@.subrange(0, n_children as int) =~= e.children@);
    }
    let mut service_id: Option<String> = None;
    let mut rd_identifier: Option<String> = None;
    let mut service_name: Option<String> = None;
    let n_attrs = e.attrs.len();
    let mut k: usize = 0;
    while k < n_attrs
        invariant
            n_attrs == e.attrs@.len(),
            k <= n_attrs,
            forall|j2: int| 0 <= j2 < k ==> spec_ht_attr(e.attrs@[j2].name@),
            forall|k2: int|
                0 <= k2 < e.children@.len() ==> spec_ht_child_attrs_ok(
                    #[trigger] e.children@[k2],
                ),
        decreases n_attrs - k,
    {
        let a = &e.attrs[k];
        if string_eq_str(&a.name, "ServiceID") {
            if service_id.is_none() {
                service_id = Some(a.value.clone());
            }
        } else if string_eq_str(&a.name, "RDIdentifier") {
            if rd_identifier.is_none() {
                rd_identifier = Some(a.value.clone());
            }
        } else if string_eq_str(&a.name, "ServiceName") {
            if service_name.is_none() {
                service_name = Some(a.value.clone());
            }
        } else {
            return Err(ZdcError::UnknownAttribute(a.name.clone()));
        }
        k += 1;
    }
    let translations_opt: Option<Vec<Translations>> = if translations.len() > 0 {
        Some(translations)
    } else {
        None
    };
    Ok(
        HumanTranslations {
            service_id,
            rd_identifier,
            service_name,
            translations: translations_opt,
        },
    )
}

/// The attributes recognized on the hex-service element.
pub open spec fn spec_hex_attr(n: Seq<char>) -> bool {
    n == "ID"@ || n == "Phase"@ || n == "PhaseDetail"@ || n == "did"@ || n == "Bewertung"@
}

/// A hex-service element of the recognized shape: the required
/// identification attributes, one commentary, one raw request, at most one
/// expected value and response, one translation table and at least one
/// section, each child of recognized shape.
pub open spec fn spec_hex_elem_valid(e: XmlElement) -> bool {
    &&& forall|k: int| 0 <= k < e.attrs@.len() ==> spec_hex_attr(#[trigger] e.attrs@[k].name@)
    &&& spec_attr_value(e.attrs@, "ID"@) is Some
    &&& spec_attr_value(e.attrs@, "Phase"@) is Some
    &&& spec_attr_value(e.attrs@, "PhaseDetail"@) is Some
    &&& spec_attr_value(e.attrs@, "Bewertung"@) is Some
    &&& spec_count_elems(e.children@, "Kommentar"@) == 1
    &&& spec_count_elems(e.children@, "Request"@) == 1
    &&& spec_count_elems(e.children@, "ExpectedValue"@) <= 1
    &&& spec_count_elems(e.children@, "Response"@) <= 1
    &&& spec_count_elems(e.children@, "HumanTranslations"@) == 1
    &&& spec_has_child_named(e.children@, "SECTIONS"@)
    &&& forall|k: int|
        0 <= k < e.children@.len() ==> match #[trigger] e.children@[k] {
            XmlNode::Element(el) => (el.name@ == "Kommentar"@ && spec_kommentar_elem_valid(el))
                || (el.name@ == "Request"@ && spec_text_elem_valid(el)) || (el.name@
                == "ExpectedValue"@ && spec_text_elem_valid(el)) || (el.name@ == "Response"@
                && spec_text_elem_valid(el)) || (el.name@ == "HumanTranslations"@
                && spec_ht_elem_valid(el)) || (el.name@ == "SECTIONS"@
                && spec_section_elem_valid(el)),
            XmlNode::Text(_) => false,
        }
}

/// Read the root diagnostic-service record: identification attributes, one
/// commentary, the raw request/response/expected-value strings, the
/// translation table and the section sequence.
pub fn parse_hex_service(e: &XmlElement) -> (r: Result<HexService, ZdcError>)
    ensures
        r is Ok ==> forall|k: int|
            0 <= k < e.attrs@.len() ==> spec_hex_attr(e.attrs@[k].name@),
        r matches Ok(h) ==> h.sections@.len() > 0,
        spec_hex_elem_valid(*e) ==> r is Ok,
        r is Ok ==> spec_hex_subtree_attrs_ok(*e),
{
    proof {
        reveal_strlit("Kommentar");
        reveal_strlit("Request");
        reveal_strlit("ExpectedValue");
        reveal_strlit("Response");
        reveal_strlit("HumanTranslations");
        reveal_strlit("SECTIONS");
        assert("Kommentar"@.len() == 9);
        assert("Request"@.len() == 7);
        assert("ExpectedValue"@.len() == 13);
        assert("Response"@.len() == 8);
        assert("HumanTranslations"@.len() == 17);
        assert("SECTIONS"@.len() == 8);
        assert("Response"@[0] == 'R' && "SECTIONS"@[0] == 'S');
        assert("Response"@ != "SECTIONS"@);
    }
    let mut kommentar: Option<Kommentar> = None;
    let mut request: Option<String> = None;
    let mut expected_value: Option<String> = None;
    let mut response: Option<String> = None;
    let mut human_translations: Option<HumanTranslations> = None;
    let mut sections: Vec<Section> = Vec::new();
    let n_children = e.children.len();
    let mut j: usize = 0;
    while j < n_children
        invariant
            n_children == e.children@.len(),
            j <= n_children,
            "Kommentar"@.len() == 9,
            "Request"@.len() == 7,
            "ExpectedValue"@.len() == 13,
            "Response"@.len() == 8,
            "HumanTranslations"@.len() == 17,
            "SECTIONS"@.len() == 8,
            "Response"@ != "SECTIONS"@,
            kommentar is Some <==> spec_count_elems(
                e.children@.subrange(0, j as int),
                "Kommentar"@,
            ) > 0,
            request is Some <==> spec_count_elems(
                e.children@.subrange(0, j as int),
                "Request"@,
            ) > 0,
            expected_value is Some <==> spec_count_elems(
                e.children@.subrange(0, j as int),
                "ExpectedValue"@,
            ) > 0,
            response is Some <==> spec_count_elems(
                e.children@.subrange(0, j as int),
                "Response"@,
            ) > 0,
            human_translations is Some <==> spec_count_elems(
                e.children@.subrange(0, j as int),
                "HumanTranslations"@,
            ) > 0,
            sections@.len() > 0 <==> spec_has_child_named(
                e.children@.subrange(0, j as int),
                "SECTIONS"@,
            ),
            forall|k: int| 0 <= k < j ==> spec_hex_child_attrs_ok(#[trigger] e.children@[k]),
        decreases n_children - j,
    {
        let ghost pre = e.children@.subrange(0, j as int);
        let ghost post = e.children@.subrange(0, j + 1 as int);
        proof {
            assert(forall|k: int| 0 <= k < post.len() ==> post[k] == e.children@[k]);
            assert(forall|k: int| 0 <= k < pre.len() ==> pre[k] == e.children@[k]);
            assert(post[j as int] == e.children@[j as int]);
            assert(post =~= pre.push(e.children@[j as int]));
            lemma_count_push(pre, e.children@[j as int], "Kommentar"@);
            lemma_count_push(pre, e.children@[j as int], "Request"@);
            lemma_count_push(pre, e.children@[j as int], "ExpectedValue"@);
            lemma_count_push(pre, e.children@[j as int], "Response"@);
            lemma_count_push(pre, e.children@[j as int], "HumanTranslations"@);
        }
        match &e.children[j] {
            XmlNode::Element(el) => {
                if string_eq_str(&el.name, "Kommentar") {
                    if kommentar.is_some() {
                        proof {
                            let suf = e.children@.subrange(j as int, n_children as int);
                            assert(e.children@ =~= pre + suf);
                            lemma_count_concat(pre, suf, "Kommentar"@);
                            assert(suf[0] == e.children@[j as int]);
                            assert(spec_count_elems(suf, "Kommentar"@) >= 1);
                        }
                        return Err(ZdcError::DuplicateElement(el.name.clone()));
                    }
                    match parse_kommentar(el) {
                        Ok(v) => {
                            kommentar = Some(v);
                        },
                        Err(er) => {
                            return Err(er);
                        },
                    }
                } else if string_eq_str(&el.name, "Request") {
                    if request.is_some() {
                        proof {
                            let suf = e.children@.subrange(j as int, n_children as int);
                            assert(e.children@ =~= pre + suf);
                            lemma_count_concat(pre, suf, "Request"@);
                            assert(suf[0] == e.children@[j as int]);
                            assert(spec_count_elems(suf, "Request"@) >= 1);
                        }
                        return Err(ZdcError::DuplicateElement(el.name.clone()));
                    }
                    match simple_text_child(el) {
                        Ok(Some(t)) => {
                            request = Some(t);
                        },
                        Ok(None) => {
                            request = Some(String::new());
                        },
                        Err(er) => {
                            return Err(er);
                        },
                    }
                } else if string_eq_str(&el.name, "ExpectedValue") {
                    if expected_value.is_some() {
                        proof {
                            let suf = e.children@.subrange(j as int, n_children as int);
                            assert(e.children@ =~= pre + suf);
                            lemma_count_concat(pre, suf, "ExpectedValue"@);
                            assert(suf[0] == e.children@[j as int]);
                            assert(spec_count_elems(suf, "ExpectedValue"@) >= 1);
                        }
                        return Err(ZdcError::DuplicateElement(el.name.clone()));
                    }
                    match simple_text_child(el) {
                        Ok(Some(t)) => {
                            expected_value = Some(t);
                        },
                        Ok(None) => {
                            expected_value = Some(String::new());
                        },
                        Err(er) => {
                            return Err(er);
                        },
                    }
                } else if string_eq_str(&el.name, "Response") {
                    if response.is_some() {
                        proof {
                            let suf = e.children@.subrange(j as int, n_children as int);
                            assert(e.children@ =~= pre + suf);
                            lemma_count_concat(pre, suf, "Response"@);
                            assert(suf[0] == e.children@[j as int]);
                            assert(spec_count_elems(suf, "Response"@) >= 1);
                        }
                        return Err(ZdcError::DuplicateElement(el.name.clone()));
                    }
                    match simple_text_child(el) {
                        Ok(Some(t)) => {
                            response = Some(t);
                        },
                        Ok(None) => {
                            response = Some(String::new());
                        },
                        Err(er) => {
                            return Err(er);
                        },
                    }
                } else if string_eq_str(&el.name, "HumanTranslations") {
                    if human_translations.is_some() {
                        proof {
                            let suf = e.children@.subrange(j as int, n_children as int);
                            assert(e.children@ =~= pre + suf);
                            lemma_count_concat(pre, suf, "HumanTranslations"@);
                            assert(suf[0] == e.children@[j as int]);
                            assert(spec_count_elems(suf, "HumanTranslations"@) >= 1);
                        }
                        return Err(ZdcError::DuplicateElement(el.name.clone()));
                    }
                    match parse_human_translations(el) {
                        Ok(v) => {
                            human_translations = Some(v);
                        },
                        Err(er) => {
                            return Err(er);
                        },
                    }
                } else if string_eq_str(&el.name, "SECTIONS") {
                    match parse_section(el) {
                        Ok(sec) => {
                            sections.push(sec);
                        },
                        Err(er) => {
                            return Err(er);
                        },
                    }
                } else {
                    return Err(ZdcError::UnknownElement(el.name.clone()));
                }
            },
            XmlNode::Text(t) => {
                return Err(ZdcError::UnexpectedText(t.clone()));
            },
        }
        j += 1;
    }
    proof {
        assert(e.children@.subrange(0, n_children as int) =~= e.children@);
    }
    let ghost had_kommentar = spec_count_elems(e.children@, "Kommentar"@) > 0;
    let ghost had_request = spec_count_elems(e.children@, "Request"@) > 0;
    let ghost had_ht = spec_count_elems(e.children@, "HumanTranslations"@) > 0;
    let ghost had_sections = spec_has_child_named(e.children@, "SECTIONS"@);
    let mut id: Option<String> = None;
    let mut phase: Option<String> = None;
    let mut phase_detail: Option<String> = None;
    let mut did: Option<String> = None;
    let mut bewertung: Option<String> = None;
    let n_attrs = e.attrs.len();
    let mut k: usize = 0;
    while k < n_attrs
        invariant
            n_attrs == e.attrs@.len(),
            k <= n_attrs,
            forall|j2: int| 0 <= j2 < k ==> spec_hex_attr(e.attrs@[j2].name@),
            forall|k2: int|
                0 <= k2 < e.children@.len() ==> spec_hex_child_attrs_ok(
                    #[trigger] e.children@[k2],
                ),
            kommentar is Some <==> had_kommentar,
            request is Some <==> had_request,
            human_translations is Some <==> had_ht,
            sections@.len() > 0 <==> had_sections,
            match id {
                Some(v) => spec_attr_value(e.attrs@.subrange(0, k as int), "ID"@) == Some(v),
                None => spec_attr_value(e.attrs@.subrange(0, k as int), "ID"@) is None,
            },
            match phase {
                Some(v) => spec_attr_value(e.attrs@.subrange(0, k as int), "Phase"@) == Some(
                    v,
                ),
                None => spec_attr_value(e.attrs@.subrange(0, k as int), "Phase"@) is None,
            },
            match phase_detail {
                Some(v) => spec_attr_value(e.attrs@.subrange(0, k as int), "PhaseDetail"@)
                    == Some(v),
                None => spec_attr_value(e.attrs@.subrange(0, k as int), "PhaseDetail"@)
                    is None,
            },
            match bewertung {
                Some(v) => spec_attr_value(e.attrs@.subrange(0, k as int), "Bewertung"@)
                    == Some(v),
                None => spec_attr_value(e.attrs@.subrange(0, k as int), "Bewertung"@) is None,
            },
        decreases n_attrs - k,
    {
        let a = &e.attrs[k];
        proof {
            assert(e.attrs@.subrange(0, k + 1 as int) =~= e.attrs@.subrange(0, k as int).push(
                e.attrs@[k as int],
            ));
            lemma_attr_value_push(e.attrs@.subrange(0, k as int), e.attrs@[k as int], "ID"@);
            lemma_attr_value_push(e.attrs@.subrange(0, k as int), e.attrs@[k as int], "Phase"@);
            lemma_attr_value_push(
                e.attrs@.subrange(0, k as int),
                e.attrs@[k as int],
                "PhaseDetail"@,
            );
            lemma_attr_value_push(
                e.attrs@.subrange(0, k as int),
                e.attrs@[k as int],
                "Bewertung"@,
            );
            reveal_strlit("ID");
            reveal_strlit("Phase");
            reveal_strlit("PhaseDetail");
            reveal_strlit("did");
            reveal_strlit("Bewertung");
            assert("ID"@.len() == 2);
            assert("Phase"@.len() == 5);
            assert("PhaseDetail"@.len() == 11);
            assert("did"@.len() == 3);
            assert("Bewertung"@.len() == 9);
        }
        if string_eq_str(&a.name, "ID") {
            if id.is_none() {
                id = Some(a.value.clone());
            }
        } else if string_eq_str(&a.name, "Phase") {
            if phase.is_none() {
                phase = Some(a.value.clone());
            }
        } else if string_eq_str(&a.name, "PhaseDetail") {
            if phase_detail.is_none() {
                phase_detail = Some(a.value.clone());
            }
        } else if string_eq_str(&a.name, "did") {
            if did.is_none() {
                did = Some(a.value.clone());
            }
        } else if string_eq_str(&a.name, "Bewertung") {
            if bewertung.is_none() {
                bewertung = Some(a.value.clone());
            }
        } else {
            return Err(ZdcError::UnknownAttribute(a.name.clone()));
        }
        k += 1;
    }
    proof {
        assert(e.attrs@.subrange(0, n_attrs as int) =~= e.attrs@);
    }
    let id = match id {
        Some(v) => v,
        None => {
            return Err(ZdcError::MissingAttribute(String::from_str("ID")));
        },
    };
    let phase = match phase {
        Some(v) => v,
        None => {
            return Err(ZdcError::MissingAttribute(String::from_str("Phase")));
        },
    };
    let phase_detail = match phase_detail {
        Some(v) => v,
        None => {
            return Err(ZdcError::MissingAttribute(String::from_str("PhaseDetail")));
        },
    };
    let bewertung = match bewertung {
        Some(v) => v,
        None => {
            return Err(ZdcError::MissingAttribute(String::from_str("Bewertung")));
        },
    };
    let kommentar = match kommentar {
        Some(v) => v,
        None => {
            return Err(ZdcError::MissingElement(String::from_str("Kommentar")));
        },
    };
    let request = match request {
        Some(v) => v,
        None => {
            return Err(ZdcError::MissingElement(String::from_str("Request")));
        },
    };
    let human_translations = match human_translations {
        Some(v) => v,
        None => {
            return Err(ZdcError::MissingElement(String::from_str("HumanTranslations")));
        },
    };
    if sections.len() == 0 {
        return Err(ZdcError::MissingElement(String::from_str("SECTIONS")));
    }
    Ok(
        HexService {
            id,
            phase,
            phase_detail,
            did,
            bewertung,
            kommentar,
            request,
            expected_value,
            response,
            human_translations,
            sections,
        },
    )
}

/// The attributes recognized on the session root element.
pub open spec fn spec_session_attr(n: Seq<char>) -> bool {
    n == "xmlns"@ || n == "ZDCFile"@ || n == "DATEI-ID"@ || n == "VERSION-INHALT"@
}

/// A session root element of the recognized shape: the four required
/// attributes, one diagnosis address, one hex service, and any number of
/// short-name services and wait entries, each child of recognized shape.
pub open spec fn spec_session_elem_valid(e: XmlElement) -> bool {
    &&& forall|k: int|
        0 <= k < e.attrs@.len() ==> spec_session_attr(#[trigger] e.attrs@[k].name@)
    &&& spec_attr_value(e.attrs@, "xmlns"@) is Some
    &&& spec_attr_value(e.attrs@, "ZDCFile"@) is Some
    &&& spec_attr_value(e.attrs@, "DATEI-ID"@) is Some
    &&& spec_attr_value(e.attrs@, "VERSION-INHALT"@) is Some
    &&& spec_count_elems(e.children@, "diagnosisAddress"@) == 1
    &&& spec_count_elems(e.children@, "HexService"@) == 1
    &&& forall|k: int|
        0 <= k < e.children@.len() ==> match #[trigger] e.children@[k] {
            XmlNode::Element(el) => (el.name@ == "diagnosisAddress"@ && spec_diag_elem_valid(
                el,
            )) || (el.name@ == "ShortNameService"@ && spec_sns_elem_valid(el)) || (el.name@
                == "Warten"@ && spec_warten_elem_valid(el)) || (el.name@ == "HexService"@
                && spec_hex_elem_valid(el)),
            XmlNode::Text(_) => false,
        }
}

/// Read the session root element: format and version attributes, one
/// diagnosis address, the short-name services, the wait list and exactly
/// one hex service.
pub fn parse_session_element(e: &XmlElement) -> (r: Result<ZdcSession, ZdcError>)
    ensures
        r is Ok ==> forall|k: int|
            0 <= k < e.attrs@.len() ==> spec_session_attr(e.attrs@[k].name@),
        r matches Ok(z) ==> z.hex_service.sections@.len() > 0,
        spec_session_elem_valid(*e) ==> r is Ok,
        r is Ok ==> spec_session_subtree_attrs_ok(*e),
{
    proof {
        reveal_strlit("diagnosisAddress");
        reveal_strlit("ShortNameService");
        reveal_strlit("Warten");
        reveal_strlit("HexService");
        assert("diagnosisAddress"@.len() == 16);
        assert("ShortNameService"@.len() == 16);
        assert("Warten"@.len() == 6);
        assert("HexService"@.len() == 10);
        assert("diagnosisAddress"@[0] == 'd' && "ShortNameService"@[0] == 'S');
        assert("diagnosisAddress"@ != "ShortNameService"@);
    }
    let mut diagnosis_address: Option<DiagnosisAddress> = None;
    let mut short_name_service: Vec<ShortNameService> = Vec::new();
    let mut warten: Vec<Warten> = Vec::new();
    let mut hex_service: Option<HexService> = None;
    let n_children = e.children.len();
    let mut j: usize = 0;
    while j < n_children
        invariant
            n_children == e.children@.len(),
            j <= n_children,
            "diagnosisAddress"@.len() == 16,
            "ShortNameService"@.len() == 16,
            "Warten"@.len() == 6,
            "HexService"@.len() == 10,
            "diagnosisAddress"@ != "ShortNameService"@,
            hex_service matches Some(h) ==> h.sections@.len() > 0,
            diagnosis_address is Some <==> spec_count_elems(
                e.children@.subrange(0, j as int),
                "diagnosisAddress"@,
            ) > 0,
            hex_service is Some <==> spec_count_elems(
                e.children@.subrange(0, j as int),
                "HexService"@,
            ) > 0,
            forall|k: int|
                0 <= k < j ==> spec_session_child_attrs_ok(#[trigger] e.children@[k]),
        decreases n_children - j,
    {
        let ghost pre = e.children@.subrange(0, j as int);
        let ghost post = e.children@.subrange(0, j + 1 as int);
        proof {
            assert(forall|k: int| 0 <= k < post.len() ==> post[k] == e.children@[k]);
            assert(forall|k: int| 0 <= k < pre.len() ==> pre[k] == e.children@[k]);
            assert(post[j as int] == e.children@[j as int]);
            assert(post =~= pre.push(e.children@[j as int]));
            lemma_count_push(pre, e.children@[j as int], "diagnosisAddress"@);
            lemma_count_push(pre, e.children@[j as int], "HexService"@);
        }
        match &e.children[j] {
            XmlNode::Element(el) => {
                if string_eq_str(&el.name, "diagnosisAddress") {
                    if diagnosis_address.is_some() {
                        proof {
                            let suf = e.children@.subrange(j as int, n_children as int);
                            assert(e.children@ =~= pre + suf);
                            lemma_count_concat(pre, suf, "diagnosisAddress"@);
                            assert(suf[0] == e.children@[j as int]);
                            assert(spec_count_elems(suf, "diagnosisAddress"@) >= 1);
                        }
                        return Err(ZdcError::DuplicateElement(el.name.clone()));
                    }
                    match parse_diagnosis_address(el) {
                        Ok(v) => {
                            diagnosis_address = Some(v);
                        },
                        Err(er) => {
                            return Err(er);
                        },
                    }
                } else if string_eq_str(&el.name, "ShortNameService") {
                    match parse_short_name_service(el) {
                        Ok(v) => {
                            short_name_service.push(v);
                        },
                        Err(er) => {
                            return Err(er);
                        },
                    }
                } else if string_eq_str(&el.name, "Warten") {
                    match parse_warten(el) {
                        Ok(v) => {
                            warten.push(v);
                        },
                        Err(er) => {
                            return Err(er);
                        },
                    }
                } else if string_eq_str(&el.name, "HexService") {
                    if hex_service.is_some() {
                        proof {
                            let suf = e.children@.subrange(j as int, n_children as int);
                            assert(e.children@ =~= pre + suf);
                            lemma_count_concat(pre, suf, "HexService"@);
                            assert(suf[0] == e.children@[j as int]);
                            assert(spec_count_elems(suf, "HexService"@) >= 1);
                        }
                        return Err(ZdcError::DuplicateElement(el.name.clone()));
                    }
                    match parse_hex_service(el) {
                        Ok(v) => {
                            hex_service = Some(v);
                        },
                        Err(er) => {
                            return Err(er);
                        },
                    }
                } else {
                    return Err(ZdcError::UnknownElement(el.name.clone()));
                }
            },
            XmlNode::Text(t) => {
                return Err(ZdcError::UnexpectedText(t.clone()));
            },
        }
        j += 1;
    }
    proof {
        assert(e.children@.subrange(0, n_children as int) =~= e.children@);
    }
    let ghost had_diag = spec_count_elems(e.children@, "diagnosisAddress"@) > 0;
    let ghost had_hex = spec_count_elems(e.children@, "HexService"@) > 0;
    let mut xmlns: Option<String> = None;
    let mut zdc_file: Option<String> = None;
    let mut datei_id: Option<String> = None;
    let mut version_inhalt: Option<String> = None;
    let n_attrs = e.attrs.len();
    let mut k: usize = 0;
    while k < n_attrs
        invariant
            n_attrs == e.attrs@.len(),
            k <= n_attrs,
            forall|j2: int| 0 <= j2 < k ==> spec_session_attr(e.attrs@[j2].name@),
            hex_service matches Some(h) ==> h.sections@.len() > 0,
            forall|k2: int|
                0 <= k2 < e.children@.len() ==> spec_session_child_attrs_ok(
                    #[trigger] e.children@[k2],
                ),
            diagnosis_address is Some <==> had_diag,
            hex_service is Some <==> had_hex,
            match xmlns {
                Some(v) => spec_attr_value(e.attrs@.subrange(0, k as int), "xmlns"@) == Some(
                    v,
                ),
                None => spec_attr_value(e.attrs@.subrange(0, k as int), "xmlns"@) is None,
            },
            match zdc_file {
                Some(v) => spec_attr_value(e.attrs@.subrange(0, k as int), "ZDCFile"@) == Some(
                    v,
                ),
                None => spec_attr_value(e.attrs@.subrange(0, k as int), "ZDCFile"@) is None,
            },
            match datei_id {
                Some(v) => spec_attr_value(e.attrs@.subrange(0, k as int), "DATEI-ID"@)
                    == Some(v),
                None => spec_attr_value(e.attrs@.subrange(0, k as int), "DATEI-ID"@) is None,
            },
            match version_inhalt {
                Some(v) => spec_attr_value(e.attrs@.subrange(0, k as int), "VERSION-INHALT"@)
                    == Some(v),
                None => spec_attr_value(e.attrs@.subrange(0, k as int), "VERSION-INHALT"@)
                    is None,
            },
        decreases n_attrs - k,
    {
        let a = &e.attrs[k];
        proof {
            assert(e.attrs@.subrange(0, k + 1 as int) =~= e.attrs@.subrange(0, k as int).push(
                e.attrs@[k as int],
            ));
            lemma_attr_value_push(e.attrs@.subrange(0, k as int), e.attrs@[k as int], "xmlns"@);
            lemma_attr_value_push(
                e.attrs@.subrange(0, k as int),
                e.attrs@[k as int],
                "ZDCFile"@,
            );
            lemma_attr_value_push(
                e.attrs@.subrange(0, k as int),
                e.attrs@[k as int],
                "DATEI-ID"@,
            );
            lemma_attr_value_push(
                e.attrs@.subrange(0, k as int),
                e.attrs@[k as int],
                "VERSION-INHALT"@,
            );
            reveal_strlit("xmlns");
            reveal_strlit("ZDCFile");
            reveal_strlit("DATEI-ID");
            reveal_strlit("VERSION-INHALT");
            assert("xmlns"@.len() == 5);
            assert("ZDCFile"@.len() == 7);
            assert("DATEI-ID"@.len() == 8);
            assert("VERSION-INHALT"@.len() == 14);
        }
        if string_eq_str(&a.name, "xmlns") {
            if xmlns.is_none() {
                xmlns = Some(a.value.clone());
            }
        } else if string_eq_str(&a.name, "ZDCFile") {
            if zdc_file.is_none() {
                zdc_file = Some(a.value.clone());
            }
        } else if string_eq_str(&a.name, "DATEI-ID") {
            if datei_id.is_none() {
                datei_id = Some(a.value.clone());
            }
        } else if string_eq_str(&a.name, "VERSION-INHALT") {
            if version_inhalt.is_none() {
                version_inhalt = Some(a.value.clone());
            }
        } else {
            return Err(ZdcError::UnknownAttribute(a.name.clone()));
        }
        k += 1;
    }
    proof {
        assert(e.attrs@.subrange(0, n_attrs as int) =~= e.attrs@);
    }
    let xmlns = match xmlns {
        Some(v) => v,
        None => {
            return Err(ZdcError::MissingAttribute(String::from_str("xmlns")));
        },
    };
    let zdc_file = match zdc_file {
        Some(v) => v,
        None => {
            return Err(ZdcError::MissingAttribute(String::from_str("ZDCFile")));
        },
    };
    let datei_id = match datei_id {
        Some(v) => v,
        None => {
            return Err(ZdcError::MissingAttribute(String::from_str("DATEI-ID")));
        },
    };
    let version_inhalt = match version_inhalt {
        Some(v) => v,
        None => {
            return Err(ZdcError::MissingAttribute(String::from_str("VERSION-INHALT")));
        },
    };
    let diagnosis_address = match diagnosis_address {
        Some(v) => v,
        None => {
            return Err(ZdcError::MissingElement(String::from_str("diagnosisAddress")));
        },
    };
    let hex_service = match hex_service {
        Some(v) => v,
        None => {
            return Err(ZdcError::MissingElement(String::from_str("HexService")));
        },
    };
    Ok(
        ZdcSession {
            xmlns,
            zdc_file,
            datei_id,
            version_inhalt,
            diagnosis_address,
            short_name_service,
            warten,
            hex_service,
        },
    )
}

/// Parse a whole session document from its text.  The tree is built in one
/// pass: any syntax or schema failure yields an error and no session.  The
/// schema half is pinned on `parse_session_element`, whose contract owes
/// success for every element tree of the recognized shape; the text-to-tree
/// half has no specification-level grammar, so nothing is promised of which
/// strings reach the schema phase.
pub fn session_from_xml(input: &str) -> (r: Result<ZdcSession, ZdcError>)
    ensures
        r matches Ok(z) ==> z.hex_service.sections@.len() > 0,
{
    match parse_xml(input) {
        Ok(root) => parse_session_element(&root),
        Err(er) => Err(er),
    }
}

} // verus!
