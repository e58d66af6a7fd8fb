use piwis_zdc::binder::session_from_xml;
use piwis_zdc::dump::zdc_dump_lines;
use piwis_zdc::loader::pick_session_file;
use piwis_zdc::model::{AlphaValue, NumberValue, ValueEnum, ZdcSession};
use piwis_zdc::schema::{measurement_from_common, CommonMeasurement, ZdcError};

fn sample_xml() -> &'static str {
    r#"<?xml version="1.0" encoding="UTF-8"?>
<ZDC xmlns="http://example.invalid/zdc" ZDCFile="true" DATEI-ID="0001" VERSION-INHALT="0100">
  <diagnosisAddress codingOrder="true" IVD="true" SFD="false">0019</diagnosisAddress>
  <ShortNameService ID="ReadId" Phase="1" PhaseDetail="start">
    <Kommentar space="preserve">read identification</Kommentar>
    <Request Value="22 F1 90">
      <Parameter ShortName="RecordDataIdentifier" Value="F1 90"/>
    </Request>
    <Response Value="62 F1 90"/>
  </ShortNameService>
  <Warten ID="W1">500</Warten>
  <HexService ID="Hex1" Phase="2" PhaseDetail="main" Bewertung="io">
    <Kommentar space="preserve"/>
    <Request>22 03 64</Request>
    <ExpectedValue>62 03 64</ExpectedValue>
    <Response>62 03 64 01</Response>
    <HumanTranslations ServiceID="0x22">
      <Translation ParameterName="Codierwert" BytePosition="1" BitLength="8" HexValue="0x01"><LSB>0</LSB>coding value</Translation>
    </HumanTranslations>
    <SECTIONS OBJECT="ECU">
      <TITLE>Gateway (A7.1)</TITLE>
      <MEAS OBJECT="Codierung">
        <TITLE>Control unit, coding</TITLE>
        <VALUE FORMAT="ALPHA" TEXT="Battery change: Scanner code" LABEL="Batteriewechsel_Technologie_zwei.Scannercode">205 BA24H9F0EGE</VALUE>
      </MEAS>
      <MEAS OBJECT="Messwerte">
        <TITLE>Battery</TITLE>
        <VALUE FORMAT="NUM" TEXT="Voltage" UNIT="V" LABEL="U_Batt">12.4</VALUE>
      </MEAS>
    </SECTIONS>
    <SECTIONS OBJECT="ECU">
      <TITLE>Airbag (variant: A2.8)</TITLE>
      <MEAS OBJECT="Fehler">
        <TITLE>Fault</TITLE>
        <MEAS OBJECT="Erweiterter Fehlerspeicher">
          <TITLE>erweiterter Fehlerspeicher</TITLE>
          <VALUE FORMAT="ALPHA" TEXT="Hinweis_Prio" LABEL="Priority">2</VALUE>
          <VALUE FORMAT="ALPHA" TEXT="Note" LABEL="Note_1"/>
        </MEAS>
      </MEAS>
    </SECTIONS>
  </HexService>
</ZDC>
"#
}

fn sample_session() -> ZdcSession {
    session_from_xml(sample_xml()).expect("the sample document parses")
}

#[test]
fn test() {
    let val = sample_session();

    let section = &val.get_section_by_title("Gateway (A7.1)").unwrap();
    let m = &section
        .get_measurement_by_title(&"Control unit, coding".to_string())
        .unwrap();
    let value = m
        .get_value_by_label(&"Batteriewechsel_Technologie_zwei.Scannercode".to_string())
        .unwrap();
    assert_eq!(m.get_title(), "Control unit, coding");
    assert_eq!(
        value,
        &ValueEnum::Alpha(AlphaValue {
            text: "Battery change: Scanner code".to_string(),
            label: "Batteriewechsel_Technologie_zwei.Scannercode".to_string(),
            value: Some("205 BA24H9F0EGE".to_string()),
        })
    );

    let section = &val.get_section_by_title("Airbag (variant: A2.8)").unwrap();
    let m = &section
        .get_measurement_by_title(&"Fault".to_string())
        .unwrap();
    let submeasurement = m
        .get_submeasurement_by_title(&"erweiterter Fehlerspeicher".to_string())
        .unwrap();
    let value = submeasurement
        .get_value_by_label(&"Priority".to_string())
        .unwrap();
    assert_eq!(m.get_title(), "Fault");
    assert_eq!(
        value,
        &ValueEnum::Alpha(AlphaValue {
            text: "Hinweis_Prio".to_string(),
            label: "Priority".to_string(),
            value: Some("2".to_string()),
        })
    );
}

#[test]
fn session_metadata_is_carried_through() {
    let val = sample_session();
    assert_eq!(val.datei_id, "0001");
    assert_eq!(val.version_inhalt, "0100");
    assert_eq!(val.diagnosis_address.value, "0019");
    assert_eq!(val.short_name_service.len(), 1);
    assert_eq!(val.warten[0].id, "W1");
    assert_eq!(val.warten[0].value, "500");
    assert_eq!(val.hex_service.request, "22 03 64");
    assert_eq!(val.hex_service.expected_value, Some("62 03 64".to_string()));
    assert_eq!(val.hex_service.response, Some("62 03 64 01".to_string()));
    let ht = &val.hex_service.human_translations;
    assert_eq!(ht.service_id, Some("0x22".to_string()));
    let tr = &ht.translations.as_ref().unwrap()[0];
    assert_eq!(tr.parameter_name, "Codierwert");
    assert_eq!(tr.lsb, "0");
    assert_eq!(tr.value, "coding value");
}

#[test]
fn numeric_value_carries_its_unit() {
    let val = sample_session();
    let section = val.get_section_by_title("Gateway (A7.1)").unwrap();
    let m = section.get_measurement_by_title(&"Battery".to_string()).unwrap();
    let v = m.get_value_by_label(&"U_Batt".to_string()).unwrap();
    assert_eq!(
        v,
        &ValueEnum::Num(NumberValue {
            text: "Voltage".to_string(),
            unit: Some("V".to_string()),
            label: "U_Batt".to_string(),
            value: "12.4".to_string(),
        })
    );
    assert_eq!(v.get_unit(), Some(&"V".to_string()));
    assert_eq!(v.get_text(), "Voltage");
    assert_eq!(v.get_label(), "U_Batt");
    assert_eq!(v.get_value(), Some(&"12.4".to_string()));
}

#[test]
fn unit_roundtrip_none_for_numeric_and_always_none_for_textual() {
    let num = ValueEnum::Num(NumberValue {
        text: "Voltage".to_string(),
        unit: None,
        label: "U".to_string(),
        value: "1".to_string(),
    });
    assert_eq!(num.get_unit(), None);
    let alpha = ValueEnum::Alpha(AlphaValue {
        text: "Note".to_string(),
        label: "N".to_string(),
        value: None,
    });
    assert_eq!(alpha.get_unit(), None);
    assert_eq!(alpha.get_value(), None);
}

#[test]
fn nested_measurements_on_non_fault_shape_fail() {
    let xml = sample_xml().replace("OBJECT=\"Fehler\"", "OBJECT=\"Codierung\"");
    let r = session_from_xml(&xml);
    assert_eq!(
        r.err().unwrap(),
        ZdcError::UnexpectedMeasurements("Codierung".to_string())
    );
}

#[test]
fn dispatch_rejects_nested_measurements_for_measured_values() {
    let c = CommonMeasurement {
        object: "Messwerte".to_string(),
        title: "t".to_string(),
        values: None,
        measurements: Some(vec![]),
    };
    assert_eq!(
        measurement_from_common(c).err().unwrap(),
        ZdcError::UnexpectedMeasurements("Messwerte".to_string())
    );
}

#[test]
fn unknown_measurement_discriminant_names_the_value() {
    let xml = sample_xml().replace("OBJECT=\"Codierung\"", "OBJECT=\"Kalibrierung\"");
    let r = session_from_xml(&xml);
    assert_eq!(
        r.err().unwrap(),
        ZdcError::UnknownObject("Kalibrierung".to_string())
    );
}

#[test]
fn unknown_section_discriminant_names_the_value() {
    let xml = sample_xml().replace("SECTIONS OBJECT=\"ECU\"", "SECTIONS OBJECT=\"TCU\"");
    let r = session_from_xml(&xml);
    assert_eq!(r.err().unwrap(), ZdcError::UnknownObject("TCU".to_string()));
}

#[test]
fn unknown_value_format_names_the_value() {
    let xml = sample_xml().replace("FORMAT=\"NUM\"", "FORMAT=\"BIN\"");
    let r = session_from_xml(&xml);
    assert_eq!(r.err().unwrap(), ZdcError::UnknownFormat("BIN".to_string()));
}

#[test]
fn unknown_attribute_on_value_fails() {
    let xml = sample_xml().replace("FORMAT=\"NUM\"", "FORMAT=\"NUM\" FOO=\"1\"");
    let r = session_from_xml(&xml);
    assert_eq!(r.err().unwrap(), ZdcError::UnknownAttribute("FOO".to_string()));
}

#[test]
fn unknown_attribute_on_root_fails() {
    let xml = sample_xml().replace("ZDCFile=\"true\"", "ZDCFile=\"true\" Extra=\"x\"");
    let r = session_from_xml(&xml);
    assert_eq!(
        r.err().unwrap(),
        ZdcError::UnknownAttribute("Extra".to_string())
    );
}

#[test]
fn unit_on_textual_value_fails() {
    let xml = sample_xml().replace(
        "FORMAT=\"ALPHA\" TEXT=\"Note\"",
        "FORMAT=\"ALPHA\" UNIT=\"V\" TEXT=\"Note\"",
    );
    let r = session_from_xml(&xml);
    assert_eq!(r.err().unwrap(), ZdcError::UnknownAttribute("UNIT".to_string()));
}

#[test]
fn numeric_value_without_content_fails() {
    let xml = sample_xml().replace(
        "LABEL=\"U_Batt\">12.4</VALUE>",
        "LABEL=\"U_Batt\"/>",
    );
    let r = session_from_xml(&xml);
    assert_eq!(r.err().unwrap(), ZdcError::MissingText("VALUE".to_string()));
}

#[test]
fn unknown_child_element_fails() {
    let xml = sample_xml().replace(
        "<TITLE>Battery</TITLE>",
        "<TITLE>Battery</TITLE><NOTES>x</NOTES>",
    );
    let r = session_from_xml(&xml);
    assert_eq!(r.err().unwrap(), ZdcError::UnknownElement("NOTES".to_string()));
}

#[test]
fn missing_discriminant_fails() {
    let xml = sample_xml().replace(" OBJECT=\"Messwerte\"", "");
    let r = session_from_xml(&xml);
    assert_eq!(
        r.err().unwrap(),
        ZdcError::MissingAttribute("OBJECT".to_string())
    );
}

#[test]
fn duplicate_title_fails() {
    let xml = sample_xml().replace(
        "<TITLE>Battery</TITLE>",
        "<TITLE>Battery</TITLE><TITLE>Battery</TITLE>",
    );
    let r = session_from_xml(&xml);
    assert_eq!(
        r.err().unwrap(),
        ZdcError::DuplicateElement("TITLE".to_string())
    );
}

#[test]
fn stray_text_in_measurement_fails() {
    let xml = sample_xml().replace("<TITLE>Battery</TITLE>", "<TITLE>Battery</TITLE>loose");
    let r = session_from_xml(&xml);
    assert!(matches!(r, Err(ZdcError::UnexpectedText(t)) if t.starts_with("loose")));
}

#[test]
fn malformed_document_is_a_syntax_error() {
    let r = session_from_xml("<ZDC><diagnosisAddress</ZDC>");
    assert!(matches!(r, Err(ZdcError::Syntax(_))));
}

#[test]
fn entities_are_decoded() {
    let xml = sample_xml().replace(
        "<TITLE>Battery</TITLE>",
        "<TITLE>Battery &amp; &lt;charger&gt;</TITLE>",
    );
    let val = session_from_xml(&xml).unwrap();
    let section = val.get_section_by_title("Gateway (A7.1)").unwrap();
    let m = section
        .get_measurement_by_title(&"Battery & <charger>".to_string())
        .unwrap();
    assert_eq!(m.get_title(), "Battery & <charger>");
}

#[test]
fn overly_deep_nesting_fails() {
    let mut open = String::new();
    let mut close = String::new();
    for i in 0..70 {
        open.push_str(&format!("<MEAS OBJECT=\"Fehler\"><TITLE>d{}</TITLE>", i));
        close.push_str("</MEAS>");
    }
    let xml = sample_xml().replace(
        "<MEAS OBJECT=\"Codierung\">",
        &format!("{}{}<MEAS OBJECT=\"Codierung\">", open, close),
    );
    let r = session_from_xml(&xml);
    assert_eq!(r.err().unwrap(), ZdcError::TooDeep);
}

#[test]
fn lookups_miss_cleanly() {
    let val = sample_session();
    assert!(val.get_section_by_title("Engine").is_none());
    let section = val.get_section_by_title("Gateway (A7.1)").unwrap();
    assert!(section
        .get_measurement_by_title(&"No such record".to_string())
        .is_none());
    let m = section
        .get_measurement_by_title(&"Battery".to_string())
        .unwrap();
    assert!(m.get_value_by_label(&"No_Label".to_string()).is_none());
    assert!(m.get_submeasurements().is_none());
    assert!(m
        .get_submeasurement_by_title(&"anything".to_string())
        .is_none());
}

#[test]
fn section_lookup_returns_first_match_with_identical_content() {
    let val = sample_session();
    let section = val.get_section_by_title("Airbag (variant: A2.8)").unwrap();
    assert_eq!(section.get_title(), "Airbag (variant: A2.8)");
    assert_eq!(section.get_measurements().len(), 1);
}

#[test]
fn dump_lines_walk_the_whole_tree() {
    let val = sample_session();
    let lines = zdc_dump_lines(&val);
    assert_eq!(
        lines,
        vec![
            "Gateway (A7.1) >> Control unit, coding >> Battery change: Scanner code: 205 BA24H9F0EGE"
                .to_string(),
            "Gateway (A7.1) >> Battery >> Voltage: 12.4".to_string(),
            "Airbag (variant: A2.8) >> Fault >> erweiterter Fehlerspeicher >> Hinweis_Prio: 2"
                .to_string(),
            "Airbag (variant: A2.8) >> Fault >> erweiterter Fehlerspeicher >> Note: undefined"
                .to_string(),
        ]
    );
}

#[test]
fn session_file_is_picked_by_marker_and_extension() {
    let names = vec![
        "readme.txt".to_string(),
        "export_IExIL_1.xml.bak".to_string(),
        "export_IExIL_1.xml".to_string(),
        "export_IExIL_2.xml".to_string(),
    ];
    assert_eq!(pick_session_file(&names), Some(2));
}

#[test]
fn no_session_file_means_no_pick() {
    let names = vec![
        "readme.txt".to_string(),
        "export.xml".to_string(),
        "IExIL.json".to_string(),
    ];
    assert_eq!(pick_session_file(&names), None);
    assert_eq!(pick_session_file(&Vec::new()), None);
}

#[test]
fn missing_required_child_element_fails() {
    let xml = sample_xml().replace(
        "<Kommentar space=\"preserve\">read identification</Kommentar>",
        "",
    );
    let r = session_from_xml(&xml);
    assert_eq!(
        r.err().unwrap(),
        ZdcError::MissingElement("Kommentar".to_string())
    );
}

#[test]
fn duplicate_single_occurrence_child_fails() {
    let xml = sample_xml().replace(
        "<Kommentar space=\"preserve\"/>",
        "<Kommentar space=\"preserve\"/><Kommentar space=\"preserve\"/>",
    );
    let r = session_from_xml(&xml);
    assert_eq!(
        r.err().unwrap(),
        ZdcError::DuplicateElement("Kommentar".to_string())
    );
}

#[test]
fn comments_are_skipped() {
    let xml = sample_xml().replace(
        "<diagnosisAddress",
        "<!-- one exported session --><diagnosisAddress",
    );
    let val = session_from_xml(&xml).unwrap();
    assert_eq!(val.diagnosis_address.value, "0019");
}

#[test]
fn single_quoted_attributes_and_attribute_entities_are_read() {
    let xml = sample_xml()
        .replace("ID=\"W1\"", "ID='W1'")
        .replace("TEXT=\"Voltage\"", "TEXT=\"Volt &amp; age\"");
    let val = session_from_xml(&xml).unwrap();
    assert_eq!(val.warten[0].id, "W1");
    let section = val.get_section_by_title("Gateway (A7.1)").unwrap();
    let m = section
        .get_measurement_by_title(&"Battery".to_string())
        .unwrap();
    let v = m.get_value_by_label(&"U_Batt".to_string()).unwrap();
    assert_eq!(v.get_text(), "Volt & age");
}

#[test]
fn session_without_services_or_wait_entries_is_accepted() {
    let xml = sample_xml()
        .replace(
            r#"  <ShortNameService ID="ReadId" Phase="1" PhaseDetail="start">
    <Kommentar space="preserve">read identification</Kommentar>
    <Request Value="22 F1 90">
      <Parameter ShortName="RecordDataIdentifier" Value="F1 90"/>
    </Request>
    <Response Value="62 F1 90"/>
  </ShortNameService>
"#,
            "",
        )
        .replace("  <Warten ID=\"W1\">500</Warten>\n", "");
    let val = session_from_xml(&xml).unwrap();
    assert_eq!(val.short_name_service.len(), 0);
    assert_eq!(val.warten.len(), 0);
    assert!(val.get_section_by_title("Gateway (A7.1)").is_some());
}

#[test]
fn duplicate_attribute_is_a_syntax_error() {
    let xml = sample_xml().replace("ID=\"W1\"", "ID=\"W1\" ID=\"W2\"");
    let r = session_from_xml(&xml);
    assert!(matches!(r, Err(ZdcError::Syntax(_))));
}

#[test]
fn numeric_character_references_are_decoded() {
    let xml = sample_xml().replace(
        "<TITLE>Battery</TITLE>",
        "<TITLE>B&#97;ttery &#x26; Co</TITLE>",
    );
    let val = session_from_xml(&xml).unwrap();
    let section = val.get_section_by_title("Gateway (A7.1)").unwrap();
    assert!(section
        .get_measurement_by_title(&"Battery & Co".to_string())
        .is_some());
}

#[test]
fn cdata_sections_are_text() {
    let xml = sample_xml().replace(
        "<TITLE>Battery</TITLE>",
        "<TITLE><![CDATA[Battery <raw> & co]]></TITLE>",
    );
    let val = session_from_xml(&xml).unwrap();
    let section = val.get_section_by_title("Gateway (A7.1)").unwrap();
    assert!(section
        .get_measurement_by_title(&"Battery <raw> & co".to_string())
        .is_some());
}

#[test]
fn doctype_declaration_is_skipped() {
    let xml = sample_xml().replace(
        "<ZDC xmlns",
        "<!DOCTYPE ZDC [ <!ELEMENT ZDC ANY> ]>\n<ZDC xmlns",
    );
    let val = session_from_xml(&xml).unwrap();
    assert_eq!(val.datei_id, "0001");
}
