use hepmc2::event::{CrossSection, EnergyUnit, Event, FlowMap, FourVector, LengthUnit, Particle,
    PdfInfo, Vertex};
use hepmc2::reader::{LineParseError, ParseError, Reader};
use hepmc2::writer::{event_lines, write_events_to_string, Writer};

const EVENT_TXT: &str = r#"
HepMC::Version 2.06.09
HepMC::IO_GenEvent-START_EVENT_LISTING
E 0 -1 -1.0000000000000000e+00 -1.0000000000000000e+00 -1.0000000000000000e+00 0 0 23 1 2 0 16 5.5606031127834702e-09 5.5606031127834702e-09 0 -1.0000000000000000e+00 2.6206847299999998e+00 5.8670509300000004e+00 6.1711295699999997e+00 -1.0000000000000000e+00 5.9781127600000001e+00 3.9987750200000001e+00 2.8889888799999999e+00 5.5606031100000000e-09 -1.0000000000000000e+00 8.6938853699999996e-01 3.5507575000000002e-01 5.6137609399999999e-01
N 16 "0" "Weight" "eventNumber" "phi" "phi1" "phi2" "phi3" "t" "t1" "t2" "t3" "unlops_weight" "z" "z1" "z2" "z3"
U GEV MM
C 5.5606031127834701e+00 5.3451183000000005e+04
V -1 0 0 0 0 0 0 1 0
P 3 -1 0 0 5.2051533588697652e+01 5.2051533588697652e+01 0 21 0 0 -3 1 2 501
V -2 0 0 0 0 0 0 2 0
P 4 2 0 0 -2.9818545945620773e+01 2.9818545945620773e+01 0 21 0 0 -3 1 1 501
P 9 21 5.7076480059072443e+00 3.2748659206013784e+00 -2.4249351062062976e+00 7.0130095413142710e+00 0 43 0 0 -8 2 1 502 2 501
V -3 0 0 0 0 0 0 1 0
P 5 24 -4.6339895476421589e-08 -1.0408832373798305e-07 2.2232987710669342e+01 8.1870080240182716e+01 7.8793428000000006e+01 22 0 0 -6 0
V -4 0 0 0 0 0 1 1 0
P 1 2212 0 0 6.9999999371178146e+03 7.0000000000000000e+03 9.3827000000000005e-01 4 0 0 -4 0
P 6 -1 0 0 5.2051533588697652e+01 5.2051533588697652e+01 0 42 0 0 -1 1 2 501
V -5 0 0 0 0 0 0 2 0
P 7 2 0 0 -3.6129848231502301e+01 3.6129848231502301e+01 0 41 0 0 -2 1 1 502
P 12 -2 2.5237885213344935e+00 3.3116569526639856e+00 -6.9143141497758080e+01 6.9268395365069210e+01 0 1 0 0 0 1 2 503
V -6 0 0 0 0 0 0 1 0
P 8 24 -5.7076481044982819e+00 -3.2748660546697370e+00 1.8346620499347921e+01 8.1168372992804763e+01 7.8793428000000006e+01 44 0 0 -23 0
V -7 0 0 0 0 0 0 2 0
P 10 21 0 0 -1.0175250837889556e+02 1.0175250837889556e+02 0 41 0 0 -5 2 1 502 2 503
P 15 21 2.9123097878176076e+00 2.8941914776608224e-01 -8.0591874171438874e+01 8.0644996709085106e+01 0 43 0 0 -18 2 1 503 2 504
V -8 0 0 0 0 0 0 1 0
P 11 21 3.1838594845727508e+00 -3.6791032062607254e-02 1.0955462441585269e+00 3.3672743236383127e+00 0 48 0 0 -10 2 1 502 2 501
V -9 0 0 0 0 0 0 2 0
P 13 21 0 0 -1.8125550661114170e+02 1.8125550661114170e+02 0 41 0 0 -7 2 1 502 2 504
P 18 2 -6.0739028889597069e-01 2.5046574652089002e+00 -2.2999284645202547e+03 2.2999299085281878e+03 0 43 0 0 -17 1 1 504
V -10 0 0 0 0 0 0 1 0
P 14 21 2.7154969675514318e-01 -3.2621017982868949e-01 2.1844221833512592e+00 2.2252758467993488e+00 0 48 0 0 -12 2 1 502 2 501
V -11 0 0 0 0 0 0 2 0
P 16 2 0 0 -2.4821608453435269e+03 2.4821608453435274e+03 0 41 0 0 -9 1 1 502
P 21 21 -1.5176954196303214e+00 -1.1581464938267174e+00 -2.1424758388954547e+02 2.1425608954052109e+02 0 43 0 0 -16 2 1 505 2 502
V -12 0 0 0 0 0 0 1 0
P 17 21 8.7893998565111386e-01 -2.8308676450375896e+00 1.2075479712207198e+00 3.2007060509972689e+00 0 48 0 0 -14 2 1 502 2 501
V -13 0 0 0 0 0 1 1 0
P 2 2212 0 0 -6.9999999371178146e+03 7.0000000000000000e+03 9.3827000000000005e-01 4 0 0 -13 0
P 19 2 0 0 -2.6963868241367072e+03 2.6963868241367081e+03 0 41 0 0 -11 1 1 505
V -14 0 0 0 0 0 0 1 0
P 20 21 2.3966354052814354e+00 -1.6727211512108722e+00 1.2291530675859121e+00 3.1705953036569099e+00 0 48 0 0 -15 2 1 502 2 501
V -15 0 0 0 0 0 0 2 0
P 22 21 1.6780099262880444e+00 -1.2585715889494420e-02 1.5618589221168571e+00 2.2924395315359480e+00 0 1 0 0 0 2 1 506 2 501
P 23 21 7.0154368522484822e-01 -1.6731704747007090e+00 -2.7440810198086751e+00 3.2896266692386575e+00 0 1 0 0 0 2 1 502 2 506
V -16 0 0 0 0 0 0 1 0
P 24 21 -1.5006136258617786e+00 -1.1451114544473862e+00 -2.1183620872426775e+02 2.1184461864340338e+02 0 1 0 0 0 2 1 505 2 502
V -17 0 0 0 0 0 0 2 0
P 25 2 -1.6033704065363041e+00 4.3863302327067144e+00 -2.1547456957401910e+03 2.1547507568163073e+03 0 51 0 0 -20 1 1 507
P 26 21 2.6011093609332741e+00 -1.7221584398720926e+00 -1.8960124875750688e+02 1.8962691035295006e+02 0 51 0 0 -19 2 1 504 2 507
V -18 0 0 0 0 0 0 1 0
P 27 21 1.3071805445246669e+00 1.2990482014036053e-01 -3.6173394193995875e+01 3.6197238068015622e+01 0 1 0 0 0 2 1 503 2 504
V -19 0 0 0 0 0 0 2 0
P 28 21 3.9678447216374000e+00 -1.0579393283155296e+00 -3.5312021479758994e+02 3.5314409116683936e+02 0 51 0 0 -22 2 1 504 2 508
P 29 21 -1.9866544379963598e+00 1.0316895689562262e+00 -6.6958108247799419e+02 6.6958482449322673e+02 0 51 0 0 -21 2 1 508 2 507
V -20 0 0 0 0 0 0 1 0
P 30 2 -9.8345132924407030e-01 2.6904215521939250e+00 -1.3216456472221134e+03 1.3216487515091915e+03 0 1 0 0 0 1 1 507
V -21 0 0 0 0 0 0 2 0
P 31 21 -9.8001674572977349e-01 1.3322582893034975e+00 -6.1464412971562535e+02 6.1464635485688007e+02 0 1 0 0 0 2 1 509 2 507
P 32 21 -6.7009385001849431e-01 -3.9030080197012751e-01 -8.4887830929292363e+01 8.4891372944274849e+01 0 1 0 0 0 2 1 508 2 509
V -22 0 0 0 0 0 0 1 0
P 33 21 3.6313008793893080e+00 -9.6820724669267344e-01 -3.2316933663066641e+02 3.2319118785891123e+02 0 1 0 0 0 2 1 504 2 508
V -23 0 0 0 0 0 0 2 0
P 34 -13 6.7280635852793118e+00 2.6135691981490424e+01 3.5757112587329956e+01 4.4798699749357091e+01 1.0565837000000000e-01 1 0 0 0 0
P 35 14 -1.2435711898718612e+01 -2.9410557911101773e+01 -1.7410492121416357e+01 3.6369672571802241e+01 0 1 0 0 0 0
"#;

fn lines_of(text: &str) -> Vec<String> {
    text.lines().map(|l| l.to_string()).collect()
}

#[test]
fn tst_read() {
    let mut reader = Reader::new(lines_of(EVENT_TXT));
    let next_line = reader.next().unwrap();
    assert!(next_line.is_ok());
    let next_line = reader.next();
    assert!(next_line.is_none());
}

#[test]
fn tst_read_write() {
    let mut reader = Reader::new(lines_of(EVENT_TXT));
    let event = reader.next().unwrap().unwrap();
    let mut writer = Writer::try_from(String::new());
    writer.write(&event);
    let buf = writer.finish();

    let mut reader = Reader::new(lines_of(&buf));
    let event = reader.next().unwrap().unwrap();
    let mut writer = Writer::try_from(String::new());
    writer.write(&event);
    let buf2 = writer.finish();
    assert_eq!(buf, buf2);
}

#[test]
fn round_trip_identity() {
    // read -> write -> read again yields an identical in-memory event
    let mut reader = Reader::new(lines_of(EVENT_TXT));
    let event = reader.next().unwrap().unwrap();
    let written = event_lines(&event);
    let mut reader2 = Reader::new(written);
    let event2 = reader2.next().unwrap().unwrap();
    assert_eq!(event, event2);
    assert!(reader2.next().is_none());
}

#[test]
fn count_preservation() {
    // a stream with three well-formed events yields exactly three results
    let one = "E 7 0 1.5 2.5 3.5 0 0 0 9 9 0 0\nU MEV CM\nC 1 2\n";
    let mut text = String::from("HepMC::Version 2.06.09\nHepMC::IO_GenEvent-START_EVENT_LISTING\n");
    text.push_str(one);
    text.push_str(one);
    text.push_str(one);
    text.push_str("HepMC::IO_GenEvent-END_EVENT_LISTING\n");
    let mut reader = Reader::new(lines_of(&text));
    for _ in 0..3 {
        let ev = reader.next().expect("an event was expected");
        assert!(ev.is_ok());
    }
    assert!(reader.next().is_none());
    assert!(reader.next().is_none());
}

#[test]
fn concrete_scenario() {
    let text = "E 0 -1 -1.0 -1.0 -1.0 0 0 1 1 2 0 0\n\
                U GEV MM\n\
                C 1.5 0.2\n\
                F 0 0 0 0 0 0 0 0 0\n\
                V -1 0 0 0 0 0 0 1 0\n\
                P 3 -1 0 0 10.0 10.0 0 21 0 0 -1 0\n";
    let mut reader = Reader::new(lines_of(text));
    let event = reader.next().unwrap().unwrap();
    assert_eq!(event.vertices.len(), 1);
    let vertex = &event.vertices[0];
    assert_eq!(vertex.barcode, -1);
    assert_eq!(vertex.particles_in.len(), 1);
    assert_eq!(vertex.particles_out.len(), 0);
    assert_eq!(vertex.particles_in[0].end_vtx, -1);
    assert_eq!(vertex.particles_in[0].id, -1);
    assert_eq!(event.xs.cross_section, "1.5");
    assert_eq!(event.xs.cross_section_error, "0.2");
    assert_eq!(event.energy_unit, EnergyUnit::GEV);
    assert_eq!(event.length_unit, LengthUnit::MM);
    assert!(reader.next().is_none());
}

#[test]
fn particle_classification() {
    // a particle whose end_vtx differs from the current vertex's barcode
    // lands in particles_out; one that matches lands in particles_in
    let text = "E 0 0 0 0 0 0 0 2 0 0 0 0\n\
                V -1 0 0 0 0 0 0 2 0\n\
                P 1 11 0 0 1.0 1.0 0 1 0 0 -1 0\n\
                P 2 11 0 0 1.0 1.0 0 1 0 0 -7 0\n\
                V -2 0 0 0 0 0 0 1 0\n\
                P 3 11 0 0 1.0 1.0 0 1 0 0 -1 0\n";
    let mut reader = Reader::new(lines_of(text));
    let event = reader.next().unwrap().unwrap();
    assert_eq!(event.vertices.len(), 2);
    assert_eq!(event.vertices[0].particles_in.len(), 1);
    assert_eq!(event.vertices[0].particles_out.len(), 1);
    assert_eq!(event.vertices[0].particles_in[0].end_vtx, -1);
    assert_eq!(event.vertices[0].particles_out[0].end_vtx, -7);
    // the third particle follows the second vertex, so even though its
    // end_vtx names the first vertex it joins the second one's outgoing list
    assert_eq!(event.vertices[1].particles_in.len(), 0);
    assert_eq!(event.vertices[1].particles_out.len(), 1);
}

#[test]
fn structural_failure_no_vertex() {
    let text = "E 0 0 0 0 0 0 0 1 0 0 0 0\n\
                P 3 -1 0 0 10.0 10.0 0 21 0 0 -1 0\n";
    let mut reader = Reader::new(lines_of(text));
    let err = reader.next().unwrap().unwrap_err();
    assert!(matches!(err.err, ParseError::NoVertex));
    assert_eq!(err.line_nr, 2);
}

#[test]
fn unknown_prefix() {
    let text = "E 0 0 0 0 0 0 0 0 0 0 0 0\n\
                X 1 2 3\n";
    let mut reader = Reader::new(lines_of(text));
    let err = reader.next().unwrap().unwrap_err();
    assert!(matches!(err.err, ParseError::BadPrefix));
    assert_eq!(err.line, "X 1 2 3");
    assert_eq!(err.line_nr, 2);
}

#[test]
fn unknown_prefix_first_line() {
    let mut reader = Reader::new(lines_of("Q 1 2 3\n"));
    let err = reader.next().unwrap().unwrap_err();
    assert!(matches!(err.err, ParseError::BadPrefix));
}

#[test]
fn bad_unit_token() {
    let text = "E 0 0 0 0 0 0 0 0 0 0 0 0\nU XEV MM\n";
    let mut reader = Reader::new(lines_of(text));
    let err = reader.next().unwrap().unwrap_err();
    assert!(matches!(err.err, ParseError::BadUnit));
}

#[test]
fn short_line_is_parse_error() {
    let text = "E 0 0 0 0 0 0 0 0 0 0 0 0\nC 1.5\n";
    let mut reader = Reader::new(lines_of(text));
    let err = reader.next().unwrap().unwrap_err();
    assert!(matches!(err.err, ParseError::Parse(_)));
}

#[test]
fn weight_name_omission() {
    // an event without weight names is written without an N line
    let event = Event::default();
    let lines = event_lines(&event);
    assert!(lines.iter().all(|l| !l.starts_with('N')));

    // one with names always carries the N line, unnamed weights or not
    let mut event = Event::default();
    event.weights = vec!["1.0".to_string(), "2.0".to_string()];
    event.weight_names = vec!["first".to_string()];
    let lines = event_lines(&event);
    assert_eq!(lines.iter().filter(|l| l.starts_with('N')).count(), 1);
    assert_eq!(lines[1], "N 1 \"first\"");
}

#[test]
fn default_event_rendering() {
    let event = Event::default();
    let lines = event_lines(&event);
    assert_eq!(
        lines,
        vec![
            "E 0 0 0 0 0 0 0 0 0 0 0 0".to_string(),
            "U GEV CM".to_string(),
            "C 0 0".to_string(),
            "F 0 0 0 0 0 0 0 0 0".to_string(),
        ]
    );
}

#[test]
fn writer_framing() {
    let mut writer = Writer::new(String::new());
    writer.write(&Event::default());
    let out = writer.finish();
    assert!(out.starts_with("HepMC::Version 2.06.09\nHepMC::IO_GenEvent-START_EVENT_LISTING\n"));
    assert!(out.ends_with("HepMC::IO_GenEvent-END_EVENT_LISTING\n"));

    let writer = Writer::with_header(String::new(), "custom header\n");
    let out = writer.finish();
    assert_eq!(out, "custom header\nHepMC::IO_GenEvent-END_EVENT_LISTING\n");

    let writer = Writer::new(String::new());
    let out = writer.into_inner();
    assert_eq!(out, "HepMC::Version 2.06.09\nHepMC::IO_GenEvent-START_EVENT_LISTING\n");
}

#[test]
fn whole_stream_rendering() {
    let events = vec![Event::default()];
    let text = write_events_to_string(&events);
    let mut reader = Reader::new(lines_of(&text));
    let back = reader.next().unwrap().unwrap();
    assert_eq!(back, Event::default());
    assert!(reader.next().is_none());
}

#[test]
fn flows_sorted_and_deduplicated() {
    // flow pairs arrive out of order and with a repeated index; the map keeps
    // ascending order and the last value of a repeated index
    let text = "E 0 0 0 0 0 0 0 1 0 0 0 0\n\
                V -1 0 0 0 0 0 0 1 0\n\
                P 1 11 0 0 1.0 1.0 0 1 0 0 0 3 2 502 1 501 2 777\n";
    let mut reader = Reader::new(lines_of(text));
    let event = reader.next().unwrap().unwrap();
    let p = &event.vertices[0].particles_out[0];
    assert_eq!(p.flows.len(), 2);
    assert_eq!(p.flows.pair_at(0), (1, 501));
    assert_eq!(p.flows.pair_at(1), (2, 777));
    let lines = event_lines(&event);
    assert_eq!(lines[5], "P 0 11 0 0 1.0 1.0 0 1 0 0 0 2 1 501 2 777");
}

#[test]
fn heavy_ion_and_pdf_round_trip() {
    let text = "E 1 0 0 0 0 0 0 0 0 0 0 0\n\
                F 2 3 0.5 0.25 100.0 1.25 2.5 7 8\n\
                H 1 2 3 4 5 6 7 8 9 0.5 1.5 2.5 3.5\n";
    let mut reader = Reader::new(lines_of(text));
    let event = reader.next().unwrap().unwrap();
    let hi = event.heavy_ion_info.as_ref().expect("heavy-ion info expected");
    assert_eq!(hi.ncoll_hard, 1);
    assert_eq!(hi.nwounded_nwounded_collisions, 9);
    assert_eq!(hi.impact_parameter, "0.5");
    assert_eq!(hi.sigma_inel_nn, "3.5");
    assert_eq!(event.pdf_info.parton_id0, 2);
    assert_eq!(event.pdf_info.pdf_id0, 7);
    assert_eq!(event.pdf_info.pdf_id1, 8);
    let written = event_lines(&event);
    let mut reader2 = Reader::new(written);
    let event2 = reader2.next().unwrap().unwrap();
    assert_eq!(event, event2);
}

#[test]
fn pdf_ids_default_to_zero() {
    let text = "E 1 0 0 0 0 0 0 0 0 0 0 0\nF 2 3 0.5 0.25 100.0 1.25 2.5\n";
    let mut reader = Reader::new(lines_of(text));
    let event = reader.next().unwrap().unwrap();
    assert_eq!(event.pdf_info.pdf_id0, 0);
    assert_eq!(event.pdf_info.pdf_id1, 0);

    let text = "E 1 0 0 0 0 0 0 0 0 0 0 0\nF 2 3 0.5 0.25 100.0 1.25 2.5 4\n";
    let mut reader = Reader::new(lines_of(text));
    let event = reader.next().unwrap().unwrap();
    assert_eq!(event.pdf_info.pdf_id0, 4);
    assert_eq!(event.pdf_info.pdf_id1, 0);
}

#[test]
fn weight_names_with_spaces() {
    let text = "E 1 0 0 0 0 0 0 0 0 0 0 0\nN 2 \"a name with spaces\" \"plain\"\n";
    let mut reader = Reader::new(lines_of(text));
    let event = reader.next().unwrap().unwrap();
    assert_eq!(event.weight_names, vec!["a name with spaces", "plain"]);
    let written = event_lines(&event);
    let mut reader2 = Reader::new(written);
    let event2 = reader2.next().unwrap().unwrap();
    assert_eq!(event, event2);
}

#[test]
fn reader_state_accessors() {
    let reader = Reader::new(lines_of("E 0 0 0 0 0 0 0 0 0 0 0 0\n"));
    let lines = reader.into_inner();
    assert_eq!(lines.len(), 1);

    let mut event = Event::default();
    event.vertices.push(Vertex::default());
    event.vertices[0].barcode = -1;
    let mut flows = FlowMap::default();
    flows.insert(1, 501);
    event.vertices[0].particles_out.push(Particle {
        id: 21,
        p: FourVector::txyz("1.0".into(), "0".into(), "0".into(), "1.0".into()),
        m: "0".into(),
        status: 1,
        theta: "0".into(),
        phi: "0".into(),
        flows,
        end_vtx: 0,
    });
    event.xs = CrossSection {
        cross_section: "3.5".into(),
        cross_section_error: "0.5".into(),
    };
    event.pdf_info = PdfInfo::default();
    let lines = event_lines(&event);
    let mut reader = Reader::new(lines);
    let back = reader.next().unwrap().unwrap();
    assert_eq!(back, event);
}

#[test]
fn error_messages() {
    let err = LineParseError {
        err: ParseError::NoVertex,
        line: "P 1".to_string(),
        line_nr: 7,
    };
    assert_eq!(
        err.message(),
        "Tried to add particle without vertex\n in line 7:\nP 1"
    );
    assert_eq!(ParseError::BadPrefix.message(), "Unrecognized prefix");
    assert_eq!(
        ParseError::Parse("x y".to_string()).message(),
        "Parsing error: x y"
    );
}

#[test]
fn line_errors_carry_position() {
    let text = "\nHepMC::Version 2.06.09\nE 0 0 0 0 0 0 0 0 0 0 0 0\nC nope 1\n";
    let mut reader = Reader::new(lines_of(text));
    let err: LineParseError = reader.next().unwrap().unwrap_err();
    assert!(matches!(err.err, ParseError::Parse(_)));
    assert_eq!(err.line, "C nope 1");
    assert_eq!(err.line_nr, 4);
}
