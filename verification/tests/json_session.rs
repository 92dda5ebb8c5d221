use openvehiclediag::json_session::{
    choose_variant, connection_text, displayable_dtc, find_dtc, interface_settings, key_reply, kwp_session_reply,
    leaves_session, looping_text, positive_security_reply, security_key_request, security_level,
    seed_from_reply, service_failed, service_request, service_title, variant_choices,
    variant_switch, BuildDates, IsoTpSettings, JsonDiagSession, LogType, PartIdentification,
    VariantSwitch,
};
use openvehiclediag::schema::{
    ConType, Connection, ECUVariantDefinition, ECUVariantPattern, OvdECU, Parameter, Service,
    ServerType, ECUDTC,
};
use openvehiclediag::selector::{args_to_string, SelectorAction, SelectorMsg, ServiceRef};
use openvehiclediag::session::{SessionError, TargetPage};

fn pattern(vendor_id: u32) -> ECUVariantPattern {
    ECUVariantPattern { vendor: "Bosch".into(), vendor_id }
}

fn service(name: &str, payload: Vec<u8>, inputs: usize) -> Service {
    Service {
        name: name.into(),
        description: format!("{} description", name),
        payload,
        input_params: (0..inputs).map(|i| Parameter { name: format!("in{}", i) }).collect(),
        output_params: Vec::new(),
    }
}

fn dtc(name: &str) -> ECUDTC {
    ECUDTC {
        error_name: name.into(),
        summary: String::new(),
        description: format!("{} meaning", name),
        envs: Vec::new(),
    }
}

fn variant(name: &str, ids: &[u32]) -> ECUVariantDefinition {
    ECUVariantDefinition {
        name: name.into(),
        description: format!("{} software", name),
        patterns: ids.iter().map(|&i| pattern(i)).collect(),
        errors: vec![dtc("P0700"), dtc("P0715")],
        downloads: vec![
            service("Read Temperature", vec![0x21, 0x10], 0),
            service("Read Speed", vec![0x21, 0x20], 0),
            service("Read Gear", vec![0x21, 0x30], 0),
        ],
        functions: vec![service("Set Gear", vec![0x30, 0x00, 0x10], 1)],
    }
}

fn isotp_connection(server_type: ServerType) -> Connection {
    Connection {
        baud: 500000,
        send_id: 0x7e1,
        global_send_id: Some(0x7df),
        recv_id: 0x7e9,
        server_type,
        connection_type: ConType::ISOTP {
            blocksize: 8,
            st_min: 20,
            ext_can_addr: false,
            ext_isotp_addr: true,
        },
    }
}

fn ecu() -> OvdECU {
    OvdECU {
        name: "EGS52".into(),
        description: "Transmission".into(),
        variants: vec![variant("A", &[1]), variant("B", &[2, 3]), variant("C", &[])],
        connections: vec![isotp_connection(ServerType::KWP2000)],
    }
}

fn session() -> JsonDiagSession<u8> {
    let e = ecu();
    let c = e.connections[0].clone();
    JsonDiagSession::new(e, c, Some(3)).ok().unwrap()
}

#[test]
fn the_identified_vendor_id_picks_variant_and_pattern() {
    let variants = ecu().variants;
    assert_eq!(choose_variant(&variants, None).ok(), Some((0, 0)));
    assert_eq!(choose_variant(&variants, Some(3)).ok(), Some((1, 1)));
    assert_eq!(choose_variant(&variants, Some(2)).ok(), Some((1, 0)));
    assert_eq!(choose_variant(&variants, Some(99)).ok(), Some((0, 0)));
    match choose_variant(&Vec::new(), Some(1)) {
        Err(SessionError::Other(t)) => assert_eq!(t, "ECU has no variants"),
        _ => panic!("no error"),
    }
    match choose_variant(&vec![variant("C", &[])], None) {
        Err(SessionError::Other(t)) => assert_eq!(t, "ECU variant has no identification patterns"),
        _ => panic!("no error"),
    }
}

#[test]
fn the_variant_picker_lists_every_variant() {
    let variants = ecu().variants;
    let choices = variant_choices(&variants);
    assert_eq!(choices.len(), 3);
    assert_eq!(choices[1].index(), 1);
    assert_eq!(choices[1].to_string(), "B - B software");
    assert_eq!(variant_switch(&variants, 0), VariantSwitch::Switch);
    assert_eq!(variant_switch(&variants, 2), VariantSwitch::NoPattern);
    assert_eq!(variant_switch(&variants, 3), VariantSwitch::Ignore);
}

#[test]
fn a_session_starts_as_the_identified_variant() {
    let s = session();
    assert_eq!(s.variant, 1);
    assert_eq!(s.pattern, 1);
    assert_eq!(s.selected_variant, 1);
    assert_eq!(s.page_state, TargetPage::Main);
    assert_eq!(s.security_level, "01");
    assert_eq!(s.ecu_name, "EGS52");
    assert_eq!(s.variant_options.len(), 3);
    assert_eq!(s.service_selector.shown_services, vec![0, 1, 2]);
    let mut e = ecu();
    e.variants.clear();
    let c = e.connections[0].clone();
    assert!(JsonDiagSession::<u8>::new(e, c, None).is_err());
}

#[test]
fn switching_variants_needs_a_pattern() {
    let mut s = session();
    let line = s.select_variant(2).unwrap();
    assert_eq!(line.kind, LogType::Error);
    assert_eq!(line.text, "Selected ECU variant has no identification pattern");
    assert_eq!(s.variant, 1);
    assert!(s.select_variant(7).is_none());
    assert_eq!(s.variant, 1);
    assert!(s.select_variant(0).is_none());
    assert_eq!(s.variant, 0);
    assert_eq!(s.pattern, 0);
    assert!(s.looping_service.is_none());
}

#[test]
fn security_levels_are_one_hex_byte() {
    assert_eq!(security_level("01"), Ok(1));
    assert_eq!(security_level("fe"), Ok(0xfe));
    let text = "Security level must be exactly one hexadecimal byte, for example 01";
    assert_eq!(security_level("1"), Err(text));
    assert_eq!(security_level("0102"), Err(text));
    assert_eq!(security_level(""), Err(text));
    assert_eq!(security_level("zz"), Err(text));
}

#[test]
fn seeds_come_from_positive_replies() {
    assert!(positive_security_reply(&[0x67, 0x01], 1));
    assert!(!positive_security_reply(&[0x67], 1));
    assert!(!positive_security_reply(&[0x7f, 0x27, 0x35], 1));
    assert_eq!(seed_from_reply(&[0x67, 0x01, 0xab, 0x0c], 1), Some("AB0C".to_string()));
    assert_eq!(seed_from_reply(&[0x67, 0x01], 1), Some(String::new()));
    assert_eq!(seed_from_reply(&[0x67, 0x03, 0xab], 1), None);
}

#[test]
fn key_requests_use_the_next_level() {
    assert_eq!(security_key_request("01", "a1b2"), Ok(vec![0x02, 0xa1, 0xb2]));
    assert_eq!(security_key_request("FF", "00"), Err("Security level must be below FF"));
    let key_text = "Enter a non-empty hexadecimal security key";
    assert_eq!(security_key_request("01", ""), Err(key_text));
    assert_eq!(security_key_request("01", "zz"), Err(key_text));
    assert_eq!(security_key_request("01", "abc"), Err(key_text));
    assert!(security_key_request("1", "00").is_err());
}

#[test]
fn the_session_runs_security_access() {
    let mut s = session();
    s.enter_security_level(&"0a".to_string());
    assert_eq!(s.security_level, "0A");
    assert_eq!(s.seed_request().ok(), Some(0x0a));
    let line = s.seed_reply(0x0a, Ok(vec![0x67, 0x0a, 0x12, 0xef]));
    assert_eq!(line.kind, LogType::Info);
    assert_eq!(line.text, "Security seed for level 0A: 12EF");
    assert_eq!(s.security_seed, "12EF");
    let line = s.seed_reply(0x0a, Ok(vec![0x7f, 0x27, 0x35]));
    assert_eq!(line.kind, LogType::Error);
    assert_eq!(line.text, "Unexpected Security Access seed response: [7F, 27, 35]");
    assert_eq!(s.security_seed, "12EF");
    let line = s.seed_reply(0x0a, Err("timeout".into()));
    assert_eq!(line.text, "Error requesting Security Access seed: timeout");
    s.enter_security_key(&"beef".to_string());
    assert_eq!(s.security_key, "BEEF");
    assert_eq!(s.key_request().ok(), Some(vec![0x0b, 0xbe, 0xef]));
    s.enter_security_level(&"x".to_string());
    let line = s.seed_request().err().unwrap();
    assert_eq!(line.kind, LogType::Error);
    s.enter_security_seed(&"ab".to_string());
    assert_eq!(s.security_seed, "AB");

    let line = key_reply(0x0b, Ok(vec![0x67, 0x0b]));
    assert_eq!((line.kind, line.text.as_str()), (LogType::Info, "Security Access unlocked"));
    let line = key_reply(0x0b, Ok(vec![]));
    assert_eq!(line.text, "Unexpected Security Access key response: []");
    let line = key_reply(0x0b, Err("no answer".into()));
    assert_eq!(line.text, "Error sending Security Access key: no answer");
}

#[test]
fn session_changes_are_logged() {
    let line = kwp_session_reply(0x89, Ok(()));
    assert_eq!(line.kind, LogType::Info);
    assert_eq!(line.text, "KWP diagnostic session set to 0x89");
    let line = kwp_session_reply(0x05, Err("refused".into()));
    assert_eq!(line.kind, LogType::Error);
    assert_eq!(line.text, "Error setting KWP diagnostic session: refused");
}

#[test]
fn service_requests_merge_user_bytes() {
    assert_eq!(service_request(&[0x21, 0x00, 0x10], &[0x05]), (0x21, vec![0x05, 0x10]));
    assert_eq!(service_request(&[0x21, 0x01, 0x10], &[0x04, 0x02]), (0x21, vec![0x05, 0x12]));
    assert_eq!(service_request(&[0x21, 0x00], &[0x05, 0x06]), (0x21, vec![0x00]));
    assert_eq!(service_request(&[0x21, 0x00], &[]), (0x21, vec![0x00]));
    assert_eq!(service_request(&[0x3e], &[]), (0x3e, vec![]));
}

#[test]
fn trouble_codes_are_matched_by_suffix() {
    let errors = vec![dtc("P0700"), dtc("P0715")];
    assert_eq!(find_dtc(&errors, "0715"), Some(1));
    assert_eq!(find_dtc(&errors, "P0700"), Some(0));
    assert_eq!(find_dtc(&errors, ""), Some(0));
    assert_eq!(find_dtc(&errors, "0999"), None);
    let (d, k, read_envs) = displayable_dtc(&errors, &"0715".to_string(), 7u8, true);
    assert_eq!(k, Some(1));
    assert!(!read_envs);
    assert_eq!(d.code, "P0715");
    assert_eq!(d.desc, "P0715 meaning");
    assert_eq!(d.state, 7);
    assert!(d.mil_on);
    assert!(d.envs.is_empty());
    let (d, k, read_envs) = displayable_dtc(&errors, &"0999".to_string(), 1u8, false);
    assert_eq!(k, None);
    assert!(!read_envs);
    let mut with_envs = errors.clone();
    with_envs[1].envs.push(Parameter { name: "rpm".into() });
    let (_, k, read_envs) = displayable_dtc(&with_envs, &"0715".to_string(), 1u8, false);
    assert_eq!(k, Some(1));
    assert!(read_envs);
    assert_eq!(d.code, "0999");
    assert_eq!(d.desc, "UNKNOWN DTC");
}

#[test]
fn trouble_code_lists_follow_the_replies() {
    let mut s = session();
    let errors = vec![dtc("P0700")];
    let (d, _, _) = displayable_dtc(&errors, &"0700".to_string(), 0u8, false);
    assert!(s.errors_read(vec![d]));
    assert_eq!(s.logged_dtcs.len(), 1);
    let line = s.errors_cleared(Err("busy".into()));
    assert_eq!(line.text, "Error clearing ECU Errors: busy");
    assert_eq!(s.logged_dtcs.len(), 1);
    let line = s.errors_cleared(Ok(()));
    assert_eq!((line.kind, line.text.as_str()), (LogType::Info, "Clear ECU Errors OK!"));
    assert!(s.logged_dtcs.is_empty());
    s.navigate(TargetPage::Error);
    assert!(!s.errors_read(Vec::new()));
    let line = s.errors_failed("timeout");
    assert_eq!(line.text, "Error reading ECU Errors: timeout");
    assert!(leaves_session(TargetPage::Home));
    assert!(!leaves_session(TargetPage::ECUInfo));
}

#[test]
fn connections_give_iso_tp_settings() {
    let settings = interface_settings(&isotp_connection(ServerType::UDS)).ok().unwrap();
    assert_eq!(
        settings,
        IsoTpSettings {
            baud: 500000,
            ext_can_addr: false,
            ext_isotp_addr: true,
            block_size: 8,
            st_min: 20,
            send_id: 0x7e1,
            recv_id: 0x7e9,
            global_id: Some(0x7df),
            uds: true,
        }
    );
    assert!(!interface_settings(&isotp_connection(ServerType::KWP2000)).ok().unwrap().uds);
    let kline = Connection {
        connection_type: ConType::LIN { max_segment_size: 254, wake_up_method: "Fast".into() },
        ..isotp_connection(ServerType::KWP2000)
    };
    match interface_settings(&kline) {
        Err(SessionError::Other(t)) => assert_eq!(t, "K-Line is not implemented at this time"),
        _ => panic!("K-Line accepted"),
    }
}

#[test]
fn the_service_picker_searches_and_runs() {
    let mut s = session();
    let sel = &mut s.service_selector;
    assert_eq!(sel.execute_prefix(), "Read ");
    sel.update(&SelectorMsg::Search("READ S".into()));
    assert_eq!(sel.shown_services, vec![1]);
    sel.update(&SelectorMsg::Search("read".into()));
    assert_eq!(sel.shown_services, vec![0, 1, 2]);
    sel.update(&SelectorMsg::Search("re".into()));
    sel.update(&SelectorMsg::Search("rea".into()));
    assert_eq!(sel.shown_services, vec![0, 1, 2]);
    sel.update(&SelectorMsg::Search("gear".into()));
    assert_eq!(sel.shown_services, vec![2]);
    sel.update(&SelectorMsg::PickService(2));
    let c = sel.controls();
    assert!(c.execute && c.begin_loop && !c.stop_loop);
    sel.args = vec![0x01];
    match sel.update(&SelectorMsg::ExecService) {
        SelectorAction::Execute(i, args) => assert_eq!((i, args), (2, vec![0x01])),
        _ => panic!("not executed"),
    }
    match sel.update(&SelectorMsg::BeginLoopService) {
        SelectorAction::BeginLoop(i) => assert_eq!(i, 2),
        _ => panic!("no loop"),
    }
    assert!(sel.is_loop);
    let c = sel.controls();
    assert!(!c.execute && !c.begin_loop && c.stop_loop);

    sel.update(&SelectorMsg::ViewWrite);
    assert_eq!(sel.execute_prefix(), "Write ");
    assert_eq!(sel.shown_services, vec![0]);
    assert!(sel.selected_service.is_none());
    sel.update(&SelectorMsg::Search(String::new()));
    assert_eq!(sel.shown_services, vec![0]);
    sel.update(&SelectorMsg::PickService(0));
    assert!(sel.input_require && !sel.can_execute);
    sel.update(&SelectorMsg::ViewActuation);
    assert_eq!(sel.execute_prefix(), "Actuate ");
    assert!(sel.shown_services.is_empty());
}

#[test]
fn the_session_keeps_the_looping_service() {
    let mut s = session();
    s.selector_message(&SelectorMsg::PickLoopService(1));
    assert_eq!(s.looping_service.as_ref().unwrap().inner.name, "Read Speed");
    s.selector_message(&SelectorMsg::PickLoopService(9));
    assert_eq!(s.looping_service.as_ref().unwrap().inner.name, "Read Speed");
    s.selector_message(&SelectorMsg::StopLoopService);
    assert!(s.looping_service.is_none());
    assert!(!s.service_selector.is_loop);
}

#[test]
fn service_replies_are_written_out() {
    let svc = ServiceRef { inner: service("Read Speed", vec![0x21, 0x20], 0) };
    assert_eq!(service_title(&svc), "Read Speed (Read Speed description):");
    let line = service_failed(&svc, "NRC 0x31");
    assert_eq!(line.kind, LogType::Error);
    assert_eq!(line.text, "Error executing Read Speed: NRC 0x31");
    assert_eq!(looping_text(&svc, "OK"), "Read Speed(Read Speed description)\n->OK");
    assert!(!svc.require_input());
    assert_eq!(svc.to_string(), "Read Speed");
    assert!(svc.match_query("speed"));
    assert!(!svc.match_query("Speed"));

    assert_eq!(args_to_string(&Vec::new()), "OK");
    let outputs = vec![
        ("rpm".to_string(), Ok("800".to_string())),
        ("temp".to_string(), Err("out of range".to_string())),
    ];
    assert_eq!(args_to_string(&outputs), "rpm: 800\nError decoding temp: out of range");
}

#[test]
fn k_line_connections_are_refused_first() {
    let kline = Connection {
        connection_type: ConType::LIN { max_segment_size: 254, wake_up_method: "FiveBaudInit".into() },
        ..isotp_connection(ServerType::KWP2000)
    };
    let mut e = ecu();
    e.variants.clear();
    for candidate in [e, ecu()] {
        match JsonDiagSession::<u8>::new(candidate, kline.clone(), None) {
            Err(SessionError::Other(t)) => assert_eq!(t, "K-Line is not implemented at this time"),
            _ => panic!("K-Line accepted"),
        }
    }
}

#[test]
fn the_session_page_describes_its_connection() {
    let s = session();
    assert_eq!(s.title(), "ECU: EGS52 (Transmission). DiagVersion: B, Vendor: Bosch");
    assert!(s.offers_kwp_sessions());
    assert!(s.offers_variant_choice());
    assert_eq!(
        connection_text(&isotp_connection(ServerType::UDS)),
        "Automatic connection method!: Using ISOTP { blocksize: 8, st_min: 20, ext_isotp_addr: true, \
         ext_can_addr: false } at 500000bps with UDS a diagnostic server"
    );
    let kline = Connection {
        connection_type: ConType::LIN { max_segment_size: 254, wake_up_method: "FiveBaudInit".into() },
        baud: 10400,
        ..isotp_connection(ServerType::KWP2000)
    };
    assert_eq!(
        connection_text(&kline),
        "Automatic connection method!: Using LIN { max_segment_size: 254, wake_up_method: FiveBaudInit } \
         at 10400bps with KWP2000 a diagnostic server"
    );
}

#[test]
fn the_ecu_information_page_lists_what_was_read() {
    let s = session();
    let rows = s.info_rows(None);
    let expected: Vec<(String, String)> = vec![
        ("Name".into(), "EGS52".into()),
        ("Description".into(), "Transmission".into()),
        ("Software".into(), "B".into()),
        ("Manufacture".into(), "Bosch".into()),
    ];
    assert_eq!(rows, expected);
    let part = PartIdentification {
        part_number: "2205400017".into(),
        hardware_version: "01/23".into(),
        software_version: "02/11".into(),
    };
    let rows = s.info_rows(Some((Some(part), None)));
    assert_eq!(rows.len(), 10);
    assert_eq!(rows[4], ("Part number".to_string(), "2205400017".to_string()));
    assert_eq!(rows[6], ("Software version".to_string(), "02/11".to_string()));
    assert_eq!(rows[7], ("Hardware build date (WW/YY)".to_string(), "Unknown".to_string()));
    assert_eq!(rows[9], ("Production date (DD/MM/YY)".to_string(), "Unknown".to_string()));
    let dates = BuildDates {
        hardware_build_date: "10/04".into(),
        software_written_date: "12/04".into(),
        production_date: "01/02/05".into(),
    };
    let rows = s.info_rows(Some((None, Some(dates))));
    assert_eq!(rows[4], ("Part number".to_string(), "Unknown".to_string()));
    assert_eq!(rows[8], ("Software build date (WW/YY)".to_string(), "12/04".to_string()));
}

#[test]
fn a_chosen_trouble_code_shows_its_freeze_frame() {
    let mut s = session();
    let errors = vec![dtc("P0700")];
    let (mut d, _, _) = displayable_dtc(&errors, &"0700".to_string(), 0u8, false);
    d.envs = vec![("rpm".into(), "800".into()), ("temp".into(), "90".into())];
    s.errors_read(vec![d]);
    let rows = s.env_rows(0);
    assert_eq!(rows, vec![("rpm".to_string(), "800".to_string()), ("temp".to_string(), "90".to_string())]);
}
