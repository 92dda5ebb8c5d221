use openvehiclediag::comm::{Capability, ISO15765Config};
use openvehiclediag::manual::{
    connection_label, DiagManual, DiagManualMessage, ECUDiagSettings, FileContents, ManualAction,
    SessionKind, VehicleECUList,
};
use openvehiclediag::schema::{ConType, Connection, OvdECU, ServerType};
use openvehiclediag::session::{CustomDiagSession, CustomDiagSessionMsg, SessionError};

type Msg = DiagManualMessage<CustomDiagSessionMsg>;

fn isotp_connection() -> Connection {
    Connection {
        baud: 500000,
        send_id: 0x7e1,
        global_send_id: None,
        recv_id: 0x7e9,
        server_type: ServerType::KWP2000,
        connection_type: ConType::ISOTP {
            blocksize: 8,
            st_min: 10,
            ext_can_addr: false,
            ext_isotp_addr: false,
        },
    }
}

fn kline_connection() -> Connection {
    Connection {
        baud: 10400,
        send_id: 0x20,
        global_send_id: Some(0x20),
        recv_id: 0x20,
        server_type: ServerType::UDS,
        connection_type: ConType::LIN {
            max_segment_size: 254,
            wake_up_method: "FiveBaudInit".into(),
        },
    }
}

fn egs() -> ECUDiagSettings {
    ECUDiagSettings {
        name: "EGS".into(),
        send_id: 0x7e1,
        flow_control_id: 0x7e9,
        block_size: 8,
        sep_time_ms: 20,
        uds_support: false,
        kwp_support: true,
    }
}

#[test]
fn hex_identifiers_are_read_by_bytes() {
    assert_eq!(DiagManual::decode_string_hex(""), None);
    assert_eq!(DiagManual::decode_string_hex("12"), Some(0x12));
    assert_eq!(DiagManual::decode_string_hex("07E0"), Some(0x7e0));
    assert_eq!(DiagManual::decode_string_hex("07e8"), Some(0x7e8));
    assert_eq!(DiagManual::decode_string_hex("7E0"), None);
    assert_eq!(DiagManual::decode_string_hex("123456"), None);
    assert_eq!(DiagManual::decode_string_hex("12345678"), Some(0x1234_5678));
    assert_eq!(DiagManual::decode_string_hex("123456789A"), Some(0x1234_5678));
    assert_eq!(DiagManual::decode_string_hex("zz"), None);
}

#[test]
fn decimal_settings_are_read_as_numbers() {
    assert_eq!(DiagManual::decode_string_int("500"), Some(500));
    assert_eq!(DiagManual::decode_string_int("+5"), Some(5));
    assert_eq!(DiagManual::decode_string_int("0"), Some(0));
    assert_eq!(DiagManual::decode_string_int("4294967295"), Some(u32::MAX));
    assert_eq!(DiagManual::decode_string_int("4294967296"), None);
    assert_eq!(DiagManual::decode_string_int("-1"), None);
    assert_eq!(DiagManual::decode_string_int(""), None);
    assert_eq!(DiagManual::decode_string_int("1a"), None);
}

#[test]
fn typed_settings_are_taken_or_reported() {
    let mut m = DiagManual::new();
    assert_eq!(m.update(&Msg::BsEnter("8".into()), Capability::Yes), ManualAction::Nothing);
    assert_eq!(m.str_bs, "8");
    m.update(&Msg::BsEnter("x".into()), Capability::Yes);
    assert_eq!(m.status, "x is not a number");
    assert_eq!(m.str_bs, "8");
    m.update(&Msg::BsEnter("".into()), Capability::Yes);
    assert_eq!(m.str_bs, "");
    assert!(m.status.is_empty());

    m.update(&Msg::SendIDEnter("7E0".into()), Capability::Yes);
    assert_eq!(m.status, "Require even number of characters");
    assert_eq!(m.str_send_id, "7E0");
    m.update(&Msg::SendIDEnter("07E0".into()), Capability::Yes);
    assert!(m.status.is_empty());
    assert_eq!(m.str_send_id, "07E0");
    m.update(&Msg::RecvIDEnter("GG".into()), Capability::Yes);
    assert_eq!(m.status, "GG is not a hex number");
    assert!(m.str_recv_id.is_empty());
}

#[test]
fn custom_launch_uses_typed_settings() {
    let mut m = DiagManual::new();
    assert!(!m.can_launch_custom());
    m.update(&Msg::SendIDEnter("07E0".into()), Capability::Yes);
    m.update(&Msg::RecvIDEnter("07E8".into()), Capability::Yes);
    m.update(&Msg::BsEnter("8".into()), Capability::Yes);
    m.update(&Msg::SepEnter("20".into()), Capability::Yes);
    assert!(m.can_launch_custom());
    let a = m.update(&Msg::LaunchUDSCustom, Capability::Yes);
    let cfg = ISO15765Config {
        baud: 500000,
        send_id: 0x7e0,
        recv_id: 0x7e8,
        block_size: 8,
        sep_time: 20,
        use_ext_isotp: false,
        use_ext_can: false,
    };
    assert_eq!(a, ManualAction::LaunchProtocol { kind: SessionKind::UDS, cfg });
}

#[test]
fn protocol_launch_needs_a_picked_ecu() {
    let mut m = DiagManual::new();
    assert_eq!(m.update(&Msg::LaunchKWP, Capability::Yes), ManualAction::Nothing);
    assert_eq!(m.status, "Error. No ECU selected?");
    m.update(&Msg::PickECU(egs()), Capability::Yes);
    let a = m.update(&Msg::LaunchKWP, Capability::Yes);
    let cfg = ISO15765Config {
        baud: 500000,
        send_id: 0x7e1,
        recv_id: 0x7e9,
        block_size: 8,
        sep_time: 20,
        use_ext_isotp: false,
        use_ext_can: false,
    };
    assert_eq!(a, ManualAction::LaunchProtocol { kind: SessionKind::KWP, cfg });
}

#[test]
fn one_session_at_a_time_and_back_closes_it() {
    let mut m = DiagManual::new();
    m.update(&Msg::PickECU(egs()), Capability::Yes);
    m.session_started();
    assert_eq!(m.update(&Msg::LaunchUDS, Capability::Yes), ManualAction::Nothing);
    assert_eq!(m.status, "Error. Diagnostic session already in progress??");
    let a = m.update(&Msg::Session(CustomDiagSessionMsg::Back), Capability::Yes);
    assert_eq!(a, ManualAction::CloseSession);
    assert!(!m.session_active);
    let a = m.update(&Msg::Session(CustomDiagSessionMsg::Back), Capability::Yes);
    assert_eq!(a, ManualAction::Nothing);
    assert_eq!(m.update(&Msg::LaunchFileBrowser, Capability::Yes), ManualAction::OpenFileDialog);
}

#[test]
fn picked_files_replace_the_page_contents() {
    let mut m = DiagManual::new();
    let car = VehicleECUList {
        vehicle_name: "W203".into(),
        vehicle_brand: "Mercedes".into(),
        vehicle_year: 2004,
        ecu_list: vec![egs()],
    };
    let ecu = OvdECU {
        name: "EGS52".into(),
        description: String::new(),
        variants: Vec::new(),
        connections: vec![isotp_connection(), kline_connection()],
    };
    assert_eq!(m.file_loaded(FileContents::Ecu(ecu), Capability::Yes), ManualAction::Nothing);
    assert!(m.json_ecu.is_some());
    m.update(&Msg::PickConnection(0), Capability::Yes);
    assert_eq!(m.update(&Msg::LaunchJSON, Capability::Yes), ManualAction::LaunchJson { connection: 0 });
    assert_eq!(m.file_loaded(FileContents::Car(car), Capability::Yes), ManualAction::Nothing);
    assert!(m.json_ecu.is_none());
    assert!(m.json_connection.is_none());
    assert_eq!(m.car.as_ref().unwrap().ecu_list.len(), 1);
    m.file_loaded(FileContents::Unparsable, Capability::Yes);
    assert_eq!(m.status, "Error processing input file!");
    m.file_loaded(FileContents::ReadError, Capability::Yes);
    assert_eq!(m.status, "Error reading input file!");
    m.file_loaded(FileContents::OpenError, Capability::Yes);
    assert_eq!(m.status, "Error loading save file");
    m.session_failed("boom");
    assert_eq!(m.status, "Error init diag session: boom");
}

#[test]
fn connection_labels_name_protocol_bitrate_and_problem() {
    assert_eq!(
        connection_label(0, &isotp_connection(), Capability::Yes),
        "1. KWP2000 over ISO-TP / CAN - 500000 bit/s - TX 0x7E1, RX 0x7E9"
    );
    assert_eq!(
        connection_label(0, &isotp_connection(), Capability::No),
        "1. KWP2000 over ISO-TP / CAN - 500000 bit/s - TX 0x7E1, RX 0x7E9 \
         (Selected adapter does not support ISO-TP over CAN)"
    );
    assert_eq!(
        connection_label(1, &kline_connection(), Capability::Yes),
        "2. UDS over K-Line - 10400 bit/s - TX 0x20, RX 0x20 (K-Line is not implemented at this time)"
    );
}

#[test]
fn custom_session_is_not_offered() {
    let cfg = ISO15765Config {
        baud: 500000,
        send_id: 0x7e0,
        recv_id: 0x7e8,
        block_size: 8,
        sep_time: 20,
        use_ext_isotp: false,
        use_ext_can: false,
    };
    match CustomDiagSession::new((), cfg) {
        Err(SessionError::Other(s)) => assert_eq!(s, "Custom Session is not yet implemented"),
        _ => panic!("the custom session started"),
    }
    let e = SessionError::ServerError("no reply".into());
    assert_eq!(e.get_description(), "no reply");
}

#[test]
fn the_json_launch_is_offered_for_a_usable_chosen_connection() {
    let mut m = DiagManual::new();
    assert!(!m.can_launch_json(Capability::Yes));
    let ecu = OvdECU {
        name: "EGS52".into(),
        description: String::new(),
        variants: Vec::new(),
        connections: vec![isotp_connection(), kline_connection()],
    };
    m.file_loaded(FileContents::Ecu(ecu), Capability::Yes);
    assert!(!m.can_launch_json(Capability::Yes));
    m.update(&Msg::PickConnection(0), Capability::Yes);
    assert!(m.can_launch_json(Capability::Yes));
    assert!(!m.can_launch_json(Capability::No));
    m.update(&Msg::PickConnection(1), Capability::Yes);
    assert!(!m.can_launch_json(Capability::Yes));
    assert_eq!(
        connection_label(99, &kline_connection(), Capability::Yes),
        "100. UDS over K-Line - 10400 bit/s - TX 0x20, RX 0x20 (K-Line is not implemented at this time)"
    );
}
