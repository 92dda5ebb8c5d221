use openvehiclediag::adapter::{port_not_open_error, slcan_capabilities};
use openvehiclediag::comm::Capability;
use openvehiclediag::manual::{DiagManual, DiagManualMessage, ManualAction};
use openvehiclediag::schema::{ConType, Connection, OvdECU, ServerType};
use openvehiclediag::session::CustomDiagSessionMsg;

type Msg = DiagManualMessage<CustomDiagSessionMsg>;

fn egs52_connection_fixture() -> OvdECU {
    OvdECU {
        name: "EGS52".into(),
        description: "Connection selection fixture".into(),
        variants: Vec::new(),
        connections: vec![
            Connection {
                baud: 10400,
                send_id: 32,
                global_send_id: Some(32),
                recv_id: 32,
                server_type: ServerType::KWP2000,
                connection_type: ConType::LIN {
                    max_segment_size: 254,
                    wake_up_method: "FiveBaudInit".into(),
                },
            },
            Connection {
                baud: 500000,
                send_id: 2017,
                global_send_id: None,
                recv_id: 2025,
                server_type: ServerType::KWP2000,
                connection_type: ConType::ISOTP {
                    blocksize: 8,
                    st_min: 10,
                    ext_can_addr: false,
                    ext_isotp_addr: false,
                },
            },
        ],
    }
}

/// The adapter of these tests is an SLCAN adapter whose serial port is not open.
fn iso_tp() -> Capability {
    slcan_capabilities(String::new()).supports_iso15765()
}

/// Carries out what the page asked for, as the application does: a session
/// start fails because no serial port is open.
fn perform(manual: &mut DiagManual, action: ManualAction) {
    match action {
        ManualAction::LaunchJson { .. } | ManualAction::LaunchProtocol { .. } => {
            manual.session_failed(&port_not_open_error().err_desc);
        }
        _ => {}
    }
}

fn update(manual: &mut DiagManual, msg: &Msg) {
    let action = manual.update(msg, iso_tp());
    perform(manual, action);
}

fn load_json_ecu(manual: &mut DiagManual, ecu: OvdECU) {
    let action = manual.load_json_ecu(ecu, iso_tp());
    perform(manual, action);
}

#[test]
fn multiple_json_connections_require_selection_and_allow_can_retry() {
    let mut manual = DiagManual::new();
    load_json_ecu(&mut manual, egs52_connection_fixture());
    assert!(manual.status.is_empty());
    assert!(manual.json_connection.is_none());
    assert!(!manual.session_active);

    update(&mut manual, &Msg::LaunchJSON);
    assert_eq!(manual.status, "Select an ECU JSON connection first");
    update(&mut manual, &Msg::PickConnection(1));
    assert!(manual.status.is_empty());
    let connection = &manual.json_ecu.as_ref().unwrap().connections[1];
    assert_eq!(connection.baud, 500000);
    assert_eq!(connection.send_id, 0x7e1);
    assert_eq!(connection.recv_id, 0x7e9);

    // No COM port is opened: reaching this error proves the ISO-TP launch path was used.
    update(&mut manual, &Msg::LaunchJSON);
    assert!(manual.status.contains("SLCAN serial port is not open"));
    assert!(!manual.session_active);
    assert_eq!(manual.json_connection, Some(1));
    assert_eq!(manual.json_ecu.as_ref().unwrap().connections.len(), 2);
}

#[test]
fn unsupported_json_connections_are_rejected_before_launch() {
    let mut manual = DiagManual::new();
    load_json_ecu(&mut manual, egs52_connection_fixture());
    update(&mut manual, &Msg::PickConnection(0));
    update(&mut manual, &Msg::LaunchJSON);
    assert_eq!(manual.status, "K-Line is not implemented at this time");
    assert!(!manual.session_active);

    let connection = &manual.json_ecu.as_ref().unwrap().connections[1];
    assert!(DiagManual::json_connection_error(connection, Capability::Yes).is_none());
    assert!(DiagManual::json_connection_error(connection, Capability::No).is_some());
    assert!(DiagManual::json_connection_error(connection, Capability::NA).is_some());
}

#[test]
fn loading_json_resets_selection_and_preserves_single_connection_launch() {
    let mut manual = DiagManual::new();
    let mut ecu = egs52_connection_fixture();
    ecu.connections.remove(0);
    load_json_ecu(&mut manual, ecu.clone());
    assert_eq!(manual.json_connection, Some(0));
    assert!(manual.status.contains("SLCAN serial port is not open"));

    load_json_ecu(&mut manual, egs52_connection_fixture());
    assert!(manual.json_connection.is_none());
    assert!(manual.status.is_empty());
    update(&mut manual, &Msg::PickConnection(1));
    update(&mut manual, &Msg::PickConnection(99));
    assert!(manual.json_connection.is_none());

    ecu.connections.clear();
    load_json_ecu(&mut manual, ecu);
    assert!(manual.json_connection.is_none());
    assert_eq!(manual.status, "ECU JSON file has no connections");
    assert!(!manual.session_active);
}
