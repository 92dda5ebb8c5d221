//! The manual diagnostics page: loading a saved car or an ECU JSON file,
//! choosing a connection, entering ISO-TP settings by hand, and deciding
//! which diagnostic session to start.
use vstd::prelude::*;
use vstd::string::StringExecFns;
use vstd::utf8::encode_utf8;
use crate::comm::{Capability, ISO15765Config};
use crate::schema::{ConType, Connection, OvdECU, ServerType};
use crate::text::{
    decimal, hex_decode, hex_minimal, parse_decimal, push_decimal, push_hex_minimal,
    spec_hex_decode, spec_parse_u32, HexError,
};

verus! {

/// A message of a diagnostic session that can ask to leave it.
pub trait DiagMessageTrait {
    spec fn spec_is_back(&self) -> bool;

    /// Whether the message asks to leave the session.
    fn is_back(&self) -> (r: bool)
        ensures
            r == self.spec_is_back(),
    ;
}

/// The ISO-TP settings of one ECU in a saved car.
#[derive(Debug)]
pub struct ECUDiagSettings {
    pub name: String,
    pub send_id: u32,
    pub flow_control_id: u32,
    pub block_size: u32,
    pub sep_time_ms: u32,
    pub uds_support: bool,
    pub kwp_support: bool,
}

impl Clone for ECUDiagSettings {
    fn clone(&self) -> (r: Self)
        ensures
            r == *self,
    {
        ECUDiagSettings {
            name: self.name.clone(),
            send_id: self.send_id,
            flow_control_id: self.flow_control_id,
            block_size: self.block_size,
            sep_time_ms: self.sep_time_ms,
            uds_support: self.uds_support,
            kwp_support: self.kwp_support,
        }
    }
}

/// A saved car with its ECUs.
#[derive(Clone, Debug)]
pub struct VehicleECUList {
    pub vehicle_name: String,
    pub vehicle_brand: String,
    pub vehicle_year: u32,
    pub ecu_list: Vec<ECUDiagSettings>,
}

/// What the page is asked to do.
#[derive(Clone, Debug)]
pub enum DiagManualMessage<M> {
    LaunchFileBrowser,
    PickECU(ECUDiagSettings),
    PickConnection(usize),
    LaunchJSON,
    LaunchKWP,
    LaunchKWPCustom,
    LaunchUDS,
    LaunchUDSCustom,
    LaunchCustom,
    LaunchCustomCustom,
    Session(M),
    SendIDEnter(String),
    RecvIDEnter(String),
    SepEnter(String),
    BsEnter(String),
}

/// The protocol of a session started from ISO-TP settings.
#[derive(Clone, Copy, Debug, PartialEq, Eq, Structural)]
pub enum SessionKind {
    KWP,
    UDS,
    Custom,
}

/// What the application does after the page decided.
#[derive(Clone, Copy, Debug, PartialEq, Eq, Structural)]
pub enum ManualAction {
    /// Nothing to do.
    Nothing,
    /// Let the user pick a file, then report it with `file_*`.
    OpenFileDialog,
    /// Pass the session message on to the running session.
    ForwardToSession,
    /// The session was left: drop it.
    CloseSession,
    /// Start a JSON session on this connection of the loaded ECU.
    LaunchJson { connection: usize },
    /// Start a session of this protocol with these settings.
    LaunchProtocol { kind: SessionKind, cfg: ISO15765Config },
}

/// The page.
#[derive(Debug)]
pub struct DiagManual {
    pub car: Option<VehicleECUList>,
    pub curr_ecu: Option<ECUDiagSettings>,
    pub json_ecu: Option<OvdECU>,
    pub json_connection: Option<usize>,
    pub session_active: bool,
    pub status: String,
    pub str_send_id: String,
    pub str_recv_id: String,
    pub str_bs: String,
    pub str_sep: String,
}

/// The mathematical content of the page.
#[verifier::ext_equal]
pub struct DiagManualView {
    pub car: Option<VehicleECUList>,
    pub curr_ecu: Option<ECUDiagSettings>,
    pub json_ecu: Option<OvdECU>,
    pub json_connection: Option<usize>,
    pub session_active: bool,
    pub status: Seq<char>,
    pub str_send_id: Seq<char>,
    pub str_recv_id: Seq<char>,
    pub str_bs: Seq<char>,
    pub str_sep: Seq<char>,
}

impl View for DiagManual {
    type V = DiagManualView;

    open spec fn view(&self) -> DiagManualView {
        DiagManualView {
            car: self.car,
            curr_ecu: self.curr_ecu,
            json_ecu: self.json_ecu,
            json_connection: self.json_connection,
            session_active: self.session_active,
            status: self.status@,
            str_send_id: self.str_send_id@,
            str_recv_id: self.str_recv_id@,
            str_bs: self.str_bs@,
            str_sep: self.str_sep@,
        }
    }
}

/// A hexadecimal identifier typed by hand: one byte, two bytes, or the first
/// four bytes of a longer text, most significant first; empty text, three
/// bytes, or text that is no even-length hexadecimal give nothing.
pub open spec fn spec_decode_string_hex(s: Seq<char>) -> Option<u32> {
    if s.len() == 0 {
        None
    } else {
        match spec_hex_decode(encode_utf8(s)) {
            Ok(r) => {
                if r.len() == 1 {
                    Some(r[0] as u32)
                } else if r.len() == 2 {
                    Some((r[0] * 256 + r[1]) as u32)
                } else if r.len() >= 4 {
                    Some((r[0] * 0x100_0000 + r[1] * 0x1_0000 + r[2] * 0x100 + r[3]) as u32)
                } else {
                    None
                }
            },
            Err(_) => None,
        }
    }
}

/// A decimal number typed by hand.
pub open spec fn spec_decode_string_int(s: Seq<char>) -> Option<u32> {
    spec_parse_u32(encode_utf8(s), 10)
}

/// Why a connection of an ECU JSON file cannot be used with the adapter.
pub open spec fn connection_error_text(c: Connection, iso_tp: Capability) -> Option<Seq<char>> {
    match c.connection_type {
        ConType::LIN { .. } => Some("K-Line is not implemented at this time"@),
        ConType::ISOTP { .. } => if iso_tp != Capability::Yes {
            Some("Selected adapter does not support ISO-TP over CAN"@)
        } else {
            None
        },
    }
}

/// The JSON launch is offered when a connection of the loaded ECU JSON file is
/// chosen and the adapter can use it.
pub open spec fn spec_can_launch_json(v: DiagManualView, iso_tp: Capability) -> bool {
    match (v.json_ecu, v.json_connection) {
        (Some(ecu), Some(i)) => i < ecu.connections@.len() && connection_error_text(
            ecu.connections@[i as int],
            iso_tp,
        ) is None,
        _ => false,
    }
}

/// How the page starts a session: from a JSON connection, or by protocol.
#[derive(Clone, Copy, Debug, PartialEq, Eq, Structural)]
pub enum LaunchKind {
    Json(usize),
    Protocol(SessionKind),
}

/// The settings typed by hand are all numbers.
pub open spec fn spec_can_launch_custom(v: DiagManualView) -> bool {
    &&& spec_decode_string_hex(v.str_send_id) is Some
    &&& spec_decode_string_hex(v.str_recv_id) is Some
    &&& spec_decode_string_int(v.str_bs) is Some
    &&& spec_decode_string_int(v.str_sep) is Some
}

/// Starting a session: refused while one runs; a JSON connection starts as
/// chosen; a protocol session starts at 500 kbit/s from the settings typed by
/// hand or else from the ECU picked in the saved car.
pub open spec fn spec_launch_diag(v: DiagManualView, kind: LaunchKind, use_custom: bool) -> (
    DiagManualView,
    ManualAction,
) {
    if v.session_active {
        (
            DiagManualView { status: "Error. Diagnostic session already in progress??"@, ..v },
            ManualAction::Nothing,
        )
    } else {
        match kind {
            LaunchKind::Json(i) => (v, ManualAction::LaunchJson { connection: i }),
            LaunchKind::Protocol(k) => {
                if use_custom {
                    (
                        v,
                        ManualAction::LaunchProtocol {
                            kind: k,
                            cfg: ISO15765Config {
                                baud: 500000,
                                send_id: spec_decode_string_hex(v.str_send_id).unwrap(),
                                recv_id: spec_decode_string_hex(v.str_recv_id).unwrap(),
                                block_size: spec_decode_string_int(v.str_bs).unwrap(),
                                sep_time: spec_decode_string_int(v.str_sep).unwrap(),
                                use_ext_isotp: false,
                                use_ext_can: false,
                            },
                        },
                    )
                } else {
                    match v.curr_ecu {
                        Some(e) => (
                            v,
                            ManualAction::LaunchProtocol {
                                kind: k,
                                cfg: ISO15765Config {
                                    baud: 500000,
                                    send_id: e.send_id,
                                    recv_id: e.flow_control_id,
                                    block_size: e.block_size,
                                    sep_time: e.sep_time_ms,
                                    use_ext_isotp: false,
                                    use_ext_can: false,
                                },
                            },
                        ),
                        None => (
                            DiagManualView { status: "Error. No ECU selected?"@, ..v },
                            ManualAction::Nothing,
                        ),
                    }
                }
            },
        }
    }
}

/// Starting a session on the chosen JSON connection: there must be one, and
/// it must be usable with the adapter.
pub open spec fn spec_launch_json(v: DiagManualView, iso_tp: Capability) -> (
    DiagManualView,
    ManualAction,
) {
    match (v.json_ecu, v.json_connection) {
        (Some(ecu), Some(i)) => {
            if i < ecu.connections@.len() {
                match connection_error_text(ecu.connections@[i as int], iso_tp) {
                    Some(t) => (DiagManualView { status: t, ..v }, ManualAction::Nothing),
                    None => spec_launch_diag(
                        DiagManualView { status: Seq::empty(), ..v },
                        LaunchKind::Json(i),
                        false,
                    ),
                }
            } else {
                (
                    DiagManualView { status: "Select an ECU JSON connection first"@, ..v },
                    ManualAction::Nothing,
                )
            }
        },
        _ => (
            DiagManualView { status: "Select an ECU JSON connection first"@, ..v },
            ManualAction::Nothing,
        ),
    }
}

/// Loading an ECU JSON file drops the car, the picked ECU and the chosen
/// connection; with no connection that is reported, with exactly one it is
/// chosen and started, with more the user chooses.
pub open spec fn spec_load_json_ecu(v: DiagManualView, ecu: OvdECU, iso_tp: Capability) -> (
    DiagManualView,
    ManualAction,
) {
    let v1 = DiagManualView {
        car: None,
        curr_ecu: None,
        json_ecu: Some(ecu),
        json_connection: None,
        status: Seq::empty(),
        ..v
    };
    if ecu.connections@.len() == 0 {
        (DiagManualView { status: "ECU JSON file has no connections"@, ..v1 }, ManualAction::Nothing)
    } else if ecu.connections@.len() == 1 {
        spec_launch_json(DiagManualView { json_connection: Some(0), ..v1 }, iso_tp)
    } else {
        (v1, ManualAction::Nothing)
    }
}

/// Which typed setting a message edits.
#[derive(Clone, Copy, Debug, PartialEq, Eq, Structural)]
pub enum Field {
    SendId,
    RecvId,
    BlockSize,
    SepTime,
}

pub open spec fn field_text(v: DiagManualView, f: Field) -> Seq<char> {
    match f {
        Field::SendId => v.str_send_id,
        Field::RecvId => v.str_recv_id,
        Field::BlockSize => v.str_bs,
        Field::SepTime => v.str_sep,
    }
}

pub open spec fn with_field(v: DiagManualView, f: Field, t: Seq<char>) -> DiagManualView {
    match f {
        Field::SendId => DiagManualView { str_send_id: t, ..v },
        Field::RecvId => DiagManualView { str_recv_id: t, ..v },
        Field::BlockSize => DiagManualView { str_bs: t, ..v },
        Field::SepTime => DiagManualView { str_sep: t, ..v },
    }
}

/// Typing a decimal setting: empty text clears it, a number is taken, other
/// text is reported and not taken.
pub open spec fn spec_number_entry(v: DiagManualView, f: Field, s: Seq<char>) -> DiagManualView {
    if s.len() == 0 {
        with_field(DiagManualView { status: Seq::empty(), ..v }, f, Seq::empty())
    } else if spec_decode_string_int(s) is Some {
        with_field(DiagManualView { status: Seq::empty(), ..v }, f, s)
    } else {
        DiagManualView { status: s + " is not a number"@, ..v }
    }
}

/// Typing a hexadecimal setting: empty text clears it, hexadecimal text is
/// taken (with a warning when its length is odd), other text is reported and
/// not taken.
pub open spec fn spec_hex_entry(v: DiagManualView, f: Field, s: Seq<char>) -> DiagManualView {
    if s.len() == 0 {
        with_field(DiagManualView { status: Seq::empty(), ..v }, f, Seq::empty())
    } else {
        match spec_hex_decode(encode_utf8(s)) {
            Err(HexError::OddLength) => with_field(
                DiagManualView { status: "Require even number of characters"@, ..v },
                f,
                s,
            ),
            Ok(_) => with_field(DiagManualView { status: Seq::empty(), ..v }, f, s),
            Err(_) => DiagManualView { status: s + " is not a hex number"@, ..v },
        }
    }
}

/// What the file the user picked turned out to be.
#[derive(Clone, Debug)]
pub enum FileContents {
    /// A saved car.
    Car(VehicleECUList),
    /// An ECU JSON description.
    Ecu(OvdECU),
    /// Text that is neither.
    Unparsable,
    /// The file could not be read.
    ReadError,
    /// The file could not be opened.
    OpenError,
}

/// Taking a picked file: a car replaces the car and drops the ECU JSON file
/// and every choice; an ECU JSON file is loaded; failures are reported.
pub open spec fn spec_file_loaded(v: DiagManualView, contents: FileContents, iso_tp: Capability) -> (
    DiagManualView,
    ManualAction,
) {
    match contents {
        FileContents::Car(car) => (
            DiagManualView {
                curr_ecu: None,
                json_ecu: None,
                json_connection: None,
                status: Seq::empty(),
                car: Some(car),
                ..v
            },
            ManualAction::Nothing,
        ),
        FileContents::Ecu(ecu) => spec_load_json_ecu(v, ecu, iso_tp),
        FileContents::Unparsable => (
            DiagManualView { status: "Error processing input file!"@, ..v },
            ManualAction::Nothing,
        ),
        FileContents::ReadError => (
            DiagManualView { status: "Error reading input file!"@, ..v },
            ManualAction::Nothing,
        ),
        FileContents::OpenError => (
            DiagManualView { status: "Error loading save file"@, ..v },
            ManualAction::Nothing,
        ),
    }
}

/// The custom-launch messages start from the settings typed by hand.
pub open spec fn is_custom_launch<M>(msg: DiagManualMessage<M>) -> bool {
    msg is LaunchKWPCustom || msg is LaunchUDSCustom || msg is LaunchCustomCustom
}

/// What the page does with a message. A session message goes to the running
/// session, or leaves it; everything else is handled by the page itself.
pub open spec fn spec_update<M: DiagMessageTrait>(
    v: DiagManualView,
    msg: DiagManualMessage<M>,
    iso_tp: Capability,
) -> (DiagManualView, ManualAction) {
    match msg {
        DiagManualMessage::Session(m) => {
            if v.session_active {
                if m.spec_is_back() {
                    (DiagManualView { session_active: false, ..v }, ManualAction::CloseSession)
                } else {
                    (v, ManualAction::ForwardToSession)
                }
            } else {
                (v, ManualAction::Nothing)
            }
        },
        DiagManualMessage::LaunchFileBrowser => (v, ManualAction::OpenFileDialog),
        DiagManualMessage::PickECU(e) => (
            DiagManualView { curr_ecu: Some(e), ..v },
            ManualAction::Nothing,
        ),
        DiagManualMessage::PickConnection(i) => (
            DiagManualView {
                json_connection: match v.json_ecu {
                    Some(ecu) => if i < ecu.connections@.len() {
                        Some(i)
                    } else {
                        None
                    },
                    None => None,
                },
                status: Seq::empty(),
                ..v
            },
            ManualAction::Nothing,
        ),
        DiagManualMessage::LaunchJSON => spec_launch_json(v, iso_tp),
        DiagManualMessage::LaunchKWP => spec_launch_diag(
            v,
            LaunchKind::Protocol(SessionKind::KWP),
            false,
        ),
        DiagManualMessage::LaunchUDS => spec_launch_diag(
            v,
            LaunchKind::Protocol(SessionKind::UDS),
            false,
        ),
        DiagManualMessage::LaunchCustom => spec_launch_diag(
            v,
            LaunchKind::Protocol(SessionKind::Custom),
            false,
        ),
        DiagManualMessage::LaunchKWPCustom => spec_launch_diag(
            v,
            LaunchKind::Protocol(SessionKind::KWP),
            true,
        ),
        DiagManualMessage::LaunchUDSCustom => spec_launch_diag(
            v,
            LaunchKind::Protocol(SessionKind::UDS),
            true,
        ),
        DiagManualMessage::LaunchCustomCustom => spec_launch_diag(
            v,
            LaunchKind::Protocol(SessionKind::Custom),
            true,
        ),
        DiagManualMessage::BsEnter(s) => (
            spec_number_entry(v, Field::BlockSize, s@),
            ManualAction::Nothing,
        ),
        DiagManualMessage::SepEnter(s) => (
            spec_number_entry(v, Field::SepTime, s@),
            ManualAction::Nothing,
        ),
        DiagManualMessage::SendIDEnter(s) => (
            spec_hex_entry(v, Field::SendId, s@),
            ManualAction::Nothing,
        ),
        DiagManualMessage::RecvIDEnter(s) => (
            spec_hex_entry(v, Field::RecvId, s@),
            ManualAction::Nothing,
        ),
    }
}

impl DiagManual {
    /// An empty page.
    pub fn new() -> (m: DiagManual)
        ensures
            m@ == (DiagManualView {
                car: None,
                curr_ecu: None,
                json_ecu: None,
                json_connection: None,
                session_active: false,
                status: Seq::empty(),
                str_send_id: Seq::empty(),
                str_recv_id: Seq::empty(),
                str_bs: Seq::empty(),
                str_sep: Seq::empty(),
            }),
    {
        DiagManual {
            car: None,
            curr_ecu: None,
            json_ecu: None,
            json_connection: None,
            session_active: false,
            status: String::new(),
            str_send_id: String::new(),
            str_recv_id: String::new(),
            str_bs: String::new(),
            str_sep: String::new(),
        }
    }

    /// Reads an identifier typed in hexadecimal.
    pub fn decode_string_hex(s: &str) -> (r: Option<u32>)
        ensures
            r == spec_decode_string_hex(s@),
    {
        if s.is_empty() {
            return None;
        }
        match hex_decode(s) {
            Ok(res) => {
                if res.len() == 1 {
                    Some(res[0] as u32)
                } else if res.len() == 2 {
                    let hi: u16 = res[0] as u16;
                    let lo: u16 = res[1] as u16;
                    let v: u16 = hi << 8 | lo;
                    assert(v == hi * 256 + lo) by (bit_vector)
                        requires
                            hi < 256,
                            lo < 256,
                            v == hi << 8 | lo,
                    ;
                    Some(v as u32)
                } else if res.len() >= 4 {
                    let b0: u32 = res[0] as u32;
                    let b1: u32 = res[1] as u32;
                    let b2: u32 = res[2] as u32;
                    let b3: u32 = res[3] as u32;
                    let v: u32 = b0 << 24 | b1 << 16 | b2 << 8 | b3;
                    assert(v == b0 * 0x100_0000 + b1 * 0x1_0000 + b2 * 0x100 + b3) by (bit_vector)
                        requires
                            b0 < 256,
                            b1 < 256,
                            b2 < 256,
                            b3 < 256,
                            v == b0 << 24 | b1 << 16 | b2 << 8 | b3,
                    ;
                    Some(v)
                } else {
                    None
                }
            },
            Err(_) => None,
        }
    }

    /// Reads a number typed in decimal.
    pub fn decode_string_int(s: &str) -> (r: Option<u32>)
        ensures
            r == spec_decode_string_int(s@),
    {
        parse_decimal(s)
    }

    /// Whether the settings typed by hand allow a session to start.
    pub fn can_launch_custom(&self) -> (r: bool)
        ensures
            r == spec_can_launch_custom(self@),
    {
        Self::decode_string_hex(self.str_send_id.as_str()).is_some()
            && Self::decode_string_hex(self.str_recv_id.as_str()).is_some()
            && Self::decode_string_int(self.str_bs.as_str()).is_some()
            && Self::decode_string_int(self.str_sep.as_str()).is_some()
    }

    /// Whether the JSON launch is offered: a connection of the loaded ECU JSON
    /// file is chosen and the adapter can use it.
    pub fn can_launch_json(&self, iso_tp: Capability) -> (r: bool)
        ensures
            r == spec_can_launch_json(self@, iso_tp),
    {
        match (&self.json_ecu, self.json_connection) {
            (Some(ecu), Some(i)) => i < ecu.connections.len() && Self::json_connection_error(
                &ecu.connections[i],
                iso_tp,
            ).is_none(),
            _ => false,
        }
    }

    /// Why a connection cannot be used with the adapter, if it cannot.
    pub fn json_connection_error(connection: &Connection, iso_tp: Capability) -> (r: Option<
        &'static str,
    >)
        ensures
            match connection_error_text(*connection, iso_tp) {
                Some(t) => r matches Some(s) && s@ == t,
                None => r is None,
            },
    {
        match connection.connection_type {
            ConType::LIN { .. } => Some("K-Line is not implemented at this time"),
            ConType::ISOTP { .. } => {
                if iso_tp != Capability::Yes {
                    Some("Selected adapter does not support ISO-TP over CAN")
                } else {
                    None
                }
            },
        }
    }

    /// Starts a session, or says why not.
    pub fn launch_diag_session(&mut self, kind: LaunchKind, use_custom: bool) -> (a: ManualAction)
        requires
            !old(self).session_active && use_custom && kind is Protocol ==> spec_can_launch_custom(
                old(self)@,
            ),
        ensures
            final(self)@ == spec_launch_diag(old(self)@, kind, use_custom).0,
            a == spec_launch_diag(old(self)@, kind, use_custom).1,
    {
        if self.session_active {
            self.status = String::from_str("Error. Diagnostic session already in progress??");
            return ManualAction::Nothing;
        }
        match kind {
            LaunchKind::Json(i) => ManualAction::LaunchJson { connection: i },
            LaunchKind::Protocol(k) => {
                if use_custom {
                    let cfg = ISO15765Config {
                        baud: 500000,
                        send_id: Self::decode_string_hex(self.str_send_id.as_str()).unwrap(),
                        recv_id: Self::decode_string_hex(self.str_recv_id.as_str()).unwrap(),
                        block_size: Self::decode_string_int(self.str_bs.as_str()).unwrap(),
                        sep_time: Self::decode_string_int(self.str_sep.as_str()).unwrap(),
                        use_ext_isotp: false,
                        use_ext_can: false,
                    };
                    ManualAction::LaunchProtocol { kind: k, cfg }
                } else {
                    match &self.curr_ecu {
                        Some(ecu) => {
                            let cfg = ISO15765Config {
                                baud: 500000,
                                send_id: ecu.send_id,
                                recv_id: ecu.flow_control_id,
                                block_size: ecu.block_size,
                                sep_time: ecu.sep_time_ms,
                                use_ext_isotp: false,
                                use_ext_can: false,
                            };
                            ManualAction::LaunchProtocol { kind: k, cfg }
                        },
                        None => {
                            self.status = String::from_str("Error. No ECU selected?");
                            ManualAction::Nothing
                        },
                    }
                }
            },
        }
    }

    /// Starts a session on the chosen connection of the loaded ECU JSON file.
    pub fn launch_json_session(&mut self, iso_tp: Capability) -> (a: ManualAction)
        ensures
            final(self)@ == spec_launch_json(old(self)@, iso_tp).0,
            a == spec_launch_json(old(self)@, iso_tp).1,
    {
        let selected: Option<usize> = match (&self.json_ecu, self.json_connection) {
            (Some(ecu), Some(i)) => if i < ecu.connections.len() {
                Some(i)
            } else {
                None
            },
            _ => None,
        };
        let i = match selected {
            Some(i) => i,
            None => {
                self.status = String::from_str("Select an ECU JSON connection first");
                return ManualAction::Nothing;
            },
        };
        let problem = match &self.json_ecu {
            Some(ecu) => Self::json_connection_error(&ecu.connections[i], iso_tp),
            None => None,
        };
        if let Some(text) = problem {
            self.status = String::from_str(text);
            return ManualAction::Nothing;
        }
        self.status = String::new();
        self.launch_diag_session(LaunchKind::Json(i), false)
    }

    /// Takes a loaded ECU JSON file.
    pub fn load_json_ecu(&mut self, ecu: OvdECU, iso_tp: Capability) -> (a: ManualAction)
        ensures
            final(self)@ == spec_load_json_ecu(old(self)@, ecu, iso_tp).0,
            a == spec_load_json_ecu(old(self)@, ecu, iso_tp).1,
    {
        let connection_count = ecu.connections.len();
        self.car = None;
        self.curr_ecu = None;
        self.json_ecu = Some(ecu);
        self.json_connection = None;
        self.status = String::new();
        if connection_count == 0 {
            self.status = String::from_str("ECU JSON file has no connections");
            ManualAction::Nothing
        } else if connection_count == 1 {
            self.json_connection = Some(0);
            self.launch_json_session(iso_tp)
        } else {
            ManualAction::Nothing
        }
    }

    fn set_field(&mut self, f: Field, t: String)
        ensures
            final(self)@ == with_field(old(self)@, f, t@),
    {
        match f {
            Field::SendId => self.str_send_id = t,
            Field::RecvId => self.str_recv_id = t,
            Field::BlockSize => self.str_bs = t,
            Field::SepTime => self.str_sep = t,
        }
    }

    /// Takes a decimal setting typed by hand.
    pub fn enter_number(&mut self, f: Field, s: &String)
        ensures
            final(self)@ == spec_number_entry(old(self)@, f, s@),
    {
        if s.as_str().is_empty() {
            self.status = String::new();
            self.set_field(f, String::new());
        } else if Self::decode_string_int(s.as_str()).is_some() {
            self.status = String::new();
            self.set_field(f, s.clone());
        } else {
            let mut text = s.clone();
            text.append(" is not a number");
            self.status = text;
        }
    }

    /// Takes a hexadecimal setting typed by hand.
    pub fn enter_hex(&mut self, f: Field, s: &String)
        ensures
            final(self)@ == spec_hex_entry(old(self)@, f, s@),
    {
        if s.as_str().is_empty() {
            self.status = String::new();
            self.set_field(f, String::new());
        } else {
            match hex_decode(s.as_str()) {
                Err(HexError::OddLength) => {
                    self.status = String::from_str("Require even number of characters");
                    self.set_field(f, s.clone());
                },
                Ok(_) => {
                    self.status = String::new();
                    self.set_field(f, s.clone());
                },
                Err(_) => {
                    let mut text = s.clone();
                    text.append(" is not a hex number");
                    self.status = text;
                },
            }
        }
    }

    /// The application started the session it was asked for.
    pub fn session_started(&mut self)
        ensures
            final(self)@ == (DiagManualView { session_active: true, ..old(self)@ }),
    {
        self.session_active = true;
    }

    /// The application could not start the session it was asked for.
    pub fn session_failed(&mut self, description: &str)
        ensures
            final(self)@ == (DiagManualView {
                status: "Error init diag session: "@ + description@,
                ..old(self)@
            }),
    {
        let mut text = String::from_str("Error init diag session: ");
        text.append(description);
        self.status = text;
    }

    /// Takes the file the user picked.
    pub fn file_loaded(&mut self, contents: FileContents, iso_tp: Capability) -> (a: ManualAction)
        ensures
            final(self)@ == spec_file_loaded(old(self)@, contents, iso_tp).0,
            a == spec_file_loaded(old(self)@, contents, iso_tp).1,
    {
        match contents {
            FileContents::Car(car) => {
                self.curr_ecu = None;
                self.json_ecu = None;
                self.json_connection = None;
                self.status = String::new();
                self.car = Some(car);
                ManualAction::Nothing
            },
            FileContents::Ecu(ecu) => self.load_json_ecu(ecu, iso_tp),
            FileContents::Unparsable => {
                self.status = String::from_str("Error processing input file!");
                ManualAction::Nothing
            },
            FileContents::ReadError => {
                self.status = String::from_str("Error reading input file!");
                ManualAction::Nothing
            },
            FileContents::OpenError => {
                self.status = String::from_str("Error loading save file");
                ManualAction::Nothing
            },
        }
    }

    /// Handles a message; `iso_tp` says whether the adapter offers ISO-TP.
    pub fn update<M: DiagMessageTrait>(&mut self, msg: &DiagManualMessage<M>, iso_tp: Capability) -> (a:
        ManualAction)
        requires
            is_custom_launch(*msg) && !old(self).session_active ==> spec_can_launch_custom(
                old(self)@,
            ),
        ensures
            final(self)@ == spec_update(old(self)@, *msg, iso_tp).0,
            a == spec_update(old(self)@, *msg, iso_tp).1,
    {
        match msg {
            DiagManualMessage::Session(m) => {
                if self.session_active {
                    if m.is_back() {
                        self.session_active = false;
                        ManualAction::CloseSession
                    } else {
                        ManualAction::ForwardToSession
                    }
                } else {
                    ManualAction::Nothing
                }
            },
            DiagManualMessage::LaunchFileBrowser => ManualAction::OpenFileDialog,
            DiagManualMessage::PickECU(e) => {
                self.curr_ecu = Some(e.clone());
                ManualAction::Nothing
            },
            DiagManualMessage::PickConnection(index) => {
                let index = *index;
                self.json_connection = match &self.json_ecu {
                    Some(ecu) => if index < ecu.connections.len() {
                        Some(index)
                    } else {
                        None
                    },
                    None => None,
                };
                self.status = String::new();
                ManualAction::Nothing
            },
            DiagManualMessage::LaunchJSON => self.launch_json_session(iso_tp),
            DiagManualMessage::LaunchKWP => self.launch_diag_session(
                LaunchKind::Protocol(SessionKind::KWP),
                false,
            ),
            DiagManualMessage::LaunchUDS => self.launch_diag_session(
                LaunchKind::Protocol(SessionKind::UDS),
                false,
            ),
            DiagManualMessage::LaunchCustom => self.launch_diag_session(
                LaunchKind::Protocol(SessionKind::Custom),
                false,
            ),
            DiagManualMessage::LaunchKWPCustom => self.launch_diag_session(
                LaunchKind::Protocol(SessionKind::KWP),
                true,
            ),
            DiagManualMessage::LaunchUDSCustom => self.launch_diag_session(
                LaunchKind::Protocol(SessionKind::UDS),
                true,
            ),
            DiagManualMessage::LaunchCustomCustom => self.launch_diag_session(
                LaunchKind::Protocol(SessionKind::Custom),
                true,
            ),
            DiagManualMessage::BsEnter(s) => {
                self.enter_number(Field::BlockSize, s);
                ManualAction::Nothing
            },
            DiagManualMessage::SepEnter(s) => {
                self.enter_number(Field::SepTime, s);
                ManualAction::Nothing
            },
            DiagManualMessage::SendIDEnter(s) => {
                self.enter_hex(Field::SendId, s);
                ManualAction::Nothing
            },
            DiagManualMessage::RecvIDEnter(s) => {
                self.enter_hex(Field::RecvId, s);
                ManualAction::Nothing
            },
        }
    }
}

/// The JSON launch that the page offers starts a session on the chosen
/// connection whenever no session runs.
pub proof fn law_offered_json_launch_starts(v: DiagManualView, iso_tp: Capability)
    requires
        spec_can_launch_json(v, iso_tp),
        !v.session_active,
    ensures
        spec_launch_json(v, iso_tp).1 == (ManualAction::LaunchJson {
            connection: v.json_connection.unwrap(),
        }),
{
}

/// The protocol that a launch message names, and whether it starts from the
/// settings typed by hand.
pub open spec fn named_launch<M>(msg: DiagManualMessage<M>) -> Option<(SessionKind, bool)> {
    match msg {
        DiagManualMessage::LaunchKWP => Some((SessionKind::KWP, false)),
        DiagManualMessage::LaunchUDS => Some((SessionKind::UDS, false)),
        DiagManualMessage::LaunchCustom => Some((SessionKind::Custom, false)),
        DiagManualMessage::LaunchKWPCustom => Some((SessionKind::KWP, true)),
        DiagManualMessage::LaunchUDSCustom => Some((SessionKind::UDS, true)),
        DiagManualMessage::LaunchCustomCustom => Some((SessionKind::Custom, true)),
        _ => None,
    }
}

/// With no session running, a launch message starts a session of the
/// protocol it names, at 500 kbit/s without extended addressing: from the
/// picked ECU's identifiers, block size and separation time, or from the
/// settings typed by hand, and the page is left as it was.
pub proof fn law_launch_starts_the_named_protocol<M: DiagMessageTrait>(
    v: DiagManualView,
    msg: DiagManualMessage<M>,
    iso_tp: Capability,
    kind: SessionKind,
    typed: bool,
)
    requires
        !v.session_active,
        named_launch(msg) == Some((kind, typed)),
        typed ==> spec_can_launch_custom(v),
        !typed ==> v.curr_ecu is Some,
    ensures
        spec_update(v, msg, iso_tp).0 == v,
        spec_update(v, msg, iso_tp).1 matches ManualAction::LaunchProtocol { kind: k, cfg } && k
            == kind && cfg.baud == 500000 && !cfg.use_ext_isotp && !cfg.use_ext_can && (!typed ==> {
            let e = v.curr_ecu.unwrap();
            &&& cfg.send_id == e.send_id
            &&& cfg.recv_id == e.flow_control_id
            &&& cfg.block_size == e.block_size
            &&& cfg.sep_time == e.sep_time_ms
        }) && (typed ==> {
            &&& spec_decode_string_hex(v.str_send_id) == Some(cfg.send_id)
            &&& spec_decode_string_hex(v.str_recv_id) == Some(cfg.recv_id)
            &&& spec_decode_string_int(v.str_bs) == Some(cfg.block_size)
            &&& spec_decode_string_int(v.str_sep) == Some(cfg.sep_time)
        }),
{
}

/// Loading a saved car puts that car on the page and drops the picked ECU,
/// the ECU JSON file and its chosen connection, whatever was there before;
/// the status is cleared, no session starts, and the running session and the
/// settings typed by hand stay.
pub proof fn law_loading_a_car_drops_earlier_choices(
    v: DiagManualView,
    car: VehicleECUList,
    iso_tp: Capability,
)
    ensures
        ({
            let (w, a) = spec_file_loaded(v, FileContents::Car(car), iso_tp);
            &&& w.car == Some(car)
            &&& w.curr_ecu is None
            &&& w.json_ecu is None
            &&& w.json_connection is None
            &&& w.status.len() == 0
            &&& a == ManualAction::Nothing
            &&& w.session_active == v.session_active
            &&& w.str_send_id == v.str_send_id
            &&& w.str_recv_id == v.str_recv_id
            &&& w.str_bs == v.str_bs
            &&& w.str_sep == v.str_sep
        }),
{
}

/// What a server type is called in a connection label.
pub open spec fn server_type_text(t: ServerType) -> Seq<char> {
    match t {
        ServerType::UDS => "UDS"@,
        ServerType::KWP2000 => "KWP2000"@,
    }
}

/// The label of the `index`-th connection (counted from zero) in the list of
/// an ECU JSON file: number, protocol, transport, bitrate, identifiers, and why
/// it cannot be used, if it cannot.
pub open spec fn spec_connection_label(index: usize, c: Connection, iso_tp: Capability) -> Seq<char> {
    let base = decimal((index + 1) as nat) + ". "@ + server_type_text(c.server_type) + " over "@
        + match c.connection_type {
        ConType::ISOTP { .. } => "ISO-TP / CAN"@,
        ConType::LIN { .. } => "K-Line"@,
    } + " - "@ + decimal(c.baud as nat) + " bit/s - TX 0x"@ + hex_minimal(c.send_id as nat)
        + ", RX 0x"@ + hex_minimal(c.recv_id as nat);
    match connection_error_text(c, iso_tp) {
        Some(t) => base + " ("@ + t + ")"@,
        None => base,
    }
}

/// Writes the label of a connection of an ECU JSON file.
pub fn connection_label(index: usize, connection: &Connection, iso_tp: Capability) -> (s: String)
    ensures
        s@ == spec_connection_label(index, *connection, iso_tp),
{
    let mut s = String::new();
    push_decimal(&mut s, index as u128 + 1);
    s.append(". ");
    match connection.server_type {
        ServerType::UDS => s.append("UDS"),
        ServerType::KWP2000 => s.append("KWP2000"),
    }
    s.append(" over ");
    match connection.connection_type {
        ConType::ISOTP { .. } => s.append("ISO-TP / CAN"),
        ConType::LIN { .. } => s.append("K-Line"),
    }
    s.append(" - ");
    push_decimal(&mut s, connection.baud as u128);
    s.append(" bit/s - TX 0x");
    push_hex_minimal(&mut s, connection.send_id);
    s.append(", RX 0x");
    push_hex_minimal(&mut s, connection.recv_id);
    if let Some(text) = DiagManual::json_connection_error(connection, iso_tp) {
        s.append(" (");
        s.append(text);
        s.append(")");
    }
    s
}

} // verus!
