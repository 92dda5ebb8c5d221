//! The parts of an ECU JSON description that the diagnostic front end reads.
use vstd::prelude::*;

verus! {

/// The diagnostic protocol an ECU speaks.
#[derive(Clone, Copy, Debug, PartialEq, Eq, Structural)]
pub enum ServerType {
    UDS,
    KWP2000,
}

/// The physical connection of a diagnostic server.
#[derive(Clone, Debug)]
pub enum ConType {
    /// ISO-TP over CAN.
    ISOTP { blocksize: u32, st_min: u32, ext_isotp_addr: bool, ext_can_addr: bool },
    /// K-Line.
    LIN { max_segment_size: u32, wake_up_method: String },
}

/// One way to reach an ECU.
#[derive(Clone, Debug)]
pub struct Connection {
    pub baud: u32,
    pub send_id: u32,
    pub global_send_id: Option<u32>,
    pub recv_id: u32,
    pub server_type: ServerType,
    pub connection_type: ConType,
}

/// A named parameter of a service.
#[derive(Debug)]
pub struct Parameter {
    pub name: String,
}

impl Clone for Parameter {
    fn clone(&self) -> (r: Self)
        ensures
            r == *self,
    {
        Parameter { name: self.name.clone() }
    }
}

/// A diagnostic service: a request payload (service id first) and its parameters.
#[derive(Debug)]
pub struct Service {
    pub name: String,
    pub description: String,
    pub payload: Vec<u8>,
    pub input_params: Vec<Parameter>,
    pub output_params: Vec<Parameter>,
}

/// Two services with the same name, description, payload and parameters.
pub open spec fn same_service(a: Service, b: Service) -> bool {
    &&& a.name@ == b.name@
    &&& a.description@ == b.description@
    &&& a.payload@ == b.payload@
    &&& a.input_params@ == b.input_params@
    &&& a.output_params@ == b.output_params@
}

impl Clone for Service {
    fn clone(&self) -> (r: Self)
        ensures
            same_service(r, *self),
    {
        let input_params = self.input_params.clone();
        let output_params = self.output_params.clone();
        assert(input_params@ =~= self.input_params@);
        assert(output_params@ =~= self.output_params@);
        Service {
            name: self.name.clone(),
            description: self.description.clone(),
            payload: self.payload.clone(),
            input_params,
            output_params,
        }
    }
}

/// A trouble code an ECU variant knows.
#[derive(Clone, Debug)]
pub struct ECUDTC {
    pub error_name: String,
    pub summary: String,
    pub description: String,
    pub envs: Vec<Parameter>,
}

/// How an ECU variant identifies itself.
#[derive(Clone, Debug)]
pub struct ECUVariantPattern {
    pub vendor: String,
    pub vendor_id: u32,
}

/// One software variant of an ECU.
#[derive(Clone, Debug)]
pub struct ECUVariantDefinition {
    pub name: String,
    pub description: String,
    pub patterns: Vec<ECUVariantPattern>,
    pub errors: Vec<ECUDTC>,
    pub downloads: Vec<Service>,
    pub functions: Vec<Service>,
}

/// An ECU JSON description.
#[derive(Clone, Debug)]
pub struct OvdECU {
    pub name: String,
    pub description: String,
    pub variants: Vec<ECUVariantDefinition>,
    pub connections: Vec<Connection>,
}

} // verus!
