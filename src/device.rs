//! The device manager's bookkeeping: the ports found by the last scans and
//! at most one connection in each direction. Opening and closing driver
//! handles is left to the caller, which asks here first.
use vstd::prelude::*;

use crate::message::{MidiMessage, encode_spec};

verus! {

#[derive(Debug, Clone, PartialEq, Eq)]
pub struct MidiInputPort {
    pub name: String,
    pub id: String,
}

#[derive(Debug, Clone, PartialEq, Eq)]
pub struct MidiOutputPort {
    pub name: String,
    pub id: String,
}

impl MidiInputPort {
    pub fn duplicate(&self) -> (r: MidiInputPort)
        ensures
            r == *self,
    {
        MidiInputPort { name: self.name.clone(), id: self.id.clone() }
    }
}

impl MidiOutputPort {
    pub fn duplicate(&self) -> (r: MidiOutputPort)
        ensures
            r == *self,
    {
        MidiOutputPort { name: self.name.clone(), id: self.id.clone() }
    }
}

/// The ports available in each direction and the port of each connection.
pub struct MidiStateInner {
    pub available_input_ports: Vec<MidiInputPort>,
    pub available_output_ports: Vec<MidiOutputPort>,
    pub input_connection: Option<MidiInputPort>,
    pub output_connection: Option<MidiOutputPort>,
}

impl Default for MidiStateInner {
    fn default() -> (r: MidiStateInner)
        ensures
            r.available_input_ports@.len() == 0,
            r.available_output_ports@.len() == 0,
            r.input_connection is None,
            r.output_connection is None,
    {
        MidiStateInner {
            available_input_ports: Vec::new(),
            available_output_ports: Vec::new(),
            input_connection: None,
            output_connection: None,
        }
    }
}

impl MidiStateInner {
    /// The first available input port with identifier `id`.
    pub fn find_input_port(&self, id: &String) -> (r: Option<usize>)
        ensures
            r matches Some(i) ==> i < self.available_input_ports@.len()
                && self.available_input_ports@[i as int].id@ == id@ && forall|j: int|
                0 <= j < i ==> self.available_input_ports@[j].id@ != id@,
            r is None ==> forall|j: int|
                0 <= j < self.available_input_ports@.len() ==> self.available_input_ports@[j].id@
                    != id@,
    {
        let mut i: usize = 0;
        while i < self.available_input_ports.len()
            invariant
                i <= self.available_input_ports@.len(),
                forall|j: int| 0 <= j < i ==> self.available_input_ports@[j].id@ != id@,
            decreases self.available_input_ports@.len() - i,
        {
            if self.available_input_ports[i].id == *id {
                return Some(i);
            }
            i += 1;
        }
        None
    }

    /// The first available output port with identifier `id`.
    pub fn find_output_port(&self, id: &String) -> (r: Option<usize>)
        ensures
            r matches Some(i) ==> i < self.available_output_ports@.len()
                && self.available_output_ports@[i as int].id@ == id@ && forall|j: int|
                0 <= j < i ==> self.available_output_ports@[j].id@ != id@,
            r is None ==> forall|j: int|
                0 <= j < self.available_output_ports@.len() ==> self.available_output_ports@[j].id@
                    != id@,
    {
        let mut i: usize = 0;
        while i < self.available_output_ports.len()
            invariant
                i <= self.available_output_ports@.len(),
                forall|j: int| 0 <= j < i ==> self.available_output_ports@[j].id@ != id@,
            decreases self.available_output_ports@.len() - i,
        {
            if self.available_output_ports[i].id == *id {
                return Some(i);
            }
            i += 1;
        }
        None
    }

    /// Replaces the available input ports with those of a new scan; the
    /// connection is left as it is.
    pub fn scan_input(&mut self, ports: Vec<MidiInputPort>)
        ensures
            final(self).available_input_ports == ports,
            final(self).available_output_ports == old(self).available_output_ports,
            final(self).input_connection == old(self).input_connection,
            final(self).output_connection == old(self).output_connection,
    {
        self.available_input_ports = ports;
    }

    /// Replaces the available output ports with those of a new scan; the
    /// connection is left as it is.
    pub fn scan_output(&mut self, ports: Vec<MidiOutputPort>)
        ensures
            final(self).available_output_ports == ports,
            final(self).available_input_ports == old(self).available_input_ports,
            final(self).input_connection == old(self).input_connection,
            final(self).output_connection == old(self).output_connection,
    {
        self.available_output_ports = ports;
    }

    /// Records a connection to input port `index` and returns the port to
    /// open; refused while connected or for an index out of range, and then
    /// nothing changes.
    pub fn connect_input(&mut self, index: usize) -> (r: Result<MidiInputPort, String>)
        ensures
            r is Ok <==> (old(self).input_connection is None && index
                < old(self).available_input_ports@.len()),
            r matches Ok(p) ==> p == old(self).available_input_ports@[index as int]
                && final(self).input_connection == Some(p),
            r is Err ==> final(self).input_connection == old(self).input_connection,
            final(self).available_input_ports == old(self).available_input_ports,
            final(self).available_output_ports == old(self).available_output_ports,
            final(self).output_connection == old(self).output_connection,
    {
        if self.input_connection.is_some() {
            return Err("Input connection already exists. Disconnect first.".to_string());
        }
        if index >= self.available_input_ports.len() {
            return Err("Input port index out of bounds".to_string());
        }
        let port = self.available_input_ports[index].duplicate();
        self.input_connection = Some(port.duplicate());
        Ok(port)
    }

    /// Records a connection to output port `index` and returns the port to
    /// open; refused while connected or for an index out of range, and then
    /// nothing changes.
    pub fn connect_output(&mut self, index: usize) -> (r: Result<MidiOutputPort, String>)
        ensures
            r is Ok <==> (old(self).output_connection is None && index
                < old(self).available_output_ports@.len()),
            r matches Ok(p) ==> p == old(self).available_output_ports@[index as int]
                && final(self).output_connection == Some(p),
            r is Err ==> final(self).output_connection == old(self).output_connection,
            final(self).available_input_ports == old(self).available_input_ports,
            final(self).available_output_ports == old(self).available_output_ports,
            final(self).input_connection == old(self).input_connection,
    {
        if self.output_connection.is_some() {
            return Err("Output connection already exists. Disconnect first.".to_string());
        }
        if index >= self.available_output_ports.len() {
            return Err("Output port index out of bounds".to_string());
        }
        let port = self.available_output_ports[index].duplicate();
        self.output_connection = Some(port.duplicate());
        Ok(port)
    }

    pub fn disconnect_input(&mut self)
        ensures
            final(self).input_connection is None,
            final(self).available_input_ports == old(self).available_input_ports,
            final(self).available_output_ports == old(self).available_output_ports,
            final(self).output_connection == old(self).output_connection,
    {
        self.input_connection = None;
    }

    pub fn disconnect_output(&mut self)
        ensures
            final(self).output_connection is None,
            final(self).available_input_ports == old(self).available_input_ports,
            final(self).available_output_ports == old(self).available_output_ports,
            final(self).input_connection == old(self).input_connection,
    {
        self.output_connection = None;
    }

    /// The bytes to write for `message` on the output connection; refused
    /// when there is none.
    pub fn send_message(&self, message: &MidiMessage) -> (r: Result<Vec<u8>, String>)
        ensures
            r is Ok <==> self.output_connection is Some,
            r matches Ok(b) ==> b@ == encode_spec(*message),
    {
        if self.output_connection.is_none() {
            return Err(
                "No output connection established. Connect to an output port first.".to_string(),
            );
        }
        Ok(message.encode())
    }
}

} // verus!
