//! The data connection of a client, on the side that receives.

use vstd::prelude::*;

verus! {

/// What has arrived over a data connection so far.
pub struct DataConnection {
    buffer: Vec<u8>,
}

impl View for DataConnection {
    type V = Seq<u8>;

    closed spec fn view(&self) -> Seq<u8> {
        self.buffer@
    }
}

impl DataConnection {
    /// A data connection over which nothing has arrived.
    pub fn new() -> (connection: DataConnection)
        ensures
            connection@ == Seq::<u8>::empty(),
    {
        DataConnection { buffer: Vec::new() }
    }

    /// More bytes arrived.
    pub fn received(&mut self, data: Vec<u8>)
        ensures
            final(self)@ == old(self)@ + data@,
    {
        let mut data: Vec<u8> = data;
        self.buffer.append(&mut data);
    }

    /// The client closed the connection: what arrived, if anything did, is
    /// complete, and is handed over once.
    pub fn closed(&mut self) -> (data: Option<Vec<u8>>)
        ensures
            final(self)@ == Seq::<u8>::empty(),
            match data {
                Some(data) => data@.len() > 0 && data@ == old(self)@,
                None => old(self)@.len() == 0,
            },
    {
        if self.buffer.is_empty() {
            assert(self.buffer@ =~= seq![]);
            return None;
        }
        let mut buffer: Vec<u8> = Vec::new();
        std::mem::swap(&mut buffer, &mut self.buffer);
        Some(buffer)
    }
}

} // verus!
