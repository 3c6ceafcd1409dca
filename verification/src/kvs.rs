//! Key-value store handles and the names of the keys they write.

use vstd::prelude::*;

verus! {

/// The store of the observer nodes.
pub const NODE_KVS_NAME: &'static str = "observer_node";

/// The store of the exchange that each observer node serves.
pub const NODE_EXCHANGE_TYPE_KVS_NAME: &'static str = "observer_node_exchange_type";

/// The store of the locks that serialize the initialization.
pub const INIT_LOCK_NAME: &'static str = "init_lock";

/// A handle on a key-value store whose keys all start with one channel name.
pub struct KVS<T> {
    connection: T,
    channel_name: String,
}

impl<T> KVS<T> {
    /// A handle that writes through `connection` under `channel_name`.
    pub fn new(connection: T, channel_name: String) -> (kvs: Self)
        ensures
            kvs.connection_spec() == connection,
            kvs.channel_name_spec() == channel_name@,
    {
        KVS { connection, channel_name }
    }

    pub closed spec fn connection_spec(&self) -> T {
        self.connection
    }

    pub closed spec fn channel_name_spec(&self) -> Seq<char> {
        self.channel_name@
    }

    /// The connection that the handle writes through.
    pub fn connection(&self) -> (connection: &T)
        ensures
            *connection == self.connection_spec(),
    {
        &self.connection
    }

    /// The store key of `key`: the channel name, a colon, and `key`.
    pub fn channel_name(&self, key: &str) -> (name: String)
        ensures
            name@ == self.channel_name_spec() + ":"@ + key@,
    {
        let name = self.channel_name.clone();
        name.concat(":").concat(key)
    }
}

} // verus!
