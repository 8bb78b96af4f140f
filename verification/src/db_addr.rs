//! The address of a MySQL database.

use vstd::prelude::*;

verus! {

/// Where and as whom to connect to a MySQL database.
pub struct MySqlAddr {
    pub user: String,
    pub password: String,
    pub host: String,
    pub port: u16,
    pub dbname: String,
}

} // verus!
