use vstd::prelude::*;

verus! {

/// What `uname` tells of the running system, as text.
pub struct Utsname {
    pub sysname: String,
    pub nodename: String,
    pub release: String,
    pub version: String,
    pub machine: String,
}

/// The password-database entry of a user, as text and numbers.
pub struct Passwd {
    pub name: String,
    pub uid: u32,
    pub gid: u32,
    pub dir: String,
    pub shell: String,
}

} // verus!
