use crate::local::Local;
use crate::ssh::Ssh;
use vstd::prelude::*;

verus! {

/// A machine that deployment steps act on: the one running this program,
/// or one reached over SSH.
pub enum Host {
    Local(Local),
    Ssh(Ssh),
}

impl Local {
    /// Hands this host on as a general `Host`.
    pub fn upcast(self) -> (h: Host)
        ensures
            h == Host::Local(self),
    {
        Host::Local(self)
    }
}

impl Ssh {
    /// Hands this host on as a general `Host`.
    pub fn upcast(self) -> (h: Host)
        ensures
            h == Host::Ssh(self),
    {
        Host::Ssh(self)
    }
}

} // verus!
