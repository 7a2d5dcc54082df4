//! Test doubles for the backend traits: they record every call and succeed.

use vstd::prelude::*;
use crate::backend::{
    BridgeGuard, CreateBridgeParams, Device, InstanceBackend, InstanceConfig, NetworkBackend,
};
use crate::envmap::EnvMap;
use crate::strings::owned;

verus! {

/// An [`InstanceBackend`] that records all calls for later inspection.
pub struct MockInstanceBackend {
    pub calls: Vec<MockInstanceCall>,
}

impl MockInstanceBackend {
    pub fn new() -> (r: Self)
        ensures
            r.calls@.len() == 0,
    {
        Self { calls: Vec::new() }
    }
}

/// One recorded call, with the instance it was about.
#[derive(Debug, Clone, PartialEq)]
pub enum MockInstanceCall {
    Create { name: String },
    Start { name: String },
    Delete { name: String },
    AddDevice { name: String, dev_name: String },
    AttachToBridge { name: String, bridge: String },
    SetDescription { name: String },
    Exec { name: String },
    ExecStdout { name: String },
    WriteFile { name: String, path: String },
}

/// The one error a mock could report.
#[derive(Debug)]
pub struct MockError;

impl MockError {
    /// The error text.
    pub fn message(&self) -> (r: String)
        ensures
            r@ == "mock error"@,
    {
        proof {
            reveal_strlit("mock error");
        }
        owned("mock error")
    }
}


impl InstanceBackend for MockInstanceBackend {
    type Error = MockError;

    fn create(&mut self, name: &str, config: &InstanceConfig) -> (r: Result<(), MockError>)
        ensures
            r is Ok,
            final(self).calls@.len() == old(self).calls@.len() + 1,
            final(self).calls@.drop_last() == old(self).calls@,
            final(self).calls@.last() matches MockInstanceCall::Create { name: n } && n@ == name@,
    {
        self.calls.push(MockInstanceCall::Create { name: owned(name) });
        Ok(())
    }

    fn start(&mut self, name: &str) -> (r: Result<(), MockError>)
        ensures
            r is Ok,
            final(self).calls@.len() == old(self).calls@.len() + 1,
            final(self).calls@.drop_last() == old(self).calls@,
            final(self).calls@.last() matches MockInstanceCall::Start { name: n } && n@ == name@,
    {
        self.calls.push(MockInstanceCall::Start { name: owned(name) });
        Ok(())
    }

    fn delete(&mut self, name: &str) -> (r: Result<(), MockError>)
        ensures
            r is Ok,
            final(self).calls@.len() == old(self).calls@.len() + 1,
            final(self).calls@.drop_last() == old(self).calls@,
            final(self).calls@.last() matches MockInstanceCall::Delete { name: n } && n@ == name@,
    {
        self.calls.push(MockInstanceCall::Delete { name: owned(name) });
        Ok(())
    }

    fn add_device(&mut self, name: &str, dev_name: &str, device: &Device) -> (r: Result<(), MockError>)
        ensures
            r is Ok,
            final(self).calls@.len() == old(self).calls@.len() + 1,
            final(self).calls@.drop_last() == old(self).calls@,
            final(self).calls@.last() matches MockInstanceCall::AddDevice { name: n, dev_name: d }
                && n@ == name@ && d@ == dev_name@,
    {
        self.calls.push(MockInstanceCall::AddDevice { name: owned(name), dev_name: owned(dev_name) });
        Ok(())
    }

    fn attach_to_bridge(
        &mut self,
        name: &str,
        bridge: &str,
        ingress: &Option<String>,
        egress: &Option<String>,
    ) -> (r: Result<(), MockError>)
        ensures
            r is Ok,
            final(self).calls@.len() == old(self).calls@.len() + 1,
            final(self).calls@.drop_last() == old(self).calls@,
            final(self).calls@.last() matches MockInstanceCall::AttachToBridge { name: n, bridge: b }
                && n@ == name@ && b@ == bridge@,
    {
        self.calls.push(MockInstanceCall::AttachToBridge { name: owned(name), bridge: owned(bridge) });
        Ok(())
    }

    fn set_description(&mut self, name: &str, desc: &str) -> (r: Result<(), MockError>)
        ensures
            r is Ok,
            final(self).calls@.len() == old(self).calls@.len() + 1,
            final(self).calls@.drop_last() == old(self).calls@,
            final(self).calls@.last() matches MockInstanceCall::SetDescription { name: n } && n@ == name@,
    {
        self.calls.push(MockInstanceCall::SetDescription { name: owned(name) });
        Ok(())
    }

    fn exec(
        &mut self,
        name: &str,
        cmd: &Vec<String>,
        env: &EnvMap,
        cwd: &str,
        uid: u32,
        gid: u32,
        home: &Option<String>,
        proxy_url: &Option<String>,
    ) -> (r: Result<i32, MockError>)
        ensures
            r == Ok::<i32, MockError>(0),
            final(self).calls@.len() == old(self).calls@.len() + 1,
            final(self).calls@.drop_last() == old(self).calls@,
            final(self).calls@.last() matches MockInstanceCall::Exec { name: n } && n@ == name@,
    {
        self.calls.push(MockInstanceCall::Exec { name: owned(name) });
        Ok(0)
    }

    fn exec_stdout(&mut self, name: &str, cmd: &Vec<String>) -> (r: Result<String, MockError>)
        ensures
            r matches Ok(out) && out@ == "running"@,
            final(self).calls@.len() == old(self).calls@.len() + 1,
            final(self).calls@.drop_last() == old(self).calls@,
            final(self).calls@.last() matches MockInstanceCall::ExecStdout { name: n } && n@ == name@,
    {
        self.calls.push(MockInstanceCall::ExecStdout { name: owned(name) });
        proof {
            reveal_strlit("running");
        }
        Ok(owned("running"))
    }

    fn write_file(
        &mut self,
        name: &str,
        content: &[u8],
        path: &str,
        mode: &str,
        uid: u32,
        gid: u32,
    ) -> (r: Result<(), MockError>)
        ensures
            r is Ok,
            final(self).calls@.len() == old(self).calls@.len() + 1,
            final(self).calls@.drop_last() == old(self).calls@,
            final(self).calls@.last() matches MockInstanceCall::WriteFile { name: n, path: p }
                && n@ == name@ && p@ == path@,
    {
        self.calls.push(MockInstanceCall::WriteFile { name: owned(name), path: owned(path) });
        Ok(())
    }
}

// ---------------------------------------------------------------------------
// Mock network backend
// ---------------------------------------------------------------------------

/// A [`NetworkBackend`] that records the bridges asked for.
pub struct MockNetworkBackend {
    pub calls: Vec<MockNetworkCall>,
}

impl MockNetworkBackend {
    pub fn new() -> (r: Self)
        ensures
            r.calls@.len() == 0,
    {
        Self { calls: Vec::new() }
    }
}

/// One recorded bridge request.
#[derive(Debug, Clone, PartialEq)]
pub enum MockNetworkCall {
    CreateBridge { name: String },
}

/// The guard a [`MockNetworkBackend`] hands out; `dropped` records that it
/// was let go.
pub struct MockBridgeGuard {
    pub dropped: bool,
}

impl MockBridgeGuard {
    fn new() -> (r: Self)
        ensures
            !r.dropped,
    {
        Self { dropped: false }
    }

    /// Let the bridge go.
    pub fn release(&mut self)
        ensures
            final(self).dropped,
    {
        self.dropped = true;
    }
}

impl BridgeGuard for MockBridgeGuard {}

impl NetworkBackend for MockNetworkBackend {
    type Error = MockError;

    type Guard = MockBridgeGuard;

    fn create_bridge(&mut self, name: &str, params: &CreateBridgeParams) -> (r: Result<
        (MockBridgeGuard, String),
        MockError,
    >)
        ensures
            r matches Ok((g, ip)) && !g.dropped && ip@ == "10.0.0.1"@,
            final(self).calls@.len() == old(self).calls@.len() + 1,
            final(self).calls@.drop_last() == old(self).calls@,
            final(self).calls@.last() matches MockNetworkCall::CreateBridge { name: n } && n@ == name@,
    {
        self.calls.push(MockNetworkCall::CreateBridge { name: owned(name) });
        proof {
            reveal_strlit("10.0.0.1");
        }
        Ok((MockBridgeGuard::new(), owned("10.0.0.1")))
    }
}

} // verus!
