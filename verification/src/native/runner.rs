//! The host's acceptance check of a native library's handshake (the
//! handshake ABI, then the runtime family, then the runtime ABI must match),
//! and the lifecycle of a loaded native runner: when the library may be
//! called and what a null instance or a panic means.

use super::handshake::{HandshakeData, HANDSHAKE_ABI_VERSION};
use crate::text::{decimal, u64_text};
use vstd::prelude::*;
use vstd::string::StringExecFns;

verus! {

broadcast use vstd::string::to_string_from_display_ensures_for_str;

#[derive(Debug, Clone, PartialEq, Eq)]
pub enum RunnerError {
    Load(String),
    Handshake(String),
    Symbol(String),
}

/// The uppercase hexadecimal digit `d`.
pub open spec fn hex_char(d: nat) -> char {
    if d < 10 { (48 + d) as char } else { (55 + d) as char }
}

/// `0x` and eight uppercase hexadecimal digits of `x` (`{:#010X}`-style).
pub open spec fn hex8(x: u32) -> Seq<char> {
    seq![
        '0', 'x',
        hex_char((x / 0x1000_0000) as nat % 16), hex_char((x / 0x100_0000) as nat % 16),
        hex_char((x / 0x10_0000) as nat % 16), hex_char((x / 0x1_0000) as nat % 16),
        hex_char((x / 0x1000) as nat % 16), hex_char((x / 0x100) as nat % 16),
        hex_char((x / 0x10) as nat % 16), hex_char(x as nat % 16),
    ]
}

fn hex_digit_str(d: u32) -> (r: &'static str)
    requires
        d < 16,
    ensures
        r@ == seq![hex_char(d as nat)],
{
    proof {
        reveal_strlit("0"); reveal_strlit("1"); reveal_strlit("2"); reveal_strlit("3");
        reveal_strlit("4"); reveal_strlit("5"); reveal_strlit("6"); reveal_strlit("7");
        reveal_strlit("8"); reveal_strlit("9"); reveal_strlit("A"); reveal_strlit("B");
        reveal_strlit("C"); reveal_strlit("D"); reveal_strlit("E"); reveal_strlit("F");
    }
    let r = if d == 0 { "0" } else if d == 1 { "1" } else if d == 2 { "2" } else if d == 3 { "3" }
        else if d == 4 { "4" } else if d == 5 { "5" } else if d == 6 { "6" } else if d == 7 { "7" }
        else if d == 8 { "8" } else if d == 9 { "9" } else if d == 10 { "A" } else if d == 11 { "B" }
        else if d == 12 { "C" } else if d == 13 { "D" } else if d == 14 { "E" } else { "F" };
    assert(r@ =~= seq![hex_char(d as nat)]);
    r
}

/// `0x` followed by the eight uppercase hex digits of `x`.
pub fn hex8_text(x: u32) -> (r: String)
    ensures
        r@ == hex8(x),
{
    proof { reveal_strlit("0x"); }
    let out = "0x".to_string()
        .concat(hex_digit_str((x / 0x1000_0000) % 16))
        .concat(hex_digit_str((x / 0x100_0000) % 16))
        .concat(hex_digit_str((x / 0x10_0000) % 16))
        .concat(hex_digit_str((x / 0x1_0000) % 16))
        .concat(hex_digit_str((x / 0x1000) % 16))
        .concat(hex_digit_str((x / 0x100) % 16))
        .concat(hex_digit_str((x / 0x10) % 16))
        .concat(hex_digit_str(x % 16));
    assert(out@ =~= hex8(x));
    out
}

/// The first mismatch between a reported handshake and the expected family
/// and ABI, as its message.
pub open spec fn handshake_problem(h: HandshakeData, family: u32, abi: u32) -> Option<Seq<char>> {
    if h.handshake_abi != HANDSHAKE_ABI_VERSION {
        Some("handshake ABI mismatch: expected 1, got "@ + decimal(h.handshake_abi as nat))
    } else if h.runtime_family != family {
        Some("runtime family mismatch: expected "@ + hex8(family) + ", got "@ + hex8(h.runtime_family))
    } else if h.runtime_abi != abi {
        Some("runtime ABI mismatch: expected "@ + hex8(abi) + ", got "@ + hex8(h.runtime_abi))
    } else {
        None
    }
}

/// Accept a handshake only when the handshake ABI, the runtime family and
/// the runtime ABI all match; the first mismatch is reported.
pub fn check_handshake(h: HandshakeData, expected_family: u32, expected_abi: u32) -> (r: Result<(), RunnerError>)
    ensures
        match handshake_problem(h, expected_family, expected_abi) {
            None => r is Ok,
            Some(msg) => (r matches Err(RunnerError::Handshake(m)) && m@ == msg),
        },
{
    if h.handshake_abi != HANDSHAKE_ABI_VERSION {
        let msg = "handshake ABI mismatch: expected 1, got ".to_string().concat(u64_text(h.handshake_abi as u64).as_str());
        return Err(RunnerError::Handshake(msg));
    }
    if h.runtime_family != expected_family {
        let msg = "runtime family mismatch: expected ".to_string()
            .concat(hex8_text(expected_family).as_str())
            .concat(", got ")
            .concat(hex8_text(h.runtime_family).as_str());
        return Err(RunnerError::Handshake(msg));
    }
    if h.runtime_abi != expected_abi {
        let msg = "runtime ABI mismatch: expected ".to_string()
            .concat(hex8_text(expected_abi).as_str())
            .concat(", got ")
            .concat(hex8_text(h.runtime_abi).as_str());
        return Err(RunnerError::Handshake(msg));
    }
    Ok(())
}

impl RunnerError {
    /// The human-readable message.
    pub fn message(&self) -> (r: String)
        ensures
            match self {
                RunnerError::Load(e) => r@ == "Load error: "@ + e@,
                RunnerError::Handshake(e) => r@ == "Handshake error: "@ + e@,
                RunnerError::Symbol(e) => r@ == "Symbol error: "@ + e@,
            },
    {
        match self {
            RunnerError::Load(e) => "Load error: ".to_string().concat(e.as_str()),
            RunnerError::Handshake(e) => "Handshake error: ".to_string().concat(e.as_str()),
            RunnerError::Symbol(e) => "Symbol error: ".to_string().concat(e.as_str()),
        }
    }
}

/// The lifecycle of a loaded native runner, apart from the library calls
/// themselves: whether its entry points are resolved, whether an instance is
/// live, and whether it has faulted. A fault is sticky: no later load, start
/// or stop clears it.
#[derive(Debug, Clone, Copy, PartialEq, Eq, Structural)]
pub struct NativeLifecycle {
    pub loaded: bool,
    pub running: bool,
    pub faulted: bool,
}

/// How a guarded call into the library came back.
#[derive(Debug, Clone, Copy, PartialEq, Eq, Structural)]
pub enum CallOutcome {
    /// It returned (for `create_instance`: a non-null instance).
    Returned,
    /// `create_instance` returned a null instance.
    ReturnedNull,
    /// It panicked.
    Panicked,
}

impl NativeLifecycle {
    /// Nothing loaded, nothing running, no fault.
    pub fn new() -> (r: Self)
        ensures
            r == (NativeLifecycle { loaded: false, running: false, faulted: false }),
    {
        NativeLifecycle { loaded: false, running: false, faulted: false }
    }

    /// A load attempt finished: success resolves the entry points; any
    /// failure faults the runner.
    pub fn loaded(&mut self, ok: bool)
        ensures
            ok ==> *final(self) == (NativeLifecycle { loaded: true, ..*old(self) }),
            !ok ==> *final(self) == (NativeLifecycle { faulted: true, ..*old(self) }),
    {
        if ok {
            self.loaded = true;
        } else {
            self.faulted = true;
        }
    }

    /// Whether `create_instance` may be called now; why not otherwise.
    pub fn may_start(&self) -> (r: Result<(), String>)
        ensures
            self.faulted ==> (r matches Err(m) && m@ == "runner is in faulted state"@),
            !self.faulted && !self.loaded ==> (r matches Err(m) && m@ == "runner not loaded"@),
            !self.faulted && self.loaded ==> r is Ok,
    {
        if self.faulted {
            return Err("runner is in faulted state".to_string());
        }
        if !self.loaded {
            return Err("runner not loaded".to_string());
        }
        Ok(())
    }

    /// `create_instance` came back: a live instance, or a fault.
    pub fn started(&mut self, outcome: CallOutcome) -> (r: Result<(), String>)
        ensures
            outcome is Returned ==> r is Ok && *final(self) == (NativeLifecycle { running: true, ..*old(self) }),
            outcome is ReturnedNull ==> (r matches Err(m) && m@ == "create_instance returned null"@)
                && *final(self) == (NativeLifecycle { faulted: true, ..*old(self) }),
            outcome is Panicked ==> (r matches Err(m) && m@ == "panic in create_instance"@)
                && *final(self) == (NativeLifecycle { faulted: true, ..*old(self) }),
    {
        match outcome {
            CallOutcome::Returned => {
                self.running = true;
                Ok(())
            },
            CallOutcome::ReturnedNull => {
                self.faulted = true;
                Err("create_instance returned null".to_string())
            },
            CallOutcome::Panicked => {
                self.faulted = true;
                Err("panic in create_instance".to_string())
            },
        }
    }

    /// Whether `update_instance` may be called now; why not otherwise.
    pub fn may_update(&self) -> (r: Result<(), String>)
        ensures
            (self.faulted || !self.running) ==> (r matches Err(m) && m@ == "runner is faulted or not running"@),
            !self.faulted && self.running && !self.loaded ==> (r matches Err(m) && m@ == "runner not loaded"@),
            !self.faulted && self.running && self.loaded ==> r is Ok,
    {
        if self.faulted || !self.running {
            return Err("runner is faulted or not running".to_string());
        }
        if !self.loaded {
            return Err("runner not loaded".to_string());
        }
        Ok(())
    }

    /// `update_instance` came back: a panic faults the runner.
    pub fn updated(&mut self, panicked: bool) -> (r: Result<(), String>)
        ensures
            !panicked ==> r is Ok && *final(self) == *old(self),
            panicked ==> (r matches Err(m) && m@ == "panic in update_instance"@)
                && *final(self) == (NativeLifecycle { faulted: true, ..*old(self) }),
    {
        if panicked {
            self.faulted = true;
            Err("panic in update_instance".to_string())
        } else {
            Ok(())
        }
    }

    /// Whether stopping calls `destroy_instance`: only a live, unfaulted
    /// instance is destroyed.
    pub fn should_destroy(&self) -> (r: bool)
        ensures
            r == (self.running && !self.faulted),
    {
        self.running && !self.faulted
    }

    /// Stop: a live, unfaulted instance is released; otherwise nothing
    /// changes.
    pub fn stopped(&mut self)
        ensures
            old(self).running && !old(self).faulted ==> *final(self) == (NativeLifecycle { running: false, ..*old(self) }),
            !(old(self).running && !old(self).faulted) ==> *final(self) == *old(self),
    {
        if self.running && !self.faulted {
            self.running = false;
        }
    }

    /// Unload: stop, then drop the entry points.
    pub fn unloaded(&mut self)
        ensures
            final(self).loaded == false,
            final(self).faulted == old(self).faulted,
            final(self).running == (old(self).running && old(self).faulted),
    {
        self.stopped();
        self.loaded = false;
    }
}

} // verus!
