//! Whether the daemon has a TUN device up, and which one.

use vstd::prelude::*;

verus! {

/// Setting up a device while one is up is refused.
#[derive(Debug, Clone, Copy, PartialEq, Eq, Structural)]
pub struct AlreadyEnabled;

impl AlreadyEnabled {
    pub fn message(&self) -> (m: &'static str)
        ensures
            m@ == "TUN is already enabled"@,
    {
        "TUN is already enabled"
    }
}

/// The TUN device the daemon holds, `D` being the device handle, with the
/// device's name. TUN is enabled exactly while a device is held.
#[derive(Debug)]
pub struct TunState<D> {
    device: Option<(D, String)>,
}

impl<D> TunState<D> {
    pub closed spec fn enabled_spec(&self) -> bool {
        self.device is Some
    }

    /// The name of the device held, if any.
    pub closed spec fn device_spec(&self) -> Option<Seq<char>> {
        match self.device {
            Some((_, n)) => Some(n@),
            None => None,
        }
    }

    pub fn new() -> (s: Self)
        ensures
            !s.enabled_spec(),
            s.device_spec() is None,
    {
        TunState { device: None }
    }

    /// Checks that a device may be set up: none is.
    pub fn check_setup(&self) -> (r: Result<(), AlreadyEnabled>)
        ensures
            r is Ok <==> !self.enabled_spec(),
    {
        if self.device.is_some() {
            Err(AlreadyEnabled)
        } else {
            Ok(())
        }
    }

    /// Holds the device just created under `name`.
    pub fn install(&mut self, device: D, name: String)
        requires
            !old(self).enabled_spec(),
        ensures
            final(self).enabled_spec(),
            final(self).device_spec() == Some(name@),
    {
        self.device = Some((device, name));
    }

    /// Lets go of the device, which the caller then destroys. Clearing a
    /// disabled state changes nothing.
    pub fn clear(&mut self) -> (r: Option<D>)
        ensures
            !final(self).enabled_spec(),
            final(self).device_spec() is None,
            r is Some <==> old(self).enabled_spec(),
    {
        match self.device.take() {
            Some((d, _)) => Some(d),
            None => None,
        }
    }

    pub fn is_enabled(&self) -> (r: bool)
        ensures
            r == self.enabled_spec(),
    {
        self.device.is_some()
    }

    /// The device's name while TUN is enabled.
    pub fn device_name(&self) -> (r: Option<&str>)
        ensures
            match r {
                Some(n) => self.enabled_spec() && self.device_spec() == Some(n@),
                None => !self.enabled_spec(),
            },
    {
        match &self.device {
            Some((_, n)) => Some(n.as_str()),
            None => None,
        }
    }
}

} // verus!
