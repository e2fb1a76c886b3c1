//! The camera's configuration: its sections, what may stand in them, and how
//! the environment changes it.

use vstd::prelude::*;
use crate::camera::v4l2_capture::{rotated, rotated_dims};
use crate::text_map::{texts, TextMap};
use self::identity::{backfill_device_identity, identified};
use self::number::Real;
use self::overrides::{apply_env_overrides, overridden, reals_of};
use self::types::{default_settings, CameraConfig, Config, Settings};
use self::validation::{fault, is_verdict, ConfigError};

pub mod identity;
pub mod limits;
pub mod number;
pub mod overrides;
pub mod types;
pub mod validation;
pub mod variables;
pub mod views;

verus! {

impl CameraConfig {
    /// The resolution of the stream: that of the capture, turned.
    pub fn effective_dims(&self) -> (dims: (u32, u32))
        ensures
            dims == rotated(self.width, self.height, self.rotation),
    {
        rotated_dims(self.width, self.height, self.rotation)
    }
}

/// A configuration as it was read, with the environment applied and the
/// device's identity filled in.
pub open spec fn completed(
    c: Settings,
    env: Map<Seq<char>, Seq<char>>,
    reals: Map<Seq<char>, number::RealValue>,
    serial: Seq<char>,
) -> Settings {
    let o = overridden(c, env, reals);
    Settings { device: identified(o.device, serial), ..o }
}

impl Config {
    /// The default configuration.
    pub fn new() -> (c: Self)
        ensures
            c@ == default_settings(),
    {
        Config::default()
    }

    /// The ONVIF password.
    pub fn onvif_password(&self) -> (password: &str)
        ensures
            password@ == self.onvif.password@,
    {
        self.onvif.password.as_str()
    }

    /// Completes a configuration that was read from a file: the environment
    /// overrides it, the detected serial number and the documented identity
    /// fill what it leaves open, and what comes out is validated.
    pub fn complete(
        self,
        env: &TextMap<String>,
        reals: &TextMap<Real>,
        serial: &str,
    ) -> (r: Result<Config, ConfigError>)
        ensures
            r is Ok <==> fault(completed(self@, texts(env@), reals_of(reals@), serial@)) is None,
            r matches Ok(c) ==> c@ == completed(self@, texts(env@), reals_of(reals@), serial@),
            r matches Err(e) ==> is_verdict(
                Err(e),
                fault(completed(self@, texts(env@), reals_of(reals@), serial@)),
            ),
    {
        let mut config = self;
        apply_env_overrides(&mut config, env, reals);
        backfill_device_identity(&mut config.device, serial);
        match config.validate() {
            Ok(()) => Ok(config),
            Err(e) => Err(e),
        }
    }
}

/// Completing a configuration changes it by the environment, and then fills in
/// nothing but the device's identity.
pub proof fn completion_fills_in_the_identity(
    c: Settings,
    env: Map<Seq<char>, Seq<char>>,
    reals: Map<Seq<char>, number::RealValue>,
    serial: Seq<char>,
)
    ensures
        ({
            let o = overridden(c, env, reals);
            let d = completed(c, env, reals, serial);
            &&& (Settings { device: o.device, ..d }) == o
            &&& o.device.serial_number.len() == 0 ==> d.device.serial_number == serial
            &&& o.device.serial_number.len() > 0 ==> d.device.serial_number
                == o.device.serial_number
            &&& o.device.name != "ONVIF Device"@ ==> d.device.name == o.device.name
            &&& d.device.firmware == o.device.firmware
        }),
{
}

} // verus!
