//! The configuration of the device and where it is stored.

use vstd::prelude::*;

verus! {

/// The settings of one camera.
#[derive(Debug)]
pub struct CameraSettings {
    /// The camera's name.
    pub id: String,
}

impl Clone for CameraSettings {
    fn clone(&self) -> (settings: Self)
        ensures
            settings == *self,
    {
        CameraSettings { id: self.id.clone() }
    }
}

/// The configuration of the device.
#[derive(Debug)]
pub struct Config {
    /// The cameras of the device.
    pub cameras: Vec<CameraSettings>,
    /// The address of the network tables server, where it is not the one of the team's robot.
    pub ntables_ip: Option<String>,
    /// The number of the team.
    pub team_number: u16,
}

/// The model of a [`Config`].
#[verifier::ext_equal]
pub struct ConfigView {
    pub cameras: Seq<Seq<char>>,
    pub ntables_ip: Option<Seq<char>>,
    pub team_number: u16,
}

impl View for Config {
    type V = ConfigView;

    open spec fn view(&self) -> ConfigView {
        ConfigView {
            cameras: camera_ids(self.cameras@),
            ntables_ip: match self.ntables_ip {
                Some(text) => Some(text@),
                None => None,
            },
            team_number: self.team_number,
        }
    }
}

/// The names of some cameras.
pub open spec fn camera_ids(cameras: Seq<CameraSettings>) -> Seq<Seq<char>> {
    Seq::new(cameras.len(), |i: int| cameras[i].id@)
}

/// The model of a configuration leaves nothing out: it has the name of each camera in its place,
/// the configured address, if any, and the team's number.
pub proof fn law_model_is_complete(config: Config)
    ensures
        config@.cameras.len() == config.cameras@.len(),
        forall|i: int|
            0 <= i < config.cameras@.len() ==> #[trigger] config@.cameras[i]
                == config.cameras@[i].id@,
        config@.ntables_ip is Some <==> config.ntables_ip is Some,
        config.ntables_ip matches Some(text) ==> config@.ntables_ip == Some(text@),
        config@.team_number == config.team_number,
{
}

impl Clone for Config {
    fn clone(&self) -> (config: Self)
        ensures
            config@ == self@,
            config.cameras@ == self.cameras@,
            config.ntables_ip == self.ntables_ip,
            config.team_number == self.team_number,
    {
        let mut cameras: Vec<CameraSettings> = Vec::new();
        let mut i: usize = 0;
        while i < self.cameras.len()
            invariant
                i <= self.cameras@.len(),
                cameras@ =~= self.cameras@.take(i as int),
            decreases self.cameras@.len() - i,
        {
            cameras.push(self.cameras[i].clone());
            i += 1;
        }
        let ntables_ip = match &self.ntables_ip {
            Some(text) => Some(text.clone()),
            None => None,
        };
        Config { cameras, ntables_ip, team_number: self.team_number }
    }
}

/// Where the configuration is read from: the boot partition, or else the system's configuration,
/// or else the working directory.
pub fn config_path(in_boot: bool, in_etc: bool) -> (path: &'static str)
    ensures
        path@ == if in_boot {
            "/boot/chalkydri.toml"@
        } else if in_etc {
            "/etc/chalkydri.toml"@
        } else {
            "./chalkydri.toml"@
        },
{
    if in_boot {
        "/boot/chalkydri.toml"
    } else if in_etc {
        "/etc/chalkydri.toml"
    } else {
        "./chalkydri.toml"
    }
}

} // verus!
